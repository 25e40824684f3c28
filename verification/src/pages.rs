//! The pages the server answers with: the welcome page, the replies to
//! registration and sign-in, and the dashboard with its word list.
use vstd::prelude::*;
use vstd::string::StringExecFns;

use crate::text::{decimal_int, format_i64, same_text};

verus! {

/// An answer to a request: a page, a redirection, or a failure status with
/// a plain-text body.
pub enum Page {
    Html(String),
    Redirect(String),
    Failure(u16, String),
}

/// What a [`Page`] says, with its texts as character sequences.
pub enum PageView {
    Html(Seq<char>),
    Redirect(Seq<char>),
    Failure(u16, Seq<char>),
}

impl View for Page {
    type V = PageView;

    open spec fn view(&self) -> PageView {
        match self {
            Page::Html(s) => PageView::Html(s@),
            Page::Redirect(s) => PageView::Redirect(s@),
            Page::Failure(code, s) => PageView::Failure(*code, s@),
        }
    }
}

/// The sign-in and registration page.
pub open spec fn welcome_html() -> Seq<char> {
    WELCOME_HTML@
}

/// The entry page: visitors with a session go to their dashboard, the others
/// get the sign-in and registration page.
pub fn welcome_page(signed_in: bool) -> (r: Page)
    ensures
        signed_in ==> r@ == PageView::Redirect("/app"@),
        !signed_in ==> r@ == PageView::Html(welcome_html()),
{
    if signed_in {
        Page::Redirect("/app".to_owned())
    } else {
        Page::Html(WELCOME_HTML.to_owned())
    }
}

/// The answer to a request that needs a session and came without one.
pub fn sign_in_required_page() -> (r: Page)
    ensures
        r@ == PageView::Redirect("/"@),
{
    Page::Redirect("/".to_owned())
}

/// The answer that sends a signed-in user back to the dashboard.
pub fn back_to_dashboard_page() -> (r: Page)
    ensures
        r@ == PageView::Redirect("/app"@),
{
    Page::Redirect("/app".to_owned())
}

/// The answer when the password could not be hashed.
pub fn hash_failure_page() -> (r: Page)
    ensures
        r@ == PageView::Failure(500, "Failed to hash password"@),
{
    Page::Failure(500, "Failed to hash password".to_owned())
}

/// The answer to a registration: a success notice when the account was
/// stored, and otherwise a notice that the name is taken.
pub fn registration_page(stored: bool) -> (r: Page)
    ensures
        stored ==> r@ == PageView::Html(REGISTERED_HTML@),
        !stored ==> r@ == PageView::Html(NAME_TAKEN_HTML@),
{
    if stored {
        Page::Html(REGISTERED_HTML.to_owned())
    } else {
        Page::Html(NAME_TAKEN_HTML.to_owned())
    }
}

/// The answer to a sign-in: the dashboard when the credentials were
/// accepted, and otherwise a notice that they are invalid.
pub fn sign_in_page(accepted: bool) -> (r: Page)
    ensures
        accepted ==> r@ == PageView::Redirect("/app"@),
        !accepted ==> r@ == PageView::Html(BAD_CREDENTIALS_HTML@),
{
    if accepted {
        Page::Redirect("/app".to_owned())
    } else {
        Page::Html(BAD_CREDENTIALS_HTML.to_owned())
    }
}

/// The bank a dashboard shows: English when the `bank` parameter is `en`,
/// Spanish otherwise.
pub open spec fn bank_spec(param: Option<Seq<char>>) -> Seq<char> {
    if param == Some("en"@) {
        "en"@
    } else {
        "es"@
    }
}

/// The bank a dashboard shows for its `bank` parameter.
pub fn active_bank(param: Option<&str>) -> (r: &'static str)
    ensures
        r@ == bank_spec(
            match param {
                Some(p) => Some(p@),
                None => None,
            },
        ),
{
    match param {
        Some(p) => if same_text(p, "en") {
            "en"
        } else {
            "es"
        },
        None => "es",
    }
}

/// The style of the Spanish tab; it stands out unless English is shown.
pub open spec fn spanish_tab_style(english_shown: bool) -> Seq<char> {
    if english_shown {
        DIM_TAB@
    } else {
        SPANISH_TAB@
    }
}

/// The style of the English tab; it stands out when English is shown.
pub open spec fn english_tab_style(english_shown: bool) -> Seq<char> {
    if english_shown {
        ENGLISH_TAB@
    } else {
        DIM_TAB@
    }
}

/// The name of the bank shown.
pub open spec fn bank_label(english_shown: bool) -> Seq<char> {
    if english_shown {
        "English"@
    } else {
        "Spanish"@
    }
}

/// The dashboard: the user's message, the size of both banks, tabs that
/// mark the bank shown, and the list of its words.
pub open spec fn dashboard_spec(
    count_es: int,
    count_en: int,
    words_html: Seq<char>,
    user_message: Seq<char>,
    active_bank: Seq<char>,
) -> Seq<char> {
    let en = active_bank == "en"@;
    DASHBOARD_0@ + user_message + DASHBOARD_1@ + decimal_int(count_es) + DASHBOARD_2@
        + decimal_int(count_en) + DASHBOARD_3@ + spanish_tab_style(en) + DASHBOARD_4@
        + english_tab_style(en) + DASHBOARD_5@ + bank_label(en) + DASHBOARD_6@ + words_html
        + DASHBOARD_7@
}

/// The dashboard page, as [`dashboard_spec`] lays it out.
pub fn build_dashboard_html(
    count_es: i64,
    count_en: i64,
    words_html: &str,
    user_message: &str,
    active_bank: &str,
) -> (r: String)
    ensures
        r@ == dashboard_spec(count_es as int, count_en as int, words_html@, user_message@, active_bank@),
{
    let en = same_text(active_bank, "en");
    let (es_style, en_style) = if en {
        (DIM_TAB, ENGLISH_TAB)
    } else {
        (SPANISH_TAB, DIM_TAB)
    };
    let label = if en {
        "English"
    } else {
        "Spanish"
    };
    let es = format_i64(count_es);
    let en_count = format_i64(count_en);
    let mut r = String::new();
    r.append(DASHBOARD_0);
    r.append(user_message);
    r.append(DASHBOARD_1);
    r.append(es.as_str());
    r.append(DASHBOARD_2);
    r.append(en_count.as_str());
    r.append(DASHBOARD_3);
    r.append(es_style);
    r.append(DASHBOARD_4);
    r.append(en_style);
    r.append(DASHBOARD_5);
    r.append(label);
    r.append(DASHBOARD_6);
    r.append(words_html);
    r.append(DASHBOARD_7);
    assert(r@ =~= dashboard_spec(
        count_es as int,
        count_en as int,
        words_html@,
        user_message@,
        active_bank@,
    ));
    r
}

/// The dashboard opens with the user's message between the page head and
/// the bank counts, for every bank shown.
pub proof fn law_dashboard_shows_message(
    count_es: int,
    count_en: int,
    words_html: Seq<char>,
    user_message: Seq<char>,
    active_bank: Seq<char>,
)
    ensures
        dashboard_spec(count_es, count_en, words_html, user_message, active_bank).take(
            (DASHBOARD_0@.len() + user_message.len() + DASHBOARD_1@.len()) as int,
        ) == DASHBOARD_0@ + user_message + DASHBOARD_1@,
{
    let page = dashboard_spec(count_es, count_en, words_html, user_message, active_bank);
    let head = DASHBOARD_0@ + user_message + DASHBOARD_1@;
    let en = active_bank == "en"@;
    let tail = decimal_int(count_es) + DASHBOARD_2@ + decimal_int(count_en) + DASHBOARD_3@
        + spanish_tab_style(en) + DASHBOARD_4@ + english_tab_style(en) + DASHBOARD_5@
        + bank_label(en) + DASHBOARD_6@ + words_html + DASHBOARD_7@;
    assert(page =~= head + tail);
    assert((head + tail).take(head.len() as int) =~= head);
}

/// Right after the message come the Spanish count, then the English count,
/// in decimal, for every bank shown.
pub proof fn law_dashboard_shows_counts(
    count_es: int,
    count_en: int,
    words_html: Seq<char>,
    user_message: Seq<char>,
    active_bank: Seq<char>,
)
    ensures
        ({
            let start = DASHBOARD_0@.len() + user_message.len() + DASHBOARD_1@.len();
            let counts = decimal_int(count_es) + DASHBOARD_2@ + decimal_int(count_en)
                + DASHBOARD_3@;
            dashboard_spec(count_es, count_en, words_html, user_message, active_bank).subrange(
                start as int,
                (start + counts.len()) as int,
            ) == counts
        }),
{
    let page = dashboard_spec(count_es, count_en, words_html, user_message, active_bank);
    let head = DASHBOARD_0@ + user_message + DASHBOARD_1@;
    let counts = decimal_int(count_es) + DASHBOARD_2@ + decimal_int(count_en) + DASHBOARD_3@;
    let en = active_bank == "en"@;
    let rest = spanish_tab_style(en) + DASHBOARD_4@ + english_tab_style(en) + DASHBOARD_5@
        + bank_label(en) + DASHBOARD_6@ + words_html + DASHBOARD_7@;
    assert(page =~= head + counts + rest);
    assert((head + counts + rest).subrange(head.len() as int, (head.len() + counts.len()) as int)
        =~= counts);
}

/// The dashboard closes with the word list and the page foot, for every bank
/// shown.
pub proof fn law_dashboard_ends_with_word_list(
    count_es: int,
    count_en: int,
    words_html: Seq<char>,
    user_message: Seq<char>,
    active_bank: Seq<char>,
)
    ensures
        ({
            let page = dashboard_spec(count_es, count_en, words_html, user_message, active_bank);
            let foot = words_html + DASHBOARD_7@;
            page.len() >= foot.len() && page.skip(page.len() - foot.len()) == foot
        }),
{
    let page = dashboard_spec(count_es, count_en, words_html, user_message, active_bank);
    let foot = words_html + DASHBOARD_7@;
    let en = active_bank == "en"@;
    let front = DASHBOARD_0@ + user_message + DASHBOARD_1@ + decimal_int(count_es) + DASHBOARD_2@
        + decimal_int(count_en) + DASHBOARD_3@ + spanish_tab_style(en) + DASHBOARD_4@
        + english_tab_style(en) + DASHBOARD_5@ + bank_label(en) + DASHBOARD_6@;
    assert(page =~= front + foot);
    assert((front + foot).skip(front.len() as int) =~= foot);
}

/// Any bank other than `en` shows the same page as the Spanish bank.
pub proof fn law_dashboard_other_banks_are_spanish(
    count_es: int,
    count_en: int,
    words_html: Seq<char>,
    user_message: Seq<char>,
    active_bank: Seq<char>,
)
    requires
        active_bank != "en"@,
    ensures
        dashboard_spec(count_es, count_en, words_html, user_message, active_bank)
            == dashboard_spec(count_es, count_en, words_html, user_message, "es"@),
{
    reveal_strlit("en");
    reveal_strlit("es");
    assert("es"@ != "en"@) by {
        assert("es"@[1] != "en"@[1]);
    }
}

/// A saved word as the dashboard lists it.
pub struct WordRecord {
    pub word: String,
    pub word_language: String,
    pub spanish_definition: Option<String>,
    pub english_definition: Option<String>,
}

/// The definition listed beside a word: the English one for English words,
/// the Spanish one for the others, or a notice when it is missing.
pub open spec fn shown_definition(record: WordRecord) -> Seq<char> {
    let def = if record.word_language@ == "en"@ {
        record.english_definition
    } else {
        record.spanish_definition
    };
    match def {
        Some(d) => d@,
        None => NO_DEFINITION@,
    }
}

/// One entry of the word list.
pub open spec fn word_item(record: WordRecord) -> Seq<char> {
    WORD_ITEM_0@ + record.word@ + WORD_ITEM_1@ + shown_definition(record) + WORD_ITEM_2@
}

/// The entries for `records`, in order.
pub open spec fn word_items(records: Seq<WordRecord>) -> Seq<char>
    decreases records.len(),
{
    if records.len() == 0 {
        Seq::empty()
    } else {
        word_item(records[0]) + word_items(records.drop_first())
    }
}

/// The word list: a notice when the bank is empty, and the entries otherwise.
pub open spec fn word_list_spec(records: Seq<WordRecord>) -> Seq<char> {
    if records.len() == 0 {
        EMPTY_BANK@
    } else {
        word_items(records)
    }
}

/// Listing splits over concatenation: the entries for two runs of records
/// are the entries of the first followed by those of the second.
pub proof fn law_word_items_concat(a: Seq<WordRecord>, b: Seq<WordRecord>)
    ensures
        word_items(a + b) == word_items(a) + word_items(b),
    decreases a.len(),
{
    if a.len() == 0 {
        assert(a + b =~= b);
        assert(Seq::<char>::empty() + word_items(b) =~= word_items(b));
    } else {
        assert((a + b).drop_first() =~= a.drop_first() + b);
        assert((a + b)[0] == a[0]);
        law_word_items_concat(a.drop_first(), b);
        assert(word_item(a[0]) + (word_items(a.drop_first()) + word_items(b)) =~= (word_item(a[0])
            + word_items(a.drop_first())) + word_items(b));
    }
}

/// One record is listed as exactly its own entry.
pub proof fn law_word_items_single(record: WordRecord)
    ensures
        word_items(seq![record]) == word_item(record),
{
    let one = seq![record];
    assert(one.drop_first() =~= Seq::<WordRecord>::empty());
    assert(one[0] == record);
    assert(word_items(one.drop_first()) == Seq::<char>::empty());
    assert(word_item(record) + Seq::<char>::empty() =~= word_item(record));
}

/// The list of a non-empty bank holds one entry for every record, in order:
/// adding a record at the end adds its entry at the end, however many records
/// there are.
pub proof fn law_word_list_lists_every_record(records: Seq<WordRecord>, last: WordRecord)
    ensures
        word_list_spec(records.push(last)) == (if records.len() == 0 {
            word_item(last)
        } else {
            word_list_spec(records) + word_item(last)
        }),
        records.len() > 0 ==> word_list_spec(records) == word_items(records),
        records.len() == 0 ==> word_list_spec(records) == EMPTY_BANK@,
{
    law_word_items_concat(records, seq![last]);
    law_word_items_single(last);
    assert(records.push(last) =~= records + seq![last]);
    if records.len() == 0 {
        assert(records + seq![last] =~= seq![last]);
    }
}

/// The entry of a record names its word and shows the definition for the
/// word's language: the English one for `en` words and the Spanish one for
/// the others, or the notice when it is missing.
pub proof fn law_word_item_shows_word_and_definition(record: WordRecord)
    ensures
        word_item(record) == WORD_ITEM_0@ + record.word@ + WORD_ITEM_1@ + shown_definition(record)
            + WORD_ITEM_2@,
        record.word_language@ == "en"@ ==> shown_definition(record) == match record.english_definition {
            Some(d) => d@,
            None => NO_DEFINITION@,
        },
        record.word_language@ != "en"@ ==> shown_definition(record) == match record.spanish_definition {
            Some(d) => d@,
            None => NO_DEFINITION@,
        },
{
}

fn word_item_html(record: &WordRecord) -> (r: String)
    ensures
        r@ == word_item(*record),
{
    let def: &str = if same_text(record.word_language.as_str(), "en") {
        match &record.english_definition {
            Some(d) => d.as_str(),
            None => NO_DEFINITION,
        }
    } else {
        match &record.spanish_definition {
            Some(d) => d.as_str(),
            None => NO_DEFINITION,
        }
    };
    let mut r = String::new();
    r.append(WORD_ITEM_0);
    r.append(record.word.as_str());
    r.append(WORD_ITEM_1);
    r.append(def);
    r.append(WORD_ITEM_2);
    assert(r@ =~= word_item(*record));
    r
}

/// The word list of a bank, as [`word_list_spec`] lays it out.
pub fn word_list_html(records: &Vec<WordRecord>) -> (r: String)
    ensures
        r@ == word_list_spec(records@),
{
    if records.len() == 0 {
        return EMPTY_BANK.to_owned();
    }
    let mut out = String::new();
    let mut i: usize = 0;
    proof {
        assert(records@.skip(0) =~= records@);
    }
    while i < records.len()
        invariant
            i <= records@.len(),
            out@ + word_items(records@.skip(i as int)) == word_items(records@),
        decreases records@.len() - i,
    {
        let ghost before = out@;
        proof {
            assert(records@.skip(i as int).drop_first() =~= records@.skip(i + 1));
            assert(records@.skip(i as int)[0] == records@[i as int]);
        }
        let item = word_item_html(&records[i]);
        out.append(item.as_str());
        proof {
            assert(before + (word_item(records@[i as int]) + word_items(records@.skip(i + 1)))
                =~= out@ + word_items(records@.skip(i + 1)));
        }
        i = i + 1;
    }
    proof {
        assert(records@.skip(i as int) =~= Seq::<WordRecord>::empty());
        assert(out@ + Seq::<char>::empty() =~= out@);
    }
    out
}
/// The dashboard page for a bank whose words are `records`.
pub fn dashboard_page(
    count_es: i64,
    count_en: i64,
    records: &Vec<WordRecord>,
    user_message: &str,
    active_bank: &str,
) -> (r: Page)
    ensures
        r@ == PageView::Html(
            dashboard_spec(
                count_es as int,
                count_en as int,
                word_list_spec(records@),
                user_message@,
                active_bank@,
            ),
        ),
{
    let words_html = word_list_html(records);
    Page::Html(build_dashboard_html(count_es, count_en, words_html.as_str(), user_message, active_bank))
}

pub const WELCOME_HTML: &'static str = "<!DOCTYPE html>\n<html lang=\"en\">\n  <head>\n    <meta charset=\"utf-8\">\n    <title>Word Count - Login</title>\n    <link rel=\"stylesheet\" href=\"style.css\">\n    <style> body {background-color:#f5f5f5; margin:0; padding: 2rem;} .form-box {background: white; padding: 2rem; border-radius: 8px; max-width: 400px; margin: 1rem auto; box-shadow: 0 4px 6px rgba(0,0,0,0.1);} </style>\n  </head>\n  <body>\n    <h1 style=\"text-align:center;\">Welcome to Word Count</h1>\n    <p style=\"text-align:center;\">Track how many words you know in a foreign language.</p>\n    \n    <div class=\"form-box\">\n      <h2>Login</h2>\n      <form action=\"/login\" method=\"post\">\n        <label>Username:</label><br>\n        <input type=\"text\" name=\"username\" required><br><br>\n        <label>Password:</label><br>\n        <input type=\"password\" name=\"password\" required><br><br>\n        <button type=\"submit\">Login</button>\n      </form>\n    </div>\n\n    <div class=\"form-box\">\n      <h2>Register</h2>\n      <form action=\"/register\" method=\"post\">\n        <label>Username:</label><br>\n        <input type=\"text\" name=\"username\" required><br><br>\n        <label>Password:</label><br>\n        <input type=\"password\" name=\"password\" required><br><br>\n        <button type=\"submit\">Register</button>\n      </form>\n    </div>\n  </body>\n</html>";

pub const REGISTERED_HTML: &'static str = "<h2>Registration successful! <a href=\"/\">Go to Login</a></h2>";

pub const NAME_TAKEN_HTML: &'static str = "<h2>Username already exists! <a href=\"/\">Go back</a></h2>";

pub const BAD_CREDENTIALS_HTML: &'static str = "<h2>Invalid credentials! <a href=\"/\">Go back</a></h2>";

pub const DASHBOARD_0: &'static str = "<!DOCTYPE html>\n<html lang=\"en\">\n  <head>\n    <meta charset=\"utf-8\">\n    <title>Word Count App</title>\n    <link rel=\"stylesheet\" href=\"style.css\">\n    <style> \n      body {background-color:#f5f5f5; margin:0; padding:10px; font-family: sans-serif;} \n      .container { display: flex; gap: 20px; flex-wrap: wrap; margin-top: 20px; }\n      .box { background: white; padding: 20px; border-radius: 8px; box-shadow: 0 2px 4px rgba(0,0,0,0.1); flex: 1; min-width: 200px; }\n      .word-list { margin-top: 20px; background: white; padding: 20px; border-radius: 8px; box-shadow: 0 2px 4px rgba(0,0,0,0.1); }\n      .word-item { display: flex; border-bottom: 1px solid #eee; padding: 10px 0; align-items: flex-start; }\n      .word-word { font-weight: bold; min-width: 130px; flex-shrink: 0; }\n      .word-def { color: #555; }\n      .tabs { display:flex; gap: 4px; margin-bottom: 16px; }\n      .tab { padding: 8px 20px; cursor:pointer; border: 1px solid #ccc; border-radius: 6px 6px 0 0; text-decoration:none; transition: all 0.15s; }\n    </style>\n  </head>\n  <body>\n    <div style=\"display:flex; justify-content: space-between; align-items: center;\">\n      <h1 style=\"font-weight:bold;\">Word Count!</h1>\n      <form action=\"/logout\" method=\"post\" style=\"margin:0;\">\n          <button type=\"submit\">Logout</button>\n      </form>\n    </div>\n    <p>Track how many words you know in a foreign language</p>\n    <h2>Motivation: \"~2000 words + rules = fluency\"</h2>\n    \n    <div style=\"background: white; padding: 20px; border-radius: 8px; display:inline-block;\">\n      <form action=\"/save\" method=\"post\">\n        <label style=\"font-size:24px;\">Enter word:</label><br>\n        <input style=\"font-size:24px; margin: 10px 0;\" type=\"text\" name=\"newword\" required autofocus><br>\n        <button style=\"font-size:24px;\" type=\"submit\">Save</button>\n      </form>\n    </div>\n\n    <h2 style=\"color: #d32f2f;\">";

pub const DASHBOARD_1: &'static str = "</h2>\n\n    <div class=\"container\">\n        <div class=\"box\"><h3 style=\"margin-top:0;\">Spanish Bank</h3><div style=\"font-size: 48px; font-weight: bold; color: #4CAF50;\">";

pub const DASHBOARD_2: &'static str = "</div></div>\n        <div class=\"box\"><h3 style=\"margin-top:0;\">English Bank</h3><div style=\"font-size: 48px; font-weight: bold; color: #2196F3;\">";

pub const DASHBOARD_3: &'static str = "</div></div>\n        <div class=\"box\">\n            <h3 style=\"margin-top:0;\">Danger Zone</h3>\n            <form action=\"/clear\" method=\"post\">\n                <button type=\"submit\" style=\"background:#f44336; color:white; border:none; padding:10px 20px; font-size:16px; border-radius: 4px; cursor: pointer;\">Clear My Word Count</button>\n            </form>\n        </div>\n    </div>\n\n    <div class=\"word-list\">\n        <div class=\"tabs\">\n            <a href=\"/app?bank=es\" class=\"tab\" style=\"";

pub const DASHBOARD_4: &'static str = "\">Spanish Bank</a>\n            <a href=\"/app?bank=en\" class=\"tab\" style=\"";

pub const DASHBOARD_5: &'static str = "\">English Bank</a>\n        </div>\n        <h3 style=\"margin-top:0;\">Your ";

pub const DASHBOARD_6: &'static str = " Words</h3>\n        ";

pub const DASHBOARD_7: &'static str = "\n    </div>\n  </body>\n</html>";

pub const WORD_ITEM_0: &'static str = "<div class=\"word-item\">\n                    <div class=\"word-word\">";

pub const WORD_ITEM_1: &'static str = "</div>\n                    <div class=\"word-def\">";

pub const WORD_ITEM_2: &'static str = "</div>\n                   </div>";

pub const SPANISH_TAB: &'static str = "background:white; border-bottom:2px solid #4CAF50; font-weight:bold; color:#4CAF50;";

pub const ENGLISH_TAB: &'static str = "background:white; border-bottom:2px solid #2196F3; font-weight:bold; color:#2196F3;";

pub const DIM_TAB: &'static str = "background:#eee; color:#555;";

pub const NO_DEFINITION: &'static str = "No definition found.";

pub const EMPTY_BANK: &'static str = "<p>No words in this bank yet! Add some words above.</p>";

} // verus!
