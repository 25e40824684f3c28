//! Saving a word: normalising what the user typed, choosing the bank from the
//! detected language, and the messages that report the outcome.
use vstd::prelude::*;
use vstd::string::StringExecFns;

use crate::text::{trim, trim_spec};

verus! {

#[verifier::external_type_specification]
#[verifier::external_body]
pub struct ExLanguageDetector(lingua::LanguageDetector);

/// The languages the detector tells apart.
#[derive(PartialEq, Eq, Structural, Clone, Copy)]
pub enum WordLanguage {
    Spanish,
    English,
}

/// What `str::to_lowercase` returns for `text`: the Unicode lower-case
/// mapping of each character, with the final-sigma rule.
pub uninterp spec fn lowercase(text: Seq<char>) -> Seq<char>;

/// `str::to_lowercase`. Its result is named by [`lowercase`]; the Unicode
/// case tables that define it are not stated. The contract also claims what
/// the documentation gives of its length: each character is replaced by its
/// lower-case mapping, which is one or more characters, so the result is
/// empty exactly when the text is, and never shorter.
#[verifier::external_body]
fn to_lowercase(text: &str) -> (r: String)
    ensures
        r@ == lowercase(text@),
        text@.len() <= r@.len(),
        text@.len() == 0 ==> r@.len() == 0,
{
    text.to_lowercase()
}

/// Whether lingua may answer `answer` when asked about `text`. This records
/// which text an answer was given for and nothing more: it does not say what
/// the answer is, and two questions about one text may be answered
/// differently (the answer depends on the detector and on floating-point
/// arithmetic done at run time).
pub uninterp spec fn lingua_may_answer(text: Seq<char>, answer: Option<WordLanguage>) -> bool;

/// `LanguageDetector::detect_language_of` on `word`, with lingua's languages
/// mapped to [`WordLanguage`] (the detector is built for Spanish and English
/// only). The contract only records, through [`lingua_may_answer`], that the
/// answer is one given for `word`; which language comes out is not stated.
#[verifier::external_body]
fn detect_language(detector: &lingua::LanguageDetector, word: &str) -> (r: Option<WordLanguage>)
    ensures
        lingua_may_answer(word@, r),
{
    match detector.detect_language_of(word) {
        Some(lingua::Language::Spanish) => Some(WordLanguage::Spanish),
        Some(lingua::Language::English) => Some(WordLanguage::English),
        None => None,
    }
}

/// The form in which a typed word is saved: trimmed, then in lower case.
pub open spec fn normalized(raw: Seq<char>) -> Seq<char> {
    lowercase(trim_spec(raw))
}

/// The form in which a typed word is saved.
pub fn normalize_word(raw: &str) -> (r: String)
    ensures
        r@ == normalized(raw@),
        r@.len() == 0 <==> trim_spec(raw@).len() == 0,
{
    let trimmed = trim(raw);
    to_lowercase(trimmed.as_str())
}

/// `prefix`, the word in single quotes, then `suffix`.
pub open spec fn quoted(prefix: Seq<char>, word: Seq<char>, suffix: Seq<char>) -> Seq<char> {
    prefix + word + suffix
}

fn quote(prefix: &str, word: &str, suffix: &str) -> (r: String)
    ensures
        r@ == quoted(prefix@, word@, suffix@),
{
    let mut r = String::new();
    r.append(prefix);
    r.append(word);
    r.append(suffix);
    assert(r@ =~= quoted(prefix@, word@, suffix@));
    r
}

/// The bank a word goes to (`true` for Spanish) and the message that says
/// so: Spanish words go to the Spanish bank when the detector is confident,
/// and to the English bank otherwise; English words go to the English bank;
/// words whose language is unclear go to the Spanish bank.
pub open spec fn classification(word: Seq<char>, detected: Option<WordLanguage>, spanish_confident: bool) -> (bool, Seq<char>) {
    match detected {
        Some(WordLanguage::Spanish) => if spanish_confident {
            (true, quoted("Saved '"@, word, "' in Spanish bank!"@))
        } else {
            (false, quoted("Saved '"@, word, "' in English bank (low Spanish confidence)."@))
        },
        Some(WordLanguage::English) => (false, quoted("Saved '"@, word, "' in English bank!"@)),
        None => (true, quoted("Saved '"@, word, "' (language unclear, defaulting to Spanish bank)."@)),
    }
}

/// The bank and message for `word`, given what the detector answered and
/// whether its Spanish confidence, rounded to two decimals, exceeds one half.
pub fn classify_word(word: &str, detected: Option<WordLanguage>, spanish_confident: bool) -> (r: (bool, String))
    ensures
        (r.0, r.1@) == classification(word@, detected, spanish_confident),
{
    match detected {
        Some(WordLanguage::Spanish) => if spanish_confident {
            (true, quote("Saved '", word, "' in Spanish bank!"))
        } else {
            (false, quote("Saved '", word, "' in English bank (low Spanish confidence)."))
        },
        Some(WordLanguage::English) => (false, quote("Saved '", word, "' in English bank!")),
        None => (true, quote("Saved '", word, "' (language unclear, defaulting to Spanish bank).")),
    }
}

/// What to do with a normalised word.
pub enum SavePlan {
    /// Nothing was typed: go back to the dashboard.
    Skip,
    /// Save the word in the Spanish bank (`is_spanish`) or the English one,
    /// and report `message`.
    Save { is_spanish: bool, message: String },
}

/// What to do with the normalised `word`: nothing when it is empty, and
/// otherwise save it where [`classification`] puts it for the language the
/// detector finds for `word`; the detector is not asked about an empty word.
pub fn plan_save(detector: &lingua::LanguageDetector, word: &str, spanish_confident: bool) -> (r: SavePlan)
    ensures
        word@.len() == 0 <==> r is Skip,
        r matches SavePlan::Save { is_spanish, message } ==> exists|detected: Option<WordLanguage>|
            lingua_may_answer(word@, detected) && classification(word@, detected, spanish_confident)
                == (is_spanish, message@),
{
    if word.is_empty() {
        return SavePlan::Skip;
    }
    let detected = detect_language(detector, word);
    let (is_spanish, message) = classify_word(word, detected, spanish_confident);
    SavePlan::Save { is_spanish, message }
}

/// The code of the bank a word is stored under.
pub open spec fn bank_code_spec(is_spanish: bool) -> Seq<char> {
    if is_spanish {
        "es"@
    } else {
        "en"@
    }
}

/// The code of the bank a word is stored under: `es` or `en`.
pub fn bank_code(is_spanish: bool) -> (r: &'static str)
    ensures
        r@ == bank_code_spec(is_spanish),
{
    if is_spanish {
        "es"
    } else {
        "en"
    }
}

/// The message after trying to store `word`: the planned one when it was
/// stored, and otherwise that the word was counted already.
pub open spec fn outcome_message(word: Seq<char>, planned: Seq<char>, stored: bool) -> Seq<char> {
    if stored {
        planned
    } else {
        quoted("Uh oh! The word '"@, word, "' has already been counted!"@)
    }
}

/// The message after trying to store `word`.
pub fn save_outcome_message(word: &str, planned: String, stored: bool) -> (r: String)
    ensures
        r@ == outcome_message(word@, planned@, stored),
{
    if stored {
        planned
    } else {
        quote("Uh oh! The word '", word, "' has already been counted!")
    }
}

/// The next step in finding the definitions stored with a word.
#[allow(inconsistent_fields)]
pub enum DefinitionLookup {
    /// Ask the dictionary of the word's language (Spanish or English).
    FetchDefinition { is_spanish: bool },
    /// Translate the Spanish definition that was found into English.
    Translate { spanish: String },
    /// Store these definitions with the word.
    Store { spanish: Option<String>, english: Option<String> },
}

/// What a lookup step says, with its texts as character sequences.
#[allow(inconsistent_fields)]
pub enum DefinitionLookupView {
    FetchDefinition { is_spanish: bool },
    Translate { spanish: Seq<char> },
    Store { spanish: Option<Seq<char>>, english: Option<Seq<char>> },
}

/// The text held by an optional string.
pub open spec fn optional_text(o: Option<String>) -> Option<Seq<char>> {
    match o {
        Some(s) => Some(s@),
        None => None,
    }
}

impl View for DefinitionLookup {
    type V = DefinitionLookupView;

    open spec fn view(&self) -> DefinitionLookupView {
        match self {
            DefinitionLookup::FetchDefinition { is_spanish } => DefinitionLookupView::FetchDefinition {
                is_spanish: *is_spanish,
            },
            DefinitionLookup::Translate { spanish } => DefinitionLookupView::Translate {
                spanish: spanish@,
            },
            DefinitionLookup::Store { spanish, english } => DefinitionLookupView::Store {
                spanish: optional_text(*spanish),
                english: optional_text(*english),
            },
        }
    }
}

/// The definitions a finished lookup stores for a word: for a Spanish word,
/// the Spanish definition found (`found`) and its translation, or none of
/// them; for an English word, the English definition found.
pub open spec fn stored_definitions(is_spanish: bool, found: Option<Seq<char>>, translation: Seq<char>) -> (
    Option<Seq<char>>,
    Option<Seq<char>>,
) {
    if is_spanish {
        match found {
            Some(d) => (Some(d), Some(translation)),
            None => (None, None),
        }
    } else {
        (None, found)
    }
}

/// The first step: ask the dictionary of the word's bank.
pub fn start_lookup(is_spanish: bool) -> (r: DefinitionLookup)
    ensures
        r@ == (DefinitionLookupView::FetchDefinition { is_spanish }),
{
    DefinitionLookup::FetchDefinition { is_spanish }
}

/// The step after the dictionary answered with `found`: a Spanish definition
/// is translated next; without one a Spanish word is stored with no
/// definitions; an English word is stored with what was found as its English
/// definition.
pub fn after_definition(is_spanish: bool, found: Option<String>) -> (r: DefinitionLookup)
    ensures
        is_spanish && found is Some ==> r@ == (DefinitionLookupView::Translate {
            spanish: found->0@,
        }),
        is_spanish && found is None ==> r@ == (DefinitionLookupView::Store {
            spanish: None,
            english: None,
        }),
        !is_spanish ==> r@ == (DefinitionLookupView::Store {
            spanish: None,
            english: optional_text(found),
        }),
        forall|translation: Seq<char>|
            #![trigger stored_definitions(is_spanish, optional_text(found), translation)]
            r@ matches DefinitionLookupView::Store { spanish, english } ==> (spanish, english)
                == stored_definitions(is_spanish, optional_text(found), translation),
{
    if is_spanish {
        match found {
            Some(spanish) => DefinitionLookup::Translate { spanish },
            None => DefinitionLookup::Store { spanish: None, english: None },
        }
    } else {
        DefinitionLookup::Store { spanish: None, english: found }
    }
}

/// The step after the Spanish definition was translated: store both.
pub fn after_translation(spanish: String, english: String) -> (r: DefinitionLookup)
    ensures
        r@ == (DefinitionLookupView::Store { spanish: Some(spanish@), english: Some(english@) }),
        r@ matches DefinitionLookupView::Store { spanish: s, english: e } && (s, e)
            == stored_definitions(true, Some(spanish@), english@),
{
    DefinitionLookup::Store { spanish: Some(spanish), english: Some(english) }
}

/// A stored Spanish word has an English definition exactly when it has a
/// Spanish one, and a stored English word never has a Spanish definition.
pub proof fn law_stored_definitions_consistent(is_spanish: bool, found: Option<Seq<char>>, translation: Seq<char>)
    ensures
        is_spanish ==> (stored_definitions(is_spanish, found, translation).0 is Some
            <==> stored_definitions(is_spanish, found, translation).1 is Some),
        !is_spanish ==> stored_definitions(is_spanish, found, translation).0 is None,
{
}

/// A word is stored under `es` or `en`, and never under anything else.
pub proof fn law_bank_code_is_es_or_en(is_spanish: bool)
    ensures
        bank_code_spec(is_spanish) == "es"@ || bank_code_spec(is_spanish) == "en"@,
{
}

/// A word whose language the detector cannot tell goes to the Spanish bank.
pub proof fn law_unclear_words_default_to_spanish(word: Seq<char>, spanish_confident: bool)
    ensures
        classification(word, None, spanish_confident).0,
{
}

/// A word goes to the Spanish bank only when it was detected as Spanish with
/// confidence, or its language was unclear.
pub proof fn law_spanish_bank_needs_spanish_or_unclear(
    word: Seq<char>,
    detected: Option<WordLanguage>,
    spanish_confident: bool,
)
    requires
        classification(word, detected, spanish_confident).0,
    ensures
        detected == Some(WordLanguage::Spanish) && spanish_confident || detected is None,
{
}

/// Every message about a saved word names the word, right after the opening
/// `Saved '`.
pub proof fn law_message_names_word(word: Seq<char>, detected: Option<WordLanguage>, spanish_confident: bool)
    ensures
        classification(word, detected, spanish_confident).1.subrange(7, 7 + word.len() as int)
            == word,
        classification(word, detected, spanish_confident).1.take(7) == "Saved '"@,
{
    reveal_strlit("Saved '");
    let m = classification(word, detected, spanish_confident).1;
    assert(m.subrange(7, 7 + word.len() as int) =~= word);
    assert(m.take(7) =~= "Saved '"@);
}

} // verus!
