use wordcount::pages::{
    active_bank, build_dashboard_html, dashboard_page, registration_page, sign_in_page, welcome_page,
    word_list_html, Page, WordRecord, WELCOME_HTML,
};

fn reference_dashboard(count_es: i64, count_en: i64, words_html: &str, user_message: &str, active_bank: &str) -> String {
    let (es_style, en_style) = if active_bank == "en" {
        ("background:#eee; color:#555;", "background:white; border-bottom:2px solid #2196F3; font-weight:bold; color:#2196F3;")
    } else {
        ("background:white; border-bottom:2px solid #4CAF50; font-weight:bold; color:#4CAF50;", "background:#eee; color:#555;")
    };
    let bank_label = if active_bank == "en" { "English" } else { "Spanish" };
    format!(
        r#"<!DOCTYPE html>
<html lang="en">
  <head>
    <meta charset="utf-8">
    <title>Word Count App</title>
    <link rel="stylesheet" href="style.css">
    <style> 
      body {{background-color:#f5f5f5; margin:0; padding:10px; font-family: sans-serif;}} 
      .container {{ display: flex; gap: 20px; flex-wrap: wrap; margin-top: 20px; }}
      .box {{ background: white; padding: 20px; border-radius: 8px; box-shadow: 0 2px 4px rgba(0,0,0,0.1); flex: 1; min-width: 200px; }}
      .word-list {{ margin-top: 20px; background: white; padding: 20px; border-radius: 8px; box-shadow: 0 2px 4px rgba(0,0,0,0.1); }}
      .word-item {{ display: flex; border-bottom: 1px solid #eee; padding: 10px 0; align-items: flex-start; }}
      .word-word {{ font-weight: bold; min-width: 130px; flex-shrink: 0; }}
      .word-def {{ color: #555; }}
      .tabs {{ display:flex; gap: 4px; margin-bottom: 16px; }}
      .tab {{ padding: 8px 20px; cursor:pointer; border: 1px solid #ccc; border-radius: 6px 6px 0 0; text-decoration:none; transition: all 0.15s; }}
    </style>
  </head>
  <body>
    <div style="display:flex; justify-content: space-between; align-items: center;">
      <h1 style="font-weight:bold;">Word Count!</h1>
      <form action="/logout" method="post" style="margin:0;">
          <button type="submit">Logout</button>
      </form>
    </div>
    <p>Track how many words you know in a foreign language</p>
    <h2>Motivation: "~2000 words + rules = fluency"</h2>
    
    <div style="background: white; padding: 20px; border-radius: 8px; display:inline-block;">
      <form action="/save" method="post">
        <label style="font-size:24px;">Enter word:</label><br>
        <input style="font-size:24px; margin: 10px 0;" type="text" name="newword" required autofocus><br>
        <button style="font-size:24px;" type="submit">Save</button>
      </form>
    </div>

    <h2 style="color: #d32f2f;">{}</h2>

    <div class="container">
        <div class="box"><h3 style="margin-top:0;">Spanish Bank</h3><div style="font-size: 48px; font-weight: bold; color: #4CAF50;">{}</div></div>
        <div class="box"><h3 style="margin-top:0;">English Bank</h3><div style="font-size: 48px; font-weight: bold; color: #2196F3;">{}</div></div>
        <div class="box">
            <h3 style="margin-top:0;">Danger Zone</h3>
            <form action="/clear" method="post">
                <button type="submit" style="background:#f44336; color:white; border:none; padding:10px 20px; font-size:16px; border-radius: 4px; cursor: pointer;">Clear My Word Count</button>
            </form>
        </div>
    </div>

    <div class="word-list">
        <div class="tabs">
            <a href="/app?bank=es" class="tab" style="{}">Spanish Bank</a>
            <a href="/app?bank=en" class="tab" style="{}">English Bank</a>
        </div>
        <h3 style="margin-top:0;">Your {} Words</h3>
        {}
    </div>
  </body>
</html>"#,
        user_message, count_es, count_en, es_style, en_style, bank_label, words_html
    )
}

#[test]
fn build_dashboard_html_spanish_bank() {
    assert_eq!(
        build_dashboard_html(12, 3, "<p>list</p>", "Saved 'gato' in Spanish bank!", "es"),
        reference_dashboard(12, 3, "<p>list</p>", "Saved 'gato' in Spanish bank!", "es")
    );
}

#[test]
fn build_dashboard_html_english_bank() {
    assert_eq!(
        build_dashboard_html(0, 2048, "", "", "en"),
        reference_dashboard(0, 2048, "", "", "en")
    );
    let page = build_dashboard_html(0, 2048, "", "", "en");
    assert!(page.contains("<h3 style=\"margin-top:0;\">Your English Words</h3>"));
}

#[test]
fn build_dashboard_html_other_bank_is_spanish() {
    assert_eq!(
        build_dashboard_html(-1, 5, "x", "m", "fr"),
        reference_dashboard(-1, 5, "x", "m", "fr")
    );
}

fn record(word: &str, lang: &str, es: Option<&str>, en: Option<&str>) -> WordRecord {
    WordRecord {
        word: word.to_string(),
        word_language: lang.to_string(),
        spanish_definition: es.map(|s| s.to_string()),
        english_definition: en.map(|s| s.to_string()),
    }
}

fn reference_item(word: &str, def: &str) -> String {
    format!(
        r#"<div class="word-item">
                    <div class="word-word">{}</div>
                    <div class="word-def">{}</div>
                   </div>"#,
        word, def
    )
}

#[test]
fn word_list_empty_bank() {
    assert_eq!(word_list_html(&vec![]), "<p>No words in this bank yet! Add some words above.</p>");
}

#[test]
fn word_list_shows_definition_by_language() {
    let records = vec![
        record("gato", "es", Some("felino"), Some("cat")),
        record("dog", "en", Some("perro"), Some("a canine")),
        record("casa", "es", None, Some("house")),
        record("run", "en", Some("correr"), None),
    ];
    let expected = reference_item("gato", "felino")
        + &reference_item("dog", "a canine")
        + &reference_item("casa", "No definition found.")
        + &reference_item("run", "No definition found.");
    assert_eq!(word_list_html(&records), expected);
}

#[test]
fn dashboard_page_embeds_word_list() {
    let records = vec![record("gato", "es", Some("felino"), None)];
    match dashboard_page(1, 0, &records, "", "es") {
        Page::Html(h) => assert_eq!(h, reference_dashboard(1, 0, &reference_item("gato", "felino"), "", "es")),
        _ => panic!("expected a page"),
    }
}

#[test]
fn active_bank_defaults_to_spanish() {
    assert_eq!(active_bank(Some("en")), "en");
    assert_eq!(active_bank(Some("es")), "es");
    assert_eq!(active_bank(Some("EN")), "es");
    assert_eq!(active_bank(None), "es");
}

#[test]
fn welcome_and_replies() {
    assert!(matches!(welcome_page(true), Page::Redirect(ref t) if t == "/app"));
    assert!(matches!(welcome_page(false), Page::Html(ref h) if h == WELCOME_HTML));
    assert!(matches!(registration_page(true), Page::Html(ref h) if h.contains("Registration successful!")));
    assert!(matches!(registration_page(false), Page::Html(ref h) if h.contains("Username already exists!")));
    assert!(matches!(sign_in_page(true), Page::Redirect(ref t) if t == "/app"));
    assert!(matches!(sign_in_page(false), Page::Html(ref h) if h.contains("Invalid credentials!")));
}
