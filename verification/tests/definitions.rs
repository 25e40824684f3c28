use wordcount::definitions::{
    definition_from_reply, definition_url, english_definition, longer_than_five_bytes,
    spanish_definition, starts_with_paren,
};
use wordcount::json::Json;

fn s(t: &str) -> Json {
    Json::Str(t.to_string())
}

fn obj(members: Vec<(&str, Json)>) -> Json {
    Json::Object(members.into_iter().map(|(k, v)| (k.to_string(), v)).collect())
}

fn def(text: &str) -> Json {
    obj(vec![("definition", s(text))])
}

fn part(defs: Vec<Json>) -> Json {
    obj(vec![("partOfSpeech", s("Noun")), ("definitions", Json::Array(defs))])
}

#[test]
fn spanish_picks_first_usable_cleaned_definition() {
    let reply = obj(vec![(
        "es",
        Json::Array(vec![part(vec![
            def("<i>(zoology)</i> feline"),
            def("cat"),
            def("  <a href=\"x\">cat</a>, a small &amp; furry animal  "),
            def("later one"),
        ])]),
    )]);
    assert_eq!(spanish_definition(&reply), Some("cat, a small & furry animal".to_string()));
}

#[test]
fn spanish_falls_back_to_en_section() {
    let reply = obj(vec![
        ("es", Json::Array(vec![part(vec![def("short")])])),
        ("en", Json::Array(vec![part(vec![def("a domestic cat")])])),
    ]);
    assert_eq!(spanish_definition(&reply), Some("a domestic cat".to_string()));
}

#[test]
fn spanish_skips_malformed_entries() {
    let reply = obj(vec![(
        "es",
        Json::Array(vec![
            s("not a part"),
            obj(vec![("definitions", s("not a list"))]),
            part(vec![Json::Null, obj(vec![("definition", Json::Number)]), def("good definition")]),
        ]),
    )]);
    assert_eq!(spanish_definition(&reply), Some("good definition".to_string()));
}

#[test]
fn spanish_none_when_nothing_usable() {
    let reply = obj(vec![("es", Json::Array(vec![part(vec![def("(x) long enough but paren")])]))]);
    assert_eq!(spanish_definition(&reply), None);
    assert_eq!(spanish_definition(&Json::Array(vec![])), None);
}

#[test]
fn byte_length_counts_utf8_bytes() {
    assert!(!longer_than_five_bytes("abcde"));
    assert!(longer_than_five_bytes("abcdef"));
    // three characters of two bytes each
    assert!(longer_than_five_bytes("ñññ"));
    assert!(!longer_than_five_bytes("ññ"));
    assert!(starts_with_paren("(a)"));
    assert!(!starts_with_paren("a(b)"));
}

fn meaning(defs: Vec<Json>) -> Json {
    obj(vec![("definitions", Json::Array(defs))])
}

#[test]
fn english_takes_first_definition_of_each_meaning() {
    let reply = Json::Array(vec![obj(vec![
        ("word", s("cat")),
        (
            "meanings",
            Json::Array(vec![
                meaning(vec![def(" tiny "), def("a much longer second definition")]),
                meaning(vec![def("  A small domesticated carnivore.  ")]),
            ]),
        ),
    ])]);
    assert_eq!(english_definition(&reply), Some("A small domesticated carnivore.".to_string()));
}

#[test]
fn english_needs_an_array_reply() {
    let reply = obj(vec![("title", s("No Definitions Found"))]);
    assert_eq!(english_definition(&reply), None);
    assert_eq!(definition_from_reply(&reply, false), None);
}

#[test]
fn english_allows_parenthesised_definitions() {
    let reply = Json::Array(vec![obj(vec![("meanings", Json::Array(vec![meaning(vec![def("(informal) a person")])]))])]);
    assert_eq!(definition_from_reply(&reply, false), Some("(informal) a person".to_string()));
}

#[test]
fn definition_urls() {
    assert_eq!(definition_url("gato", true), "https://en.wiktionary.org/api/rest_v1/page/definition/gato");
    assert_eq!(definition_url("cat", false), "https://api.dictionaryapi.dev/api/v2/entries/en/cat");
}
