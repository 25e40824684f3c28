use wordcount::json::Json;
use wordcount::translate::{translation_from_reply, translation_url};

fn s(t: &str) -> Json {
    Json::Str(t.to_string())
}

#[test]
fn translation_url_percent_encodes() {
    assert_eq!(
        translation_url("un gato (pequeño)"),
        "https://translate.googleapis.com/translate_a/single?client=gtx&sl=es&tl=en&dt=t&q=un%20gato%20%28peque%C3%B1o%29"
    );
    assert_eq!(
        translation_url("a-b_c.d~e"),
        "https://translate.googleapis.com/translate_a/single?client=gtx&sl=es&tl=en&dt=t&q=a-b_c.d~e"
    );
}

#[test]
fn translation_joins_segments() {
    let reply = Json::Array(vec![
        Json::Array(vec![
            Json::Array(vec![s("A small cat. "), s("Un gato pequeño. ")]),
            Json::Array(vec![s("It purrs."), s("Ronronea.")]),
            Json::Array(vec![Json::Null]),
            s("odd"),
        ]),
        Json::Null,
        s("es"),
    ]);
    assert_eq!(translation_from_reply(Some(&reply), "Un gato"), "A small cat. It purrs.");
}

#[test]
fn translation_falls_back_to_input() {
    assert_eq!(translation_from_reply(None, "hola"), "hola");
    let empty = Json::Array(vec![Json::Array(vec![])]);
    assert_eq!(translation_from_reply(Some(&empty), "hola"), "hola");
    let wrong = Json::Object(vec![]);
    assert_eq!(translation_from_reply(Some(&wrong), "hola"), "hola");
}

#[test]
fn encoded_query_uses_only_url_characters() {
    let url = translation_url("¿Qué es esto? «x» & 100%");
    let query = url.split("&q=").nth(1).unwrap();
    assert!(query
        .chars()
        .all(|c| c.is_ascii_alphanumeric() || "-._~%".contains(c)));
    assert_eq!(query, "%C2%BFQu%C3%A9%20es%20esto%3F%20%C2%ABx%C2%BB%20%26%20100%25");
}
