use wordcount::words::{bank_code, classify_word, normalize_word, save_outcome_message, WordLanguage};

#[test]
fn normalize_trims_and_lowercases() {
    assert_eq!(normalize_word("  Gato \n"), "gato");
    assert_eq!(normalize_word("ÁRBOL"), "árbol");
    assert_eq!(normalize_word("   "), "");
}

#[test]
fn classification_messages() {
    assert_eq!(
        classify_word("gato", Some(WordLanguage::Spanish), true),
        (true, "Saved 'gato' in Spanish bank!".to_string())
    );
    assert_eq!(
        classify_word("gate", Some(WordLanguage::Spanish), false),
        (false, "Saved 'gate' in English bank (low Spanish confidence).".to_string())
    );
    assert_eq!(
        classify_word("dog", Some(WordLanguage::English), true),
        (false, "Saved 'dog' in English bank!".to_string())
    );
    assert_eq!(
        classify_word("xq", None, false),
        (true, "Saved 'xq' (language unclear, defaulting to Spanish bank).".to_string())
    );
}

#[test]
fn outcome_message_reports_duplicates() {
    assert_eq!(save_outcome_message("gato", "planned".to_string(), true), "planned");
    assert_eq!(
        save_outcome_message("gato", "planned".to_string(), false),
        "Uh oh! The word 'gato' has already been counted!"
    );
}

#[test]
fn bank_codes() {
    assert_eq!(bank_code(true), "es");
    assert_eq!(bank_code(false), "en");
}

use wordcount::words::{after_definition, after_translation, start_lookup, DefinitionLookup};

#[test]
fn lookup_starts_with_the_word_dictionary() {
    assert!(matches!(start_lookup(true), DefinitionLookup::FetchDefinition { is_spanish: true }));
    assert!(matches!(start_lookup(false), DefinitionLookup::FetchDefinition { is_spanish: false }));
}

#[test]
fn spanish_definition_is_translated_then_stored() {
    match after_definition(true, Some("felino".to_string())) {
        DefinitionLookup::Translate { spanish } => {
            assert_eq!(spanish, "felino");
            match after_translation(spanish, "feline".to_string()) {
                DefinitionLookup::Store { spanish, english } => {
                    assert_eq!(spanish.as_deref(), Some("felino"));
                    assert_eq!(english.as_deref(), Some("feline"));
                }
                _ => panic!("translation is followed by storing"),
            }
        }
        _ => panic!("a Spanish definition is translated"),
    }
}

#[test]
fn missing_spanish_definition_stores_nothing() {
    assert!(matches!(
        after_definition(true, None),
        DefinitionLookup::Store { spanish: None, english: None }
    ));
}

#[test]
fn english_definition_is_stored_as_english() {
    match after_definition(false, Some("a canine".to_string())) {
        DefinitionLookup::Store { spanish, english } => {
            assert!(spanish.is_none());
            assert_eq!(english.as_deref(), Some("a canine"));
        }
        _ => panic!("an English word is stored at once"),
    }
    assert!(matches!(
        after_definition(false, None),
        DefinitionLookup::Store { spanish: None, english: None }
    ));
}

#[test]
fn lowercase_keeps_every_character() {
    // 'İ' lower-cases to two characters; nothing becomes empty.
    assert_eq!(normalize_word("İ"), "i\u{307}");
    assert_eq!(normalize_word("ΟΔΟΣ"), "οδος");
}
