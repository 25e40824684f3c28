use lingua::Language::{English, Spanish};
use lingua::LanguageDetectorBuilder;
use wordcount::words::{plan_save, SavePlan};

#[test]
fn empty_word_is_skipped() {
    let detector = LanguageDetectorBuilder::from_languages(&[Spanish, English]).build();
    assert!(matches!(plan_save(&detector, "", true), SavePlan::Skip));
}

#[test]
fn detected_word_is_saved_with_its_name() {
    let detector = LanguageDetectorBuilder::from_languages(&[Spanish, English]).build();
    match plan_save(&detector, "the", true) {
        SavePlan::Save { is_spanish, message } => {
            assert!(message.starts_with("Saved 'the'"));
            if message.contains("(language unclear") {
                assert!(is_spanish);
            }
        }
        SavePlan::Skip => panic!("a word was given"),
    }
}

#[test]
fn blank_input_is_skipped() {
    let detector = LanguageDetectorBuilder::from_languages(&[Spanish, English]).build();
    let word = wordcount::words::normalize_word(" \t\u{a0} ");
    assert_eq!(word, "");
    assert!(matches!(plan_save(&detector, &word, false), SavePlan::Skip));
}
