use qtts::config::TtsConfig;
use qtts::tts::Tts;
use qtts::voices::{
    load_voice_labels, position_of_row, row_of_position, EnumeratedVoice, VoiceDescriptor,
};

fn voice(name: &str, language: &str, handle: usize) -> VoiceDescriptor {
    VoiceDescriptor::new(Some(name.to_string()), language.to_string(), handle)
}

fn nameless(language: &str, handle: usize) -> VoiceDescriptor {
    VoiceDescriptor::new(None, language.to_string(), handle)
}

fn reported(name: Option<&str>, language: Option<&str>) -> EnumeratedVoice {
    EnumeratedVoice {
        display_name: name.map(|n| n.to_string()),
        language: language.map(|l| l.to_string()),
    }
}

fn config_for(name: &str) -> TtsConfig {
    TtsConfig::new(name.to_string(), 1000, 1000)
}

#[test]
fn descriptor_keeps_what_it_was_given() {
    let v = voice("Anna", "de-DE", 4);
    assert_eq!(v.display_name(), Some("Anna"));
    assert_eq!(nameless("de-DE", 1).display_name(), None);
    assert_eq!(v.language(), "de-DE");
    assert_eq!(v.handle(), 4);
    assert_eq!(v.clone(), v);
}

#[test]
fn label_is_name_and_language_in_brackets() {
    assert_eq!(voice("Anna", "de-DE", 0).label(), Some("Anna (de-DE)".to_string()));
    assert_eq!(voice("", "", 0).label(), Some(" ()".to_string()));
    assert_eq!(nameless("de-DE", 0).label(), None);
}

#[test]
fn voices_are_listed_by_language_then_enumeration() {
    let enumerated = vec![
        reported(Some("Zira"), Some("en-US")),
        reported(Some("Hedda"), Some("de-DE")),
        reported(Some("David"), Some("en-US")),
        reported(Some("Hazel"), Some("en-GB")),
        reported(Some("Katja"), Some("de-DE")),
    ];
    let catalog = Tts::new().list_voices(&enumerated);
    assert_eq!(
        catalog,
        vec![
            voice("Hedda", "de-DE", 1),
            voice("Katja", "de-DE", 4),
            voice("Hazel", "en-GB", 3),
            voice("Zira", "en-US", 0),
            voice("David", "en-US", 2),
        ]
    );
}

#[test]
fn listing_orders_languages_as_strings_are_ordered() {
    let tags = ["en-US", "en", "", "zh-CN", "EN-us", "en-GB", "é", "e", "en-US-x", "日本語", "z"];
    let enumerated: Vec<EnumeratedVoice> =
        tags.iter().map(|t| reported(Some("v"), Some(t))).collect();
    let catalog = Tts::new().list_voices(&enumerated);
    let listed: Vec<String> = catalog.iter().map(|v| v.language().to_string()).collect();
    let mut expected: Vec<String> = tags.iter().map(|t| t.to_string()).collect();
    expected.sort();
    assert_eq!(listed, expected);
}

#[test]
fn voices_without_language_are_left_out_and_those_without_name_are_kept() {
    let enumerated = vec![
        reported(None, Some("en-US")),
        reported(Some("Hedda"), None),
        reported(Some("David"), Some("en-US")),
        reported(None, None),
        reported(Some("Anna"), Some("de-DE")),
    ];
    let catalog = Tts::new().list_voices(&enumerated);
    assert_eq!(
        catalog,
        vec![voice("Anna", "de-DE", 4), nameless("en-US", 0), voice("David", "en-US", 2)]
    );
    let one = Tts::new().list_voices(&vec![reported(None, Some("fr-FR"))]);
    assert_eq!(one, vec![nameless("fr-FR", 0)]);
}

#[test]
fn an_empty_enumeration_gives_an_empty_catalogue() {
    assert_eq!(Tts::new().list_voices(&Vec::new()), Vec::<VoiceDescriptor>::new());
}

#[test]
fn labels_follow_the_catalogue() {
    let catalog = vec![voice("Hedda", "de-DE", 1), voice("Zira", "en-US", 0)];
    let (labels, index) = load_voice_labels(&catalog, &config_for("Zira"));
    assert_eq!(labels, vec!["Hedda (de-DE)".to_string(), "Zira (en-US)".to_string()]);
    assert_eq!(index, Some(1));
}

#[test]
fn a_voice_that_is_gone_is_not_found() {
    let catalog = vec![voice("Hedda", "de-DE", 1), voice("Zira", "en-US", 0)];
    let (labels, index) = load_voice_labels(&catalog, &config_for("default"));
    assert_eq!(labels.len(), 2);
    assert_eq!(index, None);
    let (labels, index) = load_voice_labels(&Vec::new(), &config_for("Zira"));
    assert!(labels.is_empty());
    assert_eq!(index, None);
}

#[test]
fn the_last_voice_of_a_name_is_found() {
    let catalog = vec![voice("Anna", "de-DE", 2), voice("Bert", "en-GB", 0), voice("Anna", "en-US", 1)];
    let (_, index) = load_voice_labels(&catalog, &config_for("Anna"));
    assert_eq!(index, Some(2));
    let (_, index) = load_voice_labels(&catalog, &config_for("anna"));
    assert_eq!(index, None);
}

#[test]
fn a_voice_without_name_has_no_label_and_is_never_found() {
    let catalog = vec![nameless("de-DE", 1), voice("Zira", "en-US", 0), nameless("en-US", 2)];
    let (labels, index) = load_voice_labels(&catalog, &config_for("Zira"));
    assert_eq!(labels, vec!["Zira (en-US)".to_string()]);
    assert_eq!(index, Some(1));
    let (labels, index) = load_voice_labels(&catalog, &config_for(""));
    assert_eq!(labels.len(), 1);
    assert_eq!(index, None);
}

#[test]
fn rows_count_the_voices_with_a_name() {
    let catalog = vec![
        nameless("de-DE", 1),
        voice("Zira", "en-US", 0),
        nameless("en-US", 2),
        voice("David", "en-US", 3),
    ];
    assert_eq!(position_of_row(&catalog, 0), Some(1));
    assert_eq!(position_of_row(&catalog, 1), Some(3));
    assert_eq!(position_of_row(&catalog, 2), None);
    assert_eq!(row_of_position(&catalog, 0), None);
    assert_eq!(row_of_position(&catalog, 1), Some(0));
    assert_eq!(row_of_position(&catalog, 2), None);
    assert_eq!(row_of_position(&catalog, 3), Some(1));
    assert_eq!(row_of_position(&catalog, 4), None);
    assert_eq!(position_of_row(&Vec::new(), 0), None);
}

#[test]
fn rows_are_positions_where_every_voice_has_a_name() {
    let catalog = vec![voice("Hedda", "de-DE", 1), voice("Zira", "en-US", 0)];
    let (labels, _) = load_voice_labels(&catalog, &config_for("Zira"));
    for row in 0..labels.len() {
        assert_eq!(position_of_row(&catalog, row), Some(row));
        assert_eq!(row_of_position(&catalog, row), Some(row));
    }
    assert_eq!(position_of_row(&catalog, 2), None);
}
