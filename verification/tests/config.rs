use qtts::config::{
    clamp_round_rate, clamp_volume, config_entries, load_config, save_config, settle_saved,
    ConfigError, TtsConfig, DEFAULT_LEVEL, RATE_MAX,
    RATE_MIN, RATE_STEP, VOLUME_MAX, VOLUME_MIN,
};

fn text(s: &str) -> Option<String> {
    Some(s.to_string())
}

#[test]
fn rate_below_the_interval_becomes_the_lowest_rate() {
    assert_eq!(clamp_round_rate(170), 200);
    assert_eq!(clamp_round_rate(-5000), RATE_MIN);
    assert_eq!(clamp_round_rate(i64::MIN), RATE_MIN);
}

#[test]
fn rate_above_the_interval_becomes_the_highest_rate() {
    assert_eq!(clamp_round_rate(1970), 2000);
    assert_eq!(clamp_round_rate(2001), RATE_MAX);
    assert_eq!(clamp_round_rate(i64::MAX), RATE_MAX);
}

#[test]
fn rate_halfway_between_steps_rounds_up() {
    assert_eq!(clamp_round_rate(1050), 1100);
    assert_eq!(clamp_round_rate(1049), 1000);
    assert_eq!(clamp_round_rate(1149), 1100);
    assert_eq!(clamp_round_rate(1150), 1200);
    assert_eq!(clamp_round_rate(250), 300);
    assert_eq!(clamp_round_rate(1950), 2000);
}

#[test]
fn every_rate_is_a_whole_step_within_the_interval() {
    let mut raw: i64 = -300;
    while raw <= 2500 {
        let rate = clamp_round_rate(raw);
        assert!(RATE_MIN <= rate && rate <= RATE_MAX);
        assert_eq!(rate % RATE_STEP, 0);
        let limited = raw.max(RATE_MIN).min(RATE_MAX);
        assert!(rate - RATE_STEP / 2 <= limited && limited < rate + RATE_STEP / 2);
        raw += 1;
    }
}

#[test]
fn valid_rates_are_kept() {
    let mut rate = RATE_MIN;
    while rate <= RATE_MAX {
        assert_eq!(clamp_round_rate(rate), rate);
        rate += RATE_STEP;
    }
}

#[test]
fn volume_is_limited_to_its_interval() {
    assert_eq!(clamp_volume(-300), 0);
    assert_eq!(clamp_volume(1400), 1000);
    assert_eq!(clamp_volume(640), 640);
    assert_eq!(clamp_volume(VOLUME_MIN), VOLUME_MIN);
    assert_eq!(clamp_volume(VOLUME_MAX), VOLUME_MAX);
    assert_eq!(clamp_volume(i64::MIN), VOLUME_MIN);
    assert_eq!(clamp_volume(i64::MAX), VOLUME_MAX);
}

#[test]
fn default_config_values() {
    let config = TtsConfig::default();
    assert_eq!(config.voice(), "default");
    assert_eq!(config.volume(), DEFAULT_LEVEL);
    assert_eq!(config.rate(), DEFAULT_LEVEL);
}

#[test]
fn new_config_clamps_what_it_is_given() {
    let config = TtsConfig::new("Anna".to_string(), 1400, 170);
    assert_eq!(config.voice(), "Anna");
    assert_eq!(config.volume(), 1000);
    assert_eq!(config.rate(), 200);
}

#[test]
fn setters_clamp_before_they_store() {
    let mut config = TtsConfig::default();
    config.set_volume(-300);
    assert_eq!(config.volume(), 0);
    config.set_volume(250);
    assert_eq!(config.volume(), 250);
    config.set_rate(1260);
    assert_eq!(config.rate(), 1300);
    config.set_rate(9000);
    assert_eq!(config.rate(), 2000);
    config.set_voice("Bert".to_string());
    assert_eq!(config.voice(), "Bert");
    assert_eq!(config.volume(), 250);
    assert_eq!(config.rate(), 2000);
}

#[test]
fn clone_keeps_every_field() {
    let config = TtsConfig::new("Anna".to_string(), 300, 700);
    assert_eq!(config.clone(), config);
}

#[test]
fn stored_fields_are_read_back() {
    let config = TtsConfig::from_stored(text("Anna"), text("0.5"), text("1.26"));
    assert_eq!(config, TtsConfig::new("Anna".to_string(), 500, 1300));
}

#[test]
fn missing_fields_take_their_defaults() {
    assert_eq!(TtsConfig::from_stored(None, None, None), TtsConfig::default());
    let config = TtsConfig::from_stored(None, text("0.25"), None);
    assert_eq!(config, TtsConfig::new("default".to_string(), 250, 1000));
}

#[test]
fn unreadable_levels_take_their_defaults() {
    let config = TtsConfig::from_stored(text("Anna"), text("loud"), text("1e3"));
    assert_eq!(config, TtsConfig::new("Anna".to_string(), 1000, 1000));
    let config = TtsConfig::from_stored(text("Anna"), text(""), text("fast"));
    assert_eq!(config, TtsConfig::new("Anna".to_string(), 1000, 1000));
}

#[test]
fn stored_levels_out_of_range_are_clamped() {
    let config = TtsConfig::from_stored(text("Anna"), text("-0.3"), text("0.17"));
    assert_eq!(config.volume(), 0);
    assert_eq!(config.rate(), 200);
    let config = TtsConfig::from_stored(text("Anna"), text("1.4"), text("1.97"));
    assert_eq!(config.volume(), 1000);
    assert_eq!(config.rate(), 2000);
    let config = TtsConfig::from_stored(
        text("Anna"),
        text("99999999999999999999999999"),
        text("-99999999999999999999999999"),
    );
    assert_eq!(config.volume(), 1000);
    assert_eq!(config.rate(), 200);
}

#[test]
fn stored_fields_of_a_config_lead_back_to_it() {
    let config = TtsConfig::new("Anna".to_string(), 750, 1500);
    let fields = config.stored_fields();
    assert_eq!(fields.0, "Anna");
    assert_eq!(fields.1, "0.75");
    assert_eq!(fields.2, "1.5");
    assert_eq!(TtsConfig::from_stored(Some(fields.0), Some(fields.1), Some(fields.2)), config);
}

#[test]
fn settings_text_is_read() {
    let loaded = load_config("voice = Anna\nvolume=0.5\nrate : 1.26\n".to_string()).unwrap();
    assert_eq!(loaded, TtsConfig::new("Anna".to_string(), 500, 1300));
}

#[test]
fn settings_text_with_a_section_header_is_read() {
    let loaded = load_config("[default]\nvoice=Anna\nrate=0.5\nvolume=0.30000000000000004\n".to_string())
        .unwrap();
    assert_eq!(loaded, TtsConfig::new("Anna".to_string(), 300, 500));
}

#[test]
fn settings_in_another_section_are_not_seen() {
    let loaded = load_config("[other]\nvoice=Anna\nrate=0.5\nvolume=0.3\n".to_string()).unwrap();
    assert_eq!(loaded, TtsConfig::default());
}

#[test]
fn empty_settings_text_gives_the_defaults() {
    assert_eq!(load_config(String::new()).unwrap(), TtsConfig::default());
}

#[test]
fn keys_are_found_whatever_their_case() {
    let loaded = load_config("Voice=Anna\nVOLUME=0.2\nRate=2\n".to_string()).unwrap();
    assert_eq!(loaded, TtsConfig::new("Anna".to_string(), 200, 2000));
}

#[test]
fn a_key_without_value_counts_as_missing() {
    let loaded = load_config("voice\nvolume=0.2\n".to_string()).unwrap();
    assert_eq!(loaded, TtsConfig::new("default".to_string(), 200, 1000));
}

#[test]
fn malformed_settings_text_is_an_error() {
    assert!(load_config("[default\nvoice=Anna\n".to_string()).is_err());
    assert!(load_config("=Anna\n".to_string()).is_err());
}

#[test]
fn saved_settings_hold_the_three_fields() {
    let saved = save_config(TtsConfig::new("Anna".to_string(), 750, 1500)).unwrap();
    let mut lines: Vec<&str> = saved.lines().collect();
    lines.sort();
    assert_eq!(lines, vec!["rate=1.5", "voice=Anna", "volume=0.75"]);
}

#[test]
fn saved_settings_are_loaded_unchanged() {
    let voices = ["default", "Anna", "Microsoft David", "Ünal (de-DE)"];
    for voice in voices {
        let mut volume: i64 = 0;
        while volume <= 1000 {
            let mut rate: i64 = RATE_MIN;
            while rate <= RATE_MAX {
                let config = TtsConfig::new(voice.to_string(), volume, rate);
                let loaded = load_config(save_config(config.clone()).unwrap()).unwrap();
                assert_eq!(loaded, config);
                rate += RATE_STEP;
            }
            volume += 125;
        }
    }
}

#[test]
fn saving_what_was_loaded_changes_nothing() {
    let first = load_config("voice=Anna\nvolume=7\nrate=1.05\n".to_string()).unwrap();
    assert_eq!(first, TtsConfig::new("Anna".to_string(), 1000, 1100));
    let second = load_config(save_config(first.clone()).unwrap()).unwrap();
    assert_eq!(second, first);
    let third = load_config(save_config(second.clone()).unwrap()).unwrap();
    assert_eq!(third, first);
}

#[test]
fn an_empty_voice_name_is_saved_and_read_back() {
    let config = TtsConfig::new(String::new(), 0, 200);
    let saved = save_config(config.clone()).unwrap();
    assert_eq!(load_config(saved).unwrap(), config);
}

#[test]
fn a_text_that_would_not_read_back_is_not_handed_out_as_saved() {
    for voice in ["Voice #2", "Anna; loud", " Anna", "Anna ", "An\nna", "[Anna]#"] {
        let config = TtsConfig::new(voice.to_string(), 750, 1500);
        match save_config(config.clone()) {
            Err(ConfigError::Unfaithful { text }) => {
                assert!(text.contains("rate=1.5"));
                assert!(text.contains("volume=0.75"));
                assert_ne!(load_config(text).ok(), Some(config));
            }
            other => panic!("saved as {:?}", other),
        }
    }
}

#[test]
fn voice_names_with_delimiters_in_them_are_read_back() {
    for voice in ["a=b", "Anna: de", "Microsoft David - English (United States)", "[Anna]"] {
        let config = TtsConfig::new(voice.to_string(), 750, 1500);
        let saved = save_config(config.clone()).unwrap();
        assert_eq!(load_config(saved).unwrap(), config);
    }
}

#[test]
fn the_entries_written_are_voice_rate_and_volume() {
    let entries = config_entries(&TtsConfig::new("Anna".to_string(), 750, 1500));
    assert_eq!(entries.sections(), vec!["default".to_string()]);
    let section = entries.get_map_ref().get("default").unwrap();
    assert_eq!(section.len(), 3);
    assert_eq!(entries.get("default", "voice"), Some("Anna".to_string()));
    assert_eq!(entries.get("default", "rate"), Some("1.5".to_string()));
    assert_eq!(entries.get("default", "volume"), Some("0.75".to_string()));
}

#[test]
fn a_text_that_reads_back_is_settled_as_saved() {
    let config = TtsConfig::new("Anna".to_string(), 750, 1500);
    let text = "volume=0.75\nvoice=Anna\nrate=1.5\n".to_string();
    assert_eq!(settle_saved(&config, text.clone()), Ok(text));
    let text = "[default]\nrate : 1.5\nvoice = Anna\nvolume = 0.750\nother = 1\n".to_string();
    assert_eq!(settle_saved(&config, text.clone()), Ok(text));
}

#[test]
fn a_text_that_reads_as_something_else_is_settled_as_unfaithful() {
    let config = TtsConfig::new("Anna".to_string(), 750, 1500);
    for text in ["", "voice=Anna\nrate=1.5\n", "voice=Bert\nrate=1.5\nvolume=0.75\n", "[default\n"] {
        assert_eq!(
            settle_saved(&config, text.to_string()),
            Err(ConfigError::Unfaithful { text: text.to_string() })
        );
    }
}
