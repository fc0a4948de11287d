use qtts::tts::{next_step, spoken_words, Action, Tts};
use qtts::voices::VoiceDescriptor;

#[test]
fn engines_start_at_normal_rate_without_a_voice() {
    let tts = Tts::new();
    assert_eq!(tts.rate(), 1000);
    assert_eq!(tts.voice(), None);
}

#[test]
fn stopping_pauses_then_clears_the_source() {
    assert_eq!(Tts::new().stop(), vec![Action::Pause, Action::ClearSource]);
}

#[test]
fn pausing_and_resuming_are_single_calls() {
    assert_eq!(Tts::new().pause(), vec![Action::Pause]);
    assert_eq!(Tts::new().resume(), vec![Action::Play]);
}

#[test]
fn speaking_stops_before_it_loads() {
    let script = Tts::new().speak("Hello world".to_string(), 7);
    assert_eq!(
        script,
        vec![
            Action::Pause,
            Action::ClearSource,
            Action::Synthesize { text: "Hello world".to_string() },
            Action::LoadSource { generation: 7 },
            Action::SetRate { rate: 1000 },
            Action::Play,
        ]
    );
    let clear = script.iter().position(|a| *a == Action::ClearSource).unwrap();
    let load = script.iter().position(|a| matches!(a, Action::LoadSource { .. })).unwrap();
    assert!(clear < load);
}

#[test]
fn speaking_restores_the_remembered_rate() {
    let mut tts = Tts::new();
    tts.remember_rate(1260);
    assert_eq!(tts.rate(), 1300);
    let script = tts.speak("x".to_string(), 1);
    assert_eq!(script[4], Action::SetRate { rate: 1300 });
}

#[test]
fn rate_and_volume_are_clamped_before_they_are_applied() {
    let tts = Tts::new();
    assert_eq!(tts.set_rate(170), vec![Action::SetRate { rate: 200 }]);
    assert_eq!(tts.set_rate(1970), vec![Action::SetRate { rate: 2000 }]);
    assert_eq!(tts.set_rate(1260), vec![Action::SetRate { rate: 1300 }]);
    assert_eq!(tts.set_volume(-300), vec![Action::SetVolume { volume: 0 }]);
    assert_eq!(tts.set_volume(1400), vec![Action::SetVolume { volume: 1000 }]);
    assert_eq!(tts.set_volume(420), vec![Action::SetVolume { volume: 420 }]);
}

#[test]
fn a_rate_is_remembered_only_when_told_so() {
    let mut tts = Tts::new();
    tts.set_rate(500);
    assert_eq!(tts.rate(), 1000);
    tts.remember_rate(500);
    assert_eq!(tts.rate(), 500);
    tts.remember_rate(1970);
    assert_eq!(tts.rate(), 2000);
    tts.remember_rate(-4);
    assert_eq!(tts.rate(), 200);
}

#[test]
fn a_voice_is_remembered_only_when_told_so() {
    let mut tts = Tts::new();
    let voice = VoiceDescriptor::new(Some("Anna".to_string()), "de-DE".to_string(), 3);
    assert_eq!(tts.change_voice(&voice), vec![Action::SetVoice { handle: 3 }]);
    assert_eq!(tts.voice(), None);
    tts.remember_voice(&voice);
    assert_eq!(tts.voice(), Some(3));
    assert_eq!(tts.rate(), 1000);
}

#[test]
fn a_script_ends_at_its_first_failed_step() {
    let script = Tts::new().speak("Hello".to_string(), 1);
    assert_eq!(next_step(&script, 0, true), Some(0));
    assert_eq!(next_step(&script, 3, true), Some(3));
    assert_eq!(next_step(&script, 5, true), Some(5));
    assert_eq!(next_step(&script, 6, true), None);
    assert_eq!(next_step(&script, 7, true), None);
    assert_eq!(next_step(&script, 0, false), None);
    assert_eq!(next_step(&script, 3, false), None);
    assert_eq!(next_step(&script, 6, false), None);
    assert_eq!(next_step(&Vec::new(), 0, true), None);
}

#[test]
fn words_are_the_cues_with_text() {
    let cues = vec![Some("Hello".to_string()), None, Some("world".to_string()), None];
    assert_eq!(spoken_words(&cues), vec!["Hello".to_string(), "world".to_string()]);
    assert_eq!(spoken_words(&vec![None, None]), Vec::<String>::new());
    assert_eq!(spoken_words(&Vec::new()), Vec::<String>::new());
}
