use codex_mic::config::{
    config_path, pcm_rms, set_config, ActivationMode, Config, InjectionMode, Language,
};

#[test]
fn pcm_rms_distinguishes_silence_from_speech() {
    let silence = vec![0u8; 1920];
    assert_eq!(pcm_rms(&silence), 0);
    let loud: Vec<u8> = (0..960).flat_map(|_| 8000i16.to_le_bytes()).collect();
    assert_eq!(pcm_rms(&loud), 8000);
    assert!(pcm_rms(&[]) == 0);
}

#[test]
fn level_rounds_down_and_stops_at_the_loudest_sample() {
    let bytes = |samples: &[i16]| -> Vec<u8> {
        samples.iter().flat_map(|s| s.to_le_bytes()).collect()
    };
    assert_eq!(pcm_rms(&bytes(&[3, 4])), 3);
    assert_eq!(pcm_rms(&bytes(&[1, 7])), 5);
    assert_eq!(pcm_rms(&bytes(&[-32_768; 4])), 32_767);
    assert_eq!(pcm_rms(&[5]), 0);
    assert_eq!(pcm_rms(&[100, 0, 9]), 100);
}

#[test]
fn level_agrees_with_the_root_of_the_mean_square() {
    let mut seed = 12345u32;
    for n in 1..200usize {
        let samples: Vec<i16> = (0..n)
            .map(|_| {
                seed = seed.wrapping_mul(1_664_525).wrapping_add(1_013_904_223);
                (seed >> 16) as i16
            })
            .collect();
        let sum: f64 = samples.iter().map(|s| f64::from(*s) * f64::from(*s)).sum();
        let expected = (sum / n as f64).sqrt() as i16;
        let bytes: Vec<u8> = samples.iter().flat_map(|s| s.to_le_bytes()).collect();
        assert_eq!(pcm_rms(&bytes), expected);
    }
}

#[test]
fn defaults() {
    let cfg = Config::default();
    assert_eq!(cfg.hotkey, "Ctrl+E");
    assert_ne!(cfg.hotkey, cfg.settings_hotkey);
    assert_eq!(cfg.activation_mode, ActivationMode::PushToTalk);
    assert_eq!(cfg.silence_autostop_ms, 0);
    assert_eq!(cfg.silence_threshold, 500);
    assert_eq!(cfg.injection_mode, InjectionMode::Type);
    assert_eq!(cfg.language, Language::Auto);
    assert!(cfg.restore_clipboard);
    assert!(!cfg.append_trailing_space);
    assert!(cfg.hallucination_filter);
    assert_eq!(cfg.mic_device, None);
}

#[test]
fn only_what_changed_is_acted_on() {
    let old = Config::default();
    let same = set_config(&old, &old.clone());
    assert!(!same.rebind && !same.reconnect);

    let mut next = old.clone();
    next.hotkey = "F9".into();
    let change = set_config(&old, &next);
    assert!(change.rebind && !change.reconnect);

    let mut next = old.clone();
    next.settings_hotkey = "F10".into();
    assert!(set_config(&old, &next).rebind);

    let mut next = old.clone();
    next.language = Language::Korean;
    let change = set_config(&old, &next);
    assert!(!change.rebind && change.reconnect);

    let mut next = old.clone();
    next.transcribe_model = "whisper-1".into();
    assert!(set_config(&old, &next).reconnect);

    let mut next = old.clone();
    next.realtime_model = "gpt-realtime".into();
    assert!(set_config(&old, &next).reconnect);

    let mut next = old.clone();
    next.append_trailing_space = true;
    let change = set_config(&old, &next);
    assert!(!change.rebind && !change.reconnect);
}

#[test]
fn configuration_lies_under_the_application_data() {
    assert_eq!(config_path(Some("A"), Some("H")), ["A", "codex-mic", "config.json"]);
    assert_eq!(config_path(None, Some("H")), ["H", "codex-mic", "config.json"]);
    assert_eq!(config_path(None, None), [".", "codex-mic", "config.json"]);
}
