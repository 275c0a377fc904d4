use grape::config::{settings_path, AudioOutputDevice, TextScale, ThemeMode, UserSettings, MAX_VOLUME};
use grape::eq::EqBandCount;
use grape::player::{usb_headset_device, AudioOptions, NowPlaying, PlaybackState, PlayerModel, PlayerState};

#[test]
fn settings_defaults_and_normalization() {
    let s = UserSettings::default();
    assert_eq!(s.theme_mode, ThemeMode::Dark);
    assert_eq!(s.text_scale, TextScale::Normal);
    assert_eq!(s.default_volume, 72);
    let mut loud = s.clone();
    loud.default_volume = 250;
    assert_eq!(loud.normalized().default_volume, MAX_VOLUME);
    assert_eq!(TextScale::Normal.label(), "Normal");
    assert_eq!(TextScale::Large.label(), "Large");
    assert_eq!(TextScale::ExtraLarge.label(), "Très grand");
    assert_eq!(settings_path("/home/me/.config/grape"), "/home/me/.config/grape/preferences.json");
    assert_eq!(settings_path("."), "./preferences.json");
}

#[test]
fn eq_band_counts() {
    assert_eq!(EqBandCount::default(), EqBandCount::Five);
    assert_eq!(EqBandCount::Three.band_count(), 3);
    assert_eq!(EqBandCount::Five.band_count(), 5);
}

#[test]
fn audio_options_from_settings() {
    let mut s = UserSettings::default();
    assert!(AudioOptions::from_settings(&s).is_default());
    s.output_device = AudioOutputDevice::UsbHeadset;
    let o = AudioOptions::from_settings(&s);
    assert!(!o.is_default());
    assert!(AudioOptions::default().is_default());
    s.output_device = AudioOutputDevice::System;
    s.output_sample_rate_hz = Some(48_000);
    assert!(!AudioOptions::from_settings(&s).is_default());
}

#[test]
fn usb_headset_is_found_by_name() {
    let names = vec!["Built-in Audio".to_string(), "".to_string(), "Logitech USB Headset".to_string(), "headset 2".to_string()];
    assert_eq!(usb_headset_device(&names), Some(2));
    assert_eq!(usb_headset_device(&vec!["HDMI".to_string()]), None);
    assert_eq!(usb_headset_device(&vec!["My HEADSET".to_string()]), Some(0));
}

#[test]
fn player_model_transitions() {
    let mut p = PlayerModel::new();
    assert_eq!(p.state, PlaybackState::Stopped);
    assert_eq!(p.start_seek(10), None);
    assert_eq!(p.position_secs, 0);
    p.start_load("/a.mp3".to_string());
    p.finish_load(false);
    assert_eq!(p.state, PlaybackState::Stopped);
    p.finish_load(true);
    assert_eq!(p.state, PlaybackState::Paused);
    p.play();
    assert!(p.resumes_after_seek());
    assert_eq!(p.start_seek(42), Some("/a.mp3".to_string()));
    assert_eq!(p.position_secs, 42);
    assert_eq!(p.state, PlaybackState::Playing);
    p.pause();
    assert!(!p.resumes_after_seek());
    p.start_load("/b.mp3".to_string());
    assert_eq!(p.position_secs, 0);
    assert_eq!(p.current_track, Some("/b.mp3".to_string()));
}

#[test]
fn player_state_placeholder_and_now_playing() {
    let s = PlayerState::placeholder();
    assert!(s.now_playing.is_none() && !s.is_playing && s.position_secs == 0);
    let n = NowPlaying {
        artist: "a".to_string(),
        album: "b".to_string(),
        title: "c".to_string(),
        duration_secs: 1,
        path: "/p".to_string(),
    };
    assert_eq!(n.duplicate(), n);
}
