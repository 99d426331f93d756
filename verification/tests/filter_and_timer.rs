use maplehelper::alarm::ALARM_FREQUENCY;
use maplehelper::alarm::BEEP_SAMPLES;
use maplehelper::alarm::FADE_SAMPLES;
use maplehelper::alarm::Feedback;
use maplehelper::alarm::GAP_SAMPLES;
use maplehelper::alarm::SAMPLE_RATE;
use maplehelper::alarm::Tone;
use maplehelper::alarm::beep_feedback;
use maplehelper::alarm::build_alarm_wav;
use maplehelper::alarm::double_beep;
use maplehelper::alarm::encode_wav;
use maplehelper::alarm::envelope;
use maplehelper::alarm::limit_volume;
use maplehelper::alarm::timer_start_tone;
use maplehelper::alarm::toggle_feedback;
use maplehelper::config::AppConfig;
use maplehelper::error::HelperError;
use maplehelper::filter::FKF_AVAILABLE;
use maplehelper::filter::FKF_FILTERKEYSON;
use maplehelper::filter::FilterKeys;
use maplehelper::filter::SPIF_SENDCHANGE;
use maplehelper::filter::SPIF_UPDATEINIFILE;
use maplehelper::filter::SysState;
use maplehelper::filter::apply_preset;
use maplehelper::filter::apply_values;
use maplehelper::filter::get_sys;
use maplehelper::filter::set_sys;
use maplehelper::filter::set_sys_result;
use maplehelper::filter::toggle_filter;
use maplehelper::hook::HookState;
use maplehelper::hook::rebuild_timer_bindings;
use maplehelper::system::MenuAction;
use maplehelper::system::install_update;
use maplehelper::system::is_admin;
use maplehelper::system::menu_action;
use maplehelper::system::needs_elevation;
use maplehelper::system::spawn_elevated;
use maplehelper::timer::TimerCount;
use maplehelper::timer::start_timer;

fn state(on: bool) -> SysState {
    SysState { on, wait_ms: 11, delay_ms: 22, repeat_ms: 33, bounce_ms: 44 }
}

#[test]
fn the_filter_keys_are_read() {
    let keys = FilterKeys { flags: 0x7F, wait_ms: 1, delay_ms: 2, repeat_ms: 3, bounce_ms: 4 };
    let on = SysState { on: true, wait_ms: 1, delay_ms: 2, repeat_ms: 3, bounce_ms: 4 };
    assert_eq!(get_sys(1, &keys), Ok(on));
    let keys = FilterKeys { flags: 0x7E, ..keys };
    assert_eq!(get_sys(-1, &keys), Ok(SysState { on: false, ..on }));
    assert_eq!(get_sys(0, &keys), Err(HelperError::FilterKeysRead));
}

#[test]
fn the_filter_keys_are_set() {
    let request = set_sys(true, 1, 2, 3, 4, true);
    assert_eq!(
        request.keys,
        FilterKeys { flags: 3, wait_ms: 1, delay_ms: 2, repeat_ms: 3, bounce_ms: 4 }
    );
    assert_eq!(request.reach, 3);
    let request = set_sys(false, 1, 2, 3, 4, false);
    assert_eq!(request.keys.flags, FKF_AVAILABLE);
    assert_eq!(request.reach, SPIF_SENDCHANGE);
    assert_eq!(FKF_FILTERKEYSON | SPIF_UPDATEINIFILE, 1);
    assert_eq!(set_sys_result(0), Err(HelperError::FilterKeysWrite));
    assert_eq!(set_sys_result(1), Ok(()));
}

#[test]
fn a_set_state_is_read_back() {
    for on in [false, true] {
        for persist in [false, true] {
            let s = state(on);
            let request =
                set_sys(on, s.wait_ms, s.delay_ms, s.repeat_ms, s.bounce_ms, persist);
            assert_eq!(get_sys(1, &request.keys), Ok(s));
            assert_eq!(request.reach & SPIF_UPDATEINIFILE != 0, persist);
            assert!(request.reach & SPIF_SENDCHANGE != 0);
        }
    }
}

#[test]
fn toggling_off_keeps_the_values() {
    let mut cfg = AppConfig::default();
    cfg.active_preset = Some("hunt".to_string());
    cfg.persist_registry = false;
    let request = toggle_filter(&state(true), &cfg);
    assert_eq!(request, set_sys(false, 11, 22, 33, 44, false));
}

#[test]
fn toggling_on_takes_the_applied_presets_values() {
    let mut cfg = AppConfig::default();
    assert_eq!(toggle_filter(&state(false), &cfg), set_sys(true, 11, 22, 33, 44, true));
    cfg.active_preset = Some("hunt".to_string());
    assert_eq!(toggle_filter(&state(false), &cfg), set_sys(true, 0, 150, 20, 0, true));
    cfg.active_preset = Some("windefault".to_string());
    assert_eq!(toggle_filter(&state(false), &cfg), set_sys(true, 1000, 1000, 500, 0, true));
    cfg.active_preset = Some("gone".to_string());
    assert_eq!(toggle_filter(&state(false), &cfg), set_sys(true, 11, 22, 33, 44, true));
}

#[test]
fn toggling_twice_gives_the_state_back() {
    let cfg = AppConfig::default();
    for on in [false, true] {
        let once = get_sys(1, &toggle_filter(&state(on), &cfg).keys).unwrap();
        assert_eq!(once.on, !on);
        let twice = get_sys(1, &toggle_filter(&once, &cfg).keys).unwrap();
        assert_eq!(twice, state(on));
    }
}

#[test]
fn applying_a_preset_sets_its_values() {
    let mut cfg = AppConfig::default();
    let request = apply_preset(&mut cfg, "boss");
    assert_eq!(request, Ok(set_sys(true, 0, 100, 10, 0, true)));
    assert_eq!(cfg.active_preset.as_deref(), Some("boss"));
    let request = apply_preset(&mut cfg, "windefault");
    assert_eq!(request, Ok(set_sys(false, 1000, 1000, 500, 0, true)));
    assert_eq!(cfg.active_preset.as_deref(), Some("windefault"));
}

#[test]
fn applying_an_unknown_preset_changes_nothing() {
    let mut cfg = AppConfig::default();
    cfg.active_preset = Some("boss".to_string());
    assert_eq!(apply_preset(&mut cfg, "gone"), Err(HelperError::PresetNotFound));
    assert_eq!(cfg.active_preset.as_deref(), Some("boss"));
}

#[test]
fn an_applied_preset_counts() {
    let mut cfg = AppConfig::default();
    cfg.presets[1].timer_enabled = true;
    cfg.presets[1].timer_seconds = 9;
    cfg.presets[1].timer_hotkey = Some("a".to_string());
    let mut hook = HookState::new();
    rebuild_timer_bindings(&mut hook, &cfg);
    assert!(hook.timer_bindings.is_empty());
    apply_preset(&mut cfg, "boss").unwrap();
    rebuild_timer_bindings(&mut hook, &cfg);
    assert_eq!(hook.timer_bindings[0].seconds, 9);
    assert_eq!(toggle_filter(&state(false), &cfg), set_sys(true, 0, 100, 10, 0, true));
}

#[test]
fn values_chosen_by_hand_belong_to_no_preset() {
    let mut cfg = AppConfig::default();
    cfg.presets[0].timer_enabled = true;
    cfg.presets[0].timer_seconds = 9;
    cfg.presets[0].timer_hotkey = Some("a".to_string());
    apply_preset(&mut cfg, "hunt").unwrap();
    let mut hook = HookState::new();
    rebuild_timer_bindings(&mut hook, &cfg);
    assert_eq!(hook.timer_bindings.len(), 1);
    let request = apply_values(&mut cfg, &mut hook, true, 5, 6, 7, 8);
    assert_eq!(request, set_sys(true, 5, 6, 7, 8, true));
    assert!(cfg.active_preset.is_none());
    assert!(hook.timer_bindings.is_empty());
}

#[test]
fn the_last_timer_is_due() {
    let mut timers = TimerCount::new();
    let first = timers.start(10).unwrap();
    assert!(timers.is_due(first));
    let second = timers.start(5).unwrap();
    assert!(!timers.is_due(first) && timers.is_due(second));
    timers.cancel();
    assert!(!timers.is_due(second));
    assert_eq!((first, second), (1, 2));
}

#[test]
fn a_timer_without_duration_is_not_started() {
    let mut timers = TimerCount::new();
    let running = timers.start(10).unwrap();
    assert_eq!(timers.start(0), None);
    assert!(timers.is_due(running));
}

#[test]
fn the_count_of_timers_comes_round() {
    let mut timers = TimerCount { count: u64::MAX };
    assert_eq!(timers.start(1), Some(0));
    assert!(timers.is_due(0));
}

#[test]
fn a_presets_timer_is_started() {
    let mut cfg = AppConfig::default();
    cfg.presets[0].timer_seconds = 90;
    let mut timers = TimerCount::new();
    assert_eq!(start_timer(&mut timers, &cfg, "hunt"), Ok((90, Some(1))));
    assert!(timers.is_due(1));
    assert_eq!(start_timer(&mut timers, &cfg, "boss"), Ok((0, None)));
    assert_eq!(start_timer(&mut timers, &cfg, "gone"), Err(HelperError::PresetNotFound));
    assert!(timers.is_due(1));
}

#[test]
fn tones_have_their_lengths() {
    assert_eq!(SAMPLE_RATE, 44100);
    assert_eq!(ALARM_FREQUENCY, 1760);
    assert_eq!((BEEP_SAMPLES, GAP_SAMPLES, FADE_SAMPLES), (3969, 3087, 132));
}

#[test]
fn volumes_are_limited() {
    assert_eq!(limit_volume(0), 0);
    assert_eq!(limit_volume(99), 99);
    assert_eq!(limit_volume(100), 100);
    assert_eq!(limit_volume(u32::MAX), 100);
}

#[test]
fn a_tone_swells_and_fades() {
    assert_eq!(envelope(0), 0);
    assert_eq!(envelope(131), 131);
    assert_eq!(envelope(132), 132);
    assert_eq!(envelope(2000), 132);
    assert_eq!(envelope(3968), 1);
    let fade = 132.0f64;
    for n in 0..BEEP_SAMPLES {
        let begin = n as f64 / fade;
        let end = (BEEP_SAMPLES - n) as f64 / fade;
        assert_eq!(envelope(n) as f64 / fade, begin.min(end).min(1.0));
    }
}

#[test]
fn a_wav_file_has_its_header() {
    let wav = encode_wav(&vec![1, -1, i16::MIN]);
    let mut expected: Vec<u8> = Vec::new();
    expected.extend(b"RIFF");
    expected.extend(42u32.to_le_bytes());
    expected.extend(b"WAVEfmt ");
    expected.extend(16u32.to_le_bytes());
    expected.extend(1u16.to_le_bytes());
    expected.extend(1u16.to_le_bytes());
    expected.extend(44100u32.to_le_bytes());
    expected.extend(88200u32.to_le_bytes());
    expected.extend(2u16.to_le_bytes());
    expected.extend(16u16.to_le_bytes());
    expected.extend(b"data");
    expected.extend(6u32.to_le_bytes());
    expected.extend([1, 0, 0xFF, 0xFF, 0x00, 0x80]);
    assert_eq!(wav, expected);
    assert_eq!(encode_wav(&Vec::new()).len(), 44);
}

#[test]
fn samples_are_read_back_from_a_wav_file() {
    let samples: Vec<i16> = vec![0, 5, -5, i16::MAX, i16::MIN, 300];
    let wav = encode_wav(&samples);
    assert_eq!(wav.len(), 44 + 2 * samples.len());
    for (k, s) in samples.iter().enumerate() {
        assert_eq!(i16::from_le_bytes([wav[44 + 2 * k], wav[45 + 2 * k]]), *s);
    }
}

#[test]
fn the_alarm_is_two_tones_with_a_silence_between() {
    let beep: Vec<i16> = (0..3969).map(|n| (n % 100) as i16 - 50).collect();
    let wav = double_beep(&beep);
    let mut samples = beep.clone();
    samples.extend(vec![0; 3087]);
    samples.extend(beep.iter());
    assert_eq!(wav, encode_wav(&samples));
    assert_eq!(wav.len(), 44 + 2 * 11025);
    assert_eq!(wav[4..8], 22086u32.to_le_bytes());
    assert_eq!(wav[40..44], 22050u32.to_le_bytes());
}

#[test]
fn the_alarm_is_made_at_the_limited_volume() {
    let tone = |v: u32| vec![v as i16; 3969];
    for volume in [0, 1, 85, 99, 100] {
        assert_eq!(build_alarm_wav(volume, tone), double_beep(&vec![volume as i16; 3969]));
    }
}

#[test]
fn louder_alarms_are_as_loud_as_the_loudest() {
    let tone = |v: u32| vec![v as i16; 3969];
    let loudest = build_alarm_wav(100, tone);
    for volume in [101, 140, u32::MAX] {
        assert_eq!(build_alarm_wav(volume, tone), loudest);
    }
    let quiet = build_alarm_wav(3, tone);
    assert_ne!(quiet, loudest);
    assert_eq!(quiet.len(), loudest.len());
    assert_eq!(quiet[..44], loudest[..44]);
}

#[test]
fn hotkeys_are_answered_with_tones() {
    assert_eq!(
        beep_feedback(true, Feedback::TurnedOn),
        Some(Tone { frequency: 1320, duration: 120 })
    );
    assert_eq!(
        beep_feedback(true, Feedback::TurnedOff),
        Some(Tone { frequency: 520, duration: 120 })
    );
    assert_eq!(
        beep_feedback(true, Feedback::PresetApplied),
        Some(Tone { frequency: 990, duration: 120 })
    );
    for what in [Feedback::TurnedOn, Feedback::TurnedOff, Feedback::PresetApplied] {
        assert_eq!(beep_feedback(false, what), None);
    }
    assert_eq!(timer_start_tone(true), Some(Tone { frequency: 740, duration: 80 }));
    assert_eq!(timer_start_tone(false), None);
}

#[test]
fn on_is_answered_high_and_off_low() {
    assert_eq!(toggle_feedback(true), Feedback::TurnedOn);
    assert_eq!(toggle_feedback(false), Feedback::TurnedOff);
    let high = beep_feedback(true, toggle_feedback(true)).unwrap();
    let low = beep_feedback(true, toggle_feedback(false)).unwrap();
    assert!(high.frequency > low.frequency);
}

#[test]
fn administrator_rights() {
    assert!(is_admin(1) && is_admin(-1) && !is_admin(0));
    assert_eq!(spawn_elevated(33), Ok(()));
    assert_eq!(spawn_elevated(32), Err(HelperError::ElevationRefused));
    assert_eq!(spawn_elevated(-1), Err(HelperError::ElevationRefused));
    let mut cfg = AppConfig::default();
    assert!(!needs_elevation(&cfg, false));
    cfg.always_admin = true;
    assert!(needs_elevation(&cfg, false) && !needs_elevation(&cfg, true));
}

#[test]
fn updates_and_menu_entries() {
    assert_eq!(install_update(Some(7)), Ok(7));
    assert_eq!(install_update::<u8>(None), Err(HelperError::NoUpdate));
    assert_eq!(menu_action("show"), MenuAction::Show);
    assert_eq!(menu_action("toggle"), MenuAction::Toggle);
    assert_eq!(menu_action("quit"), MenuAction::Quit);
    assert_eq!(menu_action("Quit"), MenuAction::Nothing);
    assert_eq!(menu_action(""), MenuAction::Nothing);
}
