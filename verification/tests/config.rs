use maplehelper::config::AppConfig;
use maplehelper::config::Preset;
use maplehelper::config::yes;
use maplehelper::load::load_config;

fn raw(s: &str) -> Option<String> {
    Some(s.to_string())
}

fn windows(wait_ms: u32, delay_ms: u32) -> Preset {
    Preset { id: "windefault".to_string(), wait_ms, delay_ms, ..Default::default() }
}

fn with_presets(presets: Vec<Preset>) -> AppConfig {
    AppConfig { presets, ..Default::default() }
}

#[test]
fn a_new_preset_is_empty_and_turns_the_filter_keys_on() {
    let p = Preset::default();
    assert!(p.id.is_empty() && p.name.is_empty());
    assert_eq!((p.wait_ms, p.delay_ms, p.repeat_ms, p.bounce_ms), (0, 0, 0, 0));
    assert!(p.hotkey.is_none() && p.timer_hotkey.is_none());
    assert!(p.filter_on && !p.timer_enabled);
    assert_eq!(p.timer_seconds, 0);
    assert!(yes());
}

#[test]
fn a_new_configuration_has_three_presets() {
    let cfg = AppConfig::default();
    assert_eq!(cfg.unit, "s");
    assert!(cfg.persist_registry && cfg.beep_on_hotkey);
    assert!(!cfg.timer_start_sound && !cfg.always_admin);
    assert_eq!(cfg.alarm_volume, 85);
    assert!(cfg.combo_leader.is_none() && cfg.active_preset.is_none());
    assert_eq!(cfg.toggle_hotkey.as_deref(), Some("ctrl+alt+f9"));
    let presets: Vec<(&str, &str, Option<&str>, bool)> = cfg
        .presets
        .iter()
        .map(|p| (p.id.as_str(), p.name.as_str(), p.hotkey.as_deref(), p.filter_on))
        .collect();
    assert_eq!(
        presets,
        vec![
            ("hunt", "사냥", Some("ctrl+alt+f10"), true),
            ("boss", "보스", Some("ctrl+alt+f11"), true),
            ("windefault", "윈도우 기본값", None, false),
        ]
    );
    let values: Vec<(u32, u32, u32, u32)> = cfg
        .presets
        .iter()
        .map(|p| (p.wait_ms, p.delay_ms, p.repeat_ms, p.bounce_ms))
        .collect();
    assert_eq!(values, vec![(0, 150, 20, 0), (0, 100, 10, 0), (1000, 1000, 500, 0)]);
}

#[test]
fn presets_are_found_by_their_ids() {
    let mut cfg = AppConfig::default();
    assert_eq!(cfg.find_preset("boss"), Some(1));
    assert_eq!(cfg.find_preset("Boss"), None);
    assert_eq!(cfg.find_active(), None);
    cfg.active_preset = Some("windefault".to_string());
    assert_eq!(cfg.find_active(), Some(2));
    cfg.active_preset = Some("gone".to_string());
    assert_eq!(cfg.find_active(), None);
    let first = cfg.presets[0].clone();
    cfg.presets.push(first);
    assert_eq!(cfg.find_preset("hunt"), Some(0));
}

#[test]
fn the_first_start_has_a_new_configuration() {
    let cfg = load_config(&None, None);
    assert_eq!(cfg.presets.len(), 3);
    assert_eq!(cfg.toggle_hotkey.as_deref(), Some("ctrl+alt+f9"));
    assert!(!cfg.presets[2].filter_on);
}

#[test]
fn an_unreadable_text_gives_a_new_configuration() {
    let cfg = load_config(&raw("filterOn {"), None);
    assert_eq!(cfg.presets.len(), 3);
    assert!(cfg.presets[0].filter_on && !cfg.presets[2].filter_on);
}

#[test]
fn old_configurations_turn_the_filter_keys_off_for_the_systems_values() {
    let cfg = load_config(&raw("{}"), Some(with_presets(vec![windows(1000, 1000)])));
    assert!(!cfg.presets[0].filter_on);
    let cfg = load_config(&raw("{}"), Some(with_presets(vec![windows(5000, 1001)])));
    assert!(!cfg.presets[0].filter_on);
}

#[test]
fn old_presets_with_other_values_or_ids_stay() {
    let mut other = windows(1000, 1000);
    other.id = "hunt".to_string();
    let cfg = with_presets(vec![windows(999, 1000), windows(1000, 999), other]);
    let cfg = load_config(&raw("{}"), Some(cfg));
    assert!(cfg.presets.iter().all(|p| p.filter_on));
}

#[test]
fn a_stored_choice_is_kept() {
    let text = raw("{\"presets\":[{\"filterOn\":true}]}");
    let cfg = load_config(&text, Some(with_presets(vec![windows(1000, 1000)])));
    assert!(cfg.presets[0].filter_on);
}

#[test]
fn migration_turns_off_and_does_nothing_else() {
    let mut p = windows(1000, 1000);
    p.name = "n".to_string();
    p.hotkey = Some("f1".to_string());
    p.timer_seconds = 3;
    let cfg = load_config(&raw("{}"), Some(with_presets(vec![p])));
    let again = load_config(&raw("{}"), Some(cfg.clone()));
    for c in [cfg, again] {
        assert_eq!(c.presets[0].name, "n");
        assert_eq!(c.presets[0].hotkey.as_deref(), Some("f1"));
        assert_eq!(c.presets[0].timer_seconds, 3);
        assert!(!c.presets[0].filter_on);
    }
}

#[test]
fn doubled_hotkeys_are_removed_on_loading() {
    let mut cfg = AppConfig::default();
    cfg.presets[0].hotkey = Some("Ctrl+Alt+F9".to_string());
    let cfg = load_config(&raw("{\"filterOn\":0}"), Some(cfg));
    assert_eq!(cfg.toggle_hotkey, None);
    assert_eq!(cfg.presets[0].hotkey.as_deref(), Some("Ctrl+Alt+F9"));
}

#[test]
fn a_loaded_configuration_has_no_doubled_hotkeys() {
    let mut cfg = AppConfig::default();
    cfg.presets[0].timer_hotkey = Some("ctrl+alt+f11".to_string());
    cfg.presets[1].timer_hotkey = Some(" Ctrl+Alt+F10".to_string());
    let mut once = load_config(&None, Some(cfg));
    let hotkeys = |c: &AppConfig| -> Vec<Option<String>> {
        c.presets.iter().flat_map(|p| [p.hotkey.clone(), p.timer_hotkey.clone()]).collect()
    };
    let before = hotkeys(&once);
    assert_eq!(before[0], None);
    assert_eq!(before[1].as_deref(), Some("ctrl+alt+f11"));
    assert_eq!(before[2], None);
    assert_eq!(before[3].as_deref(), Some(" Ctrl+Alt+F10"));
    maplehelper::hotkeys::dedupe_hotkeys(&mut once);
    assert_eq!(hotkeys(&once), before);
}
