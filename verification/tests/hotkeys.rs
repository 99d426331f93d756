use std::str::FromStr;

use global_hotkey::hotkey::HotKey;
use maplehelper::config::AppConfig;
use maplehelper::config::Preset;
use maplehelper::hook::HookState;
use maplehelper::hotkeys::HotkeyRequest;
use maplehelper::hotkeys::Shortcut;
use maplehelper::hotkeys::ShortcutAction;
use maplehelper::hotkeys::dedupe_hotkeys;
use maplehelper::hotkeys::find_pressed;
use maplehelper::hotkeys::hotkey_candidates;
use maplehelper::hotkeys::keep_last;
use maplehelper::hotkeys::matches_shortcut;
use maplehelper::hotkeys::parse_shortcut;
use maplehelper::hotkeys::shortcut_action;
use maplehelper::hotkeys::sync_hotkeys;
use maplehelper::hotkeys::sync_outcome;
use maplehelper::keys::MainKey;
use maplehelper::settings::AlarmSettings;
use maplehelper::settings::activate_config;
use maplehelper::settings::save_config;

fn opt(s: &str) -> Option<String> {
    if s.is_empty() {
        None
    } else {
        Some(s.to_string())
    }
}

fn config(toggle: &str, presets: &[(&str, &str, &str)]) -> AppConfig {
    AppConfig {
        toggle_hotkey: opt(toggle),
        presets: presets
            .iter()
            .map(|(id, hotkey, timer)| Preset {
                id: id.to_string(),
                hotkey: opt(hotkey),
                timer_hotkey: opt(timer),
                delay_ms: 7,
                ..Default::default()
            })
            .collect(),
        ..Default::default()
    }
}

fn hotkeys_of(cfg: &AppConfig) -> Vec<Option<String>> {
    let mut out = vec![cfg.toggle_hotkey.clone()];
    for p in &cfg.presets {
        out.push(p.hotkey.clone());
        out.push(p.timer_hotkey.clone());
    }
    out
}

fn texts(requests: &[HotkeyRequest]) -> Vec<String> {
    requests.iter().map(|q| q.text.clone()).collect()
}

#[test]
fn the_last_of_equal_hotkeys_stays() {
    let mut cfg = config("ctrl+a", &[("p", " CTRL+A ", "f1"), ("q", "Ctrl+a", "F1 ")]);
    dedupe_hotkeys(&mut cfg);
    assert_eq!(
        hotkeys_of(&cfg),
        vec![None, None, None, Some("Ctrl+a".to_string()), Some("F1 ".to_string())]
    );
}

#[test]
fn a_presets_timer_comes_after_its_hotkey() {
    let mut cfg = config("", &[("p", "f1", "f1"), ("q", "", "")]);
    dedupe_hotkeys(&mut cfg);
    assert_eq!(hotkeys_of(&cfg), vec![None, None, Some("f1".to_string()), None, None]);
}

#[test]
fn timers_come_after_the_hotkeys_of_all_presets() {
    let mut cfg = config("", &[("p", "", "f5"), ("q", "f5", "")]);
    dedupe_hotkeys(&mut cfg);
    assert_eq!(hotkeys_of(&cfg), vec![None, None, opt("f5"), None, None]);
    let mut cfg = config("", &[("p", "", "f5"), ("q", "f5", "f5")]);
    dedupe_hotkeys(&mut cfg);
    assert_eq!(hotkeys_of(&cfg), vec![None, None, None, None, opt("f5")]);
}

#[test]
fn different_hotkeys_all_stay() {
    let mut cfg = config("f9", &[("p", "f10", "f1"), ("q", "f11", "f2")]);
    let before = hotkeys_of(&cfg);
    dedupe_hotkeys(&mut cfg);
    assert_eq!(hotkeys_of(&cfg), before);
}

#[test]
fn removing_doubles_touches_nothing_else() {
    let mut cfg = config("f1", &[("p", "f1", ""), ("q", "f1", "f1")]);
    cfg.active_preset = Some("p".to_string());
    dedupe_hotkeys(&mut cfg);
    assert_eq!(cfg.active_preset, Some("p".to_string()));
    assert_eq!(cfg.unit, "s");
    assert_eq!(cfg.presets.len(), 2);
    assert_eq!(cfg.presets[0].id, "p");
    assert_eq!(cfg.presets[1].delay_ms, 7);
    assert_eq!(hotkeys_of(&cfg).iter().filter(|h| h.is_some()).count(), 1);
}

#[test]
fn removing_doubles_twice_is_removing_them_once() {
    let mut cfg = config("f1", &[("p", "F1", "f2"), ("q", "f2", "f3")]);
    dedupe_hotkeys(&mut cfg);
    let once = hotkeys_of(&cfg);
    dedupe_hotkeys(&mut cfg);
    assert_eq!(hotkeys_of(&cfg), once);
    assert_eq!(once, vec![None, opt("F1"), opt("f2"), None, opt("f3")]);
}

#[test]
fn only_the_last_of_equal_forms_is_kept() {
    let forms = vec![opt("a"), None, opt("b"), opt("a"), None];
    assert_eq!(keep_last(&forms), vec![false, true, true, true, true]);
    assert!(keep_last(&Vec::new()).is_empty());
}

#[test]
fn combinations_are_read_by_the_hotkey_crate() {
    for s in ["ctrl+alt+f9", "Shift + A", "f24", "super+space", "CommandOrControl+Q"] {
        let expected = HotKey::from_str(s).unwrap();
        let read = parse_shortcut(s).unwrap();
        assert_eq!(read.mods, expected.mods.bits());
        assert_eq!(read.key, expected.key as u32);
        assert_eq!(read.id, expected.id);
        assert_eq!(read.id, (read.mods << 16) | read.key);
    }
    for s in ["", "ctrl", "ctrl+", "a+b", "leader+q", "nokey"] {
        assert!(HotKey::from_str(s).is_err());
        assert_eq!(parse_shortcut(s), None, "{}", s);
    }
}

#[test]
fn a_pressed_combination_is_recognised_however_it_is_written() {
    let pressed = parse_shortcut("ctrl+alt+f9").unwrap();
    assert!(matches_shortcut(&pressed, "ctrl+alt+f9"));
    assert!(matches_shortcut(&pressed, "Alt + Control+F9"));
    assert!(!matches_shortcut(&pressed, "ctrl+f9"));
    assert!(!matches_shortcut(&pressed, "ctrl+alt+f10"));
    assert!(!matches_shortcut(&pressed, "no combination"));
}

#[test]
fn a_pressed_combination_toggles_applies_or_does_nothing() {
    let cfg = config("f9", &[("p", "f10", "f12"), ("q", "f11", ""), ("r", "F11", "")]);
    let pressed = |s: &str| shortcut_action(&cfg, &parse_shortcut(s).unwrap());
    assert!(matches!(pressed("f9"), ShortcutAction::Toggle));
    assert!(matches!(pressed("f10"), ShortcutAction::Apply(id) if id == "p"));
    assert!(matches!(pressed("f11"), ShortcutAction::Apply(id) if id == "q"));
    assert!(matches!(pressed("f12"), ShortcutAction::Nothing));
    assert!(matches!(pressed("f1"), ShortcutAction::Nothing));
}

#[test]
fn toggling_goes_before_applying() {
    let cfg = config("f9", &[("p", "f9", "")]);
    let action = shortcut_action(&cfg, &parse_shortcut("f9").unwrap());
    assert!(matches!(action, ShortcutAction::Toggle));
    let cfg = config("", &[("p", "f9", "")]);
    let action = shortcut_action(&cfg, &parse_shortcut("f9").unwrap());
    assert!(matches!(action, ShortcutAction::Apply(id) if id == "p"));
}

#[test]
fn the_first_pressed_combination_is_found() {
    let a = Shortcut { mods: 1, key: 2, id: 3 };
    let b = Shortcut { mods: 1, key: 2, id: 4 };
    let read = vec![None, Some(b), Some(a), Some(a)];
    assert_eq!(find_pressed(&read, &a), Some(2));
    assert_eq!(find_pressed(&read, &b), Some(1));
    assert_eq!(find_pressed(&Vec::new(), &a), None);
}

#[test]
fn leader_combinations_and_timer_keys_are_not_registered() {
    let cfg = config("f9", &[("p", "leader+q", "f1"), ("q", "f10", "f2"), ("r", " Leader+W", "")]);
    assert_eq!(hotkey_candidates(&cfg), vec!["f9", "f10"]);
}

#[test]
fn each_combination_is_registered_once() {
    let cfg = config("f9", &[("p", "F9 ", ""), ("q", "f10", ""), ("r", "f9", "")]);
    let plan = sync_hotkeys(&Vec::new(), &cfg);
    assert_eq!(texts(&plan.register), vec!["f10", "f9"]);
    assert_eq!(plan.register[0].shortcut, parse_shortcut("f10"));
    assert!(plan.release.is_empty());
}

#[test]
fn what_was_registered_before_is_released() {
    let cfg = config("f9", &[]);
    let previous = vec!["f1".to_string(), "nokey".to_string(), "ctrl+f2".to_string()];
    let plan = sync_hotkeys(&previous, &cfg);
    assert_eq!(plan.release, vec!["f1", "ctrl+f2"]);
    assert_eq!(texts(&plan.register), vec!["f9"]);
}

#[test]
fn without_doubles_every_hotkey_is_registered() {
    let mut cfg = config("f9", &[("p", "F9", "f9"), ("q", "f10", ""), ("r", "f11", "f12")]);
    dedupe_hotkeys(&mut cfg);
    let plan = sync_hotkeys(&Vec::new(), &cfg);
    assert_eq!(texts(&plan.register), hotkey_candidates(&cfg));
    assert_eq!(texts(&plan.register), vec!["f10", "f11"]);
}

#[test]
fn registrations_are_sorted_by_how_they_ended() {
    let cfg = config("f9", &[("p", "nokey", ""), ("q", "f10", ""), ("r", "f11", "")]);
    let plan = sync_hotkeys(&Vec::new(), &cfg);
    let outcome = sync_outcome(&plan.register, &vec![true, true, false, true]);
    assert_eq!(outcome.registered, vec!["f9", "f11"]);
    assert_eq!(outcome.failed, vec!["nokey"]);
    assert_eq!(outcome.refused, vec!["f10"]);
}

#[test]
fn every_registration_is_answered() {
    let cfg = config("f9", &[("p", "x y", ""), ("q", "f10", ""), ("r", "f11", "")]);
    let plan = sync_hotkeys(&Vec::new(), &cfg);
    for accepted in [vec![false; 4], vec![true; 4], vec![false, true, true, false]] {
        let outcome = sync_outcome(&plan.register, &accepted);
        let n = outcome.registered.len() + outcome.failed.len() + outcome.refused.len();
        assert_eq!(n, 4);
        assert_eq!(outcome.failed, vec!["x y"]);
    }
}

#[test]
fn a_configuration_is_put_into_effect() {
    let mut cfg = config("f9", &[("p", "leader+q", "a"), ("q", "f10", "")]);
    cfg.combo_leader = Some("capslock".to_string());
    cfg.active_preset = Some("p".to_string());
    cfg.presets[0].timer_enabled = true;
    cfg.presets[0].timer_seconds = 12;
    cfg.alarm_volume = 140;
    cfg.timer_start_sound = true;
    let mut hook = HookState::new();
    let mut alarm = AlarmSettings::new();
    assert_eq!(alarm, AlarmSettings { volume: 85, start_sound: false });
    let plan = activate_config(&vec!["f1".to_string()], &cfg, &mut hook, &mut alarm);
    assert_eq!(texts(&plan.register), vec!["f9", "f10"]);
    assert_eq!(plan.release, vec!["f1"]);
    assert_eq!(alarm, AlarmSettings { volume: 100, start_sound: true });
    assert_eq!(hook.leader, Some(MainKey::Exact(0x14)));
    assert_eq!(hook.leader_bindings, vec![(MainKey::Exact(0x51), "p".to_string())]);
    assert_eq!(hook.timer_bindings.len(), 1);
    assert_eq!(hook.timer_bindings[0].seconds, 12);
}

#[test]
fn registered_hotkeys_do_something() {
    let cfg = config("f9", &[("p", "F9", ""), ("q", "ctrl+f10", "f1"), ("r", "leader+q", "")]);
    let plan = sync_hotkeys(&Vec::new(), &cfg);
    assert_eq!(texts(&plan.register), vec!["F9", "ctrl+f10"]);
    for request in &plan.register {
        let pressed = request.shortcut.unwrap();
        assert!(!matches!(shortcut_action(&cfg, &pressed), ShortcutAction::Nothing));
    }
}

#[test]
fn putting_a_configuration_into_effect_twice_changes_nothing() {
    let mut cfg = config("f9", &[("p", "leader+q", "a")]);
    cfg.combo_leader = Some("tab".to_string());
    cfg.active_preset = Some("p".to_string());
    cfg.presets[0].timer_enabled = true;
    cfg.presets[0].timer_seconds = 12;
    let mut hook = HookState::new();
    let mut alarm = AlarmSettings::new();
    activate_config(&Vec::new(), &cfg, &mut hook, &mut alarm);
    let timers = hook.timer_bindings.clone();
    let leaders = hook.leader_bindings.clone();
    let sound = alarm;
    activate_config(&Vec::new(), &cfg, &mut hook, &mut alarm);
    assert_eq!(hook.timer_bindings, timers);
    assert_eq!(hook.leader_bindings, leaders);
    assert_eq!(alarm, sound);
}

#[test]
fn putting_a_configuration_into_effect_keeps_pressed_keys() {
    let mut cfg = config("f9", &[]);
    cfg.combo_leader = Some("q".to_string());
    let mut hook = HookState::new();
    hook.down.push(0x41);
    hook.leader_held = true;
    hook.leader = Some(MainKey::Exact(0x14));
    let mut alarm = AlarmSettings::new();
    activate_config(&Vec::new(), &cfg, &mut hook, &mut alarm);
    assert_eq!(hook.down, vec![0x41]);
    assert!(hook.leader_held);
    cfg.combo_leader = None;
    activate_config(&Vec::new(), &cfg, &mut hook, &mut alarm);
    assert!(!hook.leader_held);
    assert_eq!(hook.down, vec![0x41]);
}

#[test]
fn saving_removes_doubles_first() {
    let mut cfg = config("f9", &[("p", "f9", ""), ("q", "f10", "f10")]);
    cfg.alarm_volume = 40;
    let mut hook = HookState::new();
    let mut alarm = AlarmSettings::new();
    let plan = save_config(&Vec::new(), &mut cfg, &mut hook, &mut alarm);
    assert_eq!(hotkeys_of(&cfg), vec![None, opt("f9"), None, None, opt("f10")]);
    assert_eq!(texts(&plan.register), vec!["f9"]);
    assert_eq!(alarm, AlarmSettings { volume: 40, start_sound: false });
    assert!(hook.leader.is_none());
}
