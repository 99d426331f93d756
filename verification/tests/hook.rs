use maplehelper::config::AppConfig;
use maplehelper::config::Preset;
use maplehelper::hook::HookOutcome;
use maplehelper::hook::HookState;
use maplehelper::hook::TimerBinding;
use maplehelper::hook::WM_KEYDOWN;
use maplehelper::hook::WM_KEYUP;
use maplehelper::hook::WM_SYSKEYDOWN;
use maplehelper::hook::WM_SYSKEYUP;
use maplehelper::hook::active_timer;
use maplehelper::hook::handle_leader_combo;
use maplehelper::hook::maybe_trigger_timer;
use maplehelper::hook::rebuild_leader_bindings;
use maplehelper::hook::rebuild_timer_bindings;
use maplehelper::hook::set_capture_mode;
use maplehelper::hook::timer_binding;
use maplehelper::hook::timer_hook_proc;
use maplehelper::keys::HeldModifiers;
use maplehelper::keys::MainKey;

const NONE: HeldModifiers = HeldModifiers {
    ctrl: false,
    alt: false,
    shift: false,
    left_win: false,
    right_win: false,
};

const CAPSLOCK: u32 = 0x14;
const SHIFT: u32 = 0xA0;
const A: u32 = 0x41;
const Q: u32 = 0x51;

fn preset(id: &str, hotkey: Option<&str>, timer: Option<(u32, &str)>) -> Preset {
    Preset {
        id: id.to_string(),
        hotkey: hotkey.map(|s| s.to_string()),
        timer_enabled: timer.is_some(),
        timer_seconds: timer.map(|t| t.0).unwrap_or(0),
        timer_hotkey: timer.map(|t| t.1.to_string()),
        ..Default::default()
    }
}

fn config(leader: Option<&str>, active: Option<&str>, presets: Vec<Preset>) -> AppConfig {
    AppConfig {
        combo_leader: leader.map(|s| s.to_string()),
        active_preset: active.map(|s| s.to_string()),
        presets,
        ..Default::default()
    }
}

fn hook_for(cfg: &AppConfig) -> HookState {
    let mut hook = HookState::new();
    rebuild_timer_bindings(&mut hook, cfg);
    rebuild_leader_bindings(&mut hook, cfg);
    hook
}

fn game(leader: &str) -> HookState {
    hook_for(&config(
        Some(leader),
        Some("hunt"),
        vec![
            preset("hunt", Some("leader+q"), Some((30, "a"))),
            preset("boss", Some("Leader+W"), Some((60, "ctrl+s"))),
            preset("other", Some("ctrl+alt+f1"), None),
            preset("late", Some("leader+q"), None),
        ],
    ))
}

fn down(hook: &mut HookState, vk: u32) -> HookOutcome {
    timer_hook_proc(hook, 0, WM_KEYDOWN, vk, &NONE)
}

fn up(hook: &mut HookState, vk: u32) -> HookOutcome {
    timer_hook_proc(hook, 0, WM_KEYUP, vk, &NONE)
}

fn passed(outcome: &HookOutcome) -> bool {
    !outcome.swallow && outcome.timer.is_none() && outcome.preset.is_none()
}

#[test]
fn a_new_hook_waits_for_nothing() {
    let mut hook = HookState::new();
    assert!(passed(&down(&mut hook, A)));
    assert!(passed(&up(&mut hook, A)));
    assert!(hook.leader.is_none() && !hook.leader_held && !hook.capture);
    assert!(hook.down.is_empty() && hook.swallowed.is_empty());
    assert!(hook.timer_bindings.is_empty() && hook.leader_bindings.is_empty());
}

#[test]
fn the_timer_key_starts_the_timer_and_passes() {
    let mut hook = game("capslock");
    let outcome = down(&mut hook, A);
    assert_eq!(outcome.timer, Some(30));
    assert!(!outcome.swallow && outcome.preset.is_none());
    assert!(passed(&up(&mut hook, A)));
}

#[test]
fn repeats_start_no_timer() {
    let mut hook = game("capslock");
    assert_eq!(down(&mut hook, A).timer, Some(30));
    assert!(passed(&down(&mut hook, A)));
    assert!(passed(&down(&mut hook, A)));
    up(&mut hook, A);
    assert_eq!(down(&mut hook, A).timer, Some(30));
}

#[test]
fn only_the_applied_presets_timer_counts() {
    let cfg = config(
        None,
        Some("b"),
        vec![preset("a", None, Some((10, "a"))), preset("b", None, Some((20, "q")))],
    );
    let mut hook = hook_for(&cfg);
    assert_eq!(hook.timer_bindings.len(), 1);
    assert_eq!(down(&mut hook, A).timer, None);
    assert_eq!(down(&mut hook, Q).timer, Some(20));
    assert_eq!(active_timer(&cfg), Some((20, "q".to_string())));
}

#[test]
fn timers_without_use_duration_key_or_preset_do_not_count() {
    let mut off = preset("a", None, Some((10, "a")));
    off.timer_enabled = false;
    let zero = preset("a", None, Some((0, "a")));
    let mut keyless = preset("a", None, Some((10, "a")));
    keyless.timer_hotkey = None;
    let unreadable = preset("a", None, Some((10, "nokey")));
    for p in [off, zero, keyless, unreadable] {
        let hook = hook_for(&config(None, Some("a"), vec![p]));
        assert!(hook.timer_bindings.is_empty());
    }
    let gone = config(None, Some("gone"), vec![preset("a", None, Some((10, "a")))]);
    assert!(hook_for(&gone).timer_bindings.is_empty());
    let none = config(None, None, vec![preset("a", None, Some((10, "a")))]);
    assert!(hook_for(&none).timer_bindings.is_empty());
    assert_eq!(active_timer(&none), None);
}

#[test]
fn a_timer_key_asks_for_its_modifiers() {
    let binding = timer_binding(5, Some((MainKey::Exact(A), true, false, true)));
    assert_eq!(
        binding,
        vec![TimerBinding {
            seconds: 5,
            main: MainKey::Exact(A),
            need_ctrl: true,
            need_alt: false,
            need_shift: true,
        }]
    );
    assert!(timer_binding(5, None).is_empty());
    let both = HeldModifiers { ctrl: true, shift: true, ..NONE };
    assert_eq!(maybe_trigger_timer(&binding, A, &both), Some(5));
    assert_eq!(maybe_trigger_timer(&binding, A, &HeldModifiers { alt: true, ..both }), Some(5));
    assert_eq!(maybe_trigger_timer(&binding, A, &HeldModifiers { ctrl: true, ..NONE }), None);
    assert_eq!(maybe_trigger_timer(&binding, A, &HeldModifiers { shift: true, ..NONE }), None);
    assert_eq!(maybe_trigger_timer(&binding, Q, &both), None);
    let alt = timer_binding(9, Some((MainKey::Exact(A), false, true, false)));
    assert_eq!(maybe_trigger_timer(&alt, A, &NONE), None);
    assert_eq!(maybe_trigger_timer(&alt, A, &HeldModifiers { alt: true, ..NONE }), Some(9));
}

#[test]
fn the_first_binding_wins() {
    let bindings = vec![
        TimerBinding {
            seconds: 1,
            main: MainKey::Exact(A),
            need_ctrl: true,
            need_alt: false,
            need_shift: false,
        },
        TimerBinding {
            seconds: 2,
            main: MainKey::Exact(A),
            need_ctrl: false,
            need_alt: false,
            need_shift: false,
        },
        TimerBinding {
            seconds: 3,
            main: MainKey::Exact(A),
            need_ctrl: false,
            need_alt: false,
            need_shift: false,
        },
    ];
    assert_eq!(maybe_trigger_timer(&bindings, A, &NONE), Some(2));
    assert_eq!(maybe_trigger_timer(&bindings, A, &HeldModifiers { ctrl: true, ..NONE }), Some(1));
}

#[test]
fn a_shift_key_can_start_a_timer() {
    let cfg = config(None, Some("a"), vec![preset("a", None, Some((10, "shift")))]);
    let mut hook = hook_for(&cfg);
    let outcome = down(&mut hook, SHIFT);
    assert_eq!(outcome.timer, Some(10));
    assert!(!outcome.swallow);
}

#[test]
fn leader_combinations_select_presets() {
    let mut hook = game("capslock");
    let outcome = down(&mut hook, CAPSLOCK);
    assert!(outcome.swallow && outcome.preset.is_none() && outcome.timer.is_none());
    assert!(hook.leader_held);
    let outcome = down(&mut hook, Q);
    assert!(outcome.swallow);
    assert_eq!(outcome.preset, Some("hunt".to_string()));
    assert!(up(&mut hook, Q).swallow);
    assert_eq!(down(&mut hook, 0x57).preset, Some("boss".to_string()));
    assert!(up(&mut hook, 0x57).swallow);
    assert!(up(&mut hook, CAPSLOCK).swallow);
    assert!(!hook.leader_held);
    assert!(hook.swallowed.is_empty() && hook.down.is_empty());
}

#[test]
fn keys_without_a_preset_are_swallowed_while_the_leader_is_held() {
    let mut hook = game("capslock");
    down(&mut hook, CAPSLOCK);
    let outcome = down(&mut hook, A);
    assert!(outcome.swallow);
    assert!(outcome.preset.is_none() && outcome.timer.is_none());
}

#[test]
fn presets_are_selected_only_with_the_leader() {
    let mut hook = game("capslock");
    assert!(passed(&down(&mut hook, Q)));
    up(&mut hook, Q);
    down(&mut hook, CAPSLOCK);
    up(&mut hook, CAPSLOCK);
    assert!(passed(&down(&mut hook, Q)));
}

#[test]
fn repeats_select_no_preset_but_are_swallowed() {
    let mut hook = game("capslock");
    down(&mut hook, CAPSLOCK);
    assert!(down(&mut hook, Q).preset.is_some());
    let repeat = down(&mut hook, Q);
    assert!(repeat.swallow && repeat.preset.is_none());
}

#[test]
fn a_repeated_key_has_one_release_swallowed() {
    let mut hook = game("capslock");
    down(&mut hook, CAPSLOCK);
    down(&mut hook, CAPSLOCK);
    down(&mut hook, Q);
    assert!(down(&mut hook, Q).swallow);
    assert!(down(&mut hook, Q).swallow);
    assert_eq!(hook.swallowed, vec![CAPSLOCK, Q]);
    assert!(up(&mut hook, Q).swallow);
    assert!(passed(&up(&mut hook, Q)));
    assert!(up(&mut hook, CAPSLOCK).swallow);
    assert!(hook.swallowed.is_empty());
}

#[test]
fn released_keys_are_left_alone() {
    for leader_first in [false, true] {
        let mut hook = game("capslock");
        down(&mut hook, CAPSLOCK);
        down(&mut hook, A);
        down(&mut hook, A);
        let order = if leader_first { [CAPSLOCK, A] } else { [A, CAPSLOCK] };
        for vk in order {
            assert!(up(&mut hook, vk).swallow);
        }
        for _ in 0..3 {
            assert!(!down(&mut hook, A).swallow);
            assert!(!down(&mut hook, A).swallow);
            assert!(passed(&up(&mut hook, A)));
        }
        down(&mut hook, CAPSLOCK);
        assert!(down(&mut hook, A).swallow);
    }
}

#[test]
fn the_release_of_a_swallowed_key_is_swallowed_after_the_leaders() {
    let mut hook = game("capslock");
    down(&mut hook, CAPSLOCK);
    down(&mut hook, Q);
    up(&mut hook, CAPSLOCK);
    down(&mut hook, A);
    up(&mut hook, A);
    assert!(up(&mut hook, Q).swallow);
}

#[test]
fn a_passed_press_is_released() {
    let mut hook = game("capslock");
    down(&mut hook, A);
    down(&mut hook, CAPSLOCK);
    assert!(passed(&up(&mut hook, A)));
}

#[test]
fn a_modifier_leader_passes() {
    let mut hook = game("shift");
    assert!(passed(&down(&mut hook, SHIFT)));
    assert!(hook.leader_held);
    assert!(down(&mut hook, Q).swallow);
    assert!(passed(&up(&mut hook, SHIFT)));
    assert!(!hook.leader_held);
}

#[test]
fn modifiers_pass_while_the_leader_is_held() {
    let mut hook = game("capslock");
    down(&mut hook, CAPSLOCK);
    for vk in [0x10, 0x11, 0x12, 0xA0, 0xA1, 0xA2, 0xA3, 0xA4, 0xA5, 0x5B, 0x5C] {
        assert!(passed(&down(&mut hook, vk)));
        assert!(passed(&up(&mut hook, vk)));
    }
}

#[test]
fn a_leader_pressed_with_a_modifier_passes() {
    for held in [
        HeldModifiers { ctrl: true, ..NONE },
        HeldModifiers { alt: true, ..NONE },
        HeldModifiers { shift: true, ..NONE },
        HeldModifiers { left_win: true, ..NONE },
        HeldModifiers { right_win: true, ..NONE },
    ] {
        let mut hook = game("tab");
        let outcome = timer_hook_proc(&mut hook, 0, WM_SYSKEYDOWN, 0x09, &held);
        assert!(passed(&outcome));
        assert!(!hook.leader_held);
        assert!(passed(&timer_hook_proc(&mut hook, 0, WM_SYSKEYUP, 0x09, &held)));
    }
}

#[test]
fn without_a_leader_nothing_is_swallowed() {
    let mut hook = hook_for(&config(
        None,
        None,
        vec![preset("hunt", Some("leader+q"), None)],
    ));
    assert!(hook.leader_bindings.is_empty());
    for vk in 1..=0xFEu32 {
        assert!(!down(&mut hook, vk).swallow);
    }
    for vk in 1..=0xFEu32 {
        assert!(!up(&mut hook, vk).swallow);
    }
}

#[test]
fn messages_with_a_negative_code_pass() {
    let mut hook = game("capslock");
    assert!(passed(&timer_hook_proc(&mut hook, -1, WM_KEYDOWN, CAPSLOCK, &NONE)));
    assert!(!hook.leader_held && hook.down.is_empty());
}

#[test]
fn other_messages_pass() {
    let mut hook = game("capslock");
    assert!(passed(&timer_hook_proc(&mut hook, 0, 0x0102, A, &NONE)));
    assert!(hook.down.is_empty());
}

#[test]
fn everything_passes_while_recording() {
    let mut hook = game("capslock");
    set_capture_mode(&mut hook, true);
    for vk in [CAPSLOCK, Q, A] {
        assert!(passed(&down(&mut hook, vk)));
        assert!(passed(&up(&mut hook, vk)));
    }
    assert!(hook.down.is_empty() && !hook.leader_held);
}

#[test]
fn a_recording_leaves_nothing_held() {
    let mut hook = game("capslock");
    down(&mut hook, CAPSLOCK);
    down(&mut hook, Q);
    set_capture_mode(&mut hook, true);
    assert!(hook.leader_held);
    set_capture_mode(&mut hook, false);
    assert!(!hook.capture && !hook.leader_held);
    assert!(hook.down.is_empty() && hook.swallowed.is_empty());
    assert!(passed(&up(&mut hook, Q)));
}

#[test]
fn the_leader_ignores_modifiers_in_its_setting() {
    let mut hook = hook_for(&config(Some("ctrl+q"), None, vec![preset("p", Some("leader+a"), None)]));
    assert_eq!(hook.leader, Some(MainKey::Exact(Q)));
    assert!(down(&mut hook, Q).swallow);
}

#[test]
fn taking_the_leader_away_releases_it() {
    let mut hook = game("capslock");
    down(&mut hook, CAPSLOCK);
    rebuild_leader_bindings(&mut hook, &config(Some("nokey"), None, Vec::new()));
    assert!(hook.leader.is_none() && !hook.leader_held && hook.leader_bindings.is_empty());
    assert!(passed(&down(&mut hook, Q)));
    assert!(up(&mut hook, CAPSLOCK).swallow);
}

#[test]
fn leader_bindings_follow_the_presets() {
    let hook = game("capslock");
    assert_eq!(
        hook.leader_bindings,
        vec![
            (MainKey::Exact(Q), "hunt".to_string()),
            (MainKey::Exact(0x57), "boss".to_string()),
            (MainKey::Exact(Q), "late".to_string()),
        ]
    );
    assert_eq!(handle_leader_combo(&hook.leader_bindings, Q), Some("hunt".to_string()));
    assert_eq!(handle_leader_combo(&hook.leader_bindings, A), None);
}

#[test]
fn combinations_of_several_keys_are_no_leader_bindings() {
    let hook = hook_for(&config(
        Some("capslock"),
        None,
        vec![
            preset("a", Some("leader+ctrl+q"), None),
            preset("b", Some("leader+ f5"), None),
            preset("c", None, None),
        ],
    ));
    assert_eq!(hook.leader_bindings, vec![(MainKey::Exact(0x74), "b".to_string())]);
}

#[test]
fn the_memory_stays_in_order() {
    let mut hook = game("capslock");
    let keys = [A, CAPSLOCK, Q, Q, SHIFT, A, Q, SHIFT, CAPSLOCK, A, A, SHIFT, Q];
    for (i, vk) in keys.iter().enumerate() {
        let msg = if i % 3 == 2 { WM_KEYUP } else { WM_KEYDOWN };
        timer_hook_proc(&mut hook, 0, msg, *vk, &NONE);
        let mut down = hook.down.clone();
        down.sort();
        down.dedup();
        assert_eq!(down.len(), hook.down.len());
        assert!(!hook.swallowed.contains(&SHIFT));
        assert!(hook.timer_bindings.iter().all(|b| b.seconds > 0));
    }
}
