use maplehelper::keys::HeldModifiers;
use maplehelper::keys::MainKey;
use maplehelper::keys::VK_CONTROL;
use maplehelper::keys::VK_LWIN;
use maplehelper::keys::VK_MENU;
use maplehelper::keys::VK_RWIN;
use maplehelper::keys::VK_SHIFT;
use maplehelper::keys::any_modifier_down;
use maplehelper::keys::held_modifiers;
use maplehelper::keys::is_modifier_vk;
use maplehelper::keys::key_down;
use maplehelper::keys::key_tokens;
use maplehelper::keys::leader_rest;
use maplehelper::keys::main_matches;
use maplehelper::keys::parse_key_tokens;
use maplehelper::keys::parse_timer_key;
use maplehelper::keys::strip_leader_prefix;
use maplehelper::keys::token_to_vk;

const NONE: HeldModifiers = HeldModifiers {
    ctrl: false,
    alt: false,
    shift: false,
    left_win: false,
    right_win: false,
};

#[test]
fn letters_and_digits_name_themselves() {
    assert_eq!(token_to_vk("a"), Some(0x41));
    assert_eq!(token_to_vk("Z"), Some(0x5A));
    assert_eq!(token_to_vk("0"), Some(0x30));
    assert_eq!(token_to_vk("9"), Some(0x39));
    assert_eq!(token_to_vk("f"), Some(0x46));
    assert_eq!(token_to_vk("é"), None);
    assert_eq!(token_to_vk("가"), None);
    assert_eq!(token_to_vk("-"), None);
    assert_eq!(token_to_vk(""), None);
}

#[test]
fn function_keys_go_from_one_to_twenty_four() {
    assert_eq!(token_to_vk("f1"), Some(0x70));
    assert_eq!(token_to_vk("f12"), Some(0x7B));
    assert_eq!(token_to_vk("f24"), Some(0x87));
    assert_eq!(token_to_vk("f05"), Some(0x74));
    assert_eq!(token_to_vk("f+5"), Some(0x74));
    assert_eq!(token_to_vk("f0"), None);
    assert_eq!(token_to_vk("f25"), None);
    assert_eq!(token_to_vk("F5"), None);
    assert_eq!(token_to_vk("f1x"), None);
    assert_eq!(token_to_vk("f99999999999"), None);
}

#[test]
fn named_keys_have_their_codes() {
    let named: Vec<(&str, u32)> = vec![
        ("space", 0x20),
        ("enter", 0x0D),
        ("tab", 0x09),
        ("capslock", 0x14),
        ("backspace", 0x08),
        ("home", 0x24),
        ("end", 0x23),
        ("pageup", 0x21),
        ("pagedown", 0x22),
        ("insert", 0x2D),
        ("delete", 0x2E),
        ("up", 0x26),
        ("down", 0x28),
        ("left", 0x25),
        ("right", 0x27),
        ("minus", 0xBD),
        ("equal", 0xBB),
        ("comma", 0xBC),
        ("period", 0xBE),
        ("slash", 0xBF),
        ("semicolon", 0xBA),
        ("quote", 0xDE),
        ("backquote", 0xC0),
        ("bracketleft", 0xDB),
        ("bracketright", 0xDD),
        ("backslash", 0xDC),
    ];
    for (name, vk) in named {
        assert_eq!(token_to_vk(name), Some(vk), "{}", name);
    }
    assert_eq!(token_to_vk("escape"), None);
    assert_eq!(token_to_vk("Space"), None);
}

#[test]
fn no_token_names_a_modifier_key() {
    for t in ["a", "z", "0", "f1", "f24", "capslock", "left", "shift", "ctrl", "alt", "super"] {
        if let Some(vk) = token_to_vk(t) {
            assert!(!is_modifier_vk(vk), "{}", t);
        }
    }
}

#[test]
fn combinations_are_split_at_plus_signs() {
    assert_eq!(key_tokens("Ctrl + Shift+F1"), vec!["ctrl", "shift", "f1"]);
    assert_eq!(key_tokens("+a++"), vec!["a"]);
    assert!(key_tokens(" + ").is_empty());
    assert!(key_tokens("").is_empty());
}

#[test]
fn combinations_are_read() {
    assert_eq!(parse_timer_key("shift"), Some((MainKey::Shift, false, false, false)));
    assert_eq!(parse_timer_key("ctrl+a"), Some((MainKey::Exact(0x41), true, false, false)));
    assert_eq!(
        parse_timer_key("ctrl+shift+f1"),
        Some((MainKey::Exact(0x70), true, false, true))
    );
    assert_eq!(parse_timer_key("Alt + Super+ Q "), Some((MainKey::Exact(0x51), false, true, false)));
    assert_eq!(parse_timer_key("ctrl+alt"), Some((MainKey::Alt, true, false, false)));
    assert_eq!(parse_timer_key("super"), Some((MainKey::Meta, false, false, false)));
    assert_eq!(parse_timer_key("ctrl"), Some((MainKey::Ctrl, false, false, false)));
}

#[test]
fn other_texts_are_no_combinations() {
    for s in ["", " ", "+", "a+b", "a+ctrl", "ctrl+nokey", "leader+a", "win+a", "ctrl+가"] {
        assert_eq!(parse_timer_key(s), None, "{}", s);
    }
}

#[test]
fn tokens_make_a_combination() {
    let tokens = vec!["alt".to_string(), "alt".to_string(), "5".to_string()];
    assert_eq!(parse_key_tokens(&tokens), Some((MainKey::Exact(0x35), false, true, false)));
    assert_eq!(parse_key_tokens(&Vec::new()), None);
    assert_eq!(parse_key_tokens(&vec!["x".to_string(), "5".to_string()]), None);
}

#[test]
fn leader_combinations_are_recognised() {
    assert_eq!(strip_leader_prefix("leader+X"), Some("x".to_string()));
    assert_eq!(strip_leader_prefix("  Leader+F5 "), Some("f5".to_string()));
    assert_eq!(strip_leader_prefix("leader+ a"), Some(" a".to_string()));
    assert_eq!(strip_leader_prefix("leader+"), None);
    assert_eq!(strip_leader_prefix("leader+   "), None);
    assert_eq!(strip_leader_prefix("leader"), None);
    assert_eq!(strip_leader_prefix("ctrl+a"), None);
    assert_eq!(strip_leader_prefix("leader +a"), None);
    assert_eq!(leader_rest("leader+q"), Some("q".to_string()));
    assert_eq!(leader_rest("leaderq+"), None);
}

#[test]
fn modifier_codes() {
    let modifiers = vec![0x10, 0x11, 0x12, 0xA0, 0xA1, 0xA2, 0xA3, 0xA4, 0xA5, 0x5B, 0x5C];
    for vk in 0..=0x100u32 {
        assert_eq!(is_modifier_vk(vk), modifiers.contains(&vk));
    }
}

#[test]
fn main_keys_stand_for_codes() {
    for vk in 0..=0x100u32 {
        assert_eq!(main_matches(&MainKey::Exact(0x41), vk), vk == 0x41);
        assert_eq!(main_matches(&MainKey::Shift, vk), [0xA0, 0xA1, 0x10].contains(&vk));
        assert_eq!(main_matches(&MainKey::Ctrl, vk), [0xA2, 0xA3, 0x11].contains(&vk));
        assert_eq!(main_matches(&MainKey::Alt, vk), [0xA4, 0xA5, 0x12].contains(&vk));
        assert_eq!(main_matches(&MainKey::Meta, vk), [0x5B, 0x5C].contains(&vk));
    }
}

#[test]
fn all_main_keys_but_exact_ones_are_modifiers() {
    assert!(!MainKey::Exact(0x10).is_modifier());
    assert!(MainKey::Shift.is_modifier());
    assert!(MainKey::Ctrl.is_modifier());
    assert!(MainKey::Alt.is_modifier());
    assert!(MainKey::Meta.is_modifier());
}

#[test]
fn a_key_is_down_where_the_highest_bit_is_set() {
    assert!(key_down(-32768));
    assert!(key_down(-1));
    assert!(!key_down(0));
    assert!(!key_down(1));
    assert!(!key_down(i16::MAX));
}

#[test]
fn any_one_modifier_counts() {
    assert!(!any_modifier_down(&NONE));
    assert!(any_modifier_down(&HeldModifiers { ctrl: true, ..NONE }));
    assert!(any_modifier_down(&HeldModifiers { alt: true, ..NONE }));
    assert!(any_modifier_down(&HeldModifiers { shift: true, ..NONE }));
    assert!(any_modifier_down(&HeldModifiers { left_win: true, ..NONE }));
    assert!(any_modifier_down(&HeldModifiers { right_win: true, ..NONE }));
}

#[test]
fn each_modifier_is_read_from_its_own_state() {
    let d = i16::MIN;
    assert_eq!(held_modifiers(0, 1, 0, 0, 1), NONE);
    assert_eq!(held_modifiers(d, 0, 0, 0, 0), HeldModifiers { ctrl: true, ..NONE });
    assert_eq!(held_modifiers(0, -1, 0, 0, 0), HeldModifiers { alt: true, ..NONE });
    assert_eq!(held_modifiers(0, 0, d, 0, 0), HeldModifiers { shift: true, ..NONE });
    assert_eq!(held_modifiers(0, 0, 0, d, 0), HeldModifiers { left_win: true, ..NONE });
    assert_eq!(held_modifiers(0, 0, 0, 0, d), HeldModifiers { right_win: true, ..NONE });
}

#[test]
fn modifier_codes_belong_to_their_keys() {
    assert!(main_matches(&MainKey::Ctrl, VK_CONTROL));
    assert!(main_matches(&MainKey::Alt, VK_MENU));
    assert!(main_matches(&MainKey::Shift, VK_SHIFT));
    assert!(main_matches(&MainKey::Meta, VK_LWIN));
    assert!(main_matches(&MainKey::Meta, VK_RWIN));
    let codes = [VK_CONTROL, VK_MENU, VK_SHIFT, VK_LWIN, VK_RWIN];
    assert_eq!(codes, [0x11, 0x12, 0x10, 0x5B, 0x5C]);
}
