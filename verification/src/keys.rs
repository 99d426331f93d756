//! Keys: virtual-key codes, the names under which hotkeys are written, and modifier keys.

use vstd::prelude::*;

use crate::text;
use crate::text::chars_of;
use crate::text::normalize;
use crate::text::parse_number;
use crate::text::text_eq;

verus! {

/// The key that ends a combination.
#[derive(Clone, Copy, PartialEq, Eq, Structural, Debug)]
pub enum MainKey {
    /// One virtual-key code.
    Exact(u32),
    /// Either shift key.
    Shift,
    /// Either control key.
    Ctrl,
    /// Either alt key.
    Alt,
    /// Either Windows key.
    Meta,
}

impl MainKey {
    /// Whether this is one of the shift, control, alt or Windows keys, which a game needs and which
    /// are therefore never taken away from it.
    pub fn is_modifier(&self) -> (r: bool)
        ensures
            r == !(*self is Exact),
    {
        !matches!(self, MainKey::Exact(_))
    }
}

/// Which modifier keys are down at one moment.
#[derive(Clone, Copy, PartialEq, Eq, Structural, Debug)]
pub struct HeldModifiers {
    pub ctrl: bool,
    pub alt: bool,
    pub shift: bool,
    pub left_win: bool,
    pub right_win: bool,
}

impl HeldModifiers {
    /// Whether any of them is down.
    pub open spec fn any(self) -> bool {
        self.ctrl || self.alt || self.shift || self.left_win || self.right_win
    }
}

/// Whether the system's answer about a key says that it is down: its highest bit is set.
pub fn key_down(state: i16) -> (r: bool)
    ensures
        r == (state < 0),
{
    assert((state as u16 & 0x8000u16 != 0) == (state < 0)) by (bit_vector);
    (state as u16 & 0x8000) != 0
}

/// The virtual-key code of either shift key.
pub const VK_SHIFT: u32 = 0x10;

/// The virtual-key code of either control key.
pub const VK_CONTROL: u32 = 0x11;

/// The virtual-key code of either alt key.
pub const VK_MENU: u32 = 0x12;

/// The virtual-key code of the left Windows key.
pub const VK_LWIN: u32 = 0x5B;

/// The virtual-key code of the right Windows key.
pub const VK_RWIN: u32 = 0x5C;

/// Which modifier keys are down, from the system's answers about `VK_CONTROL`, `VK_MENU`, `VK_SHIFT`,
/// `VK_LWIN` and `VK_RWIN`.
pub fn held_modifiers(
    control: i16,
    menu: i16,
    shift: i16,
    left_win: i16,
    right_win: i16,
) -> (r: HeldModifiers)
    ensures
        r.ctrl == (control < 0),
        r.alt == (menu < 0),
        r.shift == (shift < 0),
        r.left_win == (left_win < 0),
        r.right_win == (right_win < 0),
{
    HeldModifiers {
        ctrl: key_down(control),
        alt: key_down(menu),
        shift: key_down(shift),
        left_win: key_down(left_win),
        right_win: key_down(right_win),
    }
}

/// Whether any of control, alt, shift and the Windows keys is down. A key pressed in that state
/// belongs to a combination of the system or the game, such as Alt+Tab.
pub fn any_modifier_down(held: &HeldModifiers) -> (r: bool)
    ensures
        r == held.any(),
{
    held.ctrl || held.alt || held.shift || held.left_win || held.right_win
}

/// Whether `vk` is the virtual-key code of a modifier key.
pub open spec fn modifier_vk(vk: u32) -> bool {
    0x10 <= vk <= 0x12 || 0xA0 <= vk <= 0xA5 || 0x5B <= vk <= 0x5C
}

/// Whether `vk` is the virtual-key code of a modifier key.
pub fn is_modifier_vk(vk: u32) -> (r: bool)
    ensures
        r == modifier_vk(vk),
{
    matches!(
        vk,
        0x10 | 0x11 | 0x12 | 0xA0 | 0xA1 | 0xA2 | 0xA3 | 0xA4 | 0xA5 | 0x5B | 0x5C
    )
}

/// Whether the key with code `vk` is the key that `m` stands for.
pub open spec fn key_matches(m: MainKey, vk: u32) -> bool {
    match m {
        MainKey::Exact(x) => x == vk,
        MainKey::Shift => vk == 0x10 || 0xA0 <= vk <= 0xA1,
        MainKey::Ctrl => vk == 0x11 || 0xA2 <= vk <= 0xA3,
        MainKey::Alt => vk == 0x12 || 0xA4 <= vk <= 0xA5,
        MainKey::Meta => 0x5B <= vk <= 0x5C,
    }
}

/// Whether the key with code `vk` is the key that `m` stands for.
pub fn main_matches(m: &MainKey, vk: u32) -> (r: bool)
    ensures
        r == key_matches(*m, vk),
{
    match m {
        MainKey::Exact(x) => *x == vk,
        MainKey::Shift => vk == 0xA0 || vk == 0xA1 || vk == 0x10,
        MainKey::Ctrl => vk == 0xA2 || vk == 0xA3 || vk == 0x11,
        MainKey::Alt => vk == 0xA4 || vk == 0xA5 || vk == 0x12,
        MainKey::Meta => vk == 0x5B || vk == 0x5C,
    }
}

/// The virtual-key code of a key that has a name of several letters.
pub open spec fn named_vk(t: Seq<char>) -> Option<u32> {
    if t == "space"@ {
        Some(0x20)
    } else if t == "enter"@ {
        Some(0x0D)
    } else if t == "tab"@ {
        Some(0x09)
    } else if t == "capslock"@ {
        Some(0x14)
    } else if t == "backspace"@ {
        Some(0x08)
    } else if t == "home"@ {
        Some(0x24)
    } else if t == "end"@ {
        Some(0x23)
    } else if t == "pageup"@ {
        Some(0x21)
    } else if t == "pagedown"@ {
        Some(0x22)
    } else if t == "insert"@ {
        Some(0x2D)
    } else if t == "delete"@ {
        Some(0x2E)
    } else if t == "up"@ {
        Some(0x26)
    } else if t == "down"@ {
        Some(0x28)
    } else if t == "left"@ {
        Some(0x25)
    } else if t == "right"@ {
        Some(0x27)
    } else if t == "minus"@ {
        Some(0xBD)
    } else if t == "equal"@ {
        Some(0xBB)
    } else if t == "comma"@ {
        Some(0xBC)
    } else if t == "period"@ {
        Some(0xBE)
    } else if t == "slash"@ {
        Some(0xBF)
    } else if t == "semicolon"@ {
        Some(0xBA)
    } else if t == "quote"@ {
        Some(0xDE)
    } else if t == "backquote"@ {
        Some(0xC0)
    } else if t == "bracketleft"@ {
        Some(0xDB)
    } else if t == "bracketright"@ {
        Some(0xDD)
    } else if t == "backslash"@ {
        Some(0xDC)
    } else {
        None
    }
}

/// The virtual-key code of the function key that `t` names: an `f` and a number from 1 to 24.
pub open spec fn function_vk(t: Seq<char>) -> Option<u32> {
    if t.len() > 0 && t[0] == 'f' {
        match text::number_of(t.drop_first()) {
            Some(n) => if 1 <= n <= 24 {
                Some((0x70 + n - 1) as u32)
            } else {
                None
            },
            None => None,
        }
    } else {
        None
    }
}

/// The virtual-key code of the key that a token names. A letter or a digit names itself.
pub open spec fn vk_of_token(t: Seq<char>) -> Option<u32> {
    if t.len() == 1 && 'a' <= t[0] <= 'z' {
        Some((t[0] as u32 - 'a' as u32 + 'A' as u32) as u32)
    } else if t.len() == 1 && ('A' <= t[0] <= 'Z' || '0' <= t[0] <= '9') {
        Some(t[0] as u32)
    } else if function_vk(t) is Some {
        function_vk(t)
    } else {
        named_vk(t)
    }
}

fn named_key(t: &str) -> (r: Option<u32>)
    ensures
        r == named_vk(t@),
{
    let vk: u32 = if text_eq(t, "space") {
        0x20
    } else if text_eq(t, "enter") {
        0x0D
    } else if text_eq(t, "tab") {
        0x09
    } else if text_eq(t, "capslock") {
        0x14
    } else if text_eq(t, "backspace") {
        0x08
    } else if text_eq(t, "home") {
        0x24
    } else if text_eq(t, "end") {
        0x23
    } else if text_eq(t, "pageup") {
        0x21
    } else if text_eq(t, "pagedown") {
        0x22
    } else if text_eq(t, "insert") {
        0x2D
    } else if text_eq(t, "delete") {
        0x2E
    } else if text_eq(t, "up") {
        0x26
    } else if text_eq(t, "down") {
        0x28
    } else if text_eq(t, "left") {
        0x25
    } else if text_eq(t, "right") {
        0x27
    } else if text_eq(t, "minus") {
        0xBD
    } else if text_eq(t, "equal") {
        0xBB
    } else if text_eq(t, "comma") {
        0xBC
    } else if text_eq(t, "period") {
        0xBE
    } else if text_eq(t, "slash") {
        0xBF
    } else if text_eq(t, "semicolon") {
        0xBA
    } else if text_eq(t, "quote") {
        0xDE
    } else if text_eq(t, "backquote") {
        0xC0
    } else if text_eq(t, "bracketleft") {
        0xDB
    } else if text_eq(t, "bracketright") {
        0xDD
    } else if text_eq(t, "backslash") {
        0xDC
    } else {
        return None;
    };
    Some(vk)
}

/// The virtual-key code of the key that a token such as `a`, `f1`, `space` or `comma` names.
pub fn token_to_vk(t: &str) -> (r: Option<u32>)
    ensures
        r == vk_of_token(t@),
{
    let v = chars_of(t);
    if v.len() == 1 {
        let c = v[0];
        if 'a' <= c && c <= 'z' {
            return Some(c as u32 - 'a' as u32 + 'A' as u32);
        }
        if ('A' <= c && c <= 'Z') || ('0' <= c && c <= '9') {
            return Some(c as u32);
        }
    }
    if v.len() > 0 && v[0] == 'f' {
        let rest = t.substring_char(1, v.len());
        assert(rest@ =~= t@.drop_first());
        if let Some(n) = parse_number(rest) {
            if 1 <= n && n <= 24 {
                return Some(0x70 + (n - 1));
            }
        }
    }
    named_key(t)
}

/// The contents of a list of texts.
pub open spec fn texts(v: Seq<String>) -> Seq<Seq<char>> {
    v.map_values(|s: String| s@)
}

/// The tokens of a combination: the pieces between `+` signs, trimmed and in lower case, without
/// the empty ones.
pub open spec fn tokens_of(s: Seq<char>) -> Seq<Seq<char>> {
    text::pieces(s).map_values(|p: Seq<char>| text::normalized(p)).filter(
        |t: Seq<char>| t.len() > 0,
    )
}

/// The pieces of `s` between its `+` signs.
fn plus_pieces(s: &str) -> (r: Vec<String>)
    ensures
        texts(r@) == text::pieces(s@),
{
    let v = chars_of(s);
    let n = v.len();
    let mut out: Vec<String> = Vec::new();
    let mut start: usize = 0;
    let mut i: usize = 0;
    assert(s@.take(0) =~= Seq::<char>::empty());
    assert(texts(out@) =~= Seq::empty());
    assert(s@.subrange(0, 0) =~= Seq::<char>::empty());
    assert(text::pieces(s@.take(0)) =~= texts(out@).push(s@.subrange(0, 0)));
    while i < n
        invariant
            start <= i <= n,
            n == v.len(),
            v@ == s@,
            text::pieces(s@.take(i as int)) == texts(out@).push(
                s@.subrange(start as int, i as int),
            ),
        decreases n - i,
    {
        let ghost before = texts(out@);
        let ghost open = s@.subrange(start as int, i as int);
        assert(s@.take(i + 1).drop_last() =~= s@.take(i as int));
        if v[i] == '+' {
            out.push(s.substring_char(start, i).to_owned());
            assert(texts(out@) =~= before.push(open));
            start = i + 1;
            assert(s@.subrange(start as int, i + 1) =~= Seq::<char>::empty());
        } else {
            assert(s@.subrange(start as int, i + 1) =~= open.push(s@[i as int]));
            assert(before.push(open).drop_last() =~= before);
        }
        i += 1;
    }
    assert(s@.take(n as int) =~= s@);
    let ghost before = texts(out@);
    out.push(s.substring_char(start, n).to_owned());
    assert(texts(out@) =~= before.push(s@.subrange(start as int, n as int)));
    out
}

/// The tokens of a combination: the pieces between `+` signs, trimmed and in lower case, without
/// the empty ones.
pub fn key_tokens(s: &str) -> (r: Vec<String>)
    ensures
        texts(r@) == tokens_of(s@),
{
    let parts = plus_pieces(s);
    let n = parts.len();
    let mut out: Vec<String> = Vec::new();
    let mut i: usize = 0;
    let ghost all = text::pieces(s@).map_values(|p: Seq<char>| text::normalized(p));
    let ghost keep = |t: Seq<char>| t.len() > 0;
    assert(all.take(0) =~= Seq::empty());
    assert(texts(out@) =~= all.take(0).filter(keep)) by {
        reveal(Seq::filter);
    }
    while i < n
        invariant
            i <= n,
            n == parts.len(),
            texts(parts@) == text::pieces(s@),
            all == text::pieces(s@).map_values(|p: Seq<char>| text::normalized(p)),
            keep == (|t: Seq<char>| t.len() > 0),
            texts(out@) == all.take(i as int).filter(keep),
        decreases n - i,
    {
        let t = normalize(parts[i].as_str());
        proof {
            assert(texts(parts@)[i as int] == parts@[i as int]@);
            assert(all[i as int] == t@);
            assert(all.take(i + 1).drop_last() =~= all.take(i as int));
            reveal(Seq::filter);
        }
        let ghost before = out@;
        if !t.as_str().is_empty() {
            out.push(t);
            assert(texts(out@) =~= texts(before).push(t@));
        }
        i += 1;
    }
    assert(n == all.len()) by {
        assert(texts(parts@).len() == parts@.len());
    }
    assert(all.take(n as int) =~= all);
    out
}

/// Whether a token may stand before the main key of a combination.
pub open spec fn modifier_name(t: Seq<char>) -> bool {
    t == "ctrl"@ || t == "alt"@ || t == "shift"@ || t == "super"@
}

/// The main key that the last token of a combination names.
pub open spec fn main_key_of(t: Seq<char>) -> Option<MainKey> {
    if t == "shift"@ {
        Some(MainKey::Shift)
    } else if t == "ctrl"@ {
        Some(MainKey::Ctrl)
    } else if t == "alt"@ {
        Some(MainKey::Alt)
    } else if t == "super"@ {
        Some(MainKey::Meta)
    } else {
        match vk_of_token(t) {
            Some(vk) => Some(MainKey::Exact(vk)),
            None => None,
        }
    }
}

/// What a combination's tokens say: the main key, and whether control, alt and shift must be held.
/// All tokens but the last must name modifiers.
pub open spec fn combination_of(tokens: Seq<Seq<char>>) -> Option<(MainKey, bool, bool, bool)> {
    if tokens.len() == 0 {
        None
    } else {
        let mods = tokens.drop_last();
        if forall|i: int| 0 <= i < mods.len() ==> modifier_name(#[trigger] mods[i]) {
            match main_key_of(tokens.last()) {
                Some(main) => Some(
                    (main, mods.contains("ctrl"@), mods.contains("alt"@), mods.contains("shift"@)),
                ),
                None => None,
            }
        } else {
            None
        }
    }
}

fn main_key(t: &str) -> (r: Option<MainKey>)
    ensures
        r == main_key_of(t@),
{
    if text_eq(t, "shift") {
        Some(MainKey::Shift)
    } else if text_eq(t, "ctrl") {
        Some(MainKey::Ctrl)
    } else if text_eq(t, "alt") {
        Some(MainKey::Alt)
    } else if text_eq(t, "super") {
        Some(MainKey::Meta)
    } else {
        match token_to_vk(t) {
            Some(vk) => Some(MainKey::Exact(vk)),
            None => None,
        }
    }
}

/// What a combination's tokens, trimmed and in lower case, say: the main key, and whether control,
/// alt and shift must be held.
pub fn parse_key_tokens(tokens: &Vec<String>) -> (r: Option<(MainKey, bool, bool, bool)>)
    ensures
        r == combination_of(texts(tokens@)),
{
    let n = tokens.len();
    if n == 0 {
        return None;
    }
    let ghost mods = texts(tokens@).drop_last();
    let mut need_ctrl = false;
    let mut need_alt = false;
    let mut need_shift = false;
    let mut i: usize = 0;
    proof {
        reveal_strlit("ctrl");
        reveal_strlit("alt");
        reveal_strlit("shift");
        reveal_strlit("super");
        assert("ctrl"@ != "alt"@ && "ctrl"@ != "shift"@ && "ctrl"@ != "super"@) by {
            assert("ctrl"@[0] != "alt"@[0] && "ctrl"@[0] != "shift"@[0]);
        }
        assert("alt"@ != "shift"@ && "alt"@ != "super"@) by {
            assert("alt"@[0] != "shift"@[0] && "alt"@[0] != "super"@[0]);
        }
        assert("shift"@ != "super"@) by {
            assert("shift"@[1] != "super"@[1]);
        }
    }
    while i < n - 1
        invariant
            i <= n - 1,
            n == tokens.len(),
            n >= 1,
            mods == texts(tokens@).drop_last(),
            "ctrl"@ != "alt"@ && "ctrl"@ != "shift"@ && "ctrl"@ != "super"@,
            "alt"@ != "shift"@ && "alt"@ != "super"@ && "shift"@ != "super"@,
            forall|k: int| 0 <= k < i ==> modifier_name(#[trigger] mods[k]),
            need_ctrl == mods.take(i as int).contains("ctrl"@),
            need_alt == mods.take(i as int).contains("alt"@),
            need_shift == mods.take(i as int).contains("shift"@),
        decreases n - i,
    {
        let t = tokens[i].as_str();
        assert(mods[i as int] == t@);
        proof {
            lemma_contains_next(mods, i as int, "ctrl"@);
            lemma_contains_next(mods, i as int, "alt"@);
            lemma_contains_next(mods, i as int, "shift"@);
        }
        if text_eq(t, "ctrl") {
            need_ctrl = true;
        } else if text_eq(t, "alt") {
            need_alt = true;
        } else if text_eq(t, "shift") {
            need_shift = true;
        } else if !text_eq(t, "super") {
            return None;
        }
        i += 1;
    }
    assert(mods.take(n - 1) =~= mods);
    assert(texts(tokens@).last() == tokens@[n - 1]@);
    match main_key(tokens[n - 1].as_str()) {
        Some(main) => Some((main, need_ctrl, need_alt, need_shift)),
        None => None,
    }
}

/// One more item in view: what a list's first items contain.
proof fn lemma_contains_next<T>(s: Seq<T>, i: int, x: T)
    requires
        0 <= i < s.len(),
    ensures
        s.take(i + 1).contains(x) == (s.take(i).contains(x) || s[i] == x),
{
    let short = s.take(i);
    let long = s.take(i + 1);
    if short.contains(x) {
        let k = choose|k: int| 0 <= k < short.len() && short[k] == x;
        assert(long[k] == x);
    }
    if s[i] == x {
        assert(long[i] == x);
    }
    if long.contains(x) {
        let k = choose|k: int| 0 <= k < long.len() && long[k] == x;
        if k < i {
            assert(short[k] == x);
        }
    }
}

/// Reads a combination such as `shift`, `ctrl+a` or `ctrl+shift+f1`: the main key, and whether
/// control, alt and shift must be held.
pub fn parse_timer_key(s: &str) -> (r: Option<(MainKey, bool, bool, bool)>)
    ensures
        r == combination_of(tokens_of(s@)),
{
    let tokens = key_tokens(s);
    parse_key_tokens(&tokens)
}

/// What follows the prefix `leader+` in a hotkey that is trimmed and in lower case; nothing where
/// the prefix is missing or nothing follows it.
pub open spec fn leader_suffix(lower: Seq<char>) -> Option<Seq<char>> {
    let n = "leader+"@.len() as int;
    if lower.len() > n && lower.take(n) == "leader+"@ {
        Some(lower.skip(n))
    } else {
        None
    }
}

/// What follows the prefix `leader+` in a hotkey that is trimmed and in lower case; nothing where
/// the prefix is missing or nothing follows it.
pub fn leader_rest(lower: &str) -> (r: Option<String>)
    ensures
        match r {
            Some(rest) => leader_suffix(lower@) == Some(rest@),
            None => leader_suffix(lower@) is None,
        },
{
    let n = "leader+".unicode_len();
    let len = lower.unicode_len();
    if len <= n {
        return None;
    }
    let head = lower.substring_char(0, n);
    assert(head@ =~= lower@.take(n as int));
    if !text_eq(head, "leader+") {
        return None;
    }
    let rest = lower.substring_char(n, len);
    assert(rest@ =~= lower@.skip(n as int));
    Some(rest.to_owned())
}

/// What follows `leader+` in a hotkey of that form, in lower case; nothing for other hotkeys.
pub fn strip_leader_prefix(hk: &str) -> (r: Option<String>)
    ensures
        match r {
            Some(rest) => leader_suffix(text::normalized(hk@)) == Some(rest@),
            None => leader_suffix(text::normalized(hk@)) is None,
        },
{
    let lower = normalize(hk);
    leader_rest(lower.as_str())
}

} // verus!
