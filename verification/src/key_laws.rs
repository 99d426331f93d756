//! What holds of keys and combinations whatever is written.

use vstd::prelude::*;

use crate::keys;
use crate::keys::HeldModifiers;
use crate::keys::MainKey;
use crate::text;
use crate::text_laws;

verus! {

/// Which keys a main key stands for, by their codes.
pub proof fn law_codes_of_main_keys(x: u32, vk: u32)
    ensures
        keys::key_matches(MainKey::Exact(x), vk) <==> x == vk,
        keys::key_matches(MainKey::Shift, vk) <==> vk == 0x10 || vk == 0xA0 || vk == 0xA1,
        keys::key_matches(MainKey::Ctrl, vk) <==> vk == 0x11 || vk == 0xA2 || vk == 0xA3,
        keys::key_matches(MainKey::Alt, vk) <==> vk == 0x12 || vk == 0xA4 || vk == 0xA5,
        keys::key_matches(MainKey::Meta, vk) <==> vk == 0x5B || vk == 0x5C,
{
}

/// The modifier keys are the ones that shift, control, alt and the Windows keys stand for.
pub proof fn law_modifier_keys(vk: u32)
    ensures
        keys::modifier_vk(vk) <==> (keys::key_matches(MainKey::Shift, vk) || keys::key_matches(
            MainKey::Ctrl,
            vk,
        ) || keys::key_matches(MainKey::Alt, vk) || keys::key_matches(MainKey::Meta, vk)),
{
}

/// A modifier is held where any of the five is.
pub proof fn law_any_modifier(held: HeldModifiers)
    ensures
        !held.any() <==> !held.ctrl && !held.alt && !held.shift && !held.left_win
            && !held.right_win,
{
}

/// Letters of either case and digits have the code of the capital letter or the digit.
pub proof fn law_letters_and_digits(c: char)
    ensures
        'a' <= c <= 'z' ==> keys::vk_of_token(seq![c]) == Some((c as u32 - 32) as u32),
        'A' <= c <= 'Z' || '0' <= c <= '9' ==> keys::vk_of_token(seq![c]) == Some(c as u32),
        !('a' <= c <= 'z' || 'A' <= c <= 'Z' || '0' <= c <= '9') ==> keys::vk_of_token(seq![c])
            is None,
{
    lemma_names_are_long(seq![c]);
    if c == 'f' {
    } else {
        assert(seq![c][0] != 'f');
    }
}

/// A key's name has more than one letter.
proof fn lemma_names_are_long(t: Seq<char>)
    ensures
        t.len() <= 1 ==> keys::named_vk(t) is None,
        t.len() > 0 && t[0] == 'f' ==> keys::named_vk(t) is None,
{
    lemma_name_letters();
}

/// The letters of the names.
proof fn lemma_name_letters()
    ensures
        forall|t: Seq<char>| #[trigger]
            keys::named_vk(t) is Some ==> t.len() >= 2 && t[0] != 'f',
{
    reveal_strlit("space");
    reveal_strlit("enter");
    reveal_strlit("tab");
    reveal_strlit("capslock");
    reveal_strlit("backspace");
    reveal_strlit("home");
    reveal_strlit("end");
    reveal_strlit("pageup");
    reveal_strlit("pagedown");
    reveal_strlit("insert");
    reveal_strlit("delete");
    reveal_strlit("up");
    reveal_strlit("down");
    reveal_strlit("left");
    reveal_strlit("right");
    reveal_strlit("minus");
    reveal_strlit("equal");
    reveal_strlit("comma");
    reveal_strlit("period");
    reveal_strlit("slash");
    reveal_strlit("semicolon");
    reveal_strlit("quote");
    reveal_strlit("backquote");
    reveal_strlit("bracketleft");
    reveal_strlit("bracketright");
    reveal_strlit("backslash");
}

/// The function keys follow one another from `f1` to `f24`, however their number is written; there are
/// no others.
pub proof fn law_function_keys(number: Seq<char>)
    requires
        number.len() > 0,
    ensures
        keys::vk_of_token(seq!['f'] + number) == (match text::number_of(number) {
            Some(n) => if n == 0 || n > 24 {
                None
            } else {
                Some((0x6F + n) as u32)
            },
            None => None,
        }),
{
    let t = seq!['f'] + number;
    assert(t.drop_first() =~= number);
    assert(t[0] == 'f');
    lemma_names_are_long(t);
}

/// The other keys have names, each its own code.
pub proof fn law_named_keys()
    ensures
        keys::vk_of_token("space"@) == Some(0x20u32),
        keys::vk_of_token("enter"@) == Some(0x0Du32),
        keys::vk_of_token("tab"@) == Some(0x09u32),
        keys::vk_of_token("capslock"@) == Some(0x14u32),
        keys::vk_of_token("backspace"@) == Some(0x08u32),
        keys::vk_of_token("home"@) == Some(0x24u32),
        keys::vk_of_token("end"@) == Some(0x23u32),
        keys::vk_of_token("pageup"@) == Some(0x21u32),
        keys::vk_of_token("pagedown"@) == Some(0x22u32),
        keys::vk_of_token("insert"@) == Some(0x2Du32),
        keys::vk_of_token("delete"@) == Some(0x2Eu32),
        keys::vk_of_token("up"@) == Some(0x26u32),
        keys::vk_of_token("down"@) == Some(0x28u32),
        keys::vk_of_token("left"@) == Some(0x25u32),
        keys::vk_of_token("right"@) == Some(0x27u32),
        keys::vk_of_token("minus"@) == Some(0xBDu32),
        keys::vk_of_token("equal"@) == Some(0xBBu32),
        keys::vk_of_token("comma"@) == Some(0xBCu32),
        keys::vk_of_token("period"@) == Some(0xBEu32),
        keys::vk_of_token("slash"@) == Some(0xBFu32),
        keys::vk_of_token("semicolon"@) == Some(0xBAu32),
        keys::vk_of_token("quote"@) == Some(0xDEu32),
        keys::vk_of_token("backquote"@) == Some(0xC0u32),
        keys::vk_of_token("bracketleft"@) == Some(0xDBu32),
        keys::vk_of_token("bracketright"@) == Some(0xDDu32),
        keys::vk_of_token("backslash"@) == Some(0xDCu32),
{
    lemma_name_letters();
    reveal_strlit("space");
    reveal_strlit("enter");
    reveal_strlit("tab");
    reveal_strlit("capslock");
    reveal_strlit("backspace");
    reveal_strlit("home");
    reveal_strlit("end");
    reveal_strlit("pageup");
    reveal_strlit("pagedown");
    reveal_strlit("insert");
    reveal_strlit("delete");
    reveal_strlit("up");
    reveal_strlit("down");
    reveal_strlit("left");
    reveal_strlit("right");
    reveal_strlit("minus");
    reveal_strlit("equal");
    reveal_strlit("comma");
    reveal_strlit("period");
    reveal_strlit("slash");
    reveal_strlit("semicolon");
    reveal_strlit("quote");
    reveal_strlit("backquote");
    reveal_strlit("bracketleft");
    reveal_strlit("bracketright");
    reveal_strlit("backslash");
    assert("backquote"@[4] != "backspace"@[4] && "backslash"@[5] != "backspace"@[5]);
    assert("backquote"@[4] != "backslash"@[4]);
}

/// A token names a key only where it is a letter, a digit, an `f` with a number or one of the names.
pub proof fn law_no_other_names(t: Seq<char>)
    requires
        keys::vk_of_token(t) is Some,
    ensures
        ({
            ||| t.len() == 1 && ('a' <= t[0] <= 'z' || 'A' <= t[0] <= 'Z' || '0' <= t[0] <= '9')
            ||| t.len() > 1 && t[0] == 'f' && text::number_of(t.skip(1)) is Some
            ||| t == "space"@ || t == "enter"@ || t == "tab"@ || t == "capslock"@ || t
                == "backspace"@
            ||| t == "home"@ || t == "end"@ || t == "pageup"@ || t == "pagedown"@ || t == "insert"@
            ||| t == "delete"@ || t == "up"@ || t == "down"@ || t == "left"@ || t == "right"@
            ||| t == "minus"@ || t == "equal"@ || t == "comma"@ || t == "period"@ || t == "slash"@
            ||| t == "semicolon"@ || t == "quote"@ || t == "backquote"@ || t == "bracketleft"@
            ||| t == "bracketright"@ || t == "backslash"@
        }),
{
    if t.len() > 0 {
        assert(t.drop_first() =~= t.skip(1));
        if t.len() == 1 {
            assert(t.drop_first() =~= Seq::empty());
            text_laws::law_numbers_grow_by_digits(t, 'f');
        }
    }
}

/// The tokens of two combinations with a `+` sign between are those of the one and then those of the
/// other. A text without a `+` sign is one token, trimmed and in lower case, or none where nothing is
/// left of it.
pub proof fn law_tokens(a: Seq<char>, b: Seq<char>)
    ensures
        keys::tokens_of(a + seq!['+'] + b) == keys::tokens_of(a) + keys::tokens_of(b),
        !b.contains('+') ==> keys::tokens_of(b) == (if text::normalized(b).len() == 0 {
            Seq::empty()
        } else {
            seq![text::normalized(b)]
        }),
{
    text_laws::law_pieces_of_two(a, b);
    let f = |p: Seq<char>| text::normalized(p);
    let keep = |t: Seq<char>| t.len() > 0;
    let x = text::pieces(a).map_values(f);
    let y = text::pieces(b).map_values(f);
    assert(text::pieces(a + seq!['+'] + b).map_values(f) =~= x + y);
    Seq::filter_distributes_over_add(x, y, keep);
    if !b.contains('+') {
        reveal(Seq::filter);
        assert(y =~= seq![text::normalized(b)]);
        assert(y.drop_last() =~= Seq::empty());
        reveal_with_fuel(Seq::filter, 3);
        assert(y.filter(keep) =~= if text::normalized(b).len() == 0 {
            Seq::empty()
        } else {
            seq![text::normalized(b)]
        });
    }
}

/// What one token says: it is the main key, with no modifier asked for. `shift`, `ctrl`, `alt` and
/// `super` are the modifier keys, every other token is the key it names. No token says nothing.
pub proof fn law_one_token(t: Seq<char>)
    ensures
        keys::combination_of(Seq::empty()) is None,
        keys::combination_of(seq!["shift"@]) == Some((MainKey::Shift, false, false, false)),
        keys::combination_of(seq!["ctrl"@]) == Some((MainKey::Ctrl, false, false, false)),
        keys::combination_of(seq!["alt"@]) == Some((MainKey::Alt, false, false, false)),
        keys::combination_of(seq!["super"@]) == Some((MainKey::Meta, false, false, false)),
        t != "shift"@ && t != "ctrl"@ && t != "alt"@ && t != "super"@ ==> keys::combination_of(
            seq![t],
        ) == (match keys::vk_of_token(t) {
            Some(vk) => Some((MainKey::Exact(vk), false, false, false)),
            None => None,
        }),
{
    lemma_modifier_names_differ();
    lemma_one_token(t);
    lemma_one_token("shift"@);
    lemma_one_token("ctrl"@);
    lemma_one_token("alt"@);
    lemma_one_token("super"@);
}

proof fn lemma_modifier_names_differ()
    ensures
        "ctrl"@ != "alt"@ && "ctrl"@ != "shift"@ && "ctrl"@ != "super"@,
        "alt"@ != "shift"@ && "alt"@ != "super"@ && "shift"@ != "super"@,
{
    reveal_strlit("ctrl");
    reveal_strlit("alt");
    reveal_strlit("shift");
    reveal_strlit("super");
    assert("ctrl"@[0] != "alt"@[0] && "ctrl"@[0] != "shift"@[0]);
    assert("alt"@[0] != "shift"@[0]);
    assert("shift"@[1] != "super"@[1]);
}

proof fn lemma_one_token(t: Seq<char>)
    ensures
        keys::combination_of(seq![t]) == (match keys::main_key_of(t) {
            Some(main) => Some((main, false, false, false)),
            None => None,
        }),
{
    assert(seq![t].drop_last() =~= Seq::empty());
    assert(seq![t].last() == t);
}

/// What a token before a combination adds: `ctrl`, `alt` and `shift` ask for that modifier too,
/// `super` for nothing, and any other token makes it no combination.
pub proof fn law_token_before_a_combination(t: Seq<char>, rest: Seq<Seq<char>>)
    requires
        rest.len() > 0,
    ensures
        keys::combination_of(seq![t] + rest) == (match keys::combination_of(rest) {
            Some((main, ctrl, alt, shift)) => if t == "ctrl"@ {
                Some((main, true, alt, shift))
            } else if t == "alt"@ {
                Some((main, ctrl, true, shift))
            } else if t == "shift"@ {
                Some((main, ctrl, alt, true))
            } else if t == "super"@ {
                Some((main, ctrl, alt, shift))
            } else {
                None
            },
            None => None,
        }),
{
    lemma_modifier_names_differ();
    let all = seq![t] + rest;
    let mods = rest.drop_last();
    let more = all.drop_last();
    assert(all.last() == rest.last());
    assert(more =~= seq![t] + mods);
    lemma_contains_first(t, mods, "ctrl"@);
    lemma_contains_first(t, mods, "alt"@);
    lemma_contains_first(t, mods, "shift"@);
    let named = forall|i: int| 0 <= i < mods.len() ==> keys::modifier_name(#[trigger] mods[i]);
    let all_named = forall|i: int| 0 <= i < more.len() ==> keys::modifier_name(#[trigger] more[i]);
    assert(more[0] == t);
    if all_named {
        assert(keys::modifier_name(more[0]));
        assert forall|i: int| 0 <= i < mods.len() implies keys::modifier_name(
            #[trigger] mods[i],
        ) by {
            assert(more[i + 1] == mods[i]);
        }
    }
    if named && keys::modifier_name(t) {
        assert forall|i: int| 0 <= i < more.len() implies keys::modifier_name(
            #[trigger] more[i],
        ) by {
            if i > 0 {
                assert(more[i] == mods[i - 1]);
            }
        }
    }
}

proof fn lemma_contains_first(t: Seq<char>, s: Seq<Seq<char>>, x: Seq<char>)
    ensures
        (seq![t] + s).contains(x) == (t == x || s.contains(x)),
{
    let all = seq![t] + s;
    if t == x {
        assert(all[0] == x);
    }
    if s.contains(x) {
        let k = choose|k: int| 0 <= k < s.len() && s[k] == x;
        assert(all[k + 1] == x);
    }
    if all.contains(x) {
        let k = choose|k: int| 0 <= k < all.len() && all[k] == x;
        if k > 0 {
            assert(s[k - 1] == x);
        }
    }
}

/// A hotkey of the form `leader+X` is `leader+` with something after it, and that is what is found in
/// it; nothing is found in other hotkeys.
pub proof fn law_leader_form(lower: Seq<char>, rest: Seq<char>)
    ensures
        rest.len() > 0 ==> keys::leader_suffix("leader+"@ + rest) == Some(rest),
        keys::leader_suffix("leader+"@) is None,
        keys::leader_suffix(lower) matches Some(found) ==> found.len() > 0 && lower == "leader+"@
            + found,
{
    reveal_strlit("leader+");
    let t = "leader+"@ + rest;
    assert(t.take(7) =~= "leader+"@);
    assert(t.skip(7) =~= rest);
    if keys::leader_suffix(lower) is Some {
        assert(lower =~= lower.take(7) + lower.skip(7));
    }
}

} // verus!
