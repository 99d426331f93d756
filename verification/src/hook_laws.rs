//! What holds of the keyboard hook whatever keys are pressed.

use vstd::prelude::*;

use crate::config;
use crate::config::ConfigView;
use crate::config::PresetView;
use crate::hook;
use crate::hook::HookEffect;
use crate::hook::HookView;
use crate::hook::WM_KEYDOWN;
use crate::hook::WM_KEYUP;
use crate::hook::WM_SYSKEYDOWN;
use crate::hook::WM_SYSKEYUP;
use crate::key_laws;
use crate::keys;
use crate::keys::HeldModifiers;
use crate::keys::MainKey;
use crate::text;

verus! {

/// One message of the keyboard.
pub struct HookEvent {
    pub code: i32,
    pub msg: u32,
    pub vk: u32,
    pub held: HeldModifiers,
}

impl HookEvent {
    /// Whether this is the press of a key.
    pub open spec fn is_press(self) -> bool {
        self.code >= 0 && (self.msg == WM_KEYDOWN || self.msg == WM_SYSKEYDOWN)
    }

    /// Whether this is the release of a key.
    pub open spec fn is_release(self) -> bool {
        self.code >= 0 && (self.msg == WM_KEYUP || self.msg == WM_SYSKEYUP)
    }
}

/// What one message does.
pub open spec fn step(h: HookView, e: HookEvent) -> (HookView, HookEffect) {
    hook::hook_step(h, e.code, e.msg, e.vk, e.held)
}

/// The hook's memory after a series of messages.
pub open spec fn run(h: HookView, events: Seq<HookEvent>) -> HookView
    decreases events.len(),
{
    if events.len() == 0 {
        h
    } else {
        step(run(h, events.drop_last()), events.last()).0
    }
}

/// What the message at position `i` of a series does.
pub open spec fn effect_at(h: HookView, events: Seq<HookEvent>, i: int) -> HookEffect {
    step(run(h, events.take(i)), events[i]).1
}

/// What `all_but` leaves out, and what it keeps.
proof fn lemma_all_but(s: Seq<u32>, x: u32)
    ensures
        forall|y: u32| #[trigger]
            hook::all_but(s, x).contains(y) == (s.contains(y) && y != x),
        s.no_duplicates() ==> hook::all_but(s, x).no_duplicates(),
    decreases s.len(),
{
    reveal(Seq::filter);
    let kept = hook::all_but(s, x);
    if s.len() > 0 {
        let front = s.drop_last();
        let part = hook::all_but(front, x);
        lemma_all_but(front, x);
        assert(kept == if s.last() != x {
            part.push(s.last())
        } else {
            part
        });
        assert forall|y: u32| #[trigger] kept.contains(y) == (s.contains(y) && y != x) by {
            assert(s =~= front.push(s.last()));
            lemma_push_contains(front, s.last(), y);
            lemma_push_contains(part, s.last(), y);
        }
        if s.no_duplicates() {
            assert(front.no_duplicates());
            assert(!front.contains(s.last())) by {
                assert forall|k: int| 0 <= k < front.len() implies front[k] != s.last() by {
                    assert(s[k] != s[s.len() - 1]);
                }
            }
            assert(!part.contains(s.last()));
        }
    }
}

proof fn lemma_push_contains<T>(s: Seq<T>, a: T, y: T)
    ensures
        s.push(a).contains(y) == (s.contains(y) || y == a),
{
    if s.contains(y) {
        let k = choose|k: int| 0 <= k < s.len() && s[k] == y;
        assert(s.push(a)[k] == y);
    }
    if y == a {
        assert(s.push(a)[s.len() as int] == y);
    }
    if s.push(a).contains(y) {
        let t = s.push(a);
        let k = choose|k: int| 0 <= k < t.len() && t[k] == y;
        if k < s.len() {
            assert(s[k] == y);
        }
    }
}

/// What is left after one occurrence is taken out was there before, and other items stay.
proof fn lemma_remove_value(s: Seq<u32>, x: u32)
    ensures
        forall|y: u32| #[trigger] s.remove_value(x).contains(y) ==> s.contains(y),
        forall|y: u32| y != x && s.contains(y) ==> #[trigger] s.remove_value(x).contains(y),
        forall|i: int|
            0 <= i < s.remove_value(x).len() ==> s.contains(#[trigger] s.remove_value(x)[i]),
        s.no_duplicates() ==> s.remove_value(x).no_duplicates() && !s.remove_value(x).contains(x),
{
    s.index_of_first_ensures(x);
    let t = s.remove_value(x);
    if s.contains(x) {
        let p = s.index_of_first(x)->0;
        assert(t =~= s.remove(p));
        assert forall|i: int| 0 <= i < t.len() implies s.contains(#[trigger] t[i]) by {
            if i < p {
                assert(s[i] == t[i]);
            } else {
                assert(s[i + 1] == t[i]);
            }
        }
        assert forall|y: u32| y != x && s.contains(y) implies #[trigger] t.contains(y) by {
            let k = choose|k: int| 0 <= k < s.len() && s[k] == y;
            if k < p {
                assert(t[k] == y);
            } else {
                assert(t[k - 1] == y);
            }
        }
        assert forall|y: u32| #[trigger] t.contains(y) implies s.contains(y) by {
            let k = choose|k: int| 0 <= k < t.len() && t[k] == y;
            assert(s.contains(t[k]));
        }
    }
}

/// Every message keeps what holds of the hook's memory.
pub proof fn law_step_keeps_wf(h: HookView, e: HookEvent)
    requires
        h.wf(),
    ensures
        step(h, e).0.wf(),
{
    lemma_all_but(h.down, e.vk);
    lemma_remove_value(h.swallowed, e.vk);
    let h2 = step(h, e).0;
    assert forall|i: int| 0 <= i < h2.swallowed.len() implies !keys::modifier_vk(
        #[trigger] h2.swallowed[i],
    ) by {
        if e.is_release() && !h.capture {
            assert(h.swallowed.contains(h2.swallowed[i]));
        }
    }
    assert(h2.down.no_duplicates());
}

/// What holds of the hook's memory holds after any series of messages, from the first key on.
pub proof fn law_wf_at_all_times(h: HookView, events: Seq<HookEvent>)
    requires
        h.wf(),
    ensures
        run(h, events).wf(),
        hook::fresh_hook().wf(),
    decreases events.len(),
{
    if events.len() > 0 {
        law_wf_at_all_times(h, events.drop_last());
        law_step_keeps_wf(run(h, events.drop_last()), events.last());
    }
}

/// No token names a modifier key by its code.
pub proof fn law_tokens_name_no_modifier(t: Seq<char>)
    ensures
        keys::vk_of_token(t) matches Some(vk) ==> !keys::modifier_vk(vk),
{
}

/// Beginning and ending a recording, and taking over a configuration, keep what holds of the hook's
/// memory.
pub proof fn law_settings_keep_wf(h: HookView, on: bool, cfg: ConfigView)
    requires
        h.wf(),
    ensures
        hook::with_capture(h, on).wf(),
        hook::with_leader(h, cfg).wf(),
        (HookView { timer_bindings: hook::timer_bindings_of(cfg), ..h }).wf(),
{
    if let Some(s) = cfg.combo_leader {
        let tokens = keys::tokens_of(s);
        if tokens.len() > 0 {
            law_tokens_name_no_modifier(tokens.last());
        }
    }
}

/// While a hotkey is being recorded every key passes, sets nothing off and leaves no trace.
pub proof fn law_recording_passes_everything(h: HookView, events: Seq<HookEvent>)
    requires
        h.capture,
    ensures
        run(h, events) == h,
        forall|i: int|
            0 <= i < events.len() ==> #[trigger] effect_at(h, events, i) == hook::passes(),
    decreases events.len(),
{
    if events.len() > 0 {
        law_recording_passes_everything(h, events.drop_last());
    }
    assert forall|i: int| 0 <= i < events.len() implies #[trigger] effect_at(h, events, i)
        == hook::passes() by {
        law_recording_passes_everything(h, events.take(i));
    }
}

/// After a recording no key counts as held, and no release is waited for.
pub proof fn law_recording_leaves_nothing_held(h: HookView)
    ensures
        ({
            let after = hook::with_capture(h, false);
            !after.capture && !after.leader_held && after.down.len() == 0 && after.swallowed.len()
                == 0
        }),
{
}

/// Neither the press nor the release of a modifier key is ever kept from the game.
pub proof fn law_modifiers_always_pass(h: HookView, e: HookEvent)
    requires
        h.wf(),
        keys::modifier_vk(e.vk),
    ensures
        !step(h, e).1.swallow,
{
    if h.swallowed.contains(e.vk) {
        let k = choose|k: int| 0 <= k < h.swallowed.len() && h.swallowed[k] == e.vk;
        assert(!keys::modifier_vk(h.swallowed[k]));
    }
}

/// Without a leader key nothing is ever kept from the game.
pub proof fn law_no_leader_no_swallowing(h: HookView, events: Seq<HookEvent>)
    requires
        h.wf(),
        h.leader is None,
        h.swallowed.len() == 0,
    ensures
        forall|i: int|
            0 <= i < events.len() ==> !(#[trigger] effect_at(h, events, i)).swallow,
        run(h, events).wf(),
        run(h, events).leader is None,
        run(h, events).swallowed.len() == 0,
    decreases events.len(),
{
    if events.len() > 0 {
        law_no_leader_no_swallowing(h, events.drop_last());
        let mid = run(h, events.drop_last());
        law_step_keeps_wf(mid, events.last());
        mid.swallowed.index_of_first_ensures(events.last().vk);
    }
    assert forall|i: int| 0 <= i < events.len() implies !(#[trigger] effect_at(
        h,
        events,
        i,
    )).swallow by {
        law_no_leader_no_swallowing(h, events.take(i));
    }
}

/// A key pressed while a modifier is held never becomes the leader: the press passes, and the leader
/// is held after it only if it was held before.
pub proof fn law_leader_needs_no_modifier(h: HookView, e: HookEvent)
    requires
        e.is_press(),
        hook::is_leader(h, e.vk),
        e.held.any(),
    ensures
        step(h, e).1 == hook::passes(),
        step(h, e).0.leader_held == h.leader_held,
{
}

/// Where the leader key is not held, it is not held after other keys.
proof fn lemma_leader_stays_released(h: HookView, events: Seq<HookEvent>)
    requires
        !h.leader_held,
        forall|k: int|
            0 <= k < events.len() ==> !((#[trigger] events[k]).is_press() && hook::is_leader(
                h,
                events[k].vk,
            )),
    ensures
        !run(h, events).leader_held,
        run(h, events).leader == h.leader,
    decreases events.len(),
{
    if events.len() > 0 {
        let front = events.drop_last();
        assert(forall|k: int| 0 <= k < front.len() ==> front[k] == events[k]);
        lemma_leader_stays_released(h, front);
        assert(events[events.len() - 1] == events.last());
    }
}

/// Once the leader key is released, no press is kept from the game and no preset is selected, until
/// the leader key is pressed again.
pub proof fn law_released_leader_swallows_nothing(
    h: HookView,
    up: HookEvent,
    events: Seq<HookEvent>,
    i: int,
)
    requires
        !h.capture,
        up.is_release(),
        hook::is_leader(h, up.vk),
        forall|k: int|
            0 <= k < events.len() ==> !((#[trigger] events[k]).is_press() && hook::is_leader(
                h,
                events[k].vk,
            )),
        0 <= i < events.len(),
        events[i].is_press(),
    ensures
        !step(h, up).0.leader_held,
        !effect_at(step(h, up).0, events, i).swallow,
        effect_at(step(h, up).0, events, i).preset is None,
{
    let after = step(h, up).0;
    let front = events.take(i);
    assert(forall|k: int| 0 <= k < front.len() ==> front[k] == events[k]);
    lemma_leader_stays_released(after, front);
}

/// Presets are selected only while the leader key is held, and the key that selects one is kept from
/// the game.
pub proof fn law_presets_need_the_leader(h: HookView, e: HookEvent)
    requires
        step(h, e).1.preset is Some,
    ensures
        h.leader_held,
        e.is_press(),
        step(h, e).1.swallow,
{
}

/// The key that starts a timer still reaches the game, and the timer has a duration.
pub proof fn law_timer_keys_pass(h: HookView, e: HookEvent)
    requires
        h.wf(),
        step(h, e).1.timer is Some,
    ensures
        e.is_press(),
        !step(h, e).1.swallow,
        step(h, e).1.timer->0 > 0,
{
    lemma_timer_seconds(h.timer_bindings, e.vk, e.held);
}

proof fn lemma_timer_seconds(bindings: Seq<hook::TimerBinding>, vk: u32, held: HeldModifiers)
    requires
        forall|i: int| 0 <= i < bindings.len() ==> (#[trigger] bindings[i]).seconds > 0,
    ensures
        hook::timer_for(bindings, vk, held) matches Some(seconds) ==> seconds > 0,
    decreases bindings.len(),
{
    if bindings.len() > 0 {
        lemma_timer_seconds(bindings.drop_first(), vk, held);
    }
}

/// While no release of a key comes, a key that is down stays down, and a release that is to be kept
/// from the game stays so.
proof fn lemma_kept_until_release(h: HookView, vk: u32, events: Seq<HookEvent>)
    requires
        forall|i: int|
            0 <= i < events.len() ==> !((#[trigger] events[i]).is_release() && events[i].vk == vk),
    ensures
        h.down.contains(vk) ==> run(h, events).down.contains(vk),
        h.swallowed.contains(vk) ==> run(h, events).swallowed.contains(vk),
        run(h, events).capture == h.capture,
    decreases events.len(),
{
    if events.len() > 0 {
        let front = events.drop_last();
        let e = events.last();
        assert(forall|i: int| 0 <= i < front.len() ==> front[i] == events[i]);
        lemma_kept_until_release(h, vk, front);
        let mid = run(h, front);
        assert(events[events.len() - 1] == e);
        lemma_push_contains(mid.down, e.vk, vk);
        lemma_push_contains(mid.swallowed, e.vk, vk);
        lemma_all_but(mid.down, e.vk);
        lemma_remove_value(mid.swallowed, e.vk);
    }
}

/// Where a press was kept from the game, the release that follows is kept from it too, whatever
/// other keys come in between, so that no key seems held to the game.
pub proof fn law_release_follows_press(
    h: HookView,
    down: HookEvent,
    between: Seq<HookEvent>,
    up: HookEvent,
)
    requires
        down.is_press(),
        step(h, down).1.swallow,
        forall|i: int|
            0 <= i < between.len() ==> !((#[trigger] between[i]).is_release() && between[i].vk
                == down.vk),
        up.is_release(),
        up.vk == down.vk,
    ensures
        step(run(step(h, down).0, between), up).1.swallow,
{
    lemma_push_contains(h.swallowed, down.vk, down.vk);
    lemma_kept_until_release(step(h, down).0, down.vk, between);
}

/// Where no press of a key was kept from the game, its release reaches the game.
pub proof fn law_passed_presses_are_released(h: HookView, events: Seq<HookEvent>, up: HookEvent)
    requires
        !h.swallowed.contains(up.vk),
        up.is_release(),
        forall|i: int|
            0 <= i < events.len() && events[i].is_press() && events[i].vk == up.vk ==> !(
            #[trigger] effect_at(h, events, i)).swallow,
    ensures
        !run(h, events).swallowed.contains(up.vk),
        !step(run(h, events), up).1.swallow,
    decreases events.len(),
{
    if events.len() > 0 {
        let front = events.drop_last();
        let e = events.last();
        assert forall|i: int|
            0 <= i < front.len() && front[i].is_press() && front[i].vk == up.vk implies !(
        #[trigger] effect_at(h, front, i)).swallow by {
            assert(front.take(i) =~= events.take(i));
            assert(!effect_at(h, events, i).swallow);
        }
        law_passed_presses_are_released(h, front, up);
        let mid = run(h, front);
        assert(events.take(events.len() - 1) =~= front);
        assert(effect_at(h, events, events.len() - 1) == step(mid, e).1);
        lemma_push_contains(mid.swallowed, e.vk, up.vk);
        lemma_remove_value(mid.swallowed, e.vk);
    }
}

/// From a press that is kept from the game to the next release of the same key, and at no other time,
/// that key's release is to be kept from the game, however often the key repeats.
pub proof fn law_one_release_is_swallowed(h: HookView, e: HookEvent, vk: u32)
    requires
        h.wf(),
        !h.capture,
    ensures
        step(h, e).0.swallowed.contains(vk) == (if e.vk == vk && e.is_press()
            && step(h, e).1.swallow {
            true
        } else if e.vk == vk && e.is_release() {
            false
        } else {
            h.swallowed.contains(vk)
        }),
        e.is_release() ==> step(h, e).1.swallow == h.swallowed.contains(e.vk),
{
    lemma_push_contains(h.swallowed, e.vk, vk);
    lemma_remove_value(h.swallowed, e.vk);
}

/// Once a key and the leader key are both released, in either order, neither a press nor a release of
/// that key is kept from the game until the leader key is pressed again. In between neither of the two
/// is pressed.
pub proof fn law_released_keys_are_left_alone(
    h: HookView,
    first: HookEvent,
    between: Seq<HookEvent>,
    second: HookEvent,
    vk: u32,
    events: Seq<HookEvent>,
    i: int,
)
    requires
        h.wf(),
        !h.capture,
        first.is_release(),
        second.is_release(),
        (first.vk == vk && hook::is_leader(h, second.vk)) || (hook::is_leader(h, first.vk)
            && second.vk == vk),
        forall|k: int|
            0 <= k < between.len() && (#[trigger] between[k]).is_press() ==> between[k].vk != vk
                && !hook::is_leader(h, between[k].vk),
        forall|k: int|
            0 <= k < events.len() ==> !((#[trigger] events[k]).is_press() && hook::is_leader(
                h,
                events[k].vk,
            )),
        0 <= i < events.len(),
        events[i].vk == vk,
    ensures
        ({
            let released = step(run(step(h, first).0, between), second).0;
            &&& !released.leader_held
            &&& !effect_at(released, events, i).swallow
        }),
{
    let one = step(h, first).0;
    let two = run(one, between);
    let released = step(two, second).0;
    law_step_keeps_wf(h, first);
    law_wf_at_all_times(one, between);
    lemma_settings_kept(one, between);
    lemma_remove_value(h.swallowed, first.vk);
    lemma_remove_value(two.swallowed, second.vk);
    if first.vk == vk {
        assert(!one.swallowed.contains(vk));
        law_passed_presses_are_released(one, between, first);
    }
    if hook::is_leader(h, first.vk) {
        lemma_leader_stays_released(one, between);
    }
    assert(!released.leader_held && !released.swallowed.contains(vk));
    lemma_left_alone(released, vk, events.take(i));
    let front = events.take(i);
    assert forall|k: int| 0 <= k < front.len() implies !((#[trigger] front[k]).is_press()
        && hook::is_leader(released, front[k].vk)) by {
        assert(front[k] == events[k]);
    }
    lemma_leader_stays_released(released, front);
    lemma_settings_kept(released, front);
}

/// Messages change neither the leader key nor whether a hotkey is being recorded.
proof fn lemma_settings_kept(h: HookView, events: Seq<HookEvent>)
    ensures
        run(h, events).leader == h.leader,
        run(h, events).capture == h.capture,
    decreases events.len(),
{
    if events.len() > 0 {
        lemma_settings_kept(h, events.drop_last());
    }
}

/// While the leader key is not held, no release of a key comes to be kept from the game.
proof fn lemma_left_alone(h: HookView, vk: u32, events: Seq<HookEvent>)
    requires
        !h.leader_held,
        !h.swallowed.contains(vk),
        forall|k: int|
            0 <= k < events.len() ==> !((#[trigger] events[k]).is_press() && hook::is_leader(
                h,
                events[k].vk,
            )),
    ensures
        !run(h, events).swallowed.contains(vk),
    decreases events.len(),
{
    if events.len() > 0 {
        let front = events.drop_last();
        assert(forall|k: int| 0 <= k < front.len() ==> front[k] == events[k]);
        lemma_left_alone(h, vk, front);
        lemma_leader_stays_released(h, front);
        assert(events[events.len() - 1] == events.last());
        lemma_remove_value(run(h, front).swallowed, events.last().vk);
    }
}

/// A key that stays down sets off at most one thing: after its first press, the presses that come
/// before its release, which are repeats, start no timer and select no preset.
pub proof fn law_repeats_set_nothing_off(
    h: HookView,
    down: HookEvent,
    events: Seq<HookEvent>,
    i: int,
)
    requires
        !h.capture,
        down.is_press(),
        forall|k: int|
            0 <= k < events.len() ==> !((#[trigger] events[k]).is_release() && events[k].vk
                == down.vk),
        0 <= i < events.len(),
        events[i].vk == down.vk,
    ensures
        effect_at(step(h, down).0, events, i).timer is None,
        effect_at(step(h, down).0, events, i).preset is None,
{
    let first = step(h, down).0;
    lemma_push_contains(h.down, down.vk, down.vk);
    let front = events.take(i);
    assert(forall|k: int| 0 <= k < front.len() ==> front[k] == events[k]);
    lemma_kept_until_release(first, down.vk, front);
}

/// The first press of the timer key of the preset that was applied last starts its timer, where the
/// modifiers that it asks for are held, unless the leader key is held or the key is the leader key.
pub proof fn law_timer_key_starts_the_timer(h: HookView, cfg: ConfigView, e: HookEvent)
    requires
        !h.capture,
        h.timer_bindings == hook::timer_bindings_of(cfg),
        hook::timer_bindings_of(cfg).len() > 0,
        e.is_press(),
        hook::binding_matches(hook::timer_bindings_of(cfg)[0], e.vk, e.held),
        !h.down.contains(e.vk),
        !h.leader_held,
        !hook::is_leader(h, e.vk),
    ensures
        config::active_preset_of(cfg) matches Some(p) && step(h, e).1.timer == Some(
            p.timer_seconds,
        ),
{
}

/// A preset is selected by its combination: the first press of a key while the leader key is held
/// selects the first preset whose hotkey is `leader+X` with `X` naming that key, and no other.
pub proof fn law_combination_selects_its_preset(presets: Seq<PresetView>, vk: u32)
    ensures
        match hook::preset_for(hook::leader_bindings_of(presets), vk) {
            Some(id) => exists|i: int|
                {
                    &&& 0 <= i < presets.len()
                    &&& hook::leader_binding_of(#[trigger] presets[i]) == Some(
                        (MainKey::Exact(vk), id),
                    )
                    &&& id == presets[i].id
                    &&& forall|k: int|
                        0 <= k < i ==> !(hook::leader_binding_of(#[trigger] presets[k]) matches Some(
                            b,
                        ) && b.0 == MainKey::Exact(vk))
                },
            None => forall|k: int|
                0 <= k < presets.len() ==> !(hook::leader_binding_of(#[trigger] presets[k])
                    matches Some(b) && b.0 == MainKey::Exact(vk)),
        },
    decreases presets.len(),
{
    if presets.len() > 0 {
        let front = presets.drop_last();
        law_combination_selects_its_preset(front, vk);
        let part = hook::leader_bindings_of(front);
        assert(forall|k: int| 0 <= k < front.len() ==> front[k] == presets[k]);
        match hook::leader_binding_of(presets.last()) {
            Some(b) => {
                lemma_preset_for_push(part, b, vk);
            },
            None => {},
        }
        match hook::preset_for(part, vk) {
            Some(id) => {
                let i = choose|i: int|
                    {
                        &&& 0 <= i < front.len()
                        &&& hook::leader_binding_of(#[trigger] front[i]) == Some(
                            (MainKey::Exact(vk), id),
                        )
                        &&& id == front[i].id
                        &&& forall|k: int|
                            0 <= k < i ==> !(hook::leader_binding_of(
                                #[trigger] front[k],
                            ) matches Some(b) && b.0 == MainKey::Exact(vk))
                    };
                assert(presets[i] == front[i]);
                assert forall|k: int| 0 <= k < i implies !(hook::leader_binding_of(
                    #[trigger] presets[k],
                ) matches Some(b) && b.0 == MainKey::Exact(vk)) by {
                    assert(front[k] == presets[k]);
                }
            },
            None => {
                let n = presets.len() - 1;
                assert(presets[n] == presets.last());
                assert forall|k: int| 0 <= k < n implies !(hook::leader_binding_of(
                    #[trigger] presets[k],
                ) matches Some(b) && b.0 == MainKey::Exact(vk)) by {
                    assert(front[k] == presets[k]);
                }
            },
        }
    }
}

/// One more combination: it counts where none before it does.
proof fn lemma_preset_for_push(
    bindings: Seq<(MainKey, Seq<char>)>,
    b: (MainKey, Seq<char>),
    vk: u32,
)
    ensures
        hook::preset_for(bindings.push(b), vk) == (match hook::preset_for(bindings, vk) {
            Some(id) => Some(id),
            None => if keys::key_matches(b.0, vk) {
                Some(b.1)
            } else {
                None
            },
        }),
    decreases bindings.len(),
{
    let all = bindings.push(b);
    if bindings.len() == 0 {
        assert(hook::preset_for(all.drop_first(), vk) is None);
    } else {
        assert(all[0] == bindings[0]);
        lemma_preset_for_push(bindings.drop_first(), b, vk);
        assert(all.drop_first() =~= bindings.drop_first().push(b));
    }
}

/// Only the timer of the preset that was applied last can be started by a key: other presets' timers
/// make no difference, and with no preset applied there is none.
pub proof fn law_only_the_active_timer(a: ConfigView, b: ConfigView)
    requires
        config::active_preset_of(a) == config::active_preset_of(b),
    ensures
        hook::timer_bindings_of(a) == hook::timer_bindings_of(b),
        a.active_preset is None ==> hook::timer_bindings_of(a).len() == 0,
        hook::timer_bindings_of(a).len() <= 1,
{
}

/// Messages that are neither a press nor a release, messages with a negative code, and all messages
/// while a hotkey is being recorded change nothing, pass and set nothing off.
pub proof fn law_other_messages_do_nothing(h: HookView, e: HookEvent)
    requires
        h.capture || e.code < 0 || !(e.msg == 0x100 || e.msg == 0x101 || e.msg == 0x104 || e.msg
            == 0x105),
    ensures
        step(h, e).0 == h,
        !step(h, e).1.swallow,
        step(h, e).1.timer is None,
        step(h, e).1.preset is None,
{
}

/// A message changes neither the leader key, nor what keys are waited for, nor whether a hotkey is being
/// recorded.
pub proof fn law_messages_keep_settings(h: HookView, e: HookEvent)
    ensures
        step(h, e).0.leader == h.leader,
        step(h, e).0.leader_bindings == h.leader_bindings,
        step(h, e).0.timer_bindings == h.timer_bindings,
        step(h, e).0.capture == h.capture,
{
}

/// A key is down from its press to its release, whatever else it does, and whatever other keys do.
pub proof fn law_keys_are_down_until_released(h: HookView, e: HookEvent, vk: u32)
    requires
        !h.capture,
        e.code >= 0,
    ensures
        e.msg == 0x100 || e.msg == 0x104 ==> (step(h, e).0.down.contains(vk) <==> h.down.contains(
            vk,
        ) || vk == e.vk),
        e.msg == 0x101 || e.msg == 0x105 ==> (step(h, e).0.down.contains(vk) <==> h.down.contains(
            vk,
        ) && vk != e.vk),
{
    lemma_push_contains(h.down, e.vk, vk);
    lemma_all_but(h.down, e.vk);
}

/// A press of the leader key with no modifier held makes it held, sets nothing else off, and is kept
/// from the game unless the leader key is a modifier. With a modifier held it passes, and the leader key
/// is held only if it was.
pub proof fn law_press_of_the_leader(h: HookView, e: HookEvent, lk: MainKey)
    requires
        !h.capture,
        e.code >= 0,
        e.msg == 0x100 || e.msg == 0x104,
        h.leader == Some(lk),
        keys::key_matches(lk, e.vk),
    ensures
        step(h, e).1.timer is None,
        step(h, e).1.preset is None,
        if e.held.ctrl || e.held.alt || e.held.shift || e.held.left_win || e.held.right_win {
            !step(h, e).1.swallow && step(h, e).0.leader_held == h.leader_held
        } else {
            step(h, e).0.leader_held && (step(h, e).1.swallow <==> lk is Exact)
        },
{
}

/// While the leader key is held, a press of any other key that is no modifier key is kept from the game,
/// whatever modifiers are held and whether it is a repeat or not. The first press of it selects the
/// first preset that waits for it, a repeat none. No timer is started, and the leader key stays held.
pub proof fn law_keys_after_the_leader(h: HookView, e: HookEvent)
    requires
        !h.capture,
        h.leader_held,
        e.code >= 0,
        e.msg == 0x100 || e.msg == 0x104,
        !(h.leader matches Some(lk) && keys::key_matches(lk, e.vk)),
        !keys::key_matches(MainKey::Shift, e.vk) && !keys::key_matches(MainKey::Ctrl, e.vk),
        !keys::key_matches(MainKey::Alt, e.vk) && !keys::key_matches(MainKey::Meta, e.vk),
    ensures
        step(h, e).1.swallow,
        step(h, e).1.timer is None,
        h.down.contains(e.vk) ==> step(h, e).1.preset is None,
        !h.down.contains(e.vk) ==> step(h, e).1.preset == hook::preset_for(h.leader_bindings, e.vk),
        step(h, e).0.leader_held,
        step(h, e).0.swallowed.contains(e.vk),
{
    lemma_push_contains(h.swallowed, e.vk, e.vk);
}

/// With the combinations of a configuration in effect and the leader key held, the first press of a key
/// selects the first preset whose hotkey, trimmed and in lower case, is `leader+X` with `X` naming that
/// key, whatever modifiers are held, and selects none where there is no such preset.
pub proof fn law_leader_combination(h: HookView, cfg: ConfigView, e: HookEvent)
    requires
        !h.capture,
        h.leader_held,
        h.leader_bindings == hook::leader_bindings_of(cfg.presets),
        e.code >= 0,
        e.msg == 0x100 || e.msg == 0x104,
        !(h.leader matches Some(lk) && keys::key_matches(lk, e.vk)),
        !keys::modifier_vk(e.vk),
        !h.down.contains(e.vk),
    ensures
        step(h, e).1.swallow,
        match step(h, e).1.preset {
            Some(id) => exists|i: int|
                {
                    &&& 0 <= i < cfg.presets.len()
                    &&& #[trigger] names_after_leader(cfg.presets[i], e.vk)
                    &&& cfg.presets[i].id == id
                    &&& forall|k: int|
                        0 <= k < i ==> !#[trigger] names_after_leader(cfg.presets[k], e.vk)
                },
            None => forall|k: int|
                0 <= k < cfg.presets.len() ==> !#[trigger] names_after_leader(cfg.presets[k], e.vk),
        },
{
    let ps = cfg.presets;
    law_combination_selects_its_preset(ps, e.vk);
    assert forall|k: int| 0 <= k < ps.len() implies #[trigger] names_after_leader(ps[k], e.vk) == (
    hook::leader_binding_of(ps[k]) matches Some(b) && b.0 == MainKey::Exact(e.vk)) by {
        law_leader_hotkeys(ps[k], e.vk);
    }
    if let Some(id) = step(h, e).1.preset {
        let i = choose|i: int|
            {
                &&& 0 <= i < ps.len()
                &&& hook::leader_binding_of(#[trigger] ps[i]) == Some((MainKey::Exact(e.vk), id))
                &&& id == ps[i].id
                &&& forall|k: int|
                    0 <= k < i ==> !(hook::leader_binding_of(#[trigger] ps[k]) matches Some(b)
                        && b.0 == MainKey::Exact(e.vk))
            };
        assert(names_after_leader(ps[i], e.vk));
        assert forall|k: int| 0 <= k < i implies !#[trigger] names_after_leader(ps[k], e.vk) by {
            assert(!(hook::leader_binding_of(ps[k]) matches Some(b) && b.0 == MainKey::Exact(e.vk)));
        }
    } else {
        assert forall|k: int| 0 <= k < ps.len() implies !#[trigger] names_after_leader(
            ps[k],
            e.vk,
        ) by {
            assert(!(hook::leader_binding_of(ps[k]) matches Some(b) && b.0 == MainKey::Exact(e.vk)));
        }
    }
}

/// Whether a preset's hotkey is `leader+` and the name of a key.
pub open spec fn names_after_leader(p: PresetView, vk: u32) -> bool {
    exists|rest: Seq<char>|
        {
            &&& rest.len() > 0
            &&& p.hotkey matches Some(hk)
            &&& text::normalized(hk) == #[trigger] ("leader+"@ + rest)
            &&& keys::vk_of_token(text::normalized(rest)) == Some(vk)
        }
}

/// A preset waits for a key after the leader key exactly where its hotkey, trimmed and in lower case, is
/// `leader+` and something that, trimmed and in lower case, names that key; and it is that preset's id
/// that is selected.
pub proof fn law_leader_hotkeys(p: PresetView, vk: u32)
    ensures
        hook::leader_binding_of(p) == Some((MainKey::Exact(vk), p.id)) <==> exists|rest: Seq<char>|
            {
                &&& rest.len() > 0
                &&& p.hotkey matches Some(hk)
                &&& text::normalized(hk) == #[trigger] ("leader+"@ + rest)
                &&& keys::vk_of_token(text::normalized(rest)) == Some(vk)
            },
        hook::leader_binding_of(p) matches Some(b) ==> b.1 == p.id && b.0 is Exact,
{
    if let Some(hk) = p.hotkey {
        let lower = text::normalized(hk);
        key_laws::law_leader_form(lower, Seq::empty());
        assert forall|rest: Seq<char>|
            rest.len() > 0 && lower == #[trigger] ("leader+"@ + rest) implies keys::leader_suffix(
            lower,
        ) == Some(rest) by {
            key_laws::law_leader_form(lower, rest);
        }
    }
}

/// While the leader key is held, modifier keys that are not the leader key pass and set nothing off.
pub proof fn law_modifiers_after_the_leader(h: HookView, e: HookEvent)
    requires
        !h.capture,
        h.leader_held,
        e.code >= 0,
        e.msg == 0x100 || e.msg == 0x104,
        !(h.leader matches Some(lk) && keys::key_matches(lk, e.vk)),
        keys::key_matches(MainKey::Shift, e.vk) || keys::key_matches(MainKey::Ctrl, e.vk)
            || keys::key_matches(MainKey::Alt, e.vk) || keys::key_matches(MainKey::Meta, e.vk),
    ensures
        !step(h, e).1.swallow,
        step(h, e).1.timer is None,
        step(h, e).1.preset is None,
        step(h, e).0.leader_held,
{
}

/// While the leader key is not held, a press of another key passes and selects no preset. The first
/// press of it starts the timer that waits for it, a repeat none.
pub proof fn law_keys_without_the_leader(h: HookView, e: HookEvent)
    requires
        !h.capture,
        !h.leader_held,
        e.code >= 0,
        e.msg == 0x100 || e.msg == 0x104,
        !(h.leader matches Some(lk) && keys::key_matches(lk, e.vk)),
    ensures
        !step(h, e).1.swallow,
        step(h, e).1.preset is None,
        h.down.contains(e.vk) ==> step(h, e).1.timer is None,
        !h.down.contains(e.vk) ==> step(h, e).1.timer == hook::timer_for(
            h.timer_bindings,
            e.vk,
            e.held,
        ),
        !step(h, e).0.leader_held,
        step(h, e).0.swallowed == h.swallowed,
{
}

/// A release sets nothing off, is kept from the game exactly where that is still to come for its key,
/// and ends the holding of the leader key exactly where it is the leader key's.
pub proof fn law_releases(h: HookView, e: HookEvent)
    requires
        !h.capture,
        e.code >= 0,
        e.msg == 0x101 || e.msg == 0x105,
    ensures
        step(h, e).1.timer is None,
        step(h, e).1.preset is None,
        step(h, e).1.swallow <==> h.swallowed.contains(e.vk),
        step(h, e).0.leader_held <==> h.leader_held && !(h.leader matches Some(lk)
            && keys::key_matches(lk, e.vk)),
{
}

/// The timer that a press starts is the first whose key it is and whose modifiers are all held.
pub proof fn law_first_timer(bindings: Seq<hook::TimerBinding>, vk: u32, held: HeldModifiers)
    ensures
        match hook::timer_for(bindings, vk, held) {
            Some(seconds) => exists|i: int|
                {
                    &&& 0 <= i < bindings.len()
                    &&& (#[trigger] bindings[i]).seconds == seconds
                    &&& keys::key_matches(bindings[i].main, vk)
                    &&& (!bindings[i].need_ctrl || held.ctrl) && (!bindings[i].need_alt || held.alt)
                        && (!bindings[i].need_shift || held.shift)
                    &&& forall|k: int|
                        0 <= k < i ==> !(keys::key_matches((#[trigger] bindings[k]).main, vk) && (
                        !bindings[k].need_ctrl || held.ctrl) && (!bindings[k].need_alt || held.alt)
                            && (!bindings[k].need_shift || held.shift))
                },
            None => forall|k: int|
                0 <= k < bindings.len() ==> !(keys::key_matches((#[trigger] bindings[k]).main, vk)
                    && (!bindings[k].need_ctrl || held.ctrl) && (!bindings[k].need_alt || held.alt)
                    && (!bindings[k].need_shift || held.shift)),
        },
    decreases bindings.len(),
{
    if bindings.len() > 0 && !hook::binding_matches(bindings[0], vk, held) {
        let rest = bindings.drop_first();
        law_first_timer(rest, vk, held);
        assert forall|k: int| 0 < k < bindings.len() implies #[trigger] bindings[k] == rest[k
            - 1] by {}
        if let Some(seconds) = hook::timer_for(rest, vk, held) {
            let i = choose|i: int|
                {
                    &&& 0 <= i < rest.len()
                    &&& (#[trigger] rest[i]).seconds == seconds
                    &&& keys::key_matches(rest[i].main, vk)
                    &&& (!rest[i].need_ctrl || held.ctrl) && (!rest[i].need_alt || held.alt) && (
                    !rest[i].need_shift || held.shift)
                    &&& forall|k: int|
                        0 <= k < i ==> !(keys::key_matches((#[trigger] rest[k]).main, vk) && (
                        !rest[k].need_ctrl || held.ctrl) && (!rest[k].need_alt || held.alt) && (
                        !rest[k].need_shift || held.shift))
                };
            assert(bindings[i + 1] == rest[i]);
        }
    } else if bindings.len() > 0 {
        assert(bindings[0].seconds == hook::timer_for(bindings, vk, held)->0);
    }
}

/// The keys that start a timer: one, where the preset that was applied last has a timer that is in use,
/// has a duration and has a key that can be read, with that duration, key and modifiers; and otherwise
/// none.
pub proof fn law_timer_of_the_applied_preset(cfg: ConfigView)
    ensures
        ({
            let b = hook::timer_bindings_of(cfg);
            match config::active_preset_of(cfg) {
                Some(p) => match p.timer_hotkey {
                    Some(hk) => match keys::combination_of(keys::tokens_of(hk)) {
                        Some((main, ctrl, alt, shift)) => if p.timer_enabled && p.timer_seconds
                            > 0 {
                            &&& b.len() == 1
                            &&& b[0].seconds == p.timer_seconds
                            &&& b[0].main == main
                            &&& b[0].need_ctrl == ctrl
                            &&& b[0].need_alt == alt
                            &&& b[0].need_shift == shift
                        } else {
                            b.len() == 0
                        },
                        None => b.len() == 0,
                    },
                    None => b.len() == 0,
                },
                None => b.len() == 0,
            }
        }),
{
}

/// The leader key of a configuration is the main key of the combination that is written for it,
/// whatever modifiers that asks for. With it, all the combinations of the presets are waited for;
/// without one, nothing is waited for and nothing held. What is pressed, recorded and timed stays.
pub proof fn law_leader_of_a_configuration(h: HookView, cfg: ConfigView)
    ensures
        ({
            let after = hook::with_leader(h, cfg);
            let written = match cfg.combo_leader {
                Some(s) => keys::combination_of(keys::tokens_of(s)),
                None => None,
            };
            &&& after.leader is Some <==> written is Some
            &&& written matches Some(c) ==> after.leader == Some(c.0) && after.leader_held
                == h.leader_held && after.leader_bindings == hook::leader_bindings_of(cfg.presets)
            &&& written is None ==> !after.leader_held && after.leader_bindings.len() == 0
            &&& after.timer_bindings == h.timer_bindings
            &&& after.down == h.down
            &&& after.swallowed == h.swallowed
            &&& after.capture == h.capture
        }),
{
}

/// Beginning a recording changes nothing but that it has begun; ending it forgets what is pressed and
/// keeps all settings.
pub proof fn law_recording_keeps_settings(h: HookView)
    ensures
        hook::with_capture(h, true) == (HookView { capture: true, ..h }),
        hook::with_capture(h, false).leader == h.leader,
        hook::with_capture(h, false).leader_bindings == h.leader_bindings,
        hook::with_capture(h, false).timer_bindings == h.timer_bindings,
{
}

/// The preset that a key selects after the leader key is the first whose key it is.
pub proof fn law_first_combination(bindings: Seq<(MainKey, Seq<char>)>, vk: u32)
    ensures
        match hook::preset_for(bindings, vk) {
            Some(id) => exists|i: int|
                {
                    &&& 0 <= i < bindings.len()
                    &&& (#[trigger] bindings[i]).1 == id
                    &&& keys::key_matches(bindings[i].0, vk)
                    &&& forall|k: int|
                        0 <= k < i ==> !keys::key_matches((#[trigger] bindings[k]).0, vk)
                },
            None => forall|k: int|
                0 <= k < bindings.len() ==> !keys::key_matches((#[trigger] bindings[k]).0, vk),
        },
    decreases bindings.len(),
{
    if bindings.len() > 0 {
        let front = bindings.drop_last();
        law_first_combination(front, vk);
        assert(bindings =~= front.push(bindings.last()));
        lemma_preset_for_push(front, bindings.last(), vk);
        assert forall|k: int| 0 <= k < front.len() implies #[trigger] bindings[k] == front[k] by {}
        if let Some(id) = hook::preset_for(front, vk) {
            let i = choose|i: int|
                {
                    &&& 0 <= i < front.len()
                    &&& (#[trigger] front[i]).1 == id
                    &&& keys::key_matches(front[i].0, vk)
                    &&& forall|k: int|
                        0 <= k < i ==> !keys::key_matches((#[trigger] front[k]).0, vk)
                };
            assert(bindings[i] == front[i]);
        } else if keys::key_matches(bindings.last().0, vk) {
            assert(bindings[bindings.len() - 1].1 == bindings.last().1);
        }
    }
}

} // verus!
