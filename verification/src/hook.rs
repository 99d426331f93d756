//! The keyboard hook: which keys are kept from the game, and what a key sets off.
//!
//! Keys are only watched, never kept from the game, except while the leader key is held: then the
//! keys that follow select presets. Where a press was kept from the game, so is the release that ends
//! it, and nothing more: no key seems held to the game that is not.

use vstd::prelude::*;

use crate::config;
use crate::config::AppConfig;
use crate::config::ConfigView;
use crate::config::PresetView;
use crate::hook_laws;
use crate::hook_laws::HookEvent;
use crate::keys;
use crate::keys::HeldModifiers;
use crate::keys::MainKey;
use crate::keys::any_modifier_down;
use crate::keys::is_modifier_vk;
use crate::keys::main_matches;
use crate::keys::parse_timer_key;
use crate::keys::strip_leader_prefix;
use crate::keys::token_to_vk;
use crate::text;
use crate::text::normalize;

verus! {

/// The message for a key that goes down.
pub const WM_KEYDOWN: u32 = 0x0100;

/// The message for a key that goes up.
pub const WM_KEYUP: u32 = 0x0101;

/// The message for a key that goes down while alt is held.
pub const WM_SYSKEYDOWN: u32 = 0x0104;

/// The message for a key that goes up while alt is held.
pub const WM_SYSKEYUP: u32 = 0x0105;

/// A key that starts a timer.
#[derive(Clone, Copy, PartialEq, Eq, Structural, Debug)]
pub struct TimerBinding {
    pub seconds: u32,
    pub main: MainKey,
    pub need_ctrl: bool,
    pub need_alt: bool,
    pub need_shift: bool,
}

/// What the hook remembers from one key to the next.
#[derive(Debug)]
pub struct HookState {
    /// The leader key.
    pub leader: Option<MainKey>,
    /// Whether the leader key is held.
    pub leader_held: bool,
    /// The keys that select a preset while the leader key is held, with the presets' ids.
    pub leader_bindings: Vec<(MainKey, String)>,
    /// The keys that start a timer.
    pub timer_bindings: Vec<TimerBinding>,
    /// The keys that are down.
    pub down: Vec<u32>,
    /// The keys whose press was kept from the game and whose release is still to be kept from it.
    pub swallowed: Vec<u32>,
    /// Whether a hotkey is being recorded, so that every key must pass.
    pub capture: bool,
}

/// The contents of the hook's memory.
#[verifier::ext_equal]
pub struct HookView {
    pub leader: Option<MainKey>,
    pub leader_held: bool,
    pub leader_bindings: Seq<(MainKey, Seq<char>)>,
    pub timer_bindings: Seq<TimerBinding>,
    pub down: Seq<u32>,
    pub swallowed: Seq<u32>,
    pub capture: bool,
}

/// The contents of a list of leader bindings.
pub open spec fn leader_binding_views(v: Seq<(MainKey, String)>) -> Seq<(MainKey, Seq<char>)> {
    v.map_values(|b: (MainKey, String)| (b.0, b.1@))
}

impl View for HookState {
    type V = HookView;

    open spec fn view(&self) -> HookView {
        HookView {
            leader: self.leader,
            leader_held: self.leader_held,
            leader_bindings: leader_binding_views(self.leader_bindings@),
            timer_bindings: self.timer_bindings@,
            down: self.down@,
            swallowed: self.swallowed@,
            capture: self.capture,
        }
    }
}

impl HookView {
    /// What holds of the hook's memory at all times: no key is down twice, of no key more than one
    /// release is to be kept from the game, the leader key is only held where there is one, a modifier
    /// key is neither kept from the game nor waited for, and every timer has a duration.
    pub open spec fn wf(self) -> bool {
        &&& self.down.no_duplicates()
        &&& self.swallowed.no_duplicates()
        &&& self.leader is None ==> !self.leader_held && self.leader_bindings.len() == 0
        &&& self.leader matches Some(MainKey::Exact(x)) ==> !keys::modifier_vk(x)
        &&& forall|i: int|
            0 <= i < self.swallowed.len() ==> !keys::modifier_vk(#[trigger] self.swallowed[i])
        &&& forall|i: int|
            0 <= i < self.timer_bindings.len() ==> (#[trigger] self.timer_bindings[i]).seconds > 0
    }
}

/// The hook's memory before the first key.
pub open spec fn fresh_hook() -> HookView {
    HookView {
        leader: None,
        leader_held: false,
        leader_bindings: Seq::empty(),
        timer_bindings: Seq::empty(),
        down: Seq::empty(),
        swallowed: Seq::empty(),
        capture: false,
    }
}

impl HookState {
    /// The hook's memory before the first key.
    pub fn new() -> (r: Self)
        ensures
            r@ == fresh_hook(),
            r@.wf(),
    {
        let r = HookState {
            leader: None,
            leader_held: false,
            leader_bindings: Vec::new(),
            timer_bindings: Vec::new(),
            down: Vec::new(),
            swallowed: Vec::new(),
            capture: false,
        };
        assert(r@ =~= fresh_hook());
        r
    }
}

/// What follows from one key.
#[derive(Debug)]
pub struct HookOutcome {
    /// Whether the key is kept from the game.
    pub swallow: bool,
    /// The duration of the timer that the key starts.
    pub timer: Option<u32>,
    /// The id of the preset that the key selects.
    pub preset: Option<String>,
}

/// The contents of what follows from one key.
#[verifier::ext_equal]
pub struct HookEffect {
    pub swallow: bool,
    pub timer: Option<u32>,
    pub preset: Option<Seq<char>>,
}

impl View for HookOutcome {
    type V = HookEffect;

    open spec fn view(&self) -> HookEffect {
        HookEffect { swallow: self.swallow, timer: self.timer, preset: config::opt_text(self.preset) }
    }
}

/// A key that passes and sets nothing off.
pub open spec fn passes() -> HookEffect {
    HookEffect { swallow: false, timer: None, preset: None }
}

/// Whether a press of the key with code `vk`, with these modifiers held, is the one that a timer
/// waits for.
pub open spec fn binding_matches(b: TimerBinding, vk: u32, held: HeldModifiers) -> bool {
    &&& keys::key_matches(b.main, vk)
    &&& b.need_ctrl ==> held.ctrl
    &&& b.need_alt ==> held.alt
    &&& b.need_shift ==> held.shift
}

/// The duration of the first timer that waits for a press.
pub open spec fn timer_for(bindings: Seq<TimerBinding>, vk: u32, held: HeldModifiers) -> Option<u32>
    decreases bindings.len(),
{
    if bindings.len() == 0 {
        None
    } else if binding_matches(bindings[0], vk, held) {
        Some(bindings[0].seconds)
    } else {
        timer_for(bindings.drop_first(), vk, held)
    }
}

/// The id of the first preset that a key selects while the leader key is held.
pub open spec fn preset_for(bindings: Seq<(MainKey, Seq<char>)>, vk: u32) -> Option<Seq<char>>
    decreases bindings.len(),
{
    if bindings.len() == 0 {
        None
    } else if keys::key_matches(bindings[0].0, vk) {
        Some(bindings[0].1)
    } else {
        preset_for(bindings.drop_first(), vk)
    }
}

/// Whether a key is the leader key.
pub open spec fn is_leader(h: HookView, vk: u32) -> bool {
    match h.leader {
        Some(lk) => keys::key_matches(lk, vk),
        None => false,
    }
}

/// The items of `s`, and `x`.
pub open spec fn with_item(s: Seq<u32>, x: u32) -> Seq<u32> {
    if s.contains(x) {
        s
    } else {
        s.push(x)
    }
}

/// What a press does. A press of a key that is down already is a repeat: it sets nothing off.
pub open spec fn press(h: HookView, vk: u32, held: HeldModifiers) -> (HookView, HookEffect) {
    let repeat = h.down.contains(vk);
    let h1 = if repeat {
        h
    } else {
        HookView { down: h.down.push(vk), ..h }
    };
    if is_leader(h, vk) {
        if held.any() {
            (h1, passes())
        } else if h.leader->0 is Exact {
            (
                HookView { leader_held: true, swallowed: with_item(h.swallowed, vk), ..h1 },
                HookEffect { swallow: true, ..passes() },
            )
        } else {
            (HookView { leader_held: true, ..h1 }, passes())
        }
    } else if h.leader_held {
        if keys::modifier_vk(vk) {
            (h1, passes())
        } else {
            (
                HookView { swallowed: with_item(h.swallowed, vk), ..h1 },
                HookEffect {
                    swallow: true,
                    timer: None,
                    preset: if repeat {
                        None
                    } else {
                        preset_for(h.leader_bindings, vk)
                    },
                },
            )
        }
    } else {
        (
            h1,
            HookEffect {
                timer: if repeat {
                    None
                } else {
                    timer_for(h.timer_bindings, vk, held)
                },
                ..passes()
            },
        )
    }
}

/// The items of `s` other than `x`.
pub open spec fn all_but(s: Seq<u32>, x: u32) -> Seq<u32> {
    s.filter(|y: u32| y != x)
}

/// What a release does. It is kept from the game where a press of the same key was.
pub open spec fn release(h: HookView, vk: u32) -> (HookView, HookEffect) {
    (
        HookView {
            down: all_but(h.down, vk),
            leader_held: h.leader_held && !is_leader(h, vk),
            swallowed: h.swallowed.remove_value(vk),
            ..h
        },
        HookEffect { swallow: h.swallowed.contains(vk), ..passes() },
    )
}

/// What one message of the keyboard does. Messages with a negative code, and all messages while a
/// hotkey is being recorded, pass.
pub open spec fn hook_step(
    h: HookView,
    code: i32,
    msg: u32,
    vk: u32,
    held: HeldModifiers,
) -> (HookView, HookEffect) {
    if h.capture || code < 0 {
        (h, passes())
    } else if msg == WM_KEYDOWN || msg == WM_SYSKEYDOWN {
        press(h, vk, held)
    } else if msg == WM_KEYUP || msg == WM_SYSKEYUP {
        release(h, vk)
    } else {
        (h, passes())
    }
}

/// The duration of the timer that a press starts: that of the first binding that waits for it.
pub fn maybe_trigger_timer(bindings: &Vec<TimerBinding>, vk: u32, held: &HeldModifiers) -> (r:
    Option<u32>)
    ensures
        r == timer_for(bindings@, vk, *held),
{
    let n = bindings.len();
    let mut i: usize = 0;
    assert(bindings@.skip(0) =~= bindings@);
    while i < n
        invariant
            i <= n,
            n == bindings.len(),
            timer_for(bindings@, vk, *held) == timer_for(bindings@.skip(i as int), vk, *held),
        decreases n - i,
    {
        let b = bindings[i];
        assert(bindings@.skip(i as int).drop_first() =~= bindings@.skip(i + 1));
        if main_matches(&b.main, vk) && (!b.need_ctrl || held.ctrl) && (!b.need_alt || held.alt)
            && (!b.need_shift || held.shift) {
            return Some(b.seconds);
        }
        i += 1;
    }
    None
}

/// The id of the preset that a key selects while the leader key is held.
pub fn handle_leader_combo(bindings: &Vec<(MainKey, String)>, vk: u32) -> (r: Option<String>)
    ensures
        config::opt_text(r) == preset_for(leader_binding_views(bindings@), vk),
{
    let n = bindings.len();
    let ghost all = leader_binding_views(bindings@);
    let mut i: usize = 0;
    assert(all.skip(0) =~= all);
    while i < n
        invariant
            i <= n,
            n == bindings.len(),
            all == leader_binding_views(bindings@),
            preset_for(all, vk) == preset_for(all.skip(i as int), vk),
        decreases n - i,
    {
        assert(all.skip(i as int).drop_first() =~= all.skip(i + 1));
        assert(all[i as int] == (bindings@[i as int].0, bindings@[i as int].1@));
        if main_matches(&bindings[i].0, vk) {
            return Some(bindings[i].1.clone());
        }
        i += 1;
    }
    None
}

/// The first position of `x`.
fn position(v: &Vec<u32>, x: u32) -> (r: Option<usize>)
    ensures
        match r {
            Some(i) => i < v.len() && v@[i as int] == x && forall|k: int|
                0 <= k < i ==> v@[k] != x,
            None => !v@.contains(x),
        },
{
    let n = v.len();
    let mut i: usize = 0;
    while i < n
        invariant
            i <= n,
            n == v.len(),
            forall|k: int| 0 <= k < i ==> v@[k] != x,
        decreases n - i,
    {
        if v[i] == x {
            return Some(i);
        }
        i += 1;
    }
    None
}

/// Adds `x`, where it is not there yet.
fn add_once(v: &mut Vec<u32>, x: u32)
    ensures
        final(v)@ == with_item(old(v)@, x),
{
    if position(v, x).is_none() {
        v.push(x);
    }
}

/// One more item in view: the items other than `x`.
proof fn lemma_all_but_next(s: Seq<u32>, i: int, x: u32)
    requires
        0 <= i < s.len(),
    ensures
        all_but(s.take(i + 1), x) == (if s[i] == x {
            all_but(s.take(i), x)
        } else {
            all_but(s.take(i), x).push(s[i])
        }),
{
    reveal(Seq::filter);
    assert(s.take(i + 1).drop_last() =~= s.take(i));
}

/// The items of `v` other than `x`.
fn without(v: &Vec<u32>, x: u32) -> (r: Vec<u32>)
    ensures
        r@ == all_but(v@, x),
{
    let n = v.len();
    let mut out: Vec<u32> = Vec::new();
    let mut i: usize = 0;
    proof {
        reveal(Seq::filter);
        assert(v@.take(0) =~= Seq::empty());
    }
    while i < n
        invariant
            i <= n,
            n == v.len(),
            out@ == all_but(v@.take(i as int), x),
        decreases n - i,
    {
        proof {
            lemma_all_but_next(v@, i as int, x);
        }
        if v[i] != x {
            out.push(v[i]);
        }
        i += 1;
    }
    assert(v@.take(n as int) =~= v@);
    out
}

/// Takes one message of the keyboard and says what follows from it: `code` and `msg` are the
/// message, `vk` is the key and `held` says which modifier keys are down.
pub fn timer_hook_proc(
    hook: &mut HookState,
    code: i32,
    msg: u32,
    vk: u32,
    held: &HeldModifiers,
) -> (r: HookOutcome)
    ensures
        final(hook)@ == hook_step(old(hook)@, code, msg, vk, *held).0,
        r@ == hook_step(old(hook)@, code, msg, vk, *held).1,
        old(hook)@.wf() ==> final(hook)@.wf(),
{
    proof {
        if hook@.wf() {
            hook_laws::law_step_keeps_wf(hook@, HookEvent { code, msg, vk, held: *held });
        }
    }
    let pass = HookOutcome { swallow: false, timer: None, preset: None };
    if hook.capture || code < 0 {
        return pass;
    }
    if msg == WM_KEYDOWN || msg == WM_SYSKEYDOWN {
        let fresh = match position(&hook.down, vk) {
            Some(_) => false,
            None => {
                hook.down.push(vk);
                true
            },
        };
        if let Some(lk) = hook.leader {
            if main_matches(&lk, vk) {
                if any_modifier_down(held) {
                    return pass;
                }
                hook.leader_held = true;
                if !lk.is_modifier() {
                    add_once(&mut hook.swallowed, vk);
                    return HookOutcome { swallow: true, timer: None, preset: None };
                }
                return pass;
            }
        }
        if hook.leader_held {
            if is_modifier_vk(vk) {
                return pass;
            }
            let preset = if fresh {
                handle_leader_combo(&hook.leader_bindings, vk)
            } else {
                None
            };
            add_once(&mut hook.swallowed, vk);
            return HookOutcome { swallow: true, timer: None, preset };
        }
        let timer = if fresh {
            maybe_trigger_timer(&hook.timer_bindings, vk, held)
        } else {
            None
        };
        HookOutcome { swallow: false, timer, preset: None }
    } else if msg == WM_KEYUP || msg == WM_SYSKEYUP {
        hook.down = without(&hook.down, vk);
        if let Some(lk) = hook.leader {
            if main_matches(&lk, vk) {
                hook.leader_held = false;
            }
        }
        let ghost swallowed = hook.swallowed@;
        proof {
            swallowed.index_of_first_ensures(vk);
        }
        match position(&hook.swallowed, vk) {
            Some(i) => {
                assert(swallowed.contains(vk));
                hook.swallowed.remove(i);
                assert(swallowed.index_of_first(vk) == Some(i as int));
                HookOutcome { swallow: true, timer: None, preset: None }
            },
            None => pass,
        }
    } else {
        pass
    }
}

/// Whether a hotkey is being recorded. When the recording ends, the keys pressed during it are
/// forgotten.
pub open spec fn with_capture(h: HookView, on: bool) -> HookView {
    if on {
        HookView { capture: true, ..h }
    } else {
        HookView {
            capture: false,
            leader_held: false,
            down: Seq::empty(),
            swallowed: Seq::empty(),
            ..h
        }
    }
}

/// Begins or ends the recording of a hotkey. While it lasts, every key passes.
pub fn set_capture_mode(hook: &mut HookState, on: bool)
    ensures
        final(hook)@ == with_capture(old(hook)@, on),
        old(hook)@.wf() ==> final(hook)@.wf(),
{
    hook.capture = on;
    if !on {
        hook.leader_held = false;
        hook.down.clear();
        hook.swallowed.clear();
    }
}

/// The binding for a timer of `seconds` seconds whose key was read as `combination`.
pub open spec fn binding_list(
    seconds: u32,
    combination: Option<(MainKey, bool, bool, bool)>,
) -> Seq<TimerBinding> {
    match combination {
        Some((main, need_ctrl, need_alt, need_shift)) => seq![
            TimerBinding { seconds, main, need_ctrl, need_alt, need_shift },
        ],
        None => Seq::empty(),
    }
}

/// The duration and the key of the timer of the preset that was applied last. A timer counts where
/// it is in use, has a duration and has a key.
pub open spec fn active_timer_of(cfg: ConfigView) -> Option<(u32, Seq<char>)> {
    match config::active_preset_of(cfg) {
        Some(p) => match p.timer_hotkey {
            Some(hk) => if p.timer_enabled && p.timer_seconds > 0 {
                Some((p.timer_seconds, hk))
            } else {
                None
            },
            None => None,
        },
        None => None,
    }
}

/// The keys that start a timer: that of the preset that was applied last, and no other.
pub open spec fn timer_bindings_of(cfg: ConfigView) -> Seq<TimerBinding> {
    match active_timer_of(cfg) {
        Some((seconds, hk)) => binding_list(seconds, keys::combination_of(keys::tokens_of(hk))),
        None => Seq::empty(),
    }
}

/// The duration and the key of the timer of the preset that was applied last.
pub fn active_timer(cfg: &AppConfig) -> (r: Option<(u32, String)>)
    ensures
        match r {
            Some((seconds, hk)) => active_timer_of(cfg@) == Some((seconds, hk@)),
            None => active_timer_of(cfg@) is None,
        },
{
    match cfg.find_active() {
        Some(i) => {
            let p = &cfg.presets[i];
            if p.timer_enabled && p.timer_seconds > 0 {
                match &p.timer_hotkey {
                    Some(hk) => Some((p.timer_seconds, hk.clone())),
                    None => None,
                }
            } else {
                None
            }
        },
        None => None,
    }
}

/// The binding for a timer of `seconds` seconds whose key was read as `combination`.
pub fn timer_binding(seconds: u32, combination: Option<(MainKey, bool, bool, bool)>) -> (r: Vec<
    TimerBinding,
>)
    ensures
        r@ == binding_list(seconds, combination),
{
    let mut v: Vec<TimerBinding> = Vec::new();
    if let Some((main, need_ctrl, need_alt, need_shift)) = combination {
        v.push(TimerBinding { seconds, main, need_ctrl, need_alt, need_shift });
    }
    assert(v@ =~= binding_list(seconds, combination));
    v
}

/// Lets the hook wait for the timer key of the preset that was applied last, and for no other.
pub fn rebuild_timer_bindings(hook: &mut HookState, cfg: &AppConfig)
    ensures
        final(hook)@ == (HookView { timer_bindings: timer_bindings_of(cfg@), ..old(hook)@ }),
        old(hook)@.wf() ==> final(hook)@.wf(),
{
    proof {
        if hook@.wf() {
            hook_laws::law_settings_keep_wf(hook@, false, cfg@);
        }
    }
    hook.timer_bindings = match active_timer(cfg) {
        Some((seconds, hk)) => timer_binding(seconds, parse_timer_key(hk.as_str())),
        None => Vec::new(),
    };
}

/// The leader key of a configuration.
pub open spec fn leader_key_of(cfg: ConfigView) -> Option<MainKey> {
    match cfg.combo_leader {
        Some(s) => match keys::combination_of(keys::tokens_of(s)) {
            Some((main, _, _, _)) => Some(main),
            None => None,
        },
        None => None,
    }
}

/// The key that selects a preset while the leader key is held, for a preset whose hotkey has the
/// form `leader+X`.
pub open spec fn leader_binding_of(p: PresetView) -> Option<(MainKey, Seq<char>)> {
    match p.hotkey {
        Some(hk) => match keys::leader_suffix(text::normalized(hk)) {
            Some(rest) => match keys::vk_of_token(text::normalized(rest)) {
                Some(vk) => Some((MainKey::Exact(vk), p.id)),
                None => None,
            },
            None => None,
        },
        None => None,
    }
}

/// The keys that select presets while the leader key is held, in the order of the presets.
pub open spec fn leader_bindings_of(presets: Seq<PresetView>) -> Seq<(MainKey, Seq<char>)>
    decreases presets.len(),
{
    if presets.len() == 0 {
        Seq::empty()
    } else {
        let front = leader_bindings_of(presets.drop_last());
        match leader_binding_of(presets.last()) {
            Some(b) => front.push(b),
            None => front,
        }
    }
}

/// The hook's memory with the leader key and the combinations of a configuration. Without a leader
/// key nothing is held and nothing is waited for.
pub open spec fn with_leader(h: HookView, cfg: ConfigView) -> HookView {
    match leader_key_of(cfg) {
        Some(main) => HookView {
            leader: Some(main),
            leader_bindings: leader_bindings_of(cfg.presets),
            ..h
        },
        None => HookView {
            leader: None,
            leader_held: false,
            leader_bindings: Seq::empty(),
            ..h
        },
    }
}

fn leader_vk(hk: &str) -> (r: Option<u32>)
    ensures
        r == (match keys::leader_suffix(text::normalized(hk@)) {
            Some(rest) => keys::vk_of_token(text::normalized(rest)),
            None => None,
        }),
{
    match strip_leader_prefix(hk) {
        Some(rest) => {
            let token = normalize(rest.as_str());
            token_to_vk(token.as_str())
        },
        None => None,
    }
}

fn collect_leader_bindings(cfg: &AppConfig) -> (r: Vec<(MainKey, String)>)
    ensures
        leader_binding_views(r@) == leader_bindings_of(cfg@.presets),
{
    let n = cfg.presets.len();
    let ghost all = cfg@.presets;
    let mut v: Vec<(MainKey, String)> = Vec::new();
    let mut i: usize = 0;
    assert(all.take(0) =~= Seq::empty());
    assert(leader_binding_views(v@) =~= Seq::empty());
    while i < n
        invariant
            i <= n,
            n == cfg.presets.len(),
            all == config::preset_views(cfg.presets@),
            leader_binding_views(v@) == leader_bindings_of(all.take(i as int)),
        decreases n - i,
    {
        let p = &cfg.presets[i];
        assert(all.take(i + 1).drop_last() =~= all.take(i as int));
        assert(all[i as int] == p@);
        let ghost before = leader_binding_views(v@);
        if let Some(hk) = &p.hotkey {
            if let Some(vk) = leader_vk(hk.as_str()) {
                v.push((MainKey::Exact(vk), p.id.clone()));
                assert(leader_binding_views(v@) =~= before.push((MainKey::Exact(vk), p.id@)));
            }
        }
        i += 1;
    }
    assert(all.take(n as int) =~= all);
    v
}

/// Lets the hook use the leader key of a configuration, and the presets whose hotkeys have the form
/// `leader+X`.
pub fn rebuild_leader_bindings(hook: &mut HookState, cfg: &AppConfig)
    ensures
        final(hook)@ == with_leader(old(hook)@, cfg@),
        old(hook)@.wf() ==> final(hook)@.wf(),
{
    proof {
        if hook@.wf() {
            hook_laws::law_settings_keep_wf(hook@, false, cfg@);
        }
    }
    let leader = match &cfg.combo_leader {
        Some(s) => match parse_timer_key(s.as_str()) {
            Some((main, _, _, _)) => Some(main),
            None => None,
        },
        None => None,
    };
    let has_leader = leader.is_some();
    hook.leader = leader;
    if !has_leader {
        hook.leader_held = false;
        hook.leader_bindings.clear();
        assert(hook@.leader_bindings =~= Seq::empty());
        return;
    }
    hook.leader_bindings = collect_leader_bindings(cfg);
}

} // verus!
