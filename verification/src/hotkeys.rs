//! Hotkeys: which of several equal ones counts, which are registered with the system, and what a
//! pressed one does.

use std::str::FromStr;

use global_hotkey::hotkey::HotKey;
use vstd::prelude::*;

use crate::config;
use crate::config::AppConfig;
use crate::config::ConfigView;
use crate::config::PresetView;
use crate::keys;
use crate::keys::strip_leader_prefix;
use crate::text;
use crate::text::normalize;

verus! {

/// The places of a configuration that hold a hotkey, in order: the one for on and off, then those that
/// apply the presets, then those that start the presets' timers.
pub open spec fn slots(cfg: ConfigView) -> Seq<Option<Seq<char>>> {
    let n = cfg.presets.len() as int;
    Seq::new(
        (1 + 2 * n) as nat,
        |k: int|
            if k == 0 {
                cfg.toggle_hotkey
            } else if k <= n {
                cfg.presets[k - 1].hotkey
            } else {
                cfg.presets[k - 1 - n].timer_hotkey
            },
    )
}

/// A preset with other hotkeys.
pub open spec fn preset_with_hotkeys(
    p: PresetView,
    hotkey: Option<Seq<char>>,
    timer_hotkey: Option<Seq<char>>,
) -> PresetView {
    PresetView { hotkey, timer_hotkey, ..p }
}

/// A configuration with other hotkeys in its places.
pub open spec fn with_slots(cfg: ConfigView, s: Seq<Option<Seq<char>>>) -> ConfigView {
    ConfigView {
        toggle_hotkey: s[0],
        presets: Seq::new(
            cfg.presets.len(),
            |i: int| preset_with_hotkeys(cfg.presets[i], s[1 + i], s[1 + cfg.presets.len() + i]),
        ),
        ..cfg
    }
}

/// The form in which a hotkey that may be missing is compared.
pub open spec fn norm(o: Option<Seq<char>>) -> Option<Seq<char>> {
    match o {
        Some(t) => Some(text::normalized(t)),
        None => None,
    }
}

/// The forms in which hotkeys are compared.
pub open spec fn norms(s: Seq<Option<Seq<char>>>) -> Seq<Option<Seq<char>>> {
    s.map_values(|o: Option<Seq<char>>| norm(o))
}

/// Whether the combination at position `k` stands at a later position again.
pub open spec fn claimed_later(forms: Seq<Option<Seq<char>>>, k: int) -> bool {
    forms[k] is Some && exists|j: int| k < j < forms.len() && #[trigger] forms[j] == forms[k]
}

/// The hotkeys without those that a later place has again.
pub open spec fn deduped(s: Seq<Option<Seq<char>>>) -> Seq<Option<Seq<char>>> {
    Seq::new(
        s.len(),
        |k: int|
            if claimed_later(norms(s), k) {
                None
            } else {
                s[k]
            },
    )
}

/// A configuration in which each combination is left only in the last place that has it.
pub open spec fn deduped_config(cfg: ConfigView) -> ConfigView {
    with_slots(cfg, deduped(slots(cfg)))
}

/// The contents of a list of texts that may be missing.
pub open spec fn opt_texts(v: Seq<Option<String>>) -> Seq<Option<Seq<char>>> {
    v.map_values(|o: Option<String>| config::opt_text(o))
}

fn opt_eq(a: &Option<String>, b: &Option<String>) -> (r: bool)
    ensures
        r == (config::opt_text(*a) == config::opt_text(*b)),
{
    match a {
        Some(x) => match b {
            Some(y) => *x == *y,
            None => false,
        },
        None => b.is_none(),
    }
}

/// Says of each combination, given in the form in which it is compared, whether it stays: where the
/// same one comes later again, only the last stays.
pub fn keep_last(forms: &Vec<Option<String>>) -> (r: Vec<bool>)
    ensures
        r.len() == forms.len(),
        forall|k: int|
            0 <= k < r.len() ==> #[trigger] r@[k] == !claimed_later(opt_texts(forms@), k),
{
    let n = forms.len();
    let ghost all = opt_texts(forms@);
    let mut out: Vec<bool> = Vec::new();
    let mut k: usize = 0;
    while k < n
        invariant
            k <= n,
            n == forms.len(),
            all == opt_texts(forms@),
            out.len() == k,
            forall|i: int| 0 <= i < k ==> #[trigger] out@[i] == !claimed_later(all, i),
        decreases n - k,
    {
        let mut later = false;
        assert(all[k as int] == config::opt_text(forms@[k as int]));
        if forms[k].is_some() {
            let mut j: usize = k + 1;
            while j < n
                invariant
                    k < j <= n,
                    n == forms.len(),
                    all == opt_texts(forms@),
                    later == exists|i: int| k < i < j && #[trigger] all[i] == all[k as int],
                decreases n - j,
            {
                assert(all[j as int] == config::opt_text(forms@[j as int]));
                if opt_eq(&forms[j], &forms[k]) {
                    later = true;
                }
                j += 1;
            }
        }
        out.push(!later);
        k += 1;
    }
    out
}

fn normalize_opt(o: &Option<String>) -> (r: Option<String>)
    ensures
        config::opt_text(r) == norm(config::opt_text(*o)),
{
    match o {
        Some(t) => Some(normalize(t.as_str())),
        None => None,
    }
}

/// The forms in which a configuration's hotkeys are compared.
fn slot_forms(cfg: &AppConfig) -> (r: Vec<Option<String>>)
    ensures
        opt_texts(r@) == norms(slots(cfg@)),
{
    let n = cfg.presets.len();
    let ghost all = norms(slots(cfg@));
    let mut out: Vec<Option<String>> = Vec::new();
    out.push(normalize_opt(&cfg.toggle_hotkey));
    let mut i: usize = 0;
    while i < n
        invariant
            i <= n,
            n == cfg.presets.len(),
            all == norms(slots(cfg@)),
            out.len() == 1 + i,
            forall|k: int| 0 <= k < out.len() ==> #[trigger] config::opt_text(out@[k]) == all[k],
        decreases n - i,
    {
        let p = &cfg.presets[i];
        assert(cfg@.presets[i as int] == p@);
        out.push(normalize_opt(&p.hotkey));
        assert(slots(cfg@)[1 + i] == p@.hotkey);
        i += 1;
    }
    let mut j: usize = 0;
    while j < n
        invariant
            j <= n,
            n == cfg.presets.len(),
            all == norms(slots(cfg@)),
            out.len() == 1 + n + j,
            forall|k: int| 0 <= k < out.len() ==> #[trigger] config::opt_text(out@[k]) == all[k],
        decreases n - j,
    {
        let p = &cfg.presets[j];
        assert(cfg@.presets[j as int] == p@);
        out.push(normalize_opt(&p.timer_hotkey));
        assert(slots(cfg@)[1 + n + j] == p@.timer_hotkey);
        j += 1;
    }
    assert(opt_texts(out@) =~= all);
    out
}

/// Leaves each combination only in the last place that has it, so that the one chosen last wins, and
/// empties the others. The place for on and off comes first, then those that apply presets, then those
/// that start timers.
pub fn dedupe_hotkeys(cfg: &mut AppConfig)
    ensures
        final(cfg)@ == deduped_config(old(cfg)@),
{
    let forms = slot_forms(cfg);
    let keep = keep_last(&forms);
    let n = cfg.presets.len();
    let ghost before = cfg@;
    let ghost s = slots(before);
    let ghost d = deduped(s);
    assert(keep.len() == 1 + 2 * n) by {
        assert(opt_texts(forms@).len() == norms(s).len());
    }
    assert(keep@[0] == !claimed_later(norms(s), 0));
    if !keep[0] {
        cfg.toggle_hotkey = None;
    }
    assert(config::opt_text(cfg.toggle_hotkey) == d[0]);
    let mut i: usize = 0;
    while i < n
        invariant
            i <= n,
            n == cfg.presets.len(),
            n == before.presets.len(),
            s == slots(before),
            d == deduped(s),
            keep.len() == 1 + 2 * n,
            forall|k: int|
                0 <= k < keep.len() ==> #[trigger] keep@[k] == !claimed_later(norms(s), k),
            cfg@ == (ConfigView { toggle_hotkey: d[0], presets: cfg@.presets, ..before }),
            forall|k: int|
                0 <= k < i ==> #[trigger] cfg@.presets[k] == preset_with_hotkeys(
                    before.presets[k],
                    d[1 + k],
                    d[1 + n + k],
                ),
            forall|k: int| i <= k < n ==> #[trigger] cfg@.presets[k] == before.presets[k],
        decreases n - i,
    {
        let ghost mid = cfg@;
        assert(mid.presets[i as int] == before.presets[i as int]);
        assert(cfg.presets@[i as int]@ == mid.presets[i as int]);
        assert(s[1 + i] == before.presets[i as int].hotkey);
        assert(s[1 + n + i] == before.presets[i as int].timer_hotkey);
        if !keep[1 + i] {
            cfg.presets[i].hotkey = None;
        }
        if !keep[1 + n + i] {
            cfg.presets[i].timer_hotkey = None;
        }
        assert(cfg.presets@[i as int]@ == preset_with_hotkeys(
            before.presets[i as int],
            d[1 + i],
            d[1 + n + i],
        ));
        assert forall|k: int| 0 <= k < n && k != i implies #[trigger] cfg@.presets[k]
            == mid.presets[k] by {}
        i += 1;
    }
    assert(cfg@.presets =~= with_slots(before, d).presets);
}

/// A combination as the system knows it.
#[derive(Clone, Copy, PartialEq, Eq, Structural, Debug)]
pub struct Shortcut {
    /// The bits of the modifiers.
    pub mods: u32,
    /// The number of the key.
    pub key: u32,
    /// The number under which the combination is registered.
    pub id: u32,
}

impl View for Shortcut {
    type V = (u32, u32, u32);

    open spec fn view(&self) -> (u32, u32, u32) {
        (self.mods, self.key, self.id)
    }
}

/// What `HotKey::from_str` reads from a text: the bits of the modifiers, the number of the key and
/// the number under which the combination is registered.
pub uninterp spec fn hotkey_of(s: Seq<char>) -> Option<(u32, u32, u32)>;

/// Calls `HotKey::from_str` of `global_hotkey`. Whether it reads a text, and as which combination,
/// depends on the text alone in every build of this program, which is made for Windows; a build for
/// macOS would read `CommandOrControl` as another modifier. Which texts it reads, and as which
/// combinations, is not stated.
#[verifier::external_body]
fn read_hotkey(s: &str) -> (r: Option<(u32, u32, u32)>)
    ensures
        r == hotkey_of(s@),
{
    match HotKey::from_str(s) {
        Ok(hotkey) => Some((hotkey.mods.bits(), hotkey.key as u32, hotkey.id)),
        Err(_) => None,
    }
}

/// The contents of a combination that may be missing.
pub open spec fn opt_shortcut(o: Option<Shortcut>) -> Option<(u32, u32, u32)> {
    match o {
        Some(s) => Some(s@),
        None => None,
    }
}

/// Reads a combination; nothing where the text is no combination.
pub fn parse_shortcut(s: &str) -> (r: Option<Shortcut>)
    ensures
        opt_shortcut(r) == hotkey_of(s@),
{
    match read_hotkey(s) {
        Some((mods, key, id)) => Some(Shortcut { mods, key, id }),
        None => None,
    }
}

/// Whether a pressed combination is the one that a text writes.
pub fn matches_shortcut(pressed: &Shortcut, config_str: &str) -> (r: bool)
    ensures
        r == (hotkey_of(config_str@) == Some(pressed@)),
{
    match parse_shortcut(config_str) {
        Some(s) => s == *pressed,
        None => false,
    }
}

/// What a pressed combination does.
#[derive(Debug)]
pub enum ShortcutAction {
    /// Turns the filter keys on or off.
    Toggle,
    /// Applies the preset with this id.
    Apply(String),
    /// Nothing.
    Nothing,
}

/// The contents of what a pressed combination does.
pub enum ActionView {
    Toggle,
    Apply(Seq<char>),
    Nothing,
}

impl View for ShortcutAction {
    type V = ActionView;

    open spec fn view(&self) -> ActionView {
        match self {
            ShortcutAction::Toggle => ActionView::Toggle,
            ShortcutAction::Apply(id) => ActionView::Apply(id@),
            ShortcutAction::Nothing => ActionView::Nothing,
        }
    }
}

/// Whether a hotkey that may be missing writes a pressed combination.
pub open spec fn writes(hotkey: Option<Seq<char>>, pressed: (u32, u32, u32)) -> bool {
    match hotkey {
        Some(t) => hotkey_of(t) == Some(pressed),
        None => false,
    }
}

/// The position of the first of several combinations, as read, that is the pressed one.
pub open spec fn first_pressed(
    read: Seq<Option<(u32, u32, u32)>>,
    pressed: (u32, u32, u32),
) -> Option<int>
    decreases read.len(),
{
    if read.len() == 0 {
        None
    } else {
        match first_pressed(read.drop_last(), pressed) {
            Some(i) => Some(i),
            None => if read.last() == Some(pressed) {
                Some(read.len() - 1)
            } else {
                None
            },
        }
    }
}

/// The contents of a list of combinations that may be missing.
pub open spec fn opt_shortcuts(v: Seq<Option<Shortcut>>) -> Seq<Option<(u32, u32, u32)>> {
    v.map_values(|o: Option<Shortcut>| opt_shortcut(o))
}

/// What the presets' hotkeys are read as.
pub open spec fn preset_shortcuts(presets: Seq<PresetView>) -> Seq<Option<(u32, u32, u32)>> {
    presets.map_values(
        |p: PresetView|
            match p.hotkey {
                Some(t) => hotkey_of(t),
                None => None,
            },
    )
}

/// What a pressed combination does: the hotkey for on and off goes first, then the first preset
/// whose hotkey it is.
pub open spec fn action_of(cfg: ConfigView, pressed: (u32, u32, u32)) -> ActionView {
    if writes(cfg.toggle_hotkey, pressed) {
        ActionView::Toggle
    } else {
        match first_pressed(preset_shortcuts(cfg.presets), pressed) {
            Some(i) => ActionView::Apply(cfg.presets[i].id),
            None => ActionView::Nothing,
        }
    }
}

/// What is found first in a list's beginning is first in the list.
proof fn lemma_first_pressed_prefix(
    read: Seq<Option<(u32, u32, u32)>>,
    n: int,
    pressed: (u32, u32, u32),
)
    requires
        0 <= n <= read.len(),
        first_pressed(read.take(n), pressed) is Some,
    ensures
        first_pressed(read, pressed) == first_pressed(read.take(n), pressed),
    decreases read.len() - n,
{
    if n == read.len() {
        assert(read.take(n) =~= read);
    } else {
        assert(read.take(n + 1).drop_last() =~= read.take(n));
        lemma_first_pressed_prefix(read, n + 1, pressed);
    }
}

/// The position of the first of several combinations, as read, that is the pressed one.
pub fn find_pressed(read: &Vec<Option<Shortcut>>, pressed: &Shortcut) -> (r: Option<usize>)
    ensures
        match r {
            Some(i) => first_pressed(opt_shortcuts(read@), pressed@) == Some(i as int) && i
                < read.len(),
            None => first_pressed(opt_shortcuts(read@), pressed@) is None,
        },
{
    let n = read.len();
    let ghost all = opt_shortcuts(read@);
    let mut i: usize = 0;
    assert(all.take(0) =~= Seq::empty());
    while i < n
        invariant
            i <= n,
            n == read.len(),
            all == opt_shortcuts(read@),
            first_pressed(all.take(i as int), pressed@) is None,
        decreases n - i,
    {
        assert(all.take(i + 1).drop_last() =~= all.take(i as int));
        assert(all[i as int] == opt_shortcut(read@[i as int]));
        let found = match read[i] {
            Some(s) => s == *pressed,
            None => false,
        };
        if found {
            proof {
                lemma_first_pressed_prefix(all, i + 1, pressed@);
            }
            return Some(i);
        }
        i += 1;
    }
    assert(all.take(n as int) =~= all);
    None
}

/// What a pressed combination does: the hotkey for on and off goes first, then the first preset
/// whose hotkey it is.
pub fn shortcut_action(cfg: &AppConfig, pressed: &Shortcut) -> (r: ShortcutAction)
    ensures
        r@ == action_of(cfg@, pressed@),
{
    let is_toggle = match &cfg.toggle_hotkey {
        Some(t) => matches_shortcut(pressed, t.as_str()),
        None => false,
    };
    if is_toggle {
        return ShortcutAction::Toggle;
    }
    let n = cfg.presets.len();
    let mut read: Vec<Option<Shortcut>> = Vec::new();
    let ghost all = preset_shortcuts(cfg@.presets);
    let mut i: usize = 0;
    while i < n
        invariant
            i <= n,
            n == cfg.presets.len(),
            all == preset_shortcuts(cfg@.presets),
            read.len() == i,
            forall|k: int| 0 <= k < i ==> #[trigger] opt_shortcut(read@[k]) == all[k],
        decreases n - i,
    {
        assert(cfg@.presets[i as int] == cfg.presets@[i as int]@);
        read.push(
            match &cfg.presets[i].hotkey {
                Some(t) => parse_shortcut(t.as_str()),
                None => None,
            },
        );
        i += 1;
    }
    assert(opt_shortcuts(read@) =~= all);
    match find_pressed(&read, pressed) {
        Some(i) => {
            assert(cfg@.presets[i as int] == cfg.presets@[i as int]@);
            ShortcutAction::Apply(cfg.presets[i].id.clone())
        },
        None => ShortcutAction::Nothing,
    }
}

/// The presets' hotkeys that the system is to know, in order. Those of the form `leader+X` are left
/// to the keyboard hook.
pub open spec fn preset_candidates(presets: Seq<PresetView>) -> Seq<Seq<char>>
    decreases presets.len(),
{
    if presets.len() == 0 {
        Seq::empty()
    } else {
        let front = preset_candidates(presets.drop_last());
        match presets.last().hotkey {
            Some(t) => if keys::leader_suffix(text::normalized(t)) is None {
                front.push(t)
            } else {
                front
            },
            None => front,
        }
    }
}

/// The hotkeys that the system is to know, in order: the one for on and off, then the presets'.
/// Timer keys are left to the keyboard hook.
pub open spec fn candidates(cfg: ConfigView) -> Seq<Seq<char>> {
    match cfg.toggle_hotkey {
        Some(t) => seq![t] + preset_candidates(cfg.presets),
        None => preset_candidates(cfg.presets),
    }
}

/// The forms in which texts are compared.
pub open spec fn text_norms(s: Seq<Seq<char>>) -> Seq<Option<Seq<char>>> {
    s.map_values(|t: Seq<char>| Some(text::normalized(t)))
}

/// The first `n` texts without those that come later again.
pub open spec fn last_ones(s: Seq<Seq<char>>, n: int) -> Seq<Seq<char>>
    decreases n,
{
    if n <= 0 {
        Seq::empty()
    } else if claimed_later(text_norms(s), n - 1) {
        last_ones(s, n - 1)
    } else {
        last_ones(s, n - 1).push(s[n - 1])
    }
}

/// The texts without those that come later again.
pub open spec fn unique_last(s: Seq<Seq<char>>) -> Seq<Seq<char>> {
    last_ones(s, s.len() as int)
}

/// A hotkey that is to be registered.
#[derive(Debug)]
pub struct HotkeyRequest {
    pub text: String,
    /// The combination, where the text is one.
    pub shortcut: Option<Shortcut>,
}

/// What has to be done so that the system knows a configuration's hotkeys.
#[derive(Debug)]
pub struct SyncPlan {
    /// The hotkeys registered before, which are to be released.
    pub release: Vec<String>,
    /// The hotkeys to register, in order.
    pub register: Vec<HotkeyRequest>,
}

/// The texts of several requests.
pub open spec fn request_texts(v: Seq<HotkeyRequest>) -> Seq<Seq<char>> {
    v.map_values(|q: HotkeyRequest| q.text@)
}

/// Whether each request holds the combination that its text is read as.
pub open spec fn requests_read(v: Seq<HotkeyRequest>) -> bool {
    forall|i: int|
        0 <= i < v.len() ==> opt_shortcut((#[trigger] v[i]).shortcut) == hotkey_of(v[i].text@)
}

/// The texts that are combinations, in order.
pub open spec fn readable(s: Seq<Seq<char>>) -> Seq<Seq<char>>
    decreases s.len(),
{
    if s.len() == 0 {
        Seq::empty()
    } else if hotkey_of(s.last()) is Some {
        readable(s.drop_last()).push(s.last())
    } else {
        readable(s.drop_last())
    }
}

fn push_text(v: &mut Vec<String>, t: String)
    ensures
        keys::texts(final(v)@) == keys::texts(old(v)@).push(t@),
{
    v.push(t);
    assert(keys::texts(v@) =~= keys::texts(old(v)@).push(t@));
}

/// The hotkeys that the system is to know, in order: the one for on and off, then the presets',
/// except those of the form `leader+X`.
pub fn hotkey_candidates(cfg: &AppConfig) -> (r: Vec<String>)
    ensures
        keys::texts(r@) == candidates(cfg@),
{
    let mut out: Vec<String> = Vec::new();
    assert(keys::texts(out@) =~= Seq::empty());
    let ghost all = cfg@.presets;
    let ghost head = match cfg@.toggle_hotkey {
        Some(t) => seq![t],
        None => Seq::empty(),
    };
    if let Some(t) = &cfg.toggle_hotkey {
        push_text(&mut out, t.clone());
    }
    assert(keys::texts(out@) =~= head);
    let n = cfg.presets.len();
    let mut i: usize = 0;
    assert(all.take(0) =~= Seq::empty());
    assert(head + preset_candidates(all.take(0)) =~= head);
    while i < n
        invariant
            i <= n,
            n == cfg.presets.len(),
            all == config::preset_views(cfg.presets@),
            keys::texts(out@) == head + preset_candidates(all.take(i as int)),
        decreases n - i,
    {
        assert(all.take(i + 1).drop_last() =~= all.take(i as int));
        assert(all[i as int] == cfg.presets@[i as int]@);
        if let Some(t) = &cfg.presets[i].hotkey {
            if strip_leader_prefix(t.as_str()).is_none() {
                push_text(&mut out, t.clone());
                assert(keys::texts(out@) =~= head + preset_candidates(all.take(i + 1)));
            }
        }
        i += 1;
    }
    assert(all.take(n as int) =~= all);
    assert(keys::texts(out@) =~= candidates(cfg@));
    out
}

/// Says what has to be done so that the system knows a configuration's hotkeys: those registered
/// before are released, then each combination is registered once, for the last of the hotkeys that
/// write it.
pub fn sync_hotkeys(previous: &Vec<String>, cfg: &AppConfig) -> (r: SyncPlan)
    ensures
        keys::texts(r.release@) == readable(keys::texts(previous@)),
        request_texts(r.register@) == unique_last(candidates(cfg@)),
        requests_read(r.register@),
{
    let mut release: Vec<String> = Vec::new();
    let ghost old_texts = keys::texts(previous@);
    let mut i: usize = 0;
    assert(old_texts.take(0) =~= Seq::empty());
    assert(keys::texts(release@) =~= Seq::empty());
    while i < previous.len()
        invariant
            i <= previous.len(),
            old_texts == keys::texts(previous@),
            keys::texts(release@) == readable(old_texts.take(i as int)),
        decreases previous.len() - i,
    {
        assert(old_texts.take(i + 1).drop_last() =~= old_texts.take(i as int));
        assert(old_texts[i as int] == previous@[i as int]@);
        if parse_shortcut(previous[i].as_str()).is_some() {
            push_text(&mut release, previous[i].clone());
        }
        i += 1;
    }
    assert(old_texts.take(previous.len() as int) =~= old_texts);

    let found = hotkey_candidates(cfg);
    let ghost all = keys::texts(found@);
    let n = found.len();
    let mut forms: Vec<Option<String>> = Vec::new();
    let mut j: usize = 0;
    while j < n
        invariant
            j <= n,
            n == found.len(),
            all == keys::texts(found@),
            forms.len() == j,
            forall|k: int|
                0 <= k < j ==> #[trigger] config::opt_text(forms@[k]) == text_norms(all)[k],
        decreases n - j,
    {
        assert(all[j as int] == found@[j as int]@);
        forms.push(Some(normalize(found[j].as_str())));
        j += 1;
    }
    assert(opt_texts(forms@) =~= text_norms(all));
    let keep = keep_last(&forms);
    let mut register: Vec<HotkeyRequest> = Vec::new();
    let mut k: usize = 0;
    assert(request_texts(register@) =~= Seq::empty());
    while k < n
        invariant
            k <= n,
            n == found.len(),
            all == keys::texts(found@),
            keep.len() == n,
            forall|i: int|
                0 <= i < n ==> #[trigger] keep@[i] == !claimed_later(text_norms(all), i),
            request_texts(register@) == last_ones(all, k as int),
            requests_read(register@),
        decreases n - k,
    {
        assert(all[k as int] == found@[k as int]@);
        if keep[k] {
            let ghost before = register@;
            let text = found[k].clone();
            let shortcut = parse_shortcut(text.as_str());
            register.push(HotkeyRequest { text, shortcut });
            assert(request_texts(register@) =~= request_texts(before).push(all[k as int]));
        }
        k += 1;
    }
    SyncPlan { release, register }
}

/// How the registration of a hotkey ended.
#[derive(Clone, Copy, PartialEq, Eq, Structural, Debug)]
pub enum Ending {
    /// The system knows it.
    Registered,
    /// Its text is no combination.
    Failed,
    /// The system did not accept it.
    Refused,
}

/// How the registration of a hotkey ended, where `accepted` says whether the system accepted it.
pub open spec fn ending_of(q: HotkeyRequest, accepted: bool) -> Ending {
    if q.shortcut is None {
        Ending::Failed
    } else if accepted {
        Ending::Registered
    } else {
        Ending::Refused
    }
}

/// The texts of the first `n` requests whose registration ended in `wanted`.
pub open spec fn ended(
    requests: Seq<HotkeyRequest>,
    accepted: Seq<bool>,
    n: int,
    wanted: Ending,
) -> Seq<Seq<char>>
    decreases n,
{
    if n <= 0 {
        Seq::empty()
    } else if ending_of(requests[n - 1], accepted[n - 1]) == wanted {
        ended(requests, accepted, n - 1, wanted).push(requests[n - 1].text@)
    } else {
        ended(requests, accepted, n - 1, wanted)
    }
}

/// Hotkeys by how their registration ended.
#[derive(Debug)]
pub struct SyncOutcome {
    /// Those that the system knows now.
    pub registered: Vec<String>,
    /// Those whose text is no combination, which are shown to the user.
    pub failed: Vec<String>,
    /// Those that the system did not accept.
    pub refused: Vec<String>,
}

/// Sorts hotkeys by how their registration ended, each kind in order. `accepted` says of each whether
/// the system accepted it; of a text that is no combination it says nothing.
pub fn sync_outcome(requests: &Vec<HotkeyRequest>, accepted: &Vec<bool>) -> (r: SyncOutcome)
    requires
        accepted.len() == requests.len(),
    ensures
        ({
            let n = requests.len() as int;
            &&& keys::texts(r.registered@) == ended(requests@, accepted@, n, Ending::Registered)
            &&& keys::texts(r.failed@) == ended(requests@, accepted@, n, Ending::Failed)
            &&& keys::texts(r.refused@) == ended(requests@, accepted@, n, Ending::Refused)
        }),
{
    let mut registered: Vec<String> = Vec::new();
    let mut failed: Vec<String> = Vec::new();
    let mut refused: Vec<String> = Vec::new();
    let mut i: usize = 0;
    assert(keys::texts(registered@) =~= Seq::empty());
    assert(keys::texts(failed@) =~= Seq::empty());
    assert(keys::texts(refused@) =~= Seq::empty());
    while i < requests.len()
        invariant
            i <= requests.len(),
            accepted.len() == requests.len(),
            keys::texts(registered@) == ended(
                requests@,
                accepted@,
                i as int,
                Ending::Registered,
            ),
            keys::texts(failed@) == ended(requests@, accepted@, i as int, Ending::Failed),
            keys::texts(refused@) == ended(requests@, accepted@, i as int, Ending::Refused),
        decreases requests.len() - i,
    {
        let text = requests[i].text.clone();
        if requests[i].shortcut.is_none() {
            push_text(&mut failed, text);
        } else if accepted[i] {
            push_text(&mut registered, text);
        } else {
            push_text(&mut refused, text);
        }
        i += 1;
    }
    SyncOutcome { registered, failed, refused }
}

} // verus!
