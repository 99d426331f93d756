//! What holds of hotkeys whatever the configuration.

use vstd::prelude::*;

use crate::config::ConfigView;
use crate::config::PresetView;
use crate::hotkeys;
use crate::hotkeys::ActionView;
use crate::hotkeys::Ending;
use crate::hotkeys::HotkeyRequest;
use crate::keys;
use crate::text;

verus! {

/// The hotkeys put into a configuration's places are those found there.
proof fn lemma_slots_of_with_slots(cfg: ConfigView, s: Seq<Option<Seq<char>>>)
    requires
        s.len() == 1 + 2 * cfg.presets.len(),
    ensures
        hotkeys::slots(hotkeys::with_slots(cfg, s)) == s,
{
    let c = hotkeys::with_slots(cfg, s);
    assert(hotkeys::slots(c) =~= s);
}

/// Removing doubled hotkeys empties places and does nothing else: a place keeps its hotkey or loses
/// it, and with the old hotkeys put back the configuration is the old one.
pub proof fn law_dedupe_only_empties(cfg: ConfigView)
    ensures
        forall|k: int|
            0 <= k < hotkeys::slots(cfg).len() ==> {
                ||| #[trigger] hotkeys::slots(hotkeys::deduped_config(cfg))[k] == hotkeys::slots(
                    cfg,
                )[k]
                ||| hotkeys::slots(hotkeys::deduped_config(cfg))[k] is None
            },
        hotkeys::slots(hotkeys::deduped_config(cfg)).len() == hotkeys::slots(cfg).len(),
        hotkeys::with_slots(hotkeys::deduped_config(cfg), hotkeys::slots(cfg)) == cfg,
{
    let s = hotkeys::slots(cfg);
    lemma_slots_of_with_slots(cfg, hotkeys::deduped(s));
    let back = hotkeys::with_slots(hotkeys::deduped_config(cfg), s);
    assert forall|i: int| 0 <= i < cfg.presets.len() implies back.presets[i] == cfg.presets[i] by {
        assert(s[1 + i] == cfg.presets[i].hotkey);
        assert(s[1 + cfg.presets.len() + i] == cfg.presets[i].timer_hotkey);
    }
    assert(back.presets =~= cfg.presets);
}

/// After doubled hotkeys are removed, no two places have the same combination.
pub proof fn law_dedupe_leaves_no_double(cfg: ConfigView, i: int, j: int)
    requires
        0 <= i < j < hotkeys::slots(cfg).len(),
        hotkeys::slots(hotkeys::deduped_config(cfg))[i] is Some,
        hotkeys::slots(hotkeys::deduped_config(cfg))[j] is Some,
    ensures
        hotkeys::norm(hotkeys::slots(hotkeys::deduped_config(cfg))[i]) != hotkeys::norm(
            hotkeys::slots(hotkeys::deduped_config(cfg))[j],
        ),
{
    let s = hotkeys::slots(cfg);
    lemma_slots_of_with_slots(cfg, hotkeys::deduped(s));
    let forms = hotkeys::norms(s);
    assert(forms[i] == hotkeys::norm(s[i]));
    assert(forms[j] == hotkeys::norm(s[j]));
    assert(!hotkeys::claimed_later(forms, i));
}

/// From some position on, the last occurrence of a form.
proof fn lemma_last_occurrence(forms: Seq<Option<Seq<char>>>, k: int) -> (j: int)
    requires
        0 <= k < forms.len(),
        forms[k] is Some,
    ensures
        k <= j < forms.len(),
        forms[j] == forms[k],
        !hotkeys::claimed_later(forms, j),
    decreases forms.len() - k,
{
    if hotkeys::claimed_later(forms, k) {
        let m = choose|m: int| k < m < forms.len() && #[trigger] forms[m] == forms[k];
        lemma_last_occurrence(forms, m)
    } else {
        k
    }
}

/// The last place wins: of each combination that some place has, the last place that has it keeps
/// it.
pub proof fn law_dedupe_last_wins(cfg: ConfigView, k: int) -> (j: int)
    requires
        0 <= k < hotkeys::slots(cfg).len(),
        hotkeys::slots(cfg)[k] is Some,
    ensures
        k <= j < hotkeys::slots(cfg).len(),
        hotkeys::norm(hotkeys::slots(cfg)[j]) == hotkeys::norm(hotkeys::slots(cfg)[k]),
        hotkeys::slots(hotkeys::deduped_config(cfg))[j] == hotkeys::slots(cfg)[j],
        forall|m: int|
            j < m < hotkeys::slots(cfg).len() ==> hotkeys::norm(#[trigger] hotkeys::slots(cfg)[m])
                != hotkeys::norm(hotkeys::slots(cfg)[k]),
{
    let s = hotkeys::slots(cfg);
    let forms = hotkeys::norms(s);
    lemma_slots_of_with_slots(cfg, hotkeys::deduped(s));
    assert(forms[k] == hotkeys::norm(s[k]));
    let j = lemma_last_occurrence(forms, k);
    assert(forms[j] == hotkeys::norm(s[j]));
    assert forall|m: int| j < m < s.len() implies hotkeys::norm(#[trigger] s[m]) != hotkeys::norm(
        s[k],
    ) by {
        assert(forms[m] == hotkeys::norm(s[m]));
    }
    j
}

/// Removing doubled hotkeys a second time changes nothing.
pub proof fn law_dedupe_is_idempotent(cfg: ConfigView)
    ensures
        hotkeys::deduped_config(hotkeys::deduped_config(cfg)) == hotkeys::deduped_config(cfg),
{
    let c = hotkeys::deduped_config(cfg);
    let d = hotkeys::deduped(hotkeys::slots(cfg));
    lemma_slots_of_with_slots(cfg, d);
    let forms = hotkeys::norms(d);
    assert forall|k: int| 0 <= k < d.len() implies !hotkeys::claimed_later(forms, k) by {
        if hotkeys::claimed_later(forms, k) {
            let m = choose|m: int| k < m < forms.len() && #[trigger] forms[m] == forms[k];
            assert(forms[k] == hotkeys::norm(d[k]));
            assert(forms[m] == hotkeys::norm(d[m]));
            law_dedupe_leaves_no_double(cfg, k, m);
        }
    }
    assert(hotkeys::deduped(d) =~= d);
    assert(hotkeys::with_slots(c, d).presets =~= c.presets);
}

/// What is kept of the first `n` texts: some of them, in order, with different forms.
proof fn lemma_last_ones(s: Seq<Seq<char>>, n: int)
    requires
        0 <= n <= s.len(),
    ensures
        forall|i: int|
            0 <= i < hotkeys::last_ones(s, n).len() ==> exists|k: int|
                0 <= k < n && #[trigger] s[k] == #[trigger] hotkeys::last_ones(s, n)[i]
                    && !hotkeys::claimed_later(hotkeys::text_norms(s), k),
        forall|k: int|
            0 <= k < n && !hotkeys::claimed_later(hotkeys::text_norms(s), k)
                ==> hotkeys::last_ones(s, n).contains(#[trigger] s[k]),
        forall|i: int, j: int|
            0 <= i < j < hotkeys::last_ones(s, n).len() ==> text::normalized(
                #[trigger] hotkeys::last_ones(s, n)[i],
            ) != text::normalized(#[trigger] hotkeys::last_ones(s, n)[j]),
    decreases n,
{
    let out = hotkeys::last_ones(s, n);
    let forms = hotkeys::text_norms(s);
    if n > 0 {
        lemma_last_ones(s, n - 1);
        let front = hotkeys::last_ones(s, n - 1);
        assert forall|i: int| 0 <= i < out.len() implies exists|k: int|
            0 <= k < n && #[trigger] s[k] == #[trigger] out[i] && !hotkeys::claimed_later(
                forms,
                k,
            ) by {
            if i < front.len() {
                let k = choose|k: int|
                    0 <= k < n - 1 && #[trigger] s[k] == front[i] && !hotkeys::claimed_later(
                        forms,
                        k,
                    );
                assert(s[k] == out[i]);
            } else {
                assert(s[n - 1] == out[i]);
            }
        }
        assert forall|k: int|
            0 <= k < n && !hotkeys::claimed_later(forms, k) implies out.contains(
            #[trigger] s[k],
        ) by {
            if k < n - 1 {
                assert(front.contains(s[k]));
                let i = choose|i: int| 0 <= i < front.len() && front[i] == s[k];
                assert(out[i] == s[k]);
            } else {
                assert(out[front.len() as int] == s[k]);
            }
        }
        assert forall|i: int, j: int| 0 <= i < j < out.len() implies text::normalized(
            #[trigger] out[i],
        ) != text::normalized(#[trigger] out[j]) by {
            assert(out[i] == front[i]);
            if j < front.len() {
                assert(out[j] == front[j]);
            } else {
                let k = choose|k: int|
                    0 <= k < n - 1 && #[trigger] s[k] == front[i] && !hotkeys::claimed_later(
                        forms,
                        k,
                    );
                assert(forms[k] == Some(text::normalized(s[k])));
                assert(forms[n - 1] == Some(text::normalized(s[n - 1])));
                assert(forms[k] is Some && k < n - 1 < forms.len());
            }
        }
    }
}

/// Each combination is registered once.
pub proof fn law_registered_once(cfg: ConfigView, i: int, j: int)
    requires
        0 <= i < j < hotkeys::unique_last(hotkeys::candidates(cfg)).len(),
    ensures
        text::normalized(hotkeys::unique_last(hotkeys::candidates(cfg))[i]) != text::normalized(
            hotkeys::unique_last(hotkeys::candidates(cfg))[j],
        ),
{
    lemma_last_ones(hotkeys::candidates(cfg), hotkeys::candidates(cfg).len() as int);
}

/// No combination is lost: each hotkey that the system is to know is registered, in the form of the
/// last hotkey that writes the same combination.
pub proof fn law_none_left_out(cfg: ConfigView, k: int) -> (j: int)
    requires
        0 <= k < hotkeys::candidates(cfg).len(),
    ensures
        k <= j < hotkeys::candidates(cfg).len(),
        text::normalized(hotkeys::candidates(cfg)[j]) == text::normalized(
            hotkeys::candidates(cfg)[k],
        ),
        hotkeys::unique_last(hotkeys::candidates(cfg)).contains(hotkeys::candidates(cfg)[j]),
{
    let s = hotkeys::candidates(cfg);
    let forms = hotkeys::text_norms(s);
    assert(forms[k] == Some(text::normalized(s[k])));
    let j = lemma_last_occurrence(forms, k);
    assert(forms[j] == Some(text::normalized(s[j])));
    lemma_last_ones(s, s.len() as int);
    j
}

/// The presets' hotkeys that the system is to know are presets' hotkeys and have not the form
/// `leader+X`.
pub proof fn law_leader_combinations_stay_with_the_hook(presets: Seq<PresetView>, i: int) -> (k: int)
    requires
        0 <= i < hotkeys::preset_candidates(presets).len(),
    ensures
        0 <= k < presets.len(),
        presets[k].hotkey == Some(hotkeys::preset_candidates(presets)[i]),
        keys::leader_suffix(text::normalized(hotkeys::preset_candidates(presets)[i])) is None,
    decreases presets.len(),
{
    let front = presets.drop_last();
    if i < hotkeys::preset_candidates(front).len() {
        let k = law_leader_combinations_stay_with_the_hook(front, i);
        assert(front[k] == presets[k]);
        k
    } else {
        presets.len() - 1
    }
}

/// Where presets' hotkeys all differ, so do those that the system is to know.
proof fn lemma_candidates_differ(presets: Seq<PresetView>, i: int, j: int)
    requires
        forall|a: int, b: int|
            0 <= a < b < presets.len() && (#[trigger] presets[a]).hotkey is Some && (
            #[trigger] presets[b]).hotkey is Some ==> hotkeys::norm(presets[a].hotkey)
                != hotkeys::norm(presets[b].hotkey),
        0 <= i < j < hotkeys::preset_candidates(presets).len(),
    ensures
        text::normalized(hotkeys::preset_candidates(presets)[i]) != text::normalized(
            hotkeys::preset_candidates(presets)[j],
        ),
    decreases presets.len(),
{
    let front = presets.drop_last();
    let n = presets.len() - 1;
    if j < hotkeys::preset_candidates(front).len() {
        assert(forall|a: int| 0 <= a < n ==> front[a] == presets[a]);
        lemma_candidates_differ(front, i, j);
    } else {
        let k = law_leader_combinations_stay_with_the_hook(front, i);
        assert(front[k] == presets[k]);
        assert(presets[n].hotkey is Some);
    }
}

/// Once doubled hotkeys are removed from a configuration, all the hotkeys that the system is to know
/// are registered.
pub proof fn law_deduped_hotkeys_are_all_registered(cfg: ConfigView)
    ensures
        ({
            let c = hotkeys::candidates(hotkeys::deduped_config(cfg));
            hotkeys::unique_last(c) == c
        }),
{
    let d = hotkeys::deduped_config(cfg);
    let s = hotkeys::slots(d);
    lemma_slots_of_with_slots(cfg, hotkeys::deduped(hotkeys::slots(cfg)));
    let c = hotkeys::candidates(d);
    assert forall|a: int, b: int|
        0 <= a < b < d.presets.len() && (#[trigger] d.presets[a]).hotkey is Some && (
        #[trigger] d.presets[b]).hotkey is Some implies hotkeys::norm(d.presets[a].hotkey)
        != hotkeys::norm(d.presets[b].hotkey) by {
        assert(s[1 + a] == d.presets[a].hotkey);
        assert(s[1 + b] == d.presets[b].hotkey);
        law_dedupe_leaves_no_double(cfg, 1 + a, 1 + b);
    }
    let forms = hotkeys::text_norms(c);
    let shift: int = if d.toggle_hotkey is Some {
        1
    } else {
        0
    };
    assert forall|i: int| 0 <= i < c.len() implies !hotkeys::claimed_later(forms, i) by {
        if hotkeys::claimed_later(forms, i) {
            let m = choose|m: int| i < m < forms.len() && #[trigger] forms[m] == forms[i];
            assert(forms[i] == Some(text::normalized(c[i])));
            assert(forms[m] == Some(text::normalized(c[m])));
            assert(c[m] == hotkeys::preset_candidates(d.presets)[m - shift]);
            if i < shift {
                let b = law_leader_combinations_stay_with_the_hook(d.presets, m - shift);
                assert(s[0] == d.toggle_hotkey);
                assert(s[1 + b] == d.presets[b].hotkey);
                law_dedupe_leaves_no_double(cfg, 0, 1 + b);
            } else {
                assert(c[i] == hotkeys::preset_candidates(d.presets)[i - shift]);
                lemma_candidates_differ(d.presets, i - shift, m - shift);
            }
        }
    }
    lemma_all_kept(c, c.len() as int);
}

proof fn lemma_all_kept(s: Seq<Seq<char>>, n: int)
    requires
        0 <= n <= s.len(),
        forall|i: int| 0 <= i < s.len() ==> !hotkeys::claimed_later(hotkeys::text_norms(s), i),
    ensures
        hotkeys::last_ones(s, n) == s.take(n),
    decreases n,
{
    if n > 0 {
        lemma_all_kept(s, n - 1);
        assert(!hotkeys::claimed_later(hotkeys::text_norms(s), n - 1));
        assert(s.take(n) =~= s.take(n - 1).push(s[n - 1]));
    } else {
        assert(s.take(0) =~= Seq::empty());
    }
}

/// Every hotkey whose registration was asked for is found exactly once among those that are
/// registered, that failed and that were refused.
pub proof fn law_every_request_is_answered(
    requests: Seq<HotkeyRequest>,
    accepted: Seq<bool>,
    n: int,
)
    requires
        0 <= n <= requests.len(),
        accepted.len() == requests.len(),
    ensures
        hotkeys::ended(requests, accepted, n, Ending::Registered).len() + hotkeys::ended(
            requests,
            accepted,
            n,
            Ending::Failed,
        ).len() + hotkeys::ended(requests, accepted, n, Ending::Refused).len() == n,
        forall|i: int|
            0 <= i < n ==> hotkeys::ended(
                requests,
                accepted,
                n,
                hotkeys::ending_of(requests[i], accepted[i]),
            ).contains((#[trigger] requests[i]).text@),
    decreases n,
{
    if n > 0 {
        law_every_request_is_answered(requests, accepted, n - 1);
        assert forall|i: int| 0 <= i < n implies hotkeys::ended(
            requests,
            accepted,
            n,
            hotkeys::ending_of(requests[i], accepted[i]),
        ).contains((#[trigger] requests[i]).text@) by {
            let w = hotkeys::ending_of(requests[i], accepted[i]);
            let out = hotkeys::ended(requests, accepted, n, w);
            let front = hotkeys::ended(requests, accepted, n - 1, w);
            if i < n - 1 {
                assert(front.contains(requests[i].text@));
                let k = choose|k: int| 0 <= k < front.len() && front[k] == requests[i].text@;
                assert(out[k] == requests[i].text@);
            } else {
                assert(out[front.len() as int] == requests[i].text@);
            }
        }
    }
}

/// A pressed combination applies only a preset whose hotkey writes it, the first such, and never one
/// while it also turns the filter keys on and off.
pub proof fn law_action_fits(cfg: ConfigView, pressed: (u32, u32, u32))
    ensures
        match hotkeys::action_of(cfg, pressed) {
            ActionView::Toggle => hotkeys::writes(cfg.toggle_hotkey, pressed),
            ActionView::Apply(id) => {
                &&& !hotkeys::writes(cfg.toggle_hotkey, pressed)
                &&& exists|i: int|
                    {
                        &&& 0 <= i < cfg.presets.len()
                        &&& (#[trigger] cfg.presets[i]).id == id
                        &&& hotkeys::writes(cfg.presets[i].hotkey, pressed)
                        &&& forall|k: int|
                            0 <= k < i ==> !hotkeys::writes(
                                (#[trigger] cfg.presets[k]).hotkey,
                                pressed,
                            )
                    }
            },
            ActionView::Nothing => {
                &&& !hotkeys::writes(cfg.toggle_hotkey, pressed)
                &&& forall|k: int|
                    0 <= k < cfg.presets.len() ==> !hotkeys::writes(
                        (#[trigger] cfg.presets[k]).hotkey,
                        pressed,
                    )
            },
        },
{
    let read = hotkeys::preset_shortcuts(cfg.presets);
    lemma_first_pressed(read, pressed);
    assert forall|k: int| 0 <= k < cfg.presets.len() implies (read[k] == Some(pressed))
        == hotkeys::writes((#[trigger] cfg.presets[k]).hotkey, pressed) by {}
}

/// Every hotkey that is registered and is a combination does something when it is pressed.
pub proof fn law_registered_hotkeys_act(cfg: ConfigView, i: int, pressed: (u32, u32, u32))
    requires
        0 <= i < hotkeys::unique_last(hotkeys::candidates(cfg)).len(),
        hotkeys::hotkey_of(hotkeys::unique_last(hotkeys::candidates(cfg))[i]) == Some(pressed),
    ensures
        !(hotkeys::action_of(cfg, pressed) is Nothing),
{
    let s = hotkeys::candidates(cfg);
    let text = hotkeys::unique_last(s)[i];
    lemma_last_ones(s, s.len() as int);
    let k = choose|k: int|
        0 <= k < s.len() && #[trigger] s[k] == text && !hotkeys::claimed_later(
            hotkeys::text_norms(s),
            k,
        );
    law_action_fits(cfg, pressed);
    let shift: int = if cfg.toggle_hotkey is Some {
        1
    } else {
        0
    };
    if k >= shift {
        assert(s[k] == hotkeys::preset_candidates(cfg.presets)[k - shift]);
        let p = law_leader_combinations_stay_with_the_hook(cfg.presets, k - shift);
        assert(hotkeys::writes(cfg.presets[p].hotkey, pressed));
    } else {
        assert(hotkeys::writes(cfg.toggle_hotkey, pressed));
    }
}

proof fn lemma_first_pressed(read: Seq<Option<(u32, u32, u32)>>, pressed: (u32, u32, u32))
    ensures
        match hotkeys::first_pressed(read, pressed) {
            Some(i) => 0 <= i < read.len() && read[i] == Some(pressed) && forall|k: int|
                0 <= k < i ==> #[trigger] read[k] != Some(pressed),
            None => forall|k: int| 0 <= k < read.len() ==> #[trigger] read[k] != Some(pressed),
        },
    decreases read.len(),
{
    if read.len() > 0 {
        let front = read.drop_last();
        lemma_first_pressed(front, pressed);
        assert(forall|k: int| 0 <= k < front.len() ==> front[k] == read[k]);
    }
}

/// Removing doubled hotkeys touches the hotkeys and nothing else.
pub proof fn law_dedupe_keeps_the_rest(cfg: ConfigView)
    ensures
        ({
            let d = hotkeys::deduped_config(cfg);
            &&& d == (ConfigView {
                toggle_hotkey: d.toggle_hotkey,
                presets: d.presets,
                ..cfg
            })
            &&& d.presets.len() == cfg.presets.len()
            &&& forall|i: int|
                0 <= i < cfg.presets.len() ==> #[trigger] d.presets[i] == (PresetView {
                    hotkey: d.presets[i].hotkey,
                    timer_hotkey: d.presets[i].timer_hotkey,
                    ..cfg.presets[i]
                })
        }),
{
}

/// The hotkey for on and off is lost exactly where a preset is applied or a timer is started by a
/// hotkey whose whole text, trimmed and in lower case, is the same.
pub proof fn law_dedupe_toggle(cfg: ConfigView)
    ensures
        hotkeys::deduped_config(cfg).toggle_hotkey == (match cfg.toggle_hotkey {
            Some(t) => if exists|j: int|
                0 <= j < cfg.presets.len() && (((#[trigger] cfg.presets[j]).hotkey matches Some(u)
                    && text::normalized(u) == text::normalized(t)) || (
                cfg.presets[j].timer_hotkey matches Some(v) && text::normalized(v)
                    == text::normalized(t))) {
                None
            } else {
                Some(t)
            },
            None => None,
        }),
{
    let n = cfg.presets.len() as int;
    let s = hotkeys::slots(cfg);
    let forms = hotkeys::norms(s);
    assert(s[0] == cfg.toggle_hotkey);
    if let Some(t) = cfg.toggle_hotkey {
        assert(forms[0] == Some(text::normalized(t)));
        if hotkeys::claimed_later(forms, 0) {
            let m = choose|m: int| 0 < m < forms.len() && #[trigger] forms[m] == forms[0];
            assert(forms[m] == hotkeys::norm(s[m]));
            let p = if m <= n {
                cfg.presets[m - 1]
            } else {
                cfg.presets[m - 1 - n]
            };
            assert(s[m] == p.hotkey || s[m] == p.timer_hotkey);
        }
        assert forall|j: int|
            0 <= j < n && (((#[trigger] cfg.presets[j]).hotkey matches Some(u) && text::normalized(
                u,
            ) == text::normalized(t)) || (cfg.presets[j].timer_hotkey matches Some(v)
                && text::normalized(v) == text::normalized(t))) implies hotkeys::claimed_later(
            forms,
            0,
        ) by {
            assert(s[1 + j] == cfg.presets[j].hotkey);
            assert(s[1 + n + j] == cfg.presets[j].timer_hotkey);
            assert(forms[1 + j] == hotkeys::norm(s[1 + j]));
            assert(forms[1 + n + j] == hotkeys::norm(s[1 + n + j]));
        }
    }
}

/// A hotkey that applies a preset is lost exactly where a later preset is applied, or any timer is
/// started, by a hotkey whose whole text, trimmed and in lower case, is the same.
pub proof fn law_dedupe_hotkey(cfg: ConfigView, i: int)
    requires
        0 <= i < cfg.presets.len(),
    ensures
        hotkeys::deduped_config(cfg).presets[i].hotkey == (match cfg.presets[i].hotkey {
            Some(t) => if exists|j: int|
                0 <= j < cfg.presets.len() && ((i < j && ((
                #[trigger] cfg.presets[j]).hotkey matches Some(u) && text::normalized(u)
                    == text::normalized(t))) || (cfg.presets[j].timer_hotkey matches Some(v)
                    && text::normalized(v) == text::normalized(t))) {
                None
            } else {
                Some(t)
            },
            None => None,
        }),
{
    let n = cfg.presets.len() as int;
    let s = hotkeys::slots(cfg);
    let forms = hotkeys::norms(s);
    assert(s[1 + i] == cfg.presets[i].hotkey);
    if let Some(t) = cfg.presets[i].hotkey {
        assert(forms[1 + i] == Some(text::normalized(t)));
        if hotkeys::claimed_later(forms, 1 + i) {
            let m = choose|m: int| 1 + i < m < forms.len() && #[trigger] forms[m] == forms[1 + i];
            assert(forms[m] == hotkeys::norm(s[m]));
            if m <= n {
                assert(s[m] == cfg.presets[m - 1].hotkey);
            } else {
                assert(s[m] == cfg.presets[m - 1 - n].timer_hotkey);
            }
        }
        assert forall|j: int|
            0 <= j < n && ((i < j && ((#[trigger] cfg.presets[j]).hotkey matches Some(u)
                && text::normalized(u) == text::normalized(t))) || (
            cfg.presets[j].timer_hotkey matches Some(v) && text::normalized(v) == text::normalized(
                t,
            ))) implies hotkeys::claimed_later(forms, 1 + i) by {
            assert(s[1 + j] == cfg.presets[j].hotkey);
            assert(s[1 + n + j] == cfg.presets[j].timer_hotkey);
            assert(forms[1 + j] == hotkeys::norm(s[1 + j]));
            assert(forms[1 + n + j] == hotkeys::norm(s[1 + n + j]));
        }
    }
}

/// A hotkey that starts a timer is lost exactly where a later preset's timer is started by a hotkey
/// whose whole text, trimmed and in lower case, is the same.
pub proof fn law_dedupe_timer(cfg: ConfigView, i: int)
    requires
        0 <= i < cfg.presets.len(),
    ensures
        hotkeys::deduped_config(cfg).presets[i].timer_hotkey == (match cfg.presets[i].timer_hotkey {
            Some(t) => if exists|j: int|
                i < j < cfg.presets.len() && ((
                #[trigger] cfg.presets[j]).timer_hotkey matches Some(v) && text::normalized(v)
                    == text::normalized(t)) {
                None
            } else {
                Some(t)
            },
            None => None,
        }),
{
    let n = cfg.presets.len() as int;
    let s = hotkeys::slots(cfg);
    let forms = hotkeys::norms(s);
    let k = 1 + n + i;
    assert(s[k] == cfg.presets[i].timer_hotkey);
    if let Some(t) = cfg.presets[i].timer_hotkey {
        assert(forms[k] == Some(text::normalized(t)));
        if hotkeys::claimed_later(forms, k) {
            let m = choose|m: int| k < m < forms.len() && #[trigger] forms[m] == forms[k];
            assert(forms[m] == hotkeys::norm(s[m]));
            assert(s[m] == cfg.presets[m - 1 - n].timer_hotkey);
        }
        assert forall|j: int|
            i < j < n && ((#[trigger] cfg.presets[j]).timer_hotkey matches Some(v)
                && text::normalized(v) == text::normalized(t)) implies hotkeys::claimed_later(
            forms,
            k,
        ) by {
            assert(s[1 + n + j] == cfg.presets[j].timer_hotkey);
            assert(forms[1 + n + j] == hotkeys::norm(s[1 + n + j]));
        }
    }
}

/// The presets whose hotkeys the system is to know: all that have one, except those whose hotkey is
/// `leader+` with something after it, in order, whatever else they say. Gives their positions.
pub proof fn law_candidates_are_complete(presets: Seq<PresetView>) -> (at: Seq<int>)
    ensures
        at.len() == hotkeys::preset_candidates(presets).len(),
        forall|i: int|
            0 <= i < at.len() ==> 0 <= #[trigger] at[i] < presets.len() && presets[at[i]].hotkey
                == Some(hotkeys::preset_candidates(presets)[i]),
        forall|i: int, j: int| 0 <= i < j < at.len() ==> #[trigger] at[i] < #[trigger] at[j],
        forall|k: int|
            0 <= k < presets.len() ==> (at.contains(k) <==> ((#[trigger] presets[k]).hotkey matches Some(
                t,
            ) && !(text::normalized(t).len() > 7 && text::normalized(t).take(7) == "leader+"@))),
    decreases presets.len(),
{
    reveal_strlit("leader+");
    if presets.len() == 0 {
        Seq::empty()
    } else {
        let n = presets.len() - 1;
        let front = presets.drop_last();
        let before = law_candidates_are_complete(front);
        let wanted = presets[n].hotkey matches Some(t) && !(text::normalized(t).len() > 7
            && text::normalized(t).take(7) == "leader+"@);
        let at = if wanted {
            before.push(n)
        } else {
            before
        };
        assert forall|i: int| 0 <= i < at.len() implies 0 <= #[trigger] at[i] < presets.len()
            && presets[at[i]].hotkey == Some(hotkeys::preset_candidates(presets)[i]) by {
            if i < before.len() {
                assert(at[i] == before[i]);
                assert(front[before[i]] == presets[before[i]]);
            }
        }
        assert forall|i: int, j: int| 0 <= i < j < at.len() implies #[trigger] at[i]
            < #[trigger] at[j] by {
            assert(at[i] == before[i]);
            if j < before.len() {
                assert(at[j] == before[j]);
            }
        }
        assert forall|k: int| 0 <= k < presets.len() implies (at.contains(k) <==> ((
        #[trigger] presets[k]).hotkey matches Some(t) && !(text::normalized(t).len() > 7
            && text::normalized(t).take(7) == "leader+"@))) by {
            lemma_contains_grows(before, n, k);
            if k < n {
                assert(front[k] == presets[k]);
            } else if before.contains(k) {
                let i = choose|i: int| 0 <= i < before.len() && before[i] == k;
                assert(before[i] < front.len());
            }
        }
        at
    }
}

proof fn lemma_contains_grows(s: Seq<int>, a: int, y: int)
    ensures
        s.push(a).contains(y) == (s.contains(y) || y == a),
{
    let t = s.push(a);
    if s.contains(y) {
        let k = choose|k: int| 0 <= k < s.len() && s[k] == y;
        assert(t[k] == y);
    }
    if y == a {
        assert(t[s.len() as int] == y);
    }
    if t.contains(y) {
        let k = choose|k: int| 0 <= k < t.len() && t[k] == y;
        if k < s.len() {
            assert(s[k] == y);
        }
    }
}

/// The hotkey for on and off is the first that the system is to know, where there is one; then come the
/// presets'.
pub proof fn law_toggle_is_a_candidate(cfg: ConfigView)
    ensures
        match cfg.toggle_hotkey {
            Some(t) => {
                &&& hotkeys::candidates(cfg).len() > 0
                &&& hotkeys::candidates(cfg)[0] == t
                &&& hotkeys::candidates(cfg).skip(1) == hotkeys::preset_candidates(cfg.presets)
            },
            None => hotkeys::candidates(cfg) == hotkeys::preset_candidates(cfg.presets),
        },
{
    if cfg.toggle_hotkey is Some {
        assert(hotkeys::candidates(cfg).skip(1) =~= hotkeys::preset_candidates(cfg.presets));
    }
}

/// The texts that are registered: each that no later one equals, trimmed and in lower case, in order.
/// Gives the positions of the first `n` texts among them.
proof fn lemma_last_positions(s: Seq<Seq<char>>, n: int) -> (at: Seq<int>)
    requires
        0 <= n <= s.len(),
    ensures
        at.len() == hotkeys::last_ones(s, n).len(),
        forall|i: int|
            0 <= i < at.len() ==> 0 <= #[trigger] at[i] < n && s[at[i]] == hotkeys::last_ones(
                s,
                n,
            )[i],
        forall|i: int, j: int| 0 <= i < j < at.len() ==> #[trigger] at[i] < #[trigger] at[j],
        forall|k: int|
            0 <= k < n ==> (#[trigger] at.contains(k) <==> !hotkeys::claimed_later(
                hotkeys::text_norms(s),
                k,
            )),
    decreases n,
{
    if n == 0 {
        Seq::empty()
    } else {
        let before = lemma_last_positions(s, n - 1);
        let at = if hotkeys::claimed_later(hotkeys::text_norms(s), n - 1) {
            before
        } else {
            before.push(n - 1)
        };
        assert forall|i: int| 0 <= i < at.len() implies 0 <= #[trigger] at[i] < n && s[at[i]]
            == hotkeys::last_ones(s, n)[i] by {
            if i < before.len() {
                assert(at[i] == before[i]);
            }
        }
        assert forall|i: int, j: int| 0 <= i < j < at.len() implies #[trigger] at[i]
            < #[trigger] at[j] by {
            assert(at[i] == before[i]);
            if j < before.len() {
                assert(at[j] == before[j]);
            }
        }
        assert forall|k: int| 0 <= k < n implies (#[trigger] at.contains(k)
            <==> !hotkeys::claimed_later(hotkeys::text_norms(s), k)) by {
            lemma_contains_grows(before, n - 1, k);
            if k == n - 1 && before.contains(k) {
                let i = choose|i: int| 0 <= i < before.len() && before[i] == k;
                assert(before[i] < n - 1);
            }
        }
        at
    }
}

/// Which of several texts are registered: each one that equals no later one when both are trimmed and
/// in lower case, and these in order. Gives their positions.
pub proof fn law_registered_are_the_last(s: Seq<Seq<char>>) -> (at: Seq<int>)
    ensures
        at.len() == hotkeys::unique_last(s).len(),
        forall|i: int|
            0 <= i < at.len() ==> 0 <= #[trigger] at[i] < s.len() && s[at[i]]
                == hotkeys::unique_last(s)[i],
        forall|i: int, j: int| 0 <= i < j < at.len() ==> #[trigger] at[i] < #[trigger] at[j],
        forall|k: int|
            0 <= k < s.len() ==> (at.contains(k) <==> forall|j: int|
                k < j < s.len() ==> text::normalized(#[trigger] s[j]) != text::normalized(
                    #[trigger] s[k],
                )),
{
    let at = lemma_last_positions(s, s.len() as int);
    let forms = hotkeys::text_norms(s);
    assert forall|k: int| 0 <= k < s.len() implies (at.contains(k) <==> forall|j: int|
        k < j < s.len() ==> text::normalized(#[trigger] s[j]) != text::normalized(
            #[trigger] s[k],
        )) by {
        assert(forms[k] == Some(text::normalized(s[k])));
        if hotkeys::claimed_later(forms, k) {
            let j = choose|j: int| k < j < forms.len() && #[trigger] forms[j] == forms[k];
            assert(forms[j] == Some(text::normalized(s[j])));
        } else {
            assert forall|j: int| k < j < s.len() implies text::normalized(#[trigger] s[j])
                != text::normalized(s[k]) by {
                assert(forms[j] == Some(text::normalized(s[j])));
            }
        }
    }
    at
}

/// Which of the hotkeys registered before are released: each that is a combination, in order. Gives
/// their positions.
pub proof fn law_released_are_the_combinations(s: Seq<Seq<char>>) -> (at: Seq<int>)
    ensures
        at.len() == hotkeys::readable(s).len(),
        forall|i: int|
            0 <= i < at.len() ==> 0 <= #[trigger] at[i] < s.len() && s[at[i]] == hotkeys::readable(
                s,
            )[i],
        forall|i: int, j: int| 0 <= i < j < at.len() ==> #[trigger] at[i] < #[trigger] at[j],
        forall|k: int|
            0 <= k < s.len() ==> (at.contains(k) <==> hotkeys::hotkey_of(#[trigger] s[k]) is Some),
    decreases s.len(),
{
    if s.len() == 0 {
        Seq::empty()
    } else {
        let n = s.len() - 1;
        let front = s.drop_last();
        let before = law_released_are_the_combinations(front);
        let at = if hotkeys::hotkey_of(s[n]) is Some {
            before.push(n)
        } else {
            before
        };
        assert forall|i: int| 0 <= i < at.len() implies 0 <= #[trigger] at[i] < s.len() && s[at[i]]
            == hotkeys::readable(s)[i] by {
            if i < before.len() {
                assert(at[i] == before[i]);
                assert(front[before[i]] == s[before[i]]);
            }
        }
        assert forall|i: int, j: int| 0 <= i < j < at.len() implies #[trigger] at[i]
            < #[trigger] at[j] by {
            assert(at[i] == before[i]);
            if j < before.len() {
                assert(at[j] == before[j]);
            }
        }
        assert forall|k: int| 0 <= k < s.len() implies (at.contains(k) <==> hotkeys::hotkey_of(
            #[trigger] s[k],
        ) is Some) by {
            lemma_contains_grows(before, n, k);
            if k < n {
                assert(front[k] == s[k]);
            } else if before.contains(k) {
                let i = choose|i: int| 0 <= i < before.len() && before[i] == k;
                assert(before[i] < front.len());
            }
        }
        at
    }
}

/// How registrations end: a text that is no combination has failed, a combination that the system
/// accepted is registered, and one that it did not accept was refused; each kind in order. Gives the
/// positions of those among the first `n` that ended in `wanted`.
pub proof fn law_endings(
    requests: Seq<HotkeyRequest>,
    accepted: Seq<bool>,
    n: int,
    wanted: Ending,
) -> (at: Seq<int>)
    requires
        0 <= n <= requests.len(),
        accepted.len() == requests.len(),
    ensures
        at.len() == hotkeys::ended(requests, accepted, n, wanted).len(),
        forall|i: int|
            0 <= i < at.len() ==> 0 <= #[trigger] at[i] < n && requests[at[i]].text@
                == hotkeys::ended(requests, accepted, n, wanted)[i],
        forall|i: int, j: int| 0 <= i < j < at.len() ==> #[trigger] at[i] < #[trigger] at[j],
        forall|k: int|
            0 <= k < n ==> (#[trigger] at.contains(k) <==> (match wanted {
                Ending::Registered => requests[k].shortcut is Some && accepted[k],
                Ending::Failed => requests[k].shortcut is None,
                Ending::Refused => requests[k].shortcut is Some && !accepted[k],
            })),
    decreases n,
{
    if n == 0 {
        Seq::empty()
    } else {
        let before = law_endings(requests, accepted, n - 1, wanted);
        let at = if hotkeys::ending_of(requests[n - 1], accepted[n - 1]) == wanted {
            before.push(n - 1)
        } else {
            before
        };
        assert forall|i: int| 0 <= i < at.len() implies 0 <= #[trigger] at[i] < n
            && requests[at[i]].text@ == hotkeys::ended(requests, accepted, n, wanted)[i] by {
            if i < before.len() {
                assert(at[i] == before[i]);
            }
        }
        assert forall|i: int, j: int| 0 <= i < j < at.len() implies #[trigger] at[i]
            < #[trigger] at[j] by {
            assert(at[i] == before[i]);
            if j < before.len() {
                assert(at[j] == before[j]);
            }
        }
        assert forall|k: int| 0 <= k < n implies (#[trigger] at.contains(k) <==> (match wanted {
            Ending::Registered => requests[k].shortcut is Some && accepted[k],
            Ending::Failed => requests[k].shortcut is None,
            Ending::Refused => requests[k].shortcut is Some && !accepted[k],
        })) by {
            lemma_contains_grows(before, n - 1, k);
            if k == n - 1 && before.contains(k) {
                let i = choose|i: int| 0 <= i < before.len() && before[i] == k;
                assert(before[i] < n - 1);
            }
        }
        at
    }
}

/// What a pressed combination does, by what the hotkeys are read as: it toggles exactly where the
/// hotkey for on and off is read as it; otherwise it applies the first preset whose hotkey is read as
/// it; and it does nothing exactly where no hotkey is.
pub proof fn law_pressed_combination(cfg: ConfigView, pressed: (u32, u32, u32))
    ensures
        hotkeys::action_of(cfg, pressed) is Toggle <==> (cfg.toggle_hotkey matches Some(t)
            && hotkeys::hotkey_of(t) == Some(pressed)),
        hotkeys::action_of(cfg, pressed) is Nothing <==> (!(cfg.toggle_hotkey matches Some(t)
            && hotkeys::hotkey_of(t) == Some(pressed)) && forall|k: int|
            0 <= k < cfg.presets.len() ==> !((#[trigger] cfg.presets[k]).hotkey matches Some(t)
                && hotkeys::hotkey_of(t) == Some(pressed))),
        hotkeys::action_of(cfg, pressed) matches ActionView::Apply(id) ==> exists|i: int|
            {
                &&& 0 <= i < cfg.presets.len()
                &&& (#[trigger] cfg.presets[i]).hotkey matches Some(t)
                &&& hotkeys::hotkey_of(t) == Some(pressed)
                &&& cfg.presets[i].id == id
                &&& forall|k: int|
                    0 <= k < i ==> !((#[trigger] cfg.presets[k]).hotkey matches Some(t)
                        && hotkeys::hotkey_of(t) == Some(pressed))
            },
{
    let read = hotkeys::preset_shortcuts(cfg.presets);
    lemma_first_pressed(read, pressed);
    assert forall|k: int| 0 <= k < cfg.presets.len() implies (read[k] == Some(pressed)) == ((
    #[trigger] cfg.presets[k]).hotkey matches Some(t) && hotkeys::hotkey_of(t) == Some(
        pressed,
    )) by {}
}

} // verus!
