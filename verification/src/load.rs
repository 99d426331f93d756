//! Taking over a stored configuration.

use vstd::prelude::*;

use crate::config;
use crate::config::AppConfig;
use crate::config::ConfigView;
use crate::config::PresetView;
use crate::hotkey_laws;
use crate::hotkeys;
use crate::hotkeys::dedupe_hotkeys;
use crate::text;
use crate::text::contains_text;
use crate::text::text_eq;

verus! {

/// A preset stored before presets could turn the filter keys off. The one for the system's own values,
/// where it waits at least as long as they do, is made to turn them off: with them on, keys would go
/// unnoticed.
pub open spec fn migrated_preset(p: PresetView) -> PresetView {
    if p.id == "windefault"@ && p.wait_ms >= 1000 && p.delay_ms >= 1000 {
        PresetView { filter_on: false, ..p }
    } else {
        p
    }
}

/// A configuration stored before presets could turn the filter keys off.
pub open spec fn migrated(cfg: ConfigView) -> ConfigView {
    ConfigView { presets: cfg.presets.map_values(|p: PresetView| migrated_preset(p)), ..cfg }
}

/// Whether a stored text knows presets that turn the filter keys off.
pub open spec fn knows_filter_on(raw: Option<Seq<char>>) -> bool {
    match raw {
        Some(t) => text::occurs_in(t, "filterOn"@),
        None => false,
    }
}

/// The configuration to start with, from the stored text and what was read from it: a new one where
/// nothing could be read, brought up to date, with each combination in one place only.
pub open spec fn loaded(raw: Option<Seq<char>>, read: Option<ConfigView>) -> ConfigView {
    let cfg = match read {
        Some(c) => c,
        None => config::default_config(),
    };
    hotkeys::deduped_config(
        if knows_filter_on(raw) {
            cfg
        } else {
            migrated(cfg)
        },
    )
}

/// The contents of a configuration that may be missing.
pub open spec fn opt_config(o: Option<AppConfig>) -> Option<ConfigView> {
    match o {
        Some(c) => Some(c@),
        None => None,
    }
}

fn migrate(cfg: &mut AppConfig)
    ensures
        final(cfg)@ == migrated(old(cfg)@),
{
    let n = cfg.presets.len();
    let ghost before = cfg@;
    let mut i: usize = 0;
    while i < n
        invariant
            i <= n,
            n == cfg.presets.len(),
            n == before.presets.len(),
            cfg@ == (ConfigView { presets: cfg@.presets, ..before }),
            forall|k: int|
                0 <= k < i ==> #[trigger] cfg@.presets[k] == migrated_preset(before.presets[k]),
            forall|k: int| i <= k < n ==> #[trigger] cfg@.presets[k] == before.presets[k],
        decreases n - i,
    {
        let ghost mid = cfg@;
        assert(mid.presets[i as int] == before.presets[i as int]);
        assert(cfg.presets@[i as int]@ == mid.presets[i as int]);
        if text_eq(cfg.presets[i].id.as_str(), "windefault") && cfg.presets[i].wait_ms >= 1000
            && cfg.presets[i].delay_ms >= 1000 {
            cfg.presets[i].filter_on = false;
        }
        assert(cfg.presets@[i as int]@ == migrated_preset(before.presets[i as int]));
        assert forall|k: int| 0 <= k < n && k != i implies #[trigger] cfg@.presets[k]
            == mid.presets[k] by {}
        i += 1;
    }
    assert(cfg@.presets =~= migrated(before).presets);
}

/// The configuration to start with, from the stored text and what was read from it: a new one where
/// nothing could be read, brought up to date, with each combination in one place only.
pub fn load_config(raw: &Option<String>, read: Option<AppConfig>) -> (r: AppConfig)
    ensures
        r@ == loaded(config::opt_text(*raw), opt_config(read)),
{
    let had_filter_on = match raw {
        Some(t) => contains_text(t.as_str(), "filterOn"),
        None => false,
    };
    let mut cfg = match read {
        Some(c) => c,
        None => AppConfig::default(),
    };
    if !had_filter_on {
        migrate(&mut cfg);
    }
    dedupe_hotkeys(&mut cfg);
    cfg
}

/// Once a stored text knows presets that turn the filter keys off, what it says of them is kept.
pub proof fn law_stored_choice_is_kept(raw: Seq<char>, cfg: ConfigView, i: int)
    requires
        text::occurs_in(raw, "filterOn"@),
        0 <= i < cfg.presets.len(),
    ensures
        loaded(Some(raw), Some(cfg)).presets[i].filter_on == cfg.presets[i].filter_on,
{
}

/// The configuration to start with has each combination in one place only: removing doubled hotkeys
/// once more changes nothing.
pub proof fn law_loaded_has_no_double(raw: Option<Seq<char>>, read: Option<ConfigView>)
    ensures
        hotkeys::deduped_config(loaded(raw, read)) == loaded(raw, read),
{
    let cfg = match read {
        Some(c) => c,
        None => config::default_config(),
    };
    hotkey_laws::law_dedupe_is_idempotent(
        if knows_filter_on(raw) {
            cfg
        } else {
            migrated(cfg)
        },
    );
}

/// Bringing a configuration up to date changes whether presets turn the filter keys on, and nothing
/// else; doing it again changes nothing.
pub proof fn law_migration_only_turns_off(cfg: ConfigView)
    ensures
        migrated(migrated(cfg)) == migrated(cfg),
        migrated(cfg) == (ConfigView { presets: migrated(cfg).presets, ..cfg }),
        migrated(cfg).presets.len() == cfg.presets.len(),
        forall|i: int|
            0 <= i < cfg.presets.len() ==> {
                &&& #[trigger] migrated(cfg).presets[i] == (PresetView {
                    filter_on: migrated(cfg).presets[i].filter_on,
                    ..cfg.presets[i]
                })
                &&& migrated(cfg).presets[i].filter_on ==> cfg.presets[i].filter_on
            },
{
    assert(migrated(migrated(cfg)).presets =~= migrated(cfg).presets);
}

/// The configuration to start with is the one that was read, or a new one. Of its presets, those with
/// the id `windefault` and times of 1000 and more turn the filter keys off, unless the stored text
/// speaks of `filterOn`. Its hotkeys lose those that are doubled. Nothing else changes.
pub proof fn law_loaded_is_what_was_read(raw: Option<Seq<char>>, read: Option<ConfigView>)
    ensures
        ({
            let c = match read {
                Some(c) => c,
                None => config::default_config(),
            };
            let l = loaded(raw, read);
            let d = hotkeys::deduped_config(c);
            let known = raw matches Some(t) && text::occurs_in(t, "filterOn"@);
            &&& l == (ConfigView { toggle_hotkey: d.toggle_hotkey, presets: l.presets, ..c })
            &&& l.presets.len() == c.presets.len()
            &&& forall|i: int|
                0 <= i < c.presets.len() ==> #[trigger] l.presets[i] == (PresetView {
                    hotkey: d.presets[i].hotkey,
                    timer_hotkey: d.presets[i].timer_hotkey,
                    filter_on: c.presets[i].filter_on && (known || c.presets[i].id != "windefault"@
                        || c.presets[i].wait_ms < 1000 || c.presets[i].delay_ms < 1000),
                    ..c.presets[i]
                })
        }),
{
    let c = match read {
        Some(c) => c,
        None => config::default_config(),
    };
    assert(hotkeys::slots(migrated(c)) =~= hotkeys::slots(c));
}

} // verus!
