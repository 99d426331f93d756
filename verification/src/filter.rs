//! The system's filter keys: reading them, setting them, and what turns them on and off.

use vstd::prelude::*;

use crate::config;
use crate::config::AppConfig;
use crate::config::ConfigView;
use crate::config::PresetView;
use crate::error::HelperError;
use crate::hook;
use crate::hook::HookState;
use crate::hook::HookView;
use crate::hook::rebuild_timer_bindings;

verus! {

/// The flag for filter keys that are on.
pub const FKF_FILTERKEYSON: u32 = 0x0000_0001;

/// The flag for filter keys that can be turned on.
pub const FKF_AVAILABLE: u32 = 0x0000_0002;

/// The flag for values that are to outlive a restart.
pub const SPIF_UPDATEINIFILE: u32 = 0x0001;

/// The flag for telling other programs of the change.
pub const SPIF_SENDCHANGE: u32 = 0x0002;

/// The filter keys as the system hands them over.
#[derive(Clone, Copy, PartialEq, Eq, Structural, Debug)]
pub struct FilterKeys {
    pub flags: u32,
    pub wait_ms: u32,
    pub delay_ms: u32,
    pub repeat_ms: u32,
    pub bounce_ms: u32,
}

/// The state of the filter keys.
#[derive(Clone, Copy, PartialEq, Eq, Structural, Debug)]
pub struct SysState {
    pub on: bool,
    pub wait_ms: u32,
    pub delay_ms: u32,
    pub repeat_ms: u32,
    pub bounce_ms: u32,
}

/// A request to set the filter keys.
#[derive(Clone, Copy, PartialEq, Eq, Structural, Debug)]
pub struct FilterRequest {
    pub keys: FilterKeys,
    /// The flags that say how far the change reaches.
    pub reach: u32,
}

/// What the filter keys that the system handed over say.
pub open spec fn state_of(keys: FilterKeys) -> SysState {
    SysState {
        on: keys.flags & FKF_FILTERKEYSON != 0,
        wait_ms: keys.wait_ms,
        delay_ms: keys.delay_ms,
        repeat_ms: keys.repeat_ms,
        bounce_ms: keys.bounce_ms,
    }
}

/// The request that brings the filter keys into a state.
pub open spec fn request_for(state: SysState, persist: bool) -> FilterRequest {
    FilterRequest {
        keys: FilterKeys {
            flags: if state.on {
                FKF_AVAILABLE | FKF_FILTERKEYSON
            } else {
                FKF_AVAILABLE
            },
            wait_ms: state.wait_ms,
            delay_ms: state.delay_ms,
            repeat_ms: state.repeat_ms,
            bounce_ms: state.bounce_ms,
        },
        reach: if persist {
            SPIF_SENDCHANGE | SPIF_UPDATEINIFILE
        } else {
            SPIF_SENDCHANGE
        },
    }
}

/// The state of the filter keys, from the system's answer: zero where it failed, and the filter keys
/// it handed over.
pub fn get_sys(answer: i32, keys: &FilterKeys) -> (r: Result<SysState, HelperError>)
    ensures
        r == (if answer == 0 {
            Err(HelperError::FilterKeysRead)
        } else {
            Ok(state_of(*keys))
        }),
{
    if answer == 0 {
        return Err(HelperError::FilterKeysRead);
    }
    Ok(
        SysState {
            on: keys.flags & FKF_FILTERKEYSON != 0,
            wait_ms: keys.wait_ms,
            delay_ms: keys.delay_ms,
            repeat_ms: keys.repeat_ms,
            bounce_ms: keys.bounce_ms,
        },
    )
}

/// The request that sets the filter keys to these values.
pub fn set_sys(
    on: bool,
    wait_ms: u32,
    delay_ms: u32,
    repeat_ms: u32,
    bounce_ms: u32,
    persist: bool,
) -> (r: FilterRequest)
    ensures
        r == request_for(SysState { on, wait_ms, delay_ms, repeat_ms, bounce_ms }, persist),
{
    let mut flags = FKF_AVAILABLE;
    if on {
        flags = flags | FKF_FILTERKEYSON;
    }
    let mut reach = SPIF_SENDCHANGE;
    if persist {
        reach = reach | SPIF_UPDATEINIFILE;
    }
    FilterRequest { keys: FilterKeys { flags, wait_ms, delay_ms, repeat_ms, bounce_ms }, reach }
}

/// What the system's answer to a request means: zero where it failed.
pub fn set_sys_result(answer: i32) -> (r: Result<(), HelperError>)
    ensures
        r == (if answer == 0 {
            Err(HelperError::FilterKeysWrite)
        } else {
            Ok(())
        }),
{
    if answer == 0 {
        return Err(HelperError::FilterKeysWrite);
    }
    Ok(())
}

/// The state with a preset's values.
pub open spec fn preset_state(p: PresetView, on: bool) -> SysState {
    SysState {
        on,
        wait_ms: p.wait_ms,
        delay_ms: p.delay_ms,
        repeat_ms: p.repeat_ms,
        bounce_ms: p.bounce_ms,
    }
}

/// The state after the filter keys are turned off or on. Turned off, they keep their values. Turned
/// on, they get those of the preset that was applied last, where there is one, and else keep theirs.
pub open spec fn toggled(sys: SysState, cfg: ConfigView) -> SysState {
    if sys.on {
        SysState { on: false, ..sys }
    } else {
        match config::active_preset_of(cfg) {
            Some(p) => preset_state(p, true),
            None => SysState { on: true, ..sys },
        }
    }
}

/// The request that turns the filter keys off where they are on, and on where they are off.
pub fn toggle_filter(sys: &SysState, cfg: &AppConfig) -> (r: FilterRequest)
    ensures
        r == request_for(toggled(*sys, cfg@), cfg.persist_registry),
        r.keys.flags == (if sys.on {
            2u32
        } else {
            3u32
        }),
        match config::active_preset_of(cfg@) {
            Some(p) => !sys.on ==> r.keys.wait_ms == p.wait_ms && r.keys.delay_ms == p.delay_ms
                && r.keys.repeat_ms == p.repeat_ms && r.keys.bounce_ms == p.bounce_ms,
            None => true,
        },
        sys.on || config::active_preset_of(cfg@) is None ==> r.keys.wait_ms == sys.wait_ms
            && r.keys.delay_ms == sys.delay_ms && r.keys.repeat_ms == sys.repeat_ms
            && r.keys.bounce_ms == sys.bounce_ms,
{
    proof {
        law_toggling_is_requested(*sys, cfg@);
    }
    let persist = cfg.persist_registry;
    if sys.on {
        set_sys(false, sys.wait_ms, sys.delay_ms, sys.repeat_ms, sys.bounce_ms, persist)
    } else {
        match cfg.find_active() {
            Some(i) => {
                let p = &cfg.presets[i];
                set_sys(true, p.wait_ms, p.delay_ms, p.repeat_ms, p.bounce_ms, persist)
            },
            None => set_sys(
                true,
                sys.wait_ms,
                sys.delay_ms,
                sys.repeat_ms,
                sys.bounce_ms,
                persist,
            ),
        }
    }
}

/// Makes a preset the one that was applied last, and gives the request that sets the filter keys to
/// its values: on or off, as the preset says. Where no preset has the id, nothing changes.
pub fn apply_preset(cfg: &mut AppConfig, id: &str) -> (r: Result<FilterRequest, HelperError>)
    ensures
        match config::preset_with_id(old(cfg)@.presets, id@) {
            Some(p) => {
                &&& r == Ok::<FilterRequest, HelperError>(
                    request_for(preset_state(p, p.filter_on), old(cfg).persist_registry),
                )
                &&& r matches Ok(q) && q.keys.wait_ms == p.wait_ms && q.keys.delay_ms == p.delay_ms
                    && q.keys.repeat_ms == p.repeat_ms && q.keys.bounce_ms == p.bounce_ms
                    && q.keys.flags == (if p.filter_on {
                    3u32
                } else {
                    2u32
                })
                &&& final(cfg)@ == (ConfigView { active_preset: Some(id@), ..old(cfg)@ })
            },
            None => {
                &&& r == Err::<FilterRequest, HelperError>(HelperError::PresetNotFound)
                &&& final(cfg)@ == old(cfg)@
            },
        },
{
    match cfg.find_preset(id) {
        Some(i) => {
            let p = &cfg.presets[i];
            assert(cfg@.presets[i as int] == p@);
            proof {
                law_applied_preset_is_requested(p@, cfg.persist_registry);
            }
            let request = set_sys(
                p.filter_on,
                p.wait_ms,
                p.delay_ms,
                p.repeat_ms,
                p.bounce_ms,
                cfg.persist_registry,
            );
            cfg.active_preset = Some(id.to_owned());
            Ok(request)
        },
        None => Err(HelperError::PresetNotFound),
    }
}

/// Gives the request that sets the filter keys to values chosen by hand. No preset counts as applied
/// any more, and no key starts a timer.
pub fn apply_values(
    cfg: &mut AppConfig,
    hook: &mut HookState,
    on: bool,
    wait_ms: u32,
    delay_ms: u32,
    repeat_ms: u32,
    bounce_ms: u32,
) -> (r: FilterRequest)
    ensures
        r == request_for(
            SysState { on, wait_ms, delay_ms, repeat_ms, bounce_ms },
            old(cfg).persist_registry,
        ),
        final(cfg)@ == (ConfigView { active_preset: None, ..old(cfg)@ }),
        final(hook)@ == (HookView { timer_bindings: Seq::empty(), ..old(hook)@ }),
        old(hook)@.wf() ==> final(hook)@.wf(),
{
    cfg.active_preset = None;
    rebuild_timer_bindings(hook, cfg);
    set_sys(on, wait_ms, delay_ms, repeat_ms, bounce_ms, cfg.persist_registry)
}

/// The filter keys that a request sets are read back as the state that was asked for.
pub proof fn law_set_state_is_read_back(state: SysState, persist: bool)
    ensures
        state_of(request_for(state, persist).keys) == state,
{
    assert((2u32 | 1u32) & 1u32 != 0) by (bit_vector);
    assert(2u32 & 1u32 == 0) by (bit_vector);
}

/// Values outlive a restart exactly where that was asked for, and other programs are always told.
pub proof fn law_reach_of_requests(state: SysState, persist: bool)
    ensures
        (request_for(state, persist).reach & SPIF_UPDATEINIFILE != 0) == persist,
        request_for(state, persist).reach & SPIF_SENDCHANGE != 0,
{
    assert((2u32 | 1u32) & 1u32 != 0) by (bit_vector);
    assert((2u32 | 1u32) & 2u32 != 0) by (bit_vector);
    assert(2u32 & 1u32 == 0) by (bit_vector);
    assert(2u32 & 2u32 != 0) by (bit_vector);
}

/// Toggling always changes whether the filter keys are on, and toggling them off changes no value.
pub proof fn law_toggling_flips(sys: SysState, cfg: ConfigView)
    ensures
        toggled(sys, cfg).on == !sys.on,
        sys.on ==> toggled(sys, cfg) == (SysState { on: false, ..sys }),
{
}

/// Toggling twice gives the first state back where no preset was applied, and where the values are
/// those of the preset that was.
pub proof fn law_toggling_twice(sys: SysState, cfg: ConfigView)
    requires
        config::active_preset_of(cfg) matches Some(p) ==> sys == preset_state(p, sys.on),
    ensures
        toggled(toggled(sys, cfg), cfg) == sys,
{
}

/// After a preset is applied it is the one that counts: its timer is the one that a key can start,
/// and toggling on gives its values.
pub proof fn law_applied_preset_counts(cfg: ConfigView, id: Seq<char>)
    requires
        config::preset_with_id(cfg.presets, id) is Some,
    ensures
        ({
            let after = ConfigView { active_preset: Some(id), ..cfg };
            let p = config::preset_with_id(cfg.presets, id)->0;
            &&& config::active_preset_of(after) == Some(p)
            &&& p.id == id
            &&& hook::active_timer_of(after) matches Some((seconds, hk)) ==> p.timer_enabled && seconds
                == p.timer_seconds && p.timer_hotkey == Some(hk)
            &&& forall|sys: SysState|
                !sys.on ==> #[trigger] toggled(sys, after) == preset_state(p, true)
        }),
{
    config::lemma_preset_index(cfg.presets, id);
}

/// A request carries each of the four times it was asked for, the flags 2, and 1 more where the filter
/// keys are to be on, and reaches 1 more where the values are to outlive a restart.
pub proof fn law_request_carries_the_values(
    on: bool,
    wait_ms: u32,
    delay_ms: u32,
    repeat_ms: u32,
    bounce_ms: u32,
    persist: bool,
)
    ensures
        ({
            let r = request_for(SysState { on, wait_ms, delay_ms, repeat_ms, bounce_ms }, persist);
            &&& r.keys.wait_ms == wait_ms
            &&& r.keys.delay_ms == delay_ms
            &&& r.keys.repeat_ms == repeat_ms
            &&& r.keys.bounce_ms == bounce_ms
            &&& r.keys.flags == (if on {
                3u32
            } else {
                2u32
            })
            &&& r.reach == (if persist {
                3u32
            } else {
                2u32
            })
        }),
{
    assert(2u32 | 1u32 == 3) by (bit_vector);
}

/// What is read of the filter keys is each of their four times, and that they are on where their flags
/// are odd.
pub proof fn law_state_carries_the_values(keys: FilterKeys)
    ensures
        state_of(keys).wait_ms == keys.wait_ms,
        state_of(keys).delay_ms == keys.delay_ms,
        state_of(keys).repeat_ms == keys.repeat_ms,
        state_of(keys).bounce_ms == keys.bounce_ms,
        state_of(keys).on <==> keys.flags % 2 == 1,
{
    let f = keys.flags;
    assert((f & 1u32 != 0) == (f % 2 == 1)) by (bit_vector);
}

/// Applying a preset asks for each of the preset's own four times, with the filter keys on exactly where
/// the preset turns them on.
pub proof fn law_applied_preset_is_requested(p: PresetView, persist: bool)
    ensures
        ({
            let r = request_for(preset_state(p, p.filter_on), persist);
            &&& r.keys.wait_ms == p.wait_ms
            &&& r.keys.delay_ms == p.delay_ms
            &&& r.keys.repeat_ms == p.repeat_ms
            &&& r.keys.bounce_ms == p.bounce_ms
            &&& r.keys.flags == (if p.filter_on {
                3u32
            } else {
                2u32
            })
            &&& (r.reach == 3) == persist
        }),
{
    assert(2u32 | 1u32 == 3) by (bit_vector);
}

/// Toggling asks for the filter keys to be on where they were off, and off where they were on. Each of
/// the four times is the one of the preset that was applied last, where the filter keys go on and there
/// is one, and otherwise the one that was set before.
pub proof fn law_toggling_is_requested(sys: SysState, cfg: ConfigView)
    ensures
        ({
            let r = request_for(toggled(sys, cfg), cfg.persist_registry);
            &&& r.keys.flags == (if sys.on {
                2u32
            } else {
                3u32
            })
            &&& (r.reach == 3) == cfg.persist_registry
            &&& match config::active_preset_of(cfg) {
                Some(p) if !sys.on => {
                    &&& r.keys.wait_ms == p.wait_ms
                    &&& r.keys.delay_ms == p.delay_ms
                    &&& r.keys.repeat_ms == p.repeat_ms
                    &&& r.keys.bounce_ms == p.bounce_ms
                },
                _ => {
                    &&& r.keys.wait_ms == sys.wait_ms
                    &&& r.keys.delay_ms == sys.delay_ms
                    &&& r.keys.repeat_ms == sys.repeat_ms
                    &&& r.keys.bounce_ms == sys.bounce_ms
                },
            }
        }),
{
    assert(2u32 | 1u32 == 3) by (bit_vector);
}

} // verus!
