//! Putting a configuration into effect.

use vstd::prelude::*;

use crate::alarm;
use crate::alarm::limit_volume;
use crate::config::AppConfig;
use crate::config::ConfigView;
use crate::hook;
use crate::hook::HookState;
use crate::hook::HookView;
use crate::hook::rebuild_leader_bindings;
use crate::hook::rebuild_timer_bindings;
use crate::hotkeys;
use crate::hotkeys::SyncPlan;
use crate::hotkeys::dedupe_hotkeys;
use crate::hotkeys::sync_hotkeys;
use crate::keys;

verus! {

/// What is heard of timers.
#[derive(Clone, Copy, PartialEq, Eq, Structural, Debug)]
pub struct AlarmSettings {
    /// The volume of the alarm, from 0 to 100.
    pub volume: u32,
    /// Whether the start of a timer is answered with a tone.
    pub start_sound: bool,
}

/// What is heard of timers under a configuration.
pub open spec fn alarm_settings_of(cfg: ConfigView) -> AlarmSettings {
    AlarmSettings { volume: alarm::limited(cfg.alarm_volume), start_sound: cfg.timer_start_sound }
}

/// The hook's memory with the keys of a configuration. What is pressed stays pressed.
pub open spec fn with_keys(h: HookView, cfg: ConfigView) -> HookView {
    hook::with_leader(HookView { timer_bindings: hook::timer_bindings_of(cfg), ..h }, cfg)
}

impl AlarmSettings {
    /// What is heard of timers before a configuration is read.
    pub fn new() -> (r: Self)
        ensures
            r == (AlarmSettings { volume: 85, start_sound: false }),
    {
        AlarmSettings { volume: 85, start_sound: false }
    }
}

/// Puts a configuration into effect: the keyboard hook waits for its keys, and timers sound as it
/// says. Gives what has to be done so that the system knows its hotkeys; `previous` are the ones
/// registered before.
pub fn activate_config(
    previous: &Vec<String>,
    cfg: &AppConfig,
    hook: &mut HookState,
    alarm: &mut AlarmSettings,
) -> (r: SyncPlan)
    ensures
        keys::texts(r.release@) == hotkeys::readable(keys::texts(previous@)),
        hotkeys::request_texts(r.register@) == hotkeys::unique_last(hotkeys::candidates(cfg@)),
        hotkeys::requests_read(r.register@),
        final(hook)@ == with_keys(old(hook)@, cfg@),
        old(hook)@.wf() ==> final(hook)@.wf(),
        *final(alarm) == alarm_settings_of(cfg@),
{
    let plan = sync_hotkeys(previous, cfg);
    rebuild_timer_bindings(hook, cfg);
    rebuild_leader_bindings(hook, cfg);
    alarm.volume = limit_volume(cfg.alarm_volume);
    alarm.start_sound = cfg.timer_start_sound;
    plan
}

/// Takes a new configuration, leaves each combination only in the last place that has it, and puts
/// the result into effect.
pub fn save_config(
    previous: &Vec<String>,
    cfg: &mut AppConfig,
    hook: &mut HookState,
    alarm: &mut AlarmSettings,
) -> (r: SyncPlan)
    ensures
        final(cfg)@ == hotkeys::deduped_config(old(cfg)@),
        keys::texts(r.release@) == hotkeys::readable(keys::texts(previous@)),
        hotkeys::request_texts(r.register@) == hotkeys::unique_last(
            hotkeys::candidates(hotkeys::deduped_config(old(cfg)@)),
        ),
        hotkeys::requests_read(r.register@),
        final(hook)@ == with_keys(old(hook)@, hotkeys::deduped_config(old(cfg)@)),
        old(hook)@.wf() ==> final(hook)@.wf(),
        *final(alarm) == alarm_settings_of(old(cfg)@),
{
    dedupe_hotkeys(cfg);
    activate_config(previous, cfg, hook, alarm)
}

/// Putting a configuration into effect a second time changes nothing, removing doubled hotkeys does
/// not change what is heard of timers, and the volume of the alarm is never more than 100.
pub proof fn law_effect_is_stable(h: HookView, cfg: ConfigView)
    ensures
        with_keys(with_keys(h, cfg), cfg) == with_keys(h, cfg),
        alarm_settings_of(hotkeys::deduped_config(cfg)) == alarm_settings_of(cfg),
        alarm_settings_of(cfg).volume <= 100,
{
}

/// Putting a configuration into effect leaves alone what is pressed, except that without a leader
/// key none is held.
pub proof fn law_effect_keeps_pressed_keys(h: HookView, cfg: ConfigView)
    ensures
        with_keys(h, cfg).down == h.down,
        with_keys(h, cfg).swallowed == h.swallowed,
        with_keys(h, cfg).capture == h.capture,
        with_keys(h, cfg).leader_held == (h.leader_held && hook::leader_key_of(cfg) is Some),
{
}

/// What a configuration says is what counts once it is in effect: its volume, at most 100, its choice
/// of start sound, its leader key and combinations, and its timer.
pub proof fn law_effect_is_the_configuration(h: HookView, cfg: ConfigView)
    ensures
        alarm_settings_of(cfg).volume == (if cfg.alarm_volume <= 100 {
            cfg.alarm_volume
        } else {
            100
        }),
        alarm_settings_of(cfg).start_sound == cfg.timer_start_sound,
        with_keys(h, cfg).leader == hook::leader_key_of(cfg),
        with_keys(h, cfg).timer_bindings == hook::timer_bindings_of(cfg),
        with_keys(h, cfg).leader_bindings == (if hook::leader_key_of(cfg) is Some {
            hook::leader_bindings_of(cfg.presets)
        } else {
            Seq::empty()
        }),
{
}

} // verus!
