//! The configuration: presets of filter key values, hotkeys and options.

use vstd::prelude::*;

use crate::text::text_eq;

verus! {

/// Values for the filter keys under a name, with the hotkeys that belong to them.
#[derive(Clone, Debug)]
pub struct Preset {
    pub id: String,
    pub name: String,
    /// How long a key must be held before it counts.
    pub wait_ms: u32,
    /// How long a key must be held before it repeats.
    pub delay_ms: u32,
    /// The time between repeats.
    pub repeat_ms: u32,
    /// How long a second press of the same key is ignored.
    pub bounce_ms: u32,
    /// The hotkey that applies the preset.
    pub hotkey: Option<String>,
    /// Whether applying the preset turns the filter keys on.
    pub filter_on: bool,
    /// Whether the preset's timer is in use.
    pub timer_enabled: bool,
    /// The time until the alarm, in seconds.
    pub timer_seconds: u32,
    /// The key that starts the timer.
    pub timer_hotkey: Option<String>,
}

/// The whole configuration.
#[derive(Clone, Debug)]
pub struct AppConfig {
    /// The unit in which times are shown, `ms` or `s`.
    pub unit: String,
    /// Whether values outlive a restart of the system.
    pub persist_registry: bool,
    /// Whether hotkeys are answered with a beep.
    pub beep_on_hotkey: bool,
    /// The volume of the timer's alarm, from 0 to 100.
    pub alarm_volume: u32,
    /// Whether starting a timer is answered with a beep.
    pub timer_start_sound: bool,
    /// The leader key: while it is held, the keys that follow select presets.
    pub combo_leader: Option<String>,
    /// Whether the program starts itself again as administrator.
    pub always_admin: bool,
    /// The hotkey that turns the filter keys on and off.
    pub toggle_hotkey: Option<String>,
    /// The id of the preset that was applied last.
    pub active_preset: Option<String>,
    pub presets: Vec<Preset>,
}

/// A preset's contents.
#[verifier::ext_equal]
pub struct PresetView {
    pub id: Seq<char>,
    pub name: Seq<char>,
    pub wait_ms: u32,
    pub delay_ms: u32,
    pub repeat_ms: u32,
    pub bounce_ms: u32,
    pub hotkey: Option<Seq<char>>,
    pub filter_on: bool,
    pub timer_enabled: bool,
    pub timer_seconds: u32,
    pub timer_hotkey: Option<Seq<char>>,
}

/// A configuration's contents.
#[verifier::ext_equal]
pub struct ConfigView {
    pub unit: Seq<char>,
    pub persist_registry: bool,
    pub beep_on_hotkey: bool,
    pub alarm_volume: u32,
    pub timer_start_sound: bool,
    pub combo_leader: Option<Seq<char>>,
    pub always_admin: bool,
    pub toggle_hotkey: Option<Seq<char>>,
    pub active_preset: Option<Seq<char>>,
    pub presets: Seq<PresetView>,
}

/// The contents of a text that may be missing.
pub open spec fn opt_text(o: Option<String>) -> Option<Seq<char>> {
    match o {
        Some(s) => Some(s@),
        None => None,
    }
}

impl View for Preset {
    type V = PresetView;

    open spec fn view(&self) -> PresetView {
        PresetView {
            id: self.id@,
            name: self.name@,
            wait_ms: self.wait_ms,
            delay_ms: self.delay_ms,
            repeat_ms: self.repeat_ms,
            bounce_ms: self.bounce_ms,
            hotkey: opt_text(self.hotkey),
            filter_on: self.filter_on,
            timer_enabled: self.timer_enabled,
            timer_seconds: self.timer_seconds,
            timer_hotkey: opt_text(self.timer_hotkey),
        }
    }
}

/// The contents of a list of presets.
pub open spec fn preset_views(v: Seq<Preset>) -> Seq<PresetView> {
    v.map_values(|p: Preset| p@)
}

impl View for AppConfig {
    type V = ConfigView;

    open spec fn view(&self) -> ConfigView {
        ConfigView {
            unit: self.unit@,
            persist_registry: self.persist_registry,
            beep_on_hotkey: self.beep_on_hotkey,
            alarm_volume: self.alarm_volume,
            timer_start_sound: self.timer_start_sound,
            combo_leader: opt_text(self.combo_leader),
            always_admin: self.always_admin,
            toggle_hotkey: opt_text(self.toggle_hotkey),
            active_preset: opt_text(self.active_preset),
            presets: preset_views(self.presets@),
        }
    }
}

/// The value of `filter_on` where a stored preset does not give one.
pub fn yes() -> (r: bool)
    ensures
        r,
{
    true
}

/// A preset with nothing filled in.
pub open spec fn empty_preset() -> PresetView {
    PresetView {
        id: Seq::empty(),
        name: Seq::empty(),
        wait_ms: 0,
        delay_ms: 0,
        repeat_ms: 0,
        bounce_ms: 0,
        hotkey: None,
        filter_on: true,
        timer_enabled: false,
        timer_seconds: 0,
        timer_hotkey: None,
    }
}

impl Default for Preset {
    fn default() -> (r: Self)
        ensures
            r@ == empty_preset(),
    {
        Preset {
            id: String::new(),
            name: String::new(),
            wait_ms: 0,
            delay_ms: 0,
            repeat_ms: 0,
            bounce_ms: 0,
            hotkey: None,
            filter_on: true,
            timer_enabled: false,
            timer_seconds: 0,
            timer_hotkey: None,
        }
    }
}

/// The preset for hunting that a new configuration holds.
pub open spec fn hunt_preset() -> PresetView {
    PresetView {
        id: "hunt"@,
        name: "사냥"@,
        delay_ms: 150,
        repeat_ms: 20,
        hotkey: Some("ctrl+alt+f10"@),
        ..empty_preset()
    }
}

/// The preset for bosses that a new configuration holds.
pub open spec fn boss_preset() -> PresetView {
    PresetView {
        id: "boss"@,
        name: "보스"@,
        delay_ms: 100,
        repeat_ms: 10,
        hotkey: Some("ctrl+alt+f11"@),
        ..empty_preset()
    }
}

/// The preset that goes back to the system's own values, with the filter keys off.
pub open spec fn windows_preset() -> PresetView {
    PresetView {
        id: "windefault"@,
        name: "윈도우 기본값"@,
        wait_ms: 1000,
        delay_ms: 1000,
        repeat_ms: 500,
        filter_on: false,
        ..empty_preset()
    }
}

/// A new configuration.
pub open spec fn default_config() -> ConfigView {
    ConfigView {
        unit: "s"@,
        persist_registry: true,
        beep_on_hotkey: true,
        alarm_volume: 85,
        timer_start_sound: false,
        combo_leader: None,
        always_admin: false,
        toggle_hotkey: Some("ctrl+alt+f9"@),
        active_preset: None,
        presets: seq![hunt_preset(), boss_preset(), windows_preset()],
    }
}

fn default_presets() -> (r: Vec<Preset>)
    ensures
        preset_views(r@) == seq![hunt_preset(), boss_preset(), windows_preset()],
{
    let hunt = Preset {
        id: "hunt".to_owned(),
        name: "사냥".to_owned(),
        wait_ms: 0,
        delay_ms: 150,
        repeat_ms: 20,
        bounce_ms: 0,
        hotkey: Some("ctrl+alt+f10".to_owned()),
        ..Default::default()
    };
    let boss = Preset {
        id: "boss".to_owned(),
        name: "보스".to_owned(),
        wait_ms: 0,
        delay_ms: 100,
        repeat_ms: 10,
        bounce_ms: 0,
        hotkey: Some("ctrl+alt+f11".to_owned()),
        ..Default::default()
    };
    let windows = Preset {
        id: "windefault".to_owned(),
        name: "윈도우 기본값".to_owned(),
        wait_ms: 1000,
        delay_ms: 1000,
        repeat_ms: 500,
        bounce_ms: 0,
        hotkey: None,
        filter_on: false,
        ..Default::default()
    };
    let mut presets: Vec<Preset> = Vec::new();
    presets.push(hunt);
    presets.push(boss);
    presets.push(windows);
    assert(preset_views(presets@) =~= seq![hunt_preset(), boss_preset(), windows_preset()]);
    presets
}

impl Default for AppConfig {
    fn default() -> (r: Self)
        ensures
            r@ == default_config(),
    {
        AppConfig {
            unit: "s".to_owned(),
            persist_registry: true,
            beep_on_hotkey: true,
            alarm_volume: 85,
            timer_start_sound: false,
            combo_leader: None,
            always_admin: false,
            toggle_hotkey: Some("ctrl+alt+f9".to_owned()),
            active_preset: None,
            presets: default_presets(),
        }
    }
}

/// The position of the first preset with an id.
pub open spec fn preset_index(presets: Seq<PresetView>, id: Seq<char>) -> Option<int>
    decreases presets.len(),
{
    if presets.len() == 0 {
        None
    } else {
        match preset_index(presets.drop_last(), id) {
            Some(i) => Some(i),
            None => if presets.last().id == id {
                Some(presets.len() - 1)
            } else {
                None
            },
        }
    }
}

/// The first preset with an id.
pub open spec fn preset_with_id(presets: Seq<PresetView>, id: Seq<char>) -> Option<PresetView> {
    match preset_index(presets, id) {
        Some(i) => Some(presets[i]),
        None => None,
    }
}

/// The preset that was applied last, where it still exists.
pub open spec fn active_preset_of(cfg: ConfigView) -> Option<PresetView> {
    match cfg.active_preset {
        Some(id) => preset_with_id(cfg.presets, id),
        None => None,
    }
}

/// A preset found by its id is the first with that id; where none is found, none has it.
pub proof fn lemma_preset_index(presets: Seq<PresetView>, id: Seq<char>)
    ensures
        match preset_index(presets, id) {
            Some(i) => 0 <= i < presets.len() && presets[i].id == id && forall|k: int|
                0 <= k < i ==> (#[trigger] presets[k]).id != id,
            None => forall|k: int| 0 <= k < presets.len() ==> (#[trigger] presets[k]).id != id,
        },
    decreases presets.len(),
{
    if presets.len() > 0 {
        let front = presets.drop_last();
        lemma_preset_index(front, id);
        assert(forall|k: int| 0 <= k < front.len() ==> front[k] == presets[k]);
    }
}

/// The first preset found in a list's beginning is the first in the list.
proof fn lemma_preset_index_prefix(presets: Seq<PresetView>, n: int, id: Seq<char>)
    requires
        0 <= n <= presets.len(),
        preset_index(presets.take(n), id) is Some,
    ensures
        preset_index(presets, id) == preset_index(presets.take(n), id),
    decreases presets.len() - n,
{
    if n == presets.len() {
        assert(presets.take(n) =~= presets);
    } else {
        assert(presets.take(n + 1).drop_last() =~= presets.take(n));
        lemma_preset_index_prefix(presets, n + 1, id);
    }
}

impl AppConfig {
    /// The position of the first preset with an id.
    pub fn find_preset(&self, id: &str) -> (r: Option<usize>)
        ensures
            match r {
                Some(i) => preset_index(self@.presets, id@) == Some(i as int) && i
                    < self.presets.len(),
                None => preset_index(self@.presets, id@) is None,
            },
    {
        let n = self.presets.len();
        let mut i: usize = 0;
        let ghost all = self@.presets;
        assert(all.take(0) =~= Seq::empty());
        while i < n
            invariant
                i <= n,
                n == self.presets.len(),
                all == self@.presets,
                all.len() == n,
                preset_index(all.take(i as int), id@) is None,
            decreases n - i,
        {
            assert(all.take(i + 1).drop_last() =~= all.take(i as int));
            assert(all[i as int] == self.presets@[i as int]@);
            if text_eq(self.presets[i].id.as_str(), id) {
                proof {
                    lemma_preset_index_prefix(all, i + 1, id@);
                }
                return Some(i);
            }
            i += 1;
        }
        assert(all.take(n as int) =~= all);
        None
    }

    /// The position of the preset that was applied last, where it still exists.
    pub fn find_active(&self) -> (r: Option<usize>)
        ensures
            match r {
                Some(i) => active_preset_of(self@) == Some(self.presets@[i as int]@) && i
                    < self.presets.len(),
                None => active_preset_of(self@) is None,
            },
    {
        match &self.active_preset {
            Some(id) => self.find_preset(id.as_str()),
            None => None,
        }
    }
}

/// A preset found by its id has that id and no preset before it has; where none is found, none has it.
/// The preset that was applied last is the one found by the id that was kept.
pub proof fn law_presets_are_found(cfg: ConfigView, id: Seq<char>)
    ensures
        match preset_with_id(cfg.presets, id) {
            Some(p) => exists|i: int|
                {
                    &&& 0 <= i < cfg.presets.len()
                    &&& #[trigger] cfg.presets[i] == p
                    &&& p.id == id
                    &&& forall|k: int| 0 <= k < i ==> (#[trigger] cfg.presets[k]).id != id
                },
            None => forall|k: int|
                0 <= k < cfg.presets.len() ==> (#[trigger] cfg.presets[k]).id != id,
        },
        cfg.active_preset == Some(id) ==> active_preset_of(cfg) == preset_with_id(cfg.presets, id),
        cfg.active_preset is None ==> active_preset_of(cfg) is None,
{
    lemma_preset_index(cfg.presets, id);
}

} // verus!
