//! What calls of the library give back and change, in terms of what they are given.

use vstd::prelude::*;

use crate::alarm;
use crate::alarm::Feedback;
use crate::alarm::Tone;
use crate::bytes;
use crate::config;
use crate::config::AppConfig;
use crate::config::ConfigView;
use crate::error::HelperError;
use crate::filter;
use crate::filter::FilterKeys;
use crate::filter::FilterRequest;
use crate::filter::SysState;
use crate::hook;
use crate::hook::HookOutcome;
use crate::hook::HookState;
use crate::hook::HookView;
use crate::hook_laws;
use crate::hook_laws::HookEvent;
use crate::hotkey_laws;
use crate::hotkeys;
use crate::hotkeys::ActionView;
use crate::hotkeys::Ending;
use crate::hotkeys::HotkeyRequest;
use crate::hotkeys::Shortcut;
use crate::hotkeys::ShortcutAction;
use crate::hotkeys::SyncOutcome;
use crate::hotkeys::SyncPlan;
use crate::key_laws;
use crate::keys;
use crate::keys::HeldModifiers;
use crate::keys::MainKey;
use crate::load;
use crate::scancode;
use crate::scancode::Entry;
use crate::scancode::RegistryWrite;
use crate::settings;
use crate::settings::AlarmSettings;
use crate::system;
use crate::system::MenuAction;
use crate::text;
use crate::timer;
use crate::timer::TimerCount;
use crate::wide;

verus! {

/// Reading the filter keys fails exactly where the system answered zero, and otherwise gives each of
/// their times, and on where their flags are odd.
pub proof fn law_get_sys(answer: i32, keys: FilterKeys, out: Result<SysState, HelperError>)
    requires
        call_ensures(filter::get_sys, (answer, &keys), out),
    ensures
        answer == 0 ==> out == Err::<SysState, HelperError>(HelperError::FilterKeysRead),
        answer != 0 ==> (out matches Ok(s) && s.wait_ms == keys.wait_ms && s.delay_ms
            == keys.delay_ms && s.repeat_ms == keys.repeat_ms && s.bounce_ms == keys.bounce_ms && (
        s.on <==> keys.flags % 2 == 1)),
{
    filter::law_state_carries_the_values(keys);
}

/// Setting the filter keys asks for the values it is given, and fails exactly where the system answers
/// zero.
pub proof fn law_set_sys(
    on: bool,
    wait_ms: u32,
    delay_ms: u32,
    repeat_ms: u32,
    bounce_ms: u32,
    persist: bool,
    out: FilterRequest,
    answer: i32,
    done: Result<(), HelperError>,
)
    requires
        call_ensures(
            filter::set_sys,
            (on, wait_ms, delay_ms, repeat_ms, bounce_ms, persist),
            out,
        ),
        call_ensures(filter::set_sys_result, (answer,), done),
    ensures
        out.keys.wait_ms == wait_ms,
        out.keys.delay_ms == delay_ms,
        out.keys.repeat_ms == repeat_ms,
        out.keys.bounce_ms == bounce_ms,
        out.keys.flags == (if on {
            3u32
        } else {
            2u32
        }),
        out.reach == (if persist {
            3u32
        } else {
            2u32
        }),
        answer == 0 ==> done == Err::<(), HelperError>(HelperError::FilterKeysWrite),
        answer != 0 ==> done == Ok::<(), HelperError>(()),
{
    filter::law_request_carries_the_values(on, wait_ms, delay_ms, repeat_ms, bounce_ms, persist);
}

/// Toggling asks for the other of on and off. The times are those of the preset that was applied last,
/// the first with the id that was kept, where the filter keys go on, and otherwise those set before.
pub proof fn law_toggle_filter(sys: SysState, cfg: AppConfig, out: FilterRequest, i: int)
    requires
        call_ensures(filter::toggle_filter, (&sys, &cfg), out),
    ensures
        out.keys.flags == (if sys.on {
            2u32
        } else {
            3u32
        }),
        (out.reach == 3) == cfg.persist_registry,
        sys.on || cfg.active_preset is None ==> out.keys.wait_ms == sys.wait_ms
            && out.keys.delay_ms == sys.delay_ms && out.keys.repeat_ms == sys.repeat_ms
            && out.keys.bounce_ms == sys.bounce_ms,
        !sys.on && 0 <= i < cfg@.presets.len() && cfg@.active_preset == Some(cfg@.presets[i].id)
            && (forall|k: int| 0 <= k < i ==> (#[trigger] cfg@.presets[k]).id != cfg@.presets[i].id)
            ==> out.keys.wait_ms == cfg@.presets[i].wait_ms && out.keys.delay_ms
            == cfg@.presets[i].delay_ms && out.keys.repeat_ms == cfg@.presets[i].repeat_ms
            && out.keys.bounce_ms == cfg@.presets[i].bounce_ms,
{
    filter::law_toggling_is_requested(sys, cfg@);
    if let Some(id) = cfg@.active_preset {
        config::lemma_preset_index(cfg@.presets, id);
    }
}

/// Applying a preset asks for the values of the first preset with the id, and keeps the id; where no
/// preset has it, nothing changes.
pub proof fn law_apply_preset(
    cfg: &mut AppConfig,
    id: &str,
    out: Result<FilterRequest, HelperError>,
    i: int,
)
    requires
        call_ensures(filter::apply_preset, (cfg, id), out),
    ensures
        (forall|k: int| 0 <= k < old(cfg)@.presets.len() ==> (#[trigger] old(cfg)@.presets[k]).id
            != id@) ==> out == Err::<FilterRequest, HelperError>(HelperError::PresetNotFound)
            && final(cfg)@ == old(cfg)@,
        0 <= i < old(cfg)@.presets.len() && old(cfg)@.presets[i].id == id@ && (forall|k: int|
            0 <= k < i ==> (#[trigger] old(cfg)@.presets[k]).id != id@) ==> ({
            let p = old(cfg)@.presets[i];
            &&& out matches Ok(q)
            &&& q.keys.wait_ms == p.wait_ms
            &&& q.keys.delay_ms == p.delay_ms
            &&& q.keys.repeat_ms == p.repeat_ms
            &&& q.keys.bounce_ms == p.bounce_ms
            &&& q.keys.flags == (if p.filter_on {
                3u32
            } else {
                2u32
            })
            &&& (q.reach == 3) == old(cfg).persist_registry
            &&& final(cfg)@ == (ConfigView { active_preset: Some(id@), ..old(cfg)@ })
        }),
{
    let ps = old(cfg)@.presets;
    config::lemma_preset_index(ps, id@);
    if let Some(p) = config::preset_with_id(ps, id@) {
        filter::law_applied_preset_is_requested(p, old(cfg).persist_registry);
    }
}

/// Values chosen by hand are asked for as they are; then no preset counts as applied and no key starts a
/// timer, and nothing else changes.
pub proof fn law_apply_values(
    cfg: &mut AppConfig,
    hook: &mut HookState,
    on: bool,
    wait_ms: u32,
    delay_ms: u32,
    repeat_ms: u32,
    bounce_ms: u32,
    out: FilterRequest,
)
    requires
        call_ensures(
            filter::apply_values,
            (cfg, hook, on, wait_ms, delay_ms, repeat_ms, bounce_ms),
            out,
        ),
    ensures
        out.keys.wait_ms == wait_ms,
        out.keys.delay_ms == delay_ms,
        out.keys.repeat_ms == repeat_ms,
        out.keys.bounce_ms == bounce_ms,
        out.keys.flags == (if on {
            3u32
        } else {
            2u32
        }),
        (out.reach == 3) == old(cfg).persist_registry,
        final(cfg)@ == (ConfigView { active_preset: None, ..old(cfg)@ }),
        final(hook)@ == (HookView { timer_bindings: Seq::empty(), ..old(hook)@ }),
{
    filter::law_request_carries_the_values(
        on,
        wait_ms,
        delay_ms,
        repeat_ms,
        bounce_ms,
        old(cfg).persist_registry,
    );
}

/// Every duration but zero starts a timer, which is the only one that is due; zero starts none and
/// leaves the one before it due.
pub proof fn law_start(timers: &mut TimerCount, seconds: u32, out: Option<u64>)
    requires
        call_ensures(TimerCount::start, (timers, seconds), out),
    ensures
        seconds == 0 ==> out is None && final(timers).count == old(timers).count,
        seconds > 0 ==> out == Some(final(timers).count) && final(timers).count
            != old(timers).count,
        seconds > 0 && old(timers).count < u64::MAX ==> final(timers).count == old(timers).count
            + 1,
{
    timer::law_count_goes_up_by_one(old(timers).count);
}

/// A timer that is called off is not due any more, and a timer is due exactly while its number is the
/// count.
pub proof fn law_cancel(timers: &mut TimerCount, done: (), after: TimerCount, number: u64, due: bool)
    requires
        call_ensures(TimerCount::cancel, (timers,), done),
        call_ensures(TimerCount::is_due, (&after, number), due),
    ensures
        final(timers).count != old(timers).count,
        due <==> number == after.count,
{
    timer::law_count_goes_up_by_one(old(timers).count);
}

/// The timer of the first preset with an id is started for that preset's duration, whether its key is in
/// use or not; without a duration nothing is started, and without a preset it is an error.
pub proof fn law_start_timer(
    timers: &mut TimerCount,
    cfg: AppConfig,
    id: &str,
    out: Result<(u32, Option<u64>), HelperError>,
    i: int,
)
    requires
        call_ensures(timer::start_timer, (timers, &cfg, id), out),
    ensures
        (forall|k: int| 0 <= k < cfg@.presets.len() ==> (#[trigger] cfg@.presets[k]).id != id@)
            ==> out == Err::<(u32, Option<u64>), HelperError>(HelperError::PresetNotFound)
            && final(timers).count == old(timers).count,
        0 <= i < cfg@.presets.len() && cfg@.presets[i].id == id@ && (forall|k: int|
            0 <= k < i ==> (#[trigger] cfg@.presets[k]).id != id@) ==> ({
            &&& out matches Ok(started)
            &&& started.0 == cfg@.presets[i].timer_seconds
            &&& started.0 == 0 ==> started.1 is None && final(timers).count == old(timers).count
            &&& started.0 > 0 ==> started.1 == Some(final(timers).count) && final(timers).count
                != old(timers).count
        }),
{
    config::lemma_preset_index(cfg@.presets, id@);
    timer::law_count_goes_up_by_one(old(timers).count);
}

/// The loudness of each sample of a tone rises from none by one part a sample at the beginning, falls
/// likewise to the end, and is never more than 132 parts.
pub proof fn law_envelope(n: u32, out: u32)
    requires
        n < 3969,
        call_ensures(alarm::envelope, (n,), out),
    ensures
        n <= 132 ==> out == n,
        132 <= n <= 3969 - 132 ==> out == 132,
        n >= 3969 - 132 ==> out == 3969 - n,
{
}

/// Volumes below 100 are kept, others are 100.
pub proof fn law_limit_volume(volume: u32, out: u32)
    requires
        call_ensures(alarm::limit_volume, (volume,), out),
    ensures
        volume < 100 ==> out == volume,
        volume >= 100 ==> out == 100,
{
}

/// A WAV file holds its samples, two bytes each, after its header of 44 bytes.
pub proof fn law_encode_wav(samples: Vec<i16>, out: Vec<u8>)
    requires
        36 + 2 * samples.len() <= u32::MAX,
        call_ensures(alarm::encode_wav, (&samples,), out),
    ensures
        out@.len() == 44 + 2 * samples.len(),
        forall|k: int|
            0 <= k < samples.len() ==> out@[44 + 2 * k] + 0x100 * out@[45 + 2 * k] == (if (
            #[trigger] samples@[k]) < 0 {
                0x10000 + samples@[k]
            } else {
                samples@[k] as int
            }),
{
    alarm::law_wav_says(samples@);
}

/// Hotkeys are answered exactly where that is wanted: high for on, low for off, in between for a preset;
/// so is the start of a timer.
pub proof fn law_tones(
    enabled: bool,
    on: bool,
    what: Feedback,
    toggled: Feedback,
    out: Option<Tone>,
    start: Option<Tone>,
)
    requires
        call_ensures(alarm::toggle_feedback, (on,), toggled),
        call_ensures(alarm::beep_feedback, (enabled, what), out),
        call_ensures(alarm::timer_start_tone, (enabled,), start),
    ensures
        toggled is TurnedOn <==> on,
        toggled is TurnedOff <==> !on,
        out is Some <==> enabled,
        start is Some <==> enabled,
        out matches Some(t) ==> t.duration == 120 && t.frequency == (match what {
            Feedback::TurnedOn => 1320u32,
            Feedback::TurnedOff => 520u32,
            Feedback::PresetApplied => 990u32,
        }),
        start matches Some(t) ==> t.duration == 80 && t.frequency == 740,
{
}

/// Reading the scancode map: a missing value has no entries, other codes of the two questions are
/// errors, and a value that was read has the entries of its four-byte groups.
pub proof fn law_scancode_entries(
    query: i32,
    code: i32,
    b: &[u8],
    out: Result<Vec<Entry>, HelperError>,
)
    requires
        call_ensures(scancode::scancode_entries, (query, code, b), out),
    ensures
        query == 2 ==> (out matches Ok(es) && es@.len() == 0),
        query != 0 && query != 2 ==> out == Err::<Vec<Entry>, HelperError>(
            HelperError::RegistryQuery(query),
        ),
        query == 0 && code != 0 ==> out == Err::<Vec<Entry>, HelperError>(
            HelperError::RegistryRead(code),
        ),
        query == 0 && code == 0 ==> ({
            &&& out matches Ok(es)
            &&& forall|k: int|
                0 <= k < es@.len() ==> {
                    &&& 16 + 4 * k <= b@.len()
                    &&& (#[trigger] es@[k]).1 == b@[12 + 4 * k] + 0x100 * b@[13 + 4 * k]
                    &&& es@[k].0 == b@[14 + 4 * k] + 0x100 * b@[15 + 4 * k]
                    &&& es@[k] != (0u16, 0u16)
                }
            &&& forall|i: int|
                16 + 4 * es@.len() <= b@.len() && 12 + 4 * es@.len() <= i < 16 + 4 * es@.len()
                    ==> #[trigger] b@[i] == 0
        }),
{
    scancode::law_entries_of_a_value(b@);
}

/// Opening the scancode map fails for every code but zero.
pub proof fn law_open_scancode_key(code: i32, out: Result<(), HelperError>)
    requires
        call_ensures(scancode::open_scancode_key, (code,), out),
    ensures
        code == 0 <==> out is Ok,
        code != 0 ==> out == Err::<(), HelperError>(HelperError::RegistryOpen(code)),
{
}

/// Taking the Hanja function away, or giving it back, stores entries that are read back as: the ones
/// before with those for the two keys added where missing; or the ones before without those for the two
/// keys. No entries are stored as no value.
pub proof fn law_set_hanja_removal(
    es: Vec<Entry>,
    enable: bool,
    out: Result<RegistryWrite, HelperError>,
)
    requires
        es.len() < u32::MAX - 2,
        !es@.contains((0u16, 0u16)),
        call_ensures(
            scancode::set_hanja_removal,
            (Ok::<Vec<Entry>, HelperError>(es), enable),
            out,
        ),
    ensures
        out is Ok,
        enable ==> (out matches Ok(change) && change is Store && scancode::stored_entries(
            change.stored(),
        ) == es@ + (if exists|i: int| 0 <= i < es@.len() && (#[trigger] es@[i]).0 == 0xE01D {
            Seq::empty()
        } else {
            seq![(0xE01Du16, 0x1Du16)]
        }) + (if exists|i: int| 0 <= i < es@.len() && (#[trigger] es@[i]).0 == 0x71 {
            Seq::empty()
        } else {
            seq![(0x71u16, 0u16)]
        })),
        !enable ==> (out matches Ok(change) && forall|e: Entry| #[trigger]
            scancode::stored_entries(change.stored()).contains(e) <==> es@.contains(e) && e.0
                != 0xE01D && e.0 != 0x71),
{
    let all = es@;
    if enable {
        let after = scancode::with_removal(all);
        scancode::law_removal_keeps_other_entries(all);
        scancode::law_removal_adds(all);
        assert(!after.contains((0u16, 0u16))) by {
            if after.contains((0u16, 0u16)) {
                let k = choose|k: int| 0 <= k < after.len() && after[k] == (0u16, 0u16);
                if k < all.len() {
                    assert(all.contains(after[k]));
                }
            }
        }
        scancode::law_stored_entries_are_read_back(after);
    } else {
        let after = scancode::without_removal(all);
        scancode::law_restoring_keeps_other_entries(all);
        scancode::law_stored_entries_are_read_back(after);
    }
}

/// The right control key counts as without its Hanja function exactly where the map was read and makes
/// it the left one.
pub proof fn law_get_hanja_removal(read: Result<Vec<Entry>, HelperError>, out: bool)
    requires
        call_ensures(scancode::get_hanja_removal, (&read,), out),
    ensures
        out <==> (read matches Ok(es) && es@.contains((0xE01Du16, 0x1Du16))),
{
}

/// A change of the scancode map fails for want of rights exactly where the code is 5, and for every
/// other code but zero, except that a value that goes away may be missing.
pub proof fn law_scancode_write_result(
    change: RegistryWrite,
    code: i32,
    out: Result<(), HelperError>,
)
    requires
        call_ensures(scancode::scancode_write_result, (&change, code), out),
    ensures
        out is Ok <==> code == 0 || (change is Delete && code == 2),
        out == Err::<(), HelperError>(HelperError::AccessDenied) <==> code == 5,
        out is Err && code != 5 ==> out == Err::<(), HelperError>(HelperError::RegistryWrite(code)),
{
}

/// What the system's answers about rights mean, and when the program starts itself again.
pub proof fn law_administrator(
    answer: i32,
    admin: bool,
    shell: isize,
    started: Result<(), HelperError>,
    cfg: AppConfig,
    needed: bool,
)
    requires
        call_ensures(system::is_admin, (answer,), admin),
        call_ensures(system::spawn_elevated, (shell,), started),
        call_ensures(system::needs_elevation, (&cfg, admin), needed),
    ensures
        admin <==> answer != 0,
        started is Ok <==> shell > 32,
        started is Err ==> started == Err::<(), HelperError>(HelperError::ElevationRefused),
        needed <==> cfg.always_admin && answer == 0,
{
}

/// The tray menu has three entries that do something.
pub proof fn law_menu_action(id: &str, out: MenuAction)
    requires
        call_ensures(system::menu_action, (id,), out),
    ensures
        out is Show <==> id@ == "show"@,
        out is Toggle <==> id@ == "toggle"@,
        out is Quit <==> id@ == "quit"@,
{
    reveal_strlit("show");
    reveal_strlit("toggle");
    reveal_strlit("quit");
    assert("show"@[0] != "toggle"@[0] && "show"@[0] != "quit"@[0] && "toggle"@[0] != "quit"@[0]);
}

/// What a token and a combination are read as, and the state of the modifier keys.
pub proof fn law_reading_keys(
    t: &str,
    vk: Option<u32>,
    read: Option<(MainKey, bool, bool, bool)>,
    states: (i16, i16, i16, i16, i16),
    held: HeldModifiers,
    any: bool,
)
    requires
        call_ensures(keys::token_to_vk, (t,), vk),
        call_ensures(keys::parse_timer_key, (t,), read),
        call_ensures(
            keys::held_modifiers,
            (states.0, states.1, states.2, states.3, states.4),
            held,
        ),
        call_ensures(keys::any_modifier_down, (&held,), any),
    ensures
        vk == keys::vk_of_token(t@),
        read == keys::combination_of(keys::tokens_of(t@)),
        held.ctrl <==> states.0 < 0,
        held.alt <==> states.1 < 0,
        held.shift <==> states.2 < 0,
        held.left_win <==> states.3 < 0,
        held.right_win <==> states.4 < 0,
        any <==> states.0 < 0 || states.1 < 0 || states.2 < 0 || states.3 < 0 || states.4 < 0,
{
}

/// What is stripped from a hotkey is `leader+`, exactly where the hotkey, trimmed and in lower case, is
/// that and something more.
pub proof fn law_strip_leader_prefix(hk: &str, out: Option<String>, rest: Seq<char>)
    requires
        call_ensures(keys::strip_leader_prefix, (hk,), out),
    ensures
        out matches Some(s) ==> s@.len() > 0 && text::normalized(hk@) == "leader+"@ + s@,
        rest.len() > 0 && text::normalized(hk@) == "leader+"@ + rest ==> out is Some,
{
    key_laws::law_leader_form(text::normalized(hk@), rest);
}

/// Removing doubled hotkeys gives the configuration that the laws of hotkeys speak of. Above all, the
/// hotkey for on and off stays where no other place has the same text, trimmed and in lower case, the
/// last timer's hotkey stays, and a preset's hotkey stays or goes and never becomes another.
pub proof fn law_dedupe_hotkeys(cfg: &mut AppConfig, done: (), i: int)
    requires
        call_ensures(hotkeys::dedupe_hotkeys, (cfg,), done),
        0 <= i < old(cfg)@.presets.len(),
    ensures
        final(cfg)@ == hotkeys::deduped_config(old(cfg)@),
        final(cfg)@.presets.len() == old(cfg)@.presets.len(),
        final(cfg)@.presets[i].id == old(cfg)@.presets[i].id,
        final(cfg)@.presets[i].filter_on == old(cfg)@.presets[i].filter_on,
        final(cfg)@.presets[i].hotkey is None || final(cfg)@.presets[i].hotkey
            == old(cfg)@.presets[i].hotkey,
        i == old(cfg)@.presets.len() - 1 ==> final(cfg)@.presets[i].timer_hotkey
            == old(cfg)@.presets[i].timer_hotkey,
        (old(cfg)@.toggle_hotkey matches Some(t) && forall|j: int|
            0 <= j < old(cfg)@.presets.len() ==> {
                &&& !((#[trigger] old(cfg)@.presets[j]).hotkey matches Some(u) && text::normalized(
                    u,
                ) == text::normalized(t))
                &&& !(old(cfg)@.presets[j].timer_hotkey matches Some(v) && text::normalized(v)
                    == text::normalized(t))
            }) ==> final(cfg)@.toggle_hotkey == old(cfg)@.toggle_hotkey,
{
    hotkey_laws::law_dedupe_keeps_the_rest(old(cfg)@);
    hotkey_laws::law_dedupe_toggle(old(cfg)@);
    hotkey_laws::law_dedupe_hotkey(old(cfg)@, i);
    hotkey_laws::law_dedupe_timer(old(cfg)@, i);
}

/// A preset's hotkey that is not `leader+X` is among those that the system is to know, and so is the
/// hotkey for on and off; and a text of the same form as each is registered, as the combination that it
/// is read as.
pub proof fn law_sync_hotkeys(
    previous: Vec<String>,
    cfg: AppConfig,
    found: Vec<String>,
    plan: SyncPlan,
    i: int,
    t: Seq<char>,
)
    requires
        call_ensures(hotkeys::hotkey_candidates, (&cfg,), found),
        call_ensures(hotkeys::sync_hotkeys, (&previous, &cfg), plan),
        cfg@.toggle_hotkey == Some(t) || (0 <= i < cfg@.presets.len() && cfg@.presets[i].hotkey
            == Some(t) && !(text::normalized(t).len() > 7 && text::normalized(t).take(7)
            == "leader+"@)),
    ensures
        keys::texts(found@).contains(t),
        exists|k: int|
            {
                &&& 0 <= k < plan.register@.len()
                &&& text::normalized((#[trigger] plan.register@[k]).text@) == text::normalized(t)
                &&& hotkeys::opt_shortcut(plan.register@[k].shortcut) == hotkeys::hotkey_of(
                    plan.register@[k].text@,
                )
            },
        keys::texts(plan.release@) == hotkeys::readable(keys::texts(previous@)),
{
    let c = hotkeys::candidates(cfg@);
    let p = hotkeys::preset_candidates(cfg@.presets);
    let at = hotkey_laws::law_candidates_are_complete(cfg@.presets);
    hotkey_laws::law_toggle_is_a_candidate(cfg@);
    let m: int = if cfg@.toggle_hotkey == Some(t) {
        0
    } else {
        assert(cfg@.presets[i].hotkey == Some(t));
        assert(at.contains(i));
        let j = choose|j: int| 0 <= j < at.len() && at[j] == i;
        assert(p[j] == t);
        if cfg@.toggle_hotkey is Some {
            assert(c.skip(1)[j] == t);
            j + 1
        } else {
            j
        }
    };
    assert(c[m] == t);
    let j = hotkey_laws::law_none_left_out(cfg@, m);
    let u = hotkeys::unique_last(c);
    let k = choose|k: int| 0 <= k < u.len() && u[k] == c[j];
    assert(hotkeys::request_texts(plan.register@)[k] == plan.register@[k].text@);
}

/// Each registered text is one that the system is to know.
pub proof fn law_only_candidates_are_registered(
    previous: Vec<String>,
    cfg: AppConfig,
    plan: SyncPlan,
    k: int,
)
    requires
        call_ensures(hotkeys::sync_hotkeys, (&previous, &cfg), plan),
        0 <= k < plan.register@.len(),
    ensures
        cfg@.toggle_hotkey == Some(plan.register@[k].text@) || exists|i: int|
            0 <= i < cfg@.presets.len() && (#[trigger] cfg@.presets[i]).hotkey == Some(
                plan.register@[k].text@,
            ),
{
    let c = hotkeys::candidates(cfg@);
    let at = hotkey_laws::law_registered_are_the_last(c);
    assert(hotkeys::request_texts(plan.register@)[k] == plan.register@[k].text@);
    let m = at[k];
    hotkey_laws::law_toggle_is_a_candidate(cfg@);
    let of = hotkey_laws::law_candidates_are_complete(cfg@.presets);
    if cfg@.toggle_hotkey is Some {
        if m > 0 {
            assert(c.skip(1)[m - 1] == c[m]);
            assert(cfg@.presets[of[m - 1]].hotkey == Some(c[m]));
        }
    } else {
        assert(cfg@.presets[of[m]].hotkey == Some(c[m]));
    }
}

/// How each registration is reported.
pub proof fn law_sync_outcome(
    requests: Vec<HotkeyRequest>,
    accepted: Vec<bool>,
    out: SyncOutcome,
    k: int,
)
    requires
        accepted.len() == requests.len(),
        call_ensures(hotkeys::sync_outcome, (&requests, &accepted), out),
        0 <= k < requests.len(),
    ensures
        requests@[k].shortcut is None ==> keys::texts(out.failed@).contains(requests@[k].text@),
        requests@[k].shortcut is Some && accepted@[k] ==> keys::texts(out.registered@).contains(
            requests@[k].text@,
        ),
        requests@[k].shortcut is Some && !accepted@[k] ==> keys::texts(out.refused@).contains(
            requests@[k].text@,
        ),
        out.registered@.len() + out.failed@.len() + out.refused@.len() == requests.len(),
{
    let n = requests.len() as int;
    hotkey_laws::law_every_request_is_answered(requests@, accepted@, n);
    assert(hotkeys::ended(
        requests@,
        accepted@,
        n,
        hotkeys::ending_of(requests@[k], accepted@[k]),
    ).contains(requests@[k].text@));
    assert(keys::texts(out.registered@).len() == out.registered@.len());
    assert(keys::texts(out.failed@).len() == out.failed@.len());
    assert(keys::texts(out.refused@).len() == out.refused@.len());
    let failed = hotkey_laws::law_endings(requests@, accepted@, n, Ending::Failed);
    let registered = hotkey_laws::law_endings(requests@, accepted@, n, Ending::Registered);
    let refused = hotkey_laws::law_endings(requests@, accepted@, n, Ending::Refused);
    assert(failed.contains(k) <==> requests@[k].shortcut is None);
    assert(registered.contains(k) <==> requests@[k].shortcut is Some && accepted@[k]);
    assert(refused.contains(k) <==> requests@[k].shortcut is Some && !accepted@[k]);
}

/// What a pressed combination does.
pub proof fn law_shortcut_action(cfg: AppConfig, pressed: Shortcut, out: ShortcutAction)
    requires
        call_ensures(hotkeys::shortcut_action, (&cfg, &pressed), out),
    ensures
        out@ is Toggle <==> (cfg@.toggle_hotkey matches Some(t) && hotkeys::hotkey_of(t) == Some(
            (pressed.mods, pressed.key, pressed.id),
        )),
        out@ matches ActionView::Apply(id) ==> exists|i: int|
            {
                &&& 0 <= i < cfg@.presets.len()
                &&& (#[trigger] cfg@.presets[i]).hotkey matches Some(t)
                &&& hotkeys::hotkey_of(t) == Some((pressed.mods, pressed.key, pressed.id))
                &&& cfg@.presets[i].id == id
            },
        out@ is Nothing ==> forall|k: int|
            0 <= k < cfg@.presets.len() ==> !((#[trigger] cfg@.presets[k]).hotkey matches Some(t)
                && hotkeys::hotkey_of(t) == Some((pressed.mods, pressed.key, pressed.id))),
{
    hotkey_laws::law_pressed_combination(cfg@, pressed@);
}

/// The hook does with each message what the laws of the hook speak of. Above all, while the leader key is
/// held, a press of another key that is no modifier key is kept from the game, whatever modifiers are
/// held, and where it is no repeat it selects the preset that waits for it.
pub proof fn law_timer_hook_proc(
    hook: &mut HookState,
    code: i32,
    msg: u32,
    vk: u32,
    held: HeldModifiers,
    out: HookOutcome,
)
    requires
        call_ensures(hook::timer_hook_proc, (hook, code, msg, vk, &held), out),
    ensures
        final(hook)@ == hook_laws::step(old(hook)@, HookEvent { code, msg, vk, held }).0,
        out@ == hook_laws::step(old(hook)@, HookEvent { code, msg, vk, held }).1,
        old(hook)@.wf() ==> final(hook)@.wf(),
        !old(hook)@.capture && old(hook)@.leader_held && code >= 0 && (msg == 0x100 || msg == 0x104)
            && !(old(hook)@.leader matches Some(lk) && keys::key_matches(lk, vk))
            && !keys::modifier_vk(vk) ==> out.swallow && out.timer is None
            && final(hook)@.leader_held && (!old(hook)@.down.contains(vk) ==> out@.preset
            == hook::preset_for(old(hook)@.leader_bindings, vk)),
{
    let e = HookEvent { code, msg, vk, held };
    let h = old(hook)@;
    if !h.capture && h.leader_held && code >= 0 && (msg == 0x100 || msg == 0x104) && !(
    h.leader matches Some(lk) && keys::key_matches(lk, vk)) && !keys::modifier_vk(vk) {
        key_laws::law_modifier_keys(vk);
        hook_laws::law_keys_after_the_leader(h, e);
    }
}

/// Recording, and the keys of a configuration, as the hook takes them over.
pub proof fn law_hook_settings(
    a: &mut HookState,
    b: &mut HookState,
    c: &mut HookState,
    on: bool,
    cfg: AppConfig,
    done: (),
)
    requires
        call_ensures(hook::set_capture_mode, (a, on), done),
        call_ensures(hook::rebuild_timer_bindings, (b, &cfg), done),
        call_ensures(hook::rebuild_leader_bindings, (c, &cfg), done),
    ensures
        final(a)@.capture == on,
        on ==> final(a)@ == (HookView { capture: true, ..old(a)@ }),
        !on ==> !final(a)@.leader_held && final(a)@.down.len() == 0 && final(a)@.swallowed.len()
            == 0 && final(a)@.leader == old(a)@.leader,
        final(b)@ == (HookView { timer_bindings: hook::timer_bindings_of(cfg@), ..old(b)@ }),
        final(c)@ == hook::with_leader(old(c)@, cfg@),
{
}

/// What is saved is the configuration without doubled hotkeys, and that is what is put into effect, with
/// its volume, at most 100, and its choice of start sound.
pub proof fn law_save_config(
    previous: Vec<String>,
    cfg: &mut AppConfig,
    hook: &mut HookState,
    alarm: &mut AlarmSettings,
    plan: SyncPlan,
)
    requires
        call_ensures(settings::save_config, (&previous, cfg, hook, alarm), plan),
    ensures
        final(cfg)@ == hotkeys::deduped_config(old(cfg)@),
        final(hook)@ == settings::with_keys(old(hook)@, final(cfg)@),
        hotkeys::request_texts(plan.register@) == hotkeys::candidates(final(cfg)@),
        keys::texts(plan.release@) == hotkeys::readable(keys::texts(previous@)),
        final(alarm).start_sound == old(cfg).timer_start_sound,
        old(cfg).alarm_volume <= 100 ==> final(alarm).volume == old(cfg).alarm_volume,
        old(cfg).alarm_volume > 100 ==> final(alarm).volume == 100,
{
    hotkey_laws::law_deduped_hotkeys_are_all_registered(old(cfg)@);
    settings::law_effect_is_the_configuration(old(hook)@, old(cfg)@);
}

/// What is put into effect at the start.
pub proof fn law_activate_config(
    previous: Vec<String>,
    cfg: AppConfig,
    hook: &mut HookState,
    alarm: &mut AlarmSettings,
    plan: SyncPlan,
)
    requires
        call_ensures(settings::activate_config, (&previous, &cfg, hook, alarm), plan),
    ensures
        final(hook)@ == settings::with_keys(old(hook)@, cfg@),
        hotkeys::request_texts(plan.register@) == hotkeys::unique_last(hotkeys::candidates(cfg@)),
        hotkeys::requests_read(plan.register@),
        keys::texts(plan.release@) == hotkeys::readable(keys::texts(previous@)),
        final(alarm).start_sound == cfg.timer_start_sound,
        cfg.alarm_volume <= 100 ==> final(alarm).volume == cfg.alarm_volume,
        cfg.alarm_volume > 100 ==> final(alarm).volume == 100,
{
    settings::law_effect_is_the_configuration(old(hook)@, cfg@);
}

/// What is loaded is what was read, or a new configuration, brought up to date.
pub proof fn law_load_config(raw: Option<String>, read: Option<AppConfig>, out: AppConfig)
    requires
        call_ensures(load::load_config, (&raw, read), out),
    ensures
        out@ == load::loaded(config::opt_text(raw), load::opt_config(read)),
        read matches Some(c) ==> out@.presets.len() == c@.presets.len() && out.alarm_volume
            == c.alarm_volume && out@.active_preset == c@.active_preset && out@.combo_leader
            == c@.combo_leader,
        read is None ==> out@.presets.len() == 3,
{
    load::law_loaded_is_what_was_read(config::opt_text(raw), load::opt_config(read));
}

/// Texts in the forms that are compared and that the system takes, and messages.
pub proof fn law_texts(
    s: &str,
    normal: String,
    trimmed: &str,
    wide: Vec<u16>,
    e: HelperError,
    message: String,
)
    requires
        call_ensures(text::normalize, (s,), normal),
        call_ensures(text::trim, (s,), trimmed),
        call_ensures(wide::to_wide, (s,), wide),
        call_ensures(HelperError::message, (&e,), message),
    ensures
        normal@ == text::normalized(s@),
        trimmed@ == text::trimmed(s@),
        wide@ == wide::utf16(s@) + seq![0u16],
        message@ == crate::error::message_of(e),
{
    assert(wide::utf16(s@) + seq![0u16] =~= wide::utf16(s@).push(0));
}

/// The bytes of numbers, as they are appended.
pub proof fn law_pushed_bytes(out: &mut Vec<u8>, x: u32, done: ())
    requires
        call_ensures(bytes::push_u32, (out, x), done),
    ensures
        final(out)@.len() == old(out)@.len() + 4,
        final(out)@.take(old(out)@.len() as int) == old(out)@,
        ({
            let n = old(out)@.len() as int;
            final(out)@[n] + 0x100 * final(out)@[n + 1] + 0x10000 * final(out)@[n + 2] + 0x1000000
                * final(out)@[n + 3] == x
        }),
{
    bytes::law_bytes_make_up_numbers(0, x, 0, 0, 0);
    assert(final(out)@.take(old(out)@.len() as int) =~= old(out)@);
}

/// The value that stores entries: eight zero bytes, the number of entries and the terminator, the
/// entries, and four zero bytes. No entries are stored as no value.
pub proof fn law_encode_scancode_map(es: Vec<Entry>, out: Vec<u8>, change: RegistryWrite)
    requires
        es.len() < u32::MAX,
        call_ensures(scancode::encode_scancode_map, (&es,), out),
        call_ensures(scancode::write_scancode_entries, (&es,), change),
    ensures
        es.len() == 0 <==> change is Delete,
        es.len() > 0 ==> ({
            let b = out@;
            &&& change.stored() == Some(b)
            &&& b.len() == 16 + 4 * es.len()
            &&& forall|i: int| 0 <= i < 8 ==> #[trigger] b[i] == 0
            &&& b[8] + 0x100 * b[9] + 0x10000 * b[10] + 0x1000000 * b[11] == es.len() + 1
            &&& forall|k: int|
                0 <= k < es.len() ==> {
                    &&& b[12 + 4 * k] + 0x100 * b[13 + 4 * k] == (#[trigger] es@[k]).1
                    &&& b[14 + 4 * k] + 0x100 * b[15 + 4 * k] == es@[k].0
                }
            &&& forall|i: int| b.len() - 4 <= i < b.len() ==> #[trigger] b[i] == 0
        }),
{
    scancode::law_value_says(es@);
}

/// The steps of reading and changing the scancode map.
pub proof fn law_scancode_steps(
    code: i32,
    b: &[u8],
    exists_out: Result<bool, HelperError>,
    read: Result<Vec<Entry>, HelperError>,
    parsed: Vec<Entry>,
    entries: &mut Vec<Entry>,
    enable: bool,
    done: (),
)
    requires
        call_ensures(scancode::scancode_value_exists, (code,), exists_out),
        call_ensures(scancode::read_scancode_entries, (code, b), read),
        call_ensures(scancode::parse_scancode_map, (b,), parsed),
        call_ensures(scancode::merge_hanja_removal, (entries, enable), done),
    ensures
        code == 0 ==> exists_out == Ok::<bool, HelperError>(true),
        code == 2 ==> exists_out == Ok::<bool, HelperError>(false),
        code != 0 && code != 2 ==> exists_out == Err::<bool, HelperError>(
            HelperError::RegistryQuery(code),
        ),
        code == 0 ==> (read matches Ok(es) && es@ == scancode::decoded(b@)),
        code != 0 ==> read == Err::<Vec<Entry>, HelperError>(HelperError::RegistryRead(code)),
        parsed@ == scancode::decoded(b@),
        enable ==> final(entries)@ == scancode::with_removal(old(entries)@),
        !enable ==> final(entries)@ == scancode::without_removal(old(entries)@),
{
}

/// The alarm's file has 22094 bytes and holds the tone, made at the volume or at 100 where it is louder,
/// at its beginning and at its end, with silence between.
pub proof fn law_build_alarm_wav<F: Fn(u32) -> Vec<i16>>(volume: u32, tone: F, out: Vec<u8>) -> (beep:
    Vec<i16>)
    requires
        alarm::makes_tones(tone),
        call_ensures(alarm::build_alarm_wav::<F>, (volume, tone), out),
    ensures
        volume <= 100 ==> call_ensures(tone, (volume,), beep),
        volume > 100 ==> call_ensures(tone, (100u32,), beep),
        beep.len() == 3969,
        out@.len() == 22094,
        forall|k: int|
            0 <= k < 3969 ==> ({
                let x = if (#[trigger] beep@[k]) < 0 {
                    0x10000 + beep@[k]
                } else {
                    beep@[k] as int
                };
                &&& out@[44 + 2 * k] + 0x100 * out@[45 + 2 * k] == x
                &&& out@[44 + 2 * (7056 + k)] + 0x100 * out@[45 + 2 * (7056 + k)] == x
            }),
{
    let beep = alarm::law_alarm_has_its_tone(tone, volume, out@);
    let samples = choose|samples: Seq<i16>|
        {
            &&& out@ == #[trigger] alarm::wav_file(samples)
            &&& samples.len() == 11025
            &&& samples.take(3969) == beep@
            &&& samples.skip(7056) == beep@
            &&& forall|k: int| 3969 <= k < 7056 ==> #[trigger] samples[k] == 0
        };
    alarm::law_wav_says(samples);
    assert forall|k: int| 0 <= k < 3969 implies ({
        let x = if (#[trigger] beep@[k]) < 0 {
            0x10000 + beep@[k]
        } else {
            beep@[k] as int
        };
        &&& out@[44 + 2 * k] + 0x100 * out@[45 + 2 * k] == x
        &&& out@[44 + 2 * (7056 + k)] + 0x100 * out@[45 + 2 * (7056 + k)] == x
    }) by {
        assert(samples.take(3969)[k] == samples[k]);
        assert(samples.skip(7056)[k] == samples[7056 + k]);
    }
    beep
}

/// There is an update to install exactly where one was found, and it is that one.
pub proof fn law_install_update<T>(found: Option<T>, out: Result<T, HelperError>)
    requires
        call_ensures(system::install_update::<T>, (found,), out),
    ensures
        found matches Some(u) ==> out == Ok::<T, HelperError>(u),
        found is None ==> out == Err::<T, HelperError>(HelperError::NoUpdate),
{
}

/// What single keys are: modifiers, matches of a main key, and down.
pub proof fn law_single_keys(
    m: MainKey,
    vk: u32,
    state: i16,
    modifier: bool,
    modifier_code: bool,
    matched: bool,
    down: bool,
)
    requires
        call_ensures(MainKey::is_modifier, (&m,), modifier),
        call_ensures(keys::is_modifier_vk, (vk,), modifier_code),
        call_ensures(keys::main_matches, (&m, vk), matched),
        call_ensures(keys::key_down, (state,), down),
    ensures
        modifier <==> m is Shift || m is Ctrl || m is Alt || m is Meta,
        modifier && matched ==> modifier_code,
        matched <==> (match m {
            MainKey::Exact(x) => vk == x,
            MainKey::Shift => vk == 0x10 || vk == 0xA0 || vk == 0xA1,
            MainKey::Ctrl => vk == 0x11 || vk == 0xA2 || vk == 0xA3,
            MainKey::Alt => vk == 0x12 || vk == 0xA4 || vk == 0xA5,
            MainKey::Meta => vk == 0x5B || vk == 0x5C,
        }),
        modifier_code <==> vk == 0x10 || vk == 0x11 || vk == 0x12 || vk == 0xA0 || vk == 0xA1 || vk
            == 0xA2 || vk == 0xA3 || vk == 0xA4 || vk == 0xA5 || vk == 0x5B || vk == 0x5C,
        down <==> state < 0,
{
}

/// Tokens, what they say together, and what follows `leader+`.
pub proof fn law_tokens_read(
    s: &str,
    tokens: Vec<String>,
    list: Vec<String>,
    read: Option<(MainKey, bool, bool, bool)>,
    rest: Option<String>,
)
    requires
        call_ensures(keys::key_tokens, (s,), tokens),
        call_ensures(keys::parse_key_tokens, (&list,), read),
        call_ensures(keys::leader_rest, (s,), rest),
    ensures
        keys::texts(tokens@) == keys::tokens_of(s@),
        read == keys::combination_of(keys::texts(list@)),
        rest matches Some(r) ==> s@ == "leader+"@ + r@ && r@.len() > 0,
        rest is None ==> forall|r: Seq<char>| r.len() > 0 ==> s@ != #[trigger] ("leader+"@ + r),
{
    key_laws::law_leader_form(s@, Seq::empty());
    assert forall|r: Seq<char>| r.len() > 0 && rest is None implies s@ != #[trigger] ("leader+"@
        + r) by {
        key_laws::law_leader_form(s@, r);
    }
}

/// What the hook looks up.
pub proof fn law_hook_lookups(
    timers: Vec<hook::TimerBinding>,
    combos: Vec<(MainKey, String)>,
    vk: u32,
    held: HeldModifiers,
    timer: Option<u32>,
    preset: Option<String>,
    cfg: AppConfig,
    active: Option<(u32, String)>,
)
    requires
        call_ensures(hook::maybe_trigger_timer, (&timers, vk, &held), timer),
        call_ensures(hook::handle_leader_combo, (&combos, vk), preset),
        call_ensures(hook::active_timer, (&cfg,), active),
    ensures
        timer == hook::timer_for(timers@, vk, held),
        config::opt_text(preset) == hook::preset_for(hook::leader_binding_views(combos@), vk),
        active matches Some(a) ==> (config::active_preset_of(cfg@) matches Some(p)
            && p.timer_enabled && p.timer_seconds == a.0 && a.0 > 0 && p.timer_hotkey == Some(
            a.1@,
        )),
        active is None ==> !(config::active_preset_of(cfg@) matches Some(p) && p.timer_enabled
            && p.timer_seconds > 0 && p.timer_hotkey is Some),
{
}

/// A text is read as a combination, and compared with a pressed one, by what `hotkey_of` names.
pub proof fn law_reading_hotkeys(
    s: &str,
    pressed: Shortcut,
    read: Option<Shortcut>,
    matched: bool,
)
    requires
        call_ensures(hotkeys::parse_shortcut, (s,), read),
        call_ensures(hotkeys::matches_shortcut, (&pressed, s), matched),
    ensures
        read is Some <==> hotkeys::hotkey_of(s@) is Some,
        read matches Some(r) ==> hotkeys::hotkey_of(s@) == Some((r.mods, r.key, r.id)),
        matched <==> read == Some(pressed),
{
}

/// Texts compared and searched, and numbers read and written.
pub proof fn law_texts_and_numbers(
    a: &str,
    b: &str,
    equal: bool,
    found: bool,
    number: Option<u32>,
    out: &mut String,
    n: i32,
    done: (),
)
    requires
        call_ensures(text::text_eq, (a, b), equal),
        call_ensures(text::contains_text, (a, b), found),
        call_ensures(text::parse_number, (a,), number),
        call_ensures(text::write_signed_decimal, (out, n), done),
    ensures
        equal <==> a@ == b@,
        found <==> exists|i: int|
            0 <= i <= a@.len() - b@.len() && #[trigger] a@.subrange(i, i + b@.len()) == b@,
        number == text::number_of(a@),
        final(out)@ == old(out)@ + text::signed_decimal(n as int),
{
    if text::occurs_in(a@, b@) {
        let i = choose|i: int| text::occurs_at(a@, b@, i);
        assert(a@.subrange(i, i + b@.len()) == b@);
    }
    assert forall|i: int|
        0 <= i <= a@.len() - b@.len() && #[trigger] a@.subrange(i, i + b@.len())
            == b@ implies text::occurs_in(a@, b@) by {
        assert(text::occurs_at(a@, b@, i));
    }
}

/// Presets are found by their id, the first one first.
pub proof fn law_find_preset(cfg: AppConfig, id: &str, out: Option<usize>, active: Option<usize>)
    requires
        call_ensures(AppConfig::find_preset, (&cfg, id), out),
        call_ensures(AppConfig::find_active, (&cfg,), active),
    ensures
        out matches Some(i) ==> i < cfg@.presets.len() && cfg@.presets[i as int].id == id@
            && forall|k: int| 0 <= k < i ==> (#[trigger] cfg@.presets[k]).id != id@,
        out is None ==> forall|k: int|
            0 <= k < cfg@.presets.len() ==> (#[trigger] cfg@.presets[k]).id != id@,
        cfg@.active_preset == Some(id@) ==> (active is Some <==> out is Some),
        active matches Some(i) ==> i < cfg@.presets.len() && cfg@.active_preset == Some(
            cfg@.presets[i as int].id,
        ),
        cfg.active_preset is None ==> active is None,
{
    config::lemma_preset_index(cfg@.presets, id@);
    if let Some(kept) = cfg@.active_preset {
        config::lemma_preset_index(cfg@.presets, kept);
    }
}

} // verus!
