//! Sounds: the timer's alarm, two short tones in a WAV file, and the beeps that answer hotkeys.

use vstd::prelude::*;

use crate::bytes;
use crate::bytes::push_all;
use crate::bytes::push_i16;
use crate::bytes::push_u16;
use crate::bytes::push_u32;

verus! {

/// Samples per second.
pub const SAMPLE_RATE: u32 = 44100;

/// The frequency of the alarm's tones, in hertz.
pub const ALARM_FREQUENCY: u32 = 1760;

/// The samples of one tone of the alarm: 90 ms.
pub const BEEP_SAMPLES: u32 = SAMPLE_RATE * 90 / 1000;

/// The samples between the two tones of the alarm: 70 ms.
pub const GAP_SAMPLES: u32 = SAMPLE_RATE * 70 / 1000;

/// The samples over which a tone swells and fades: 3 ms.
pub const FADE_SAMPLES: u32 = SAMPLE_RATE * 3 / 1000;

/// The loudest volume.
pub const MAX_VOLUME: u32 = 100;

/// A volume, no louder than the loudest.
pub open spec fn limited(volume: u32) -> u32 {
    if volume < MAX_VOLUME {
        volume
    } else {
        MAX_VOLUME
    }
}

/// A volume, no louder than the loudest.
pub fn limit_volume(volume: u32) -> (r: u32)
    ensures
        r == limited(volume),
{
    if volume < MAX_VOLUME {
        volume
    } else {
        MAX_VOLUME
    }
}

/// How loud sample `n` of a tone is, in parts of `FADE_SAMPLES`: it swells at the beginning and fades
/// at the end, so that no click is heard.
pub fn envelope(n: u32) -> (r: u32)
    requires
        n < BEEP_SAMPLES,
    ensures
        r <= n && r <= BEEP_SAMPLES - n && r <= FADE_SAMPLES,
        r == n || r == BEEP_SAMPLES - n || r == FADE_SAMPLES,
{
    let rest = BEEP_SAMPLES - n;
    let edge = if n < rest {
        n
    } else {
        rest
    };
    if edge < FADE_SAMPLES {
        edge
    } else {
        FADE_SAMPLES
    }
}

/// The bytes of several samples.
pub open spec fn sample_bytes(samples: Seq<i16>) -> Seq<u8>
    decreases samples.len(),
{
    if samples.len() == 0 {
        Seq::empty()
    } else {
        sample_bytes(samples.drop_last()) + bytes::le_bytes2(bytes::bits16(samples.last()))
    }
}

/// The header of a WAV file with `n` samples, for one channel of 16-bit PCM.
pub open spec fn wav_header(n: int) -> Seq<u8> {
    seq![0x52u8, 0x49, 0x46, 0x46] + bytes::le_bytes4((36 + 2 * n) as u32) + seq![
        0x57u8,
        0x41,
        0x56,
        0x45,
    ] + seq![0x66u8, 0x6D, 0x74, 0x20] + bytes::le_bytes4(16) + bytes::le_bytes2(1)
        + bytes::le_bytes2(1) + bytes::le_bytes4(SAMPLE_RATE) + bytes::le_bytes4(
        (SAMPLE_RATE * 2) as u32,
    ) + bytes::le_bytes2(2) + bytes::le_bytes2(16) + seq![0x64u8, 0x61, 0x74, 0x61]
        + bytes::le_bytes4((2 * n) as u32)
}

/// A WAV file with these samples.
pub open spec fn wav_file(samples: Seq<i16>) -> Seq<u8> {
    wav_header(samples.len() as int) + sample_bytes(samples)
}

/// The samples of the alarm: a tone, a silence, and the tone again.
pub open spec fn alarm_samples(beep: Seq<i16>) -> Seq<i16> {
    beep + Seq::new(GAP_SAMPLES as nat, |i: int| 0i16) + beep
}

fn push_header(wav: &mut Vec<u8>, data_bytes: u32)
    requires
        data_bytes % 2 == 0,
        data_bytes <= u32::MAX - 36,
        old(wav)@.len() == 0,
    ensures
        final(wav)@ == wav_header(data_bytes as int / 2),
{
    push_all(wav, [0x52, 0x49, 0x46, 0x46].as_slice());
    assert(wav@ =~= seq![0x52u8, 0x49, 0x46, 0x46]);
    push_u32(wav, 36 + data_bytes);
    push_all(wav, [0x57, 0x41, 0x56, 0x45].as_slice());
    push_all(wav, [0x66, 0x6D, 0x74, 0x20].as_slice());
    push_u32(wav, 16);
    push_u16(wav, 1);
    push_u16(wav, 1);
    push_u32(wav, SAMPLE_RATE);
    push_u32(wav, SAMPLE_RATE * 2);
    push_u16(wav, 2);
    push_u16(wav, 16);
    push_all(wav, [0x64, 0x61, 0x74, 0x61].as_slice());
    push_u32(wav, data_bytes);
    assert([0x57u8, 0x41, 0x56, 0x45]@ =~= seq![0x57u8, 0x41, 0x56, 0x45]);
    assert([0x66u8, 0x6D, 0x74, 0x20]@ =~= seq![0x66u8, 0x6D, 0x74, 0x20]);
    assert([0x64u8, 0x61, 0x74, 0x61]@ =~= seq![0x64u8, 0x61, 0x74, 0x61]);
}

/// A WAV file with these samples, for one channel of 16-bit PCM. Its length must fit the 32-bit
/// fields of the header.
pub fn encode_wav(samples: &Vec<i16>) -> (r: Vec<u8>)
    requires
        36 + 2 * samples.len() <= u32::MAX,
    ensures
        r@ == wav_file(samples@),
{
    let mut wav: Vec<u8> = Vec::new();
    let data_bytes: u32 = samples.len() as u32 * 2;
    push_header(&mut wav, data_bytes);
    let ghost head = wav@;
    let mut i: usize = 0;
    assert(samples@.take(0) =~= Seq::empty());
    assert(wav@ =~= head + sample_bytes(samples@.take(0)));
    while i < samples.len()
        invariant
            i <= samples.len(),
            wav@ == head + sample_bytes(samples@.take(i as int)),
        decreases samples.len() - i,
    {
        assert(samples@.take(i + 1).drop_last() =~= samples@.take(i as int));
        push_i16(&mut wav, samples[i]);
        assert(wav@ =~= head + sample_bytes(samples@.take(i + 1)));
        i += 1;
    }
    assert(samples@.take(samples.len() as int) =~= samples@);
    wav
}

/// Whether `tone` makes samples that depend on the volume alone.
pub open spec fn makes_one_tone<F: Fn(u32) -> Vec<i16>>(tone: F, volume: u32) -> bool {
    forall|x: Vec<i16>, y: Vec<i16>| #[trigger]
        call_ensures(tone, (volume,), x) && #[trigger] call_ensures(tone, (volume,), y) ==> x@ == y@
}

/// Whether `tone` makes the samples of one tone at every volume up to the loudest: as many as a tone of
/// the alarm has, and depending on the volume alone.
pub open spec fn makes_tones<F: Fn(u32) -> Vec<i16>>(tone: F) -> bool {
    forall|v: u32|
        v <= MAX_VOLUME ==> #[trigger] call_requires(tone, (v,)) && makes_one_tone(tone, v)
            && forall|beep: Vec<i16>| #[trigger]
            call_ensures(tone, (v,), beep) ==> beep.len() == BEEP_SAMPLES
}

/// Whether a WAV file is the alarm at a volume, with a tone that `tone` makes at that volume, or at
/// the loudest where it is louder.
pub open spec fn is_alarm<F: Fn(u32) -> Vec<i16>>(tone: F, volume: u32, file: Seq<u8>) -> bool {
    exists|beep: Vec<i16>| #[trigger]
        call_ensures(tone, (limited(volume),), beep) && file == wav_file(alarm_samples(beep@))
}

/// The alarm at a volume as a WAV file: the samples that `tone` makes at that volume, a silence, and
/// the same samples again. No volume is louder than the loudest.
pub fn build_alarm_wav<F: Fn(u32) -> Vec<i16>>(volume: u32, tone: F) -> (r: Vec<u8>)
    requires
        makes_tones(tone),
    ensures
        is_alarm(tone, volume, r@),
{
    let limit = limit_volume(volume);
    assert(call_requires(tone, (limit,)));
    let beep = tone(limit);
    double_beep(&beep)
}

/// The alarm as a WAV file: the samples of one tone, a silence, and the same samples again.
pub fn double_beep(beep: &Vec<i16>) -> (r: Vec<u8>)
    requires
        beep.len() == BEEP_SAMPLES,
    ensures
        r@ == wav_file(alarm_samples(beep@)),
{
    let mut samples: Vec<i16> = Vec::new();
    let mut i: usize = 0;
    while i < beep.len()
        invariant
            i <= beep.len(),
            samples@ == beep@.take(i as int),
        decreases beep.len() - i,
    {
        samples.push(beep[i]);
        assert(samples@ =~= beep@.take(i + 1));
        i += 1;
    }
    assert(samples@ =~= beep@);
    let ghost silence = Seq::new(GAP_SAMPLES as nat, |k: int| 0i16);
    let mut j: u32 = 0;
    assert(samples@ =~= beep@ + silence.take(0));
    while j < GAP_SAMPLES
        invariant
            j <= GAP_SAMPLES,
            silence == Seq::new(GAP_SAMPLES as nat, |k: int| 0i16),
            samples@ == beep@ + silence.take(j as int),
        decreases GAP_SAMPLES - j,
    {
        samples.push(0);
        assert(samples@ =~= beep@ + silence.take(j + 1));
        j += 1;
    }
    assert(samples@ =~= beep@ + silence);
    let mut k: usize = 0;
    assert(samples@ =~= beep@ + silence + beep@.take(0));
    while k < beep.len()
        invariant
            k <= beep.len(),
            samples@ == beep@ + silence + beep@.take(k as int),
        decreases beep.len() - k,
    {
        samples.push(beep[k]);
        assert(samples@ =~= beep@ + silence + beep@.take(k + 1));
        k += 1;
    }
    assert(samples@ =~= alarm_samples(beep@));
    encode_wav(&samples)
}

/// A plain tone.
#[derive(Clone, Copy, PartialEq, Eq, Structural, Debug)]
pub struct Tone {
    /// In hertz.
    pub frequency: u32,
    /// In milliseconds.
    pub duration: u32,
}

/// What a hotkey did.
#[derive(Clone, Copy, PartialEq, Eq, Structural, Debug)]
pub enum Feedback {
    TurnedOn,
    TurnedOff,
    PresetApplied,
}

/// What the hotkey for on and off did, from whether the filter keys are on after it.
pub fn toggle_feedback(on: bool) -> (r: Feedback)
    ensures
        r == (if on {
            Feedback::TurnedOn
        } else {
            Feedback::TurnedOff
        }),
{
    if on {
        Feedback::TurnedOn
    } else {
        Feedback::TurnedOff
    }
}

/// The tone that answers a hotkey, where hotkeys are answered at all: high for on, low for off.
pub fn beep_feedback(enabled: bool, what: Feedback) -> (r: Option<Tone>)
    ensures
        r == (if enabled {
            Some(
                Tone {
                    frequency: match what {
                        Feedback::TurnedOn => 1320,
                        Feedback::TurnedOff => 520,
                        Feedback::PresetApplied => 990,
                    },
                    duration: 120,
                },
            )
        } else {
            None
        }),
{
    if enabled {
        let frequency: u32 = match what {
            Feedback::TurnedOn => 1320,
            Feedback::TurnedOff => 520,
            Feedback::PresetApplied => 990,
        };
        Some(Tone { frequency, duration: 120 })
    } else {
        None
    }
}

/// The tone that answers the start of a timer, where it is answered at all.
pub fn timer_start_tone(enabled: bool) -> (r: Option<Tone>)
    ensures
        r == (if enabled {
            Some(Tone { frequency: 740, duration: 80 })
        } else {
            None
        }),
{
    if enabled {
        Some(Tone { frequency: 740, duration: 80 })
    } else {
        None
    }
}

/// The bytes of the sample at position `k` stand at `2 * k`.
proof fn lemma_sample_bytes(samples: Seq<i16>)
    ensures
        sample_bytes(samples).len() == 2 * samples.len(),
        forall|k: int|
            0 <= k < samples.len() ==> sample_bytes(samples)[2 * k] == bytes::le_bytes2(
                bytes::bits16(#[trigger] samples[k]),
            )[0] && sample_bytes(samples)[2 * k + 1] == bytes::le_bytes2(
                bytes::bits16(samples[k]),
            )[1],
    decreases samples.len(),
{
    if samples.len() > 0 {
        let front = samples.drop_last();
        lemma_sample_bytes(front);
        assert(forall|k: int| 0 <= k < front.len() ==> front[k] == samples[k]);
    }
}

/// A WAV file has 44 bytes of header, whose two sizes count what follows them, and then two bytes for
/// each sample, from which the sample is read back.
pub proof fn law_wav_layout(samples: Seq<i16>)
    requires
        36 + 2 * samples.len() <= u32::MAX,
    ensures
        ({
            let b = wav_file(samples);
            let n = samples.len() as int;
            &&& b.len() == 44 + 2 * n
            &&& b.subrange(4, 8) == bytes::le_bytes4((b.len() - 8) as u32)
            &&& b.subrange(40, 44) == bytes::le_bytes4((b.len() - 44) as u32)
            &&& forall|k: int|
                0 <= k < n ==> bytes::le_number(b[44 + 2 * k], b[45 + 2 * k]) == bytes::bits16(
                    #[trigger] samples[k],
                )
        }),
{
    let b = wav_file(samples);
    let n = samples.len() as int;
    let head = wav_header(n);
    assert(head.len() == 44);
    lemma_sample_bytes(samples);
    assert(b.subrange(4, 8) =~= bytes::le_bytes4((36 + 2 * n) as u32));
    assert(b.subrange(40, 44) =~= bytes::le_bytes4((2 * n) as u32));
    assert forall|k: int| 0 <= k < n implies bytes::le_number(b[44 + 2 * k], b[45 + 2 * k])
        == bytes::bits16(#[trigger] samples[k]) by {
        assert(b[44 + 2 * k] == sample_bytes(samples)[2 * k]);
        assert(b[45 + 2 * k] == sample_bytes(samples)[2 * k + 1]);
        bytes::law_bytes_round_trip(bytes::bits16(samples[k]), 0, 0);
    }
}

/// There is one alarm for each volume, from the loudest volume on it is the same, and alarms at any two
/// volumes have the same length and the same header.
pub proof fn law_alarm_volume<F: Fn(u32) -> Vec<i16>>(
    tone: F,
    v1: u32,
    v2: u32,
    a: Seq<u8>,
    b: Seq<u8>,
)
    requires
        makes_tones(tone),
        is_alarm(tone, v1, a),
        is_alarm(tone, v2, b),
    ensures
        v1 == v2 ==> a == b,
        v1 >= MAX_VOLUME && v2 >= MAX_VOLUME ==> a == b,
        a.len() == b.len(),
        a.take(44) == b.take(44),
{
    let x = choose|x: Vec<i16>| #[trigger]
        call_ensures(tone, (limited(v1),), x) && a == wav_file(alarm_samples(x@));
    let y = choose|y: Vec<i16>| #[trigger]
        call_ensures(tone, (limited(v2),), y) && b == wav_file(alarm_samples(y@));
    assert(call_requires(tone, (limited(v1),)));
    assert(call_requires(tone, (limited(v2),)));
    let n = alarm_samples(x@).len();
    assert(alarm_samples(y@).len() == n);
    law_wav_layout(alarm_samples(x@));
    law_wav_layout(alarm_samples(y@));
    assert(wav_header(n as int).len() == 44);
    assert(a.take(44) =~= wav_header(n as int));
    assert(b.take(44) =~= wav_header(n as int));
}

/// The alarm begins and ends with the same tone, between which it is silent.
pub proof fn law_alarm_layout(beep: Seq<i16>)
    requires
        beep.len() == BEEP_SAMPLES,
    ensures
        ({
            let s = alarm_samples(beep);
            let gap_end = BEEP_SAMPLES + GAP_SAMPLES;
            &&& s.len() == gap_end + BEEP_SAMPLES
            &&& s.take(BEEP_SAMPLES as int) == beep
            &&& s.skip(gap_end) == beep
            &&& forall|k: int| BEEP_SAMPLES <= k < gap_end ==> #[trigger] s[k] == 0
        }),
{
    let s = alarm_samples(beep);
    assert(s.take(BEEP_SAMPLES as int) =~= beep);
    assert(s.skip(BEEP_SAMPLES + GAP_SAMPLES) =~= beep);
}

/// A volume below 100 is kept, and every other is 100.
pub proof fn law_volume_limit(volume: u32)
    ensures
        volume < 100 ==> limited(volume) == volume,
        volume >= 100 ==> limited(volume) == 100,
{
}

/// The number that four bytes write.
proof fn lemma_number_at(b: Seq<u8>, x: u32, at: int)
    requires
        0 <= at,
        at + 4 <= b.len(),
        b.subrange(at, at + 4) == bytes::le_bytes4(x),
    ensures
        b[at] + 0x100 * b[at + 1] + 0x10000 * b[at + 2] + 0x1000000 * b[at + 3] == x,
{
    let part = b.subrange(at, at + 4);
    bytes::law_bytes_make_up_numbers(0, x, 0, 0, 0);
    assert(part[0] == b[at] && part[1] == b[at + 1] && part[2] == b[at + 2] && part[3] == b[at + 3]);
}

/// What a WAV file says of itself, and how its samples stand in it: `RIFF`, the size of what follows,
/// `WAVEfmt `, 16, PCM, one channel, the rate, twice the rate as bytes per second, two bytes for a
/// sample, 16 bits for a sample, `data`, the size of the samples, and each sample in two bytes.
pub proof fn law_wav_says(samples: Seq<i16>)
    requires
        36 + 2 * samples.len() <= u32::MAX,
    ensures
        ({
            let b = wav_file(samples);
            let n = samples.len() as int;
            &&& b.len() == 44 + 2 * n
            &&& b[0] == 'R' as u8 && b[1] == 'I' as u8 && b[2] == 'F' as u8 && b[3] == 'F' as u8
            &&& b[4] + 0x100 * b[5] + 0x10000 * b[6] + 0x1000000 * b[7] == b.len() - 8
            &&& b[8] == 'W' as u8 && b[9] == 'A' as u8 && b[10] == 'V' as u8 && b[11] == 'E' as u8
            &&& b[12] == 'f' as u8 && b[13] == 'm' as u8 && b[14] == 't' as u8 && b[15]
                == ' ' as u8
            &&& b[16] == 16 && b[17] == 0 && b[18] == 0 && b[19] == 0
            &&& b[20] == 1 && b[21] == 0 && b[22] == 1 && b[23] == 0
            &&& b[24] + 0x100 * b[25] + 0x10000 * b[26] + 0x1000000 * b[27] == 44100
            &&& b[28] + 0x100 * b[29] + 0x10000 * b[30] + 0x1000000 * b[31] == 2 * 44100
            &&& b[32] == 2 && b[33] == 0 && b[34] == 16 && b[35] == 0
            &&& b[36] == 'd' as u8 && b[37] == 'a' as u8 && b[38] == 't' as u8 && b[39]
                == 'a' as u8
            &&& b[40] + 0x100 * b[41] + 0x10000 * b[42] + 0x1000000 * b[43] == 2 * n
            &&& forall|k: int|
                0 <= k < n ==> b[44 + 2 * k] + 0x100 * b[45 + 2 * k] == (if (
                #[trigger] samples[k]) < 0 {
                    0x10000 + samples[k]
                } else {
                    samples[k] as int
                })
        }),
{
    let b = wav_file(samples);
    let n = samples.len() as int;
    let head = wav_header(n);
    lemma_sample_bytes(samples);
    assert(head.len() == 44);
    assert(b.subrange(4, 8) =~= bytes::le_bytes4((36 + 2 * n) as u32));
    lemma_number_at(b, (36 + 2 * n) as u32, 4);
    assert(b.subrange(24, 28) =~= bytes::le_bytes4(44100));
    lemma_number_at(b, 44100, 24);
    assert(b.subrange(28, 32) =~= bytes::le_bytes4(88200));
    lemma_number_at(b, 88200, 28);
    assert(b.subrange(40, 44) =~= bytes::le_bytes4((2 * n) as u32));
    lemma_number_at(b, (2 * n) as u32, 40);
    assert forall|k: int| 0 <= k < n implies b[44 + 2 * k] + 0x100 * b[45 + 2 * k] == (if (
    #[trigger] samples[k]) < 0 {
        0x10000 + samples[k]
    } else {
        samples[k] as int
    }) by {
        assert(b[44 + 2 * k] == sample_bytes(samples)[2 * k]);
        assert(b[45 + 2 * k] == sample_bytes(samples)[2 * k + 1]);
        bytes::law_bytes_make_up_numbers(bytes::bits16(samples[k]), 0, samples[k], 0, 0);
    }
}

/// The alarm at a volume is a WAV file of 11025 samples: a tone of 3969 that was made at that volume,
/// at most at 100, 3087 of silence, and the same tone.
pub proof fn law_alarm_has_its_tone<F: Fn(u32) -> Vec<i16>>(tone: F, volume: u32, file: Seq<u8>) -> (
    beep: Vec<i16>)
    requires
        makes_tones(tone),
        is_alarm(tone, volume, file),
    ensures
        volume <= 100 ==> call_ensures(tone, (volume,), beep),
        volume > 100 ==> call_ensures(tone, (100u32,), beep),
        beep.len() == 3969,
        exists|samples: Seq<i16>|
            {
                &&& file == #[trigger] wav_file(samples)
                &&& samples.len() == 11025
                &&& samples.take(3969) == beep@
                &&& samples.skip(7056) == beep@
                &&& forall|k: int| 3969 <= k < 7056 ==> #[trigger] samples[k] == 0
            },
{
    let beep = choose|x: Vec<i16>| #[trigger]
        call_ensures(tone, (limited(volume),), x) && file == wav_file(alarm_samples(x@));
    assert(call_requires(tone, (limited(volume),)));
    law_alarm_layout(beep@);
    assert(file == wav_file(alarm_samples(beep@)));
    beep
}

} // verus!
