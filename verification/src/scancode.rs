//! The registry value that gives keys other scancodes, and the entries in it that take the Hanja
//! function away.

use vstd::prelude::*;

use crate::bytes;
use crate::bytes::push_u16;
use crate::bytes::push_u32;
use crate::bytes::u16_from_le;
use crate::error::HelperError;

verus! {

/// The system's code for a value that does not exist.
pub const ERROR_FILE_NOT_FOUND: i32 = 2;

/// The system's code for a change that only an administrator may make.
pub const ERROR_ACCESS_DENIED: i32 = 5;

/// An entry: the scancode of a key, and the one it gives instead.
pub type Entry = (u16, u16);

/// The entry that makes the right control key a left one, without its Hanja function.
pub open spec fn right_ctrl_entry() -> Entry {
    (0xE01D, 0x001D)
}

/// The entry that turns a Hanja key off.
pub open spec fn hanja_key_entry() -> Entry {
    (0x0071, 0x0000)
}

/// The entry at an offset.
pub open spec fn entry_at(b: Seq<u8>, off: int) -> Entry {
    (bytes::le_number(b[off + 2], b[off + 3]), bytes::le_number(b[off], b[off + 1]))
}

/// The entries from an offset on, up to one that is all zero or to the end.
pub open spec fn entries_from(b: Seq<u8>, off: int) -> Seq<Entry>
    decreases b.len() - off,
{
    if off < 0 || off + 4 > b.len() || entry_at(b, off) == (0u16, 0u16) {
        Seq::empty()
    } else {
        seq![entry_at(b, off)] + entries_from(b, off + 4)
    }
}

/// The entries of a value: they follow eight bytes of header and a count, and end with one that is
/// all zero.
pub open spec fn decoded(b: Seq<u8>) -> Seq<Entry> {
    entries_from(b, 12)
}

/// The bytes of an entry: the new scancode, then the key's own.
pub open spec fn entry_bytes(e: Entry) -> Seq<u8> {
    bytes::le_bytes2(e.1) + bytes::le_bytes2(e.0)
}

/// The bytes of several entries.
pub open spec fn entries_bytes(es: Seq<Entry>) -> Seq<u8>
    decreases es.len(),
{
    if es.len() == 0 {
        Seq::empty()
    } else {
        entries_bytes(es.drop_last()) + entry_bytes(es.last())
    }
}

/// `n` zero bytes.
pub open spec fn zeros(n: nat) -> Seq<u8> {
    Seq::new(n, |i: int| 0u8)
}

/// The value that holds several entries: eight zero bytes, the number of entries and one, the
/// entries, and four zero bytes.
pub open spec fn encoded(es: Seq<Entry>) -> Seq<u8> {
    zeros(8) + bytes::le_bytes4((es.len() + 1) as u32) + entries_bytes(es) + zeros(4)
}

/// Reads the entries of a value.
pub fn parse_scancode_map(b: &[u8]) -> (r: Vec<Entry>)
    ensures
        r@ == decoded(b@),
        !r@.contains((0u16, 0u16)),
{
    proof {
        law_read_entries_are_not_zero(b@, 12);
    }
    let n = b.len();
    let mut entries: Vec<Entry> = Vec::new();
    if n < 12 {
        return entries;
    }
    let mut off: usize = 12;
    assert(entries@ + entries_from(b@, 12) =~= decoded(b@));
    while n - off >= 4
        invariant
            12 <= off <= n,
            n == b.len(),
            entries@ + entries_from(b@, off as int) == decoded(b@),
            !decoded(b@).contains((0u16, 0u16)),
        decreases n - off,
    {
        let new = u16_from_le(b[off], b[off + 1]);
        let orig = u16_from_le(b[off + 2], b[off + 3]);
        if new == 0 && orig == 0 {
            assert(entries@ + Seq::<Entry>::empty() =~= entries@);
            return entries;
        }
        let ghost before = entries@;
        let ghost rest = entries_from(b@, off + 4);
        entries.push((orig, new));
        assert(entries@ + rest =~= before + (seq![(orig, new)] + rest));
        off += 4;
    }
    assert(entries@ + Seq::<Entry>::empty() =~= entries@);
    entries
}

fn push_zeros(out: &mut Vec<u8>, n: usize)
    ensures
        final(out)@ == old(out)@ + zeros(n as nat),
{
    let mut i: usize = 0;
    assert(out@ =~= old(out)@ + zeros(0));
    while i < n
        invariant
            i <= n,
            out@ == old(out)@ + zeros(i as nat),
        decreases n - i,
    {
        out.push(0);
        assert(out@ =~= old(out)@ + zeros((i + 1) as nat));
        i += 1;
    }
}

/// The value that holds several entries. Its count is a 32-bit number and counts one more than the
/// entries.
pub fn encode_scancode_map(entries: &Vec<Entry>) -> (r: Vec<u8>)
    requires
        entries.len() < u32::MAX,
    ensures
        r@ == encoded(entries@),
{
    let mut blob: Vec<u8> = Vec::new();
    push_zeros(&mut blob, 8);
    assert(blob@ =~= zeros(8));
    push_u32(&mut blob, entries.len() as u32 + 1);
    let ghost head = blob@;
    let mut i: usize = 0;
    assert(entries@.take(0) =~= Seq::empty());
    assert(blob@ =~= head + entries_bytes(entries@.take(0)));
    while i < entries.len()
        invariant
            i <= entries.len(),
            blob@ == head + entries_bytes(entries@.take(i as int)),
        decreases entries.len() - i,
    {
        let (orig, new) = entries[i];
        assert(entries@.take(i + 1).drop_last() =~= entries@.take(i as int));
        push_u16(&mut blob, new);
        push_u16(&mut blob, orig);
        assert(blob@ =~= head + entries_bytes(entries@.take(i + 1)));
        i += 1;
    }
    assert(entries@.take(entries.len() as int) =~= entries@);
    push_zeros(&mut blob, 4);
    blob
}

/// The error for a registry key that could not be opened.
pub fn open_scancode_key(code: i32) -> (r: Result<(), HelperError>)
    ensures
        r == (if code == 0 {
            Ok(())
        } else {
            Err(HelperError::RegistryOpen(code))
        }),
{
    if code != 0 {
        return Err(HelperError::RegistryOpen(code));
    }
    Ok(())
}

/// Whether there is a value to read, from the system's code for the question how long it is.
pub fn scancode_value_exists(code: i32) -> (r: Result<bool, HelperError>)
    ensures
        r == (if code == ERROR_FILE_NOT_FOUND {
            Ok(false)
        } else if code == 0 {
            Ok(true)
        } else {
            Err(HelperError::RegistryQuery(code))
        }),
{
    if code == ERROR_FILE_NOT_FOUND {
        return Ok(false);
    }
    if code != 0 {
        return Err(HelperError::RegistryQuery(code));
    }
    Ok(true)
}

/// The entries of a value that was read, from the system's code for the reading.
pub fn read_scancode_entries(code: i32, b: &[u8]) -> (r: Result<Vec<Entry>, HelperError>)
    ensures
        match r {
            Ok(entries) => code == 0 && entries@ == decoded(b@) && !entries@.contains((0u16, 0u16)),
            Err(e) => code != 0 && e == HelperError::RegistryRead(code),
        },
{
    if code != 0 {
        return Err(HelperError::RegistryRead(code));
    }
    Ok(parse_scancode_map(b))
}

/// The entries of the value, from the system's codes for the question how long it is and for the
/// reading, and the bytes that were read. A value that does not exist has no entries; the reading then
/// does not count.
pub fn scancode_entries(query: i32, code: i32, b: &[u8]) -> (r: Result<Vec<Entry>, HelperError>)
    ensures
        query == ERROR_FILE_NOT_FOUND ==> (r matches Ok(entries) && entries@ == stored_entries(None)),
        query != ERROR_FILE_NOT_FOUND && query != 0 ==> r == Err::<Vec<Entry>, HelperError>(
            HelperError::RegistryQuery(query),
        ),
        query == 0 && code != 0 ==> r == Err::<Vec<Entry>, HelperError>(
            HelperError::RegistryRead(code),
        ),
        query == 0 && code == 0 ==> (r matches Ok(entries) && entries@ == stored_entries(
            Some(b@),
        )),
        r matches Ok(entries) ==> !entries@.contains((0u16, 0u16)),
{
    match scancode_value_exists(query) {
        Ok(true) => read_scancode_entries(code, b),
        Ok(false) => Ok(Vec::new()),
        Err(e) => Err(e),
    }
}

/// A change of the value.
#[derive(Debug)]
pub enum RegistryWrite {
    /// The value goes away.
    Delete,
    /// The value becomes these bytes.
    Store(Vec<u8>),
}

impl RegistryWrite {
    /// The value after the change, where there is one.
    pub open spec fn stored(self) -> Option<Seq<u8>> {
        match self {
            RegistryWrite::Delete => None,
            RegistryWrite::Store(b) => Some(b@),
        }
    }
}

/// The value that stores several entries: none for no entries.
pub open spec fn stored_value(es: Seq<Entry>) -> Option<Seq<u8>> {
    if es.len() == 0 {
        None
    } else {
        Some(encoded(es))
    }
}

/// The entries that a value stores: none where there is no value.
pub open spec fn stored_entries(value: Option<Seq<u8>>) -> Seq<Entry> {
    match value {
        Some(b) => decoded(b),
        None => Seq::empty(),
    }
}

/// The change that stores several entries. They are read back from it, unless one is all zero.
pub fn write_scancode_entries(entries: &Vec<Entry>) -> (r: RegistryWrite)
    requires
        entries.len() < u32::MAX,
    ensures
        r.stored() == stored_value(entries@),
        !entries@.contains((0u16, 0u16)) ==> stored_entries(r.stored()) == entries@,
{
    proof {
        if !entries@.contains((0u16, 0u16)) {
            law_stored_entries_are_read_back(entries@);
        }
    }
    if entries.len() == 0 {
        RegistryWrite::Delete
    } else {
        RegistryWrite::Store(encode_scancode_map(entries))
    }
}

/// What the system's code for a change means. A value that goes away may be missing already.
pub fn scancode_write_result(change: &RegistryWrite, code: i32) -> (r: Result<(), HelperError>)
    ensures
        r == (if code == 0 || (*change is Delete && code == ERROR_FILE_NOT_FOUND) {
            Ok(())
        } else if code == ERROR_ACCESS_DENIED {
            Err(HelperError::AccessDenied)
        } else {
            Err(HelperError::RegistryWrite(code))
        }),
{
    let code = match change {
        RegistryWrite::Delete => if code == ERROR_FILE_NOT_FOUND {
            0
        } else {
            code
        },
        RegistryWrite::Store(_) => code,
    };
    if code == ERROR_ACCESS_DENIED {
        return Err(HelperError::AccessDenied);
    }
    if code != 0 {
        return Err(HelperError::RegistryWrite(code));
    }
    Ok(())
}

/// Whether a key has an entry.
pub open spec fn has_key(es: Seq<Entry>, orig: u16) -> bool {
    exists|i: int| 0 <= i < es.len() && (#[trigger] es[i]).0 == orig
}

/// The entries with one more, where its key has none yet.
pub open spec fn with_entry(es: Seq<Entry>, e: Entry) -> Seq<Entry> {
    if has_key(es, e.0) {
        es
    } else {
        es.push(e)
    }
}

/// The entries with those that take the Hanja function away.
pub open spec fn with_removal(es: Seq<Entry>) -> Seq<Entry> {
    with_entry(with_entry(es, right_ctrl_entry()), hanja_key_entry())
}

/// Whether an entry is for one of the two keys with a Hanja function.
pub open spec fn is_hanja_entry(e: Entry) -> bool {
    e.0 == right_ctrl_entry().0 || e.0 == hanja_key_entry().0
}

/// The entries without those for the two keys with a Hanja function.
pub open spec fn without_removal(es: Seq<Entry>) -> Seq<Entry> {
    es.filter(|e: Entry| !is_hanja_entry(e))
}

fn has_entry_for(entries: &Vec<Entry>, orig: u16) -> (r: bool)
    ensures
        r == has_key(entries@, orig),
{
    let mut i: usize = 0;
    while i < entries.len()
        invariant
            i <= entries.len(),
            forall|k: int| 0 <= k < i ==> (#[trigger] entries@[k]).0 != orig,
        decreases entries.len() - i,
    {
        if entries[i].0 == orig {
            assert(entries@[i as int].0 == orig);
            return true;
        }
        i += 1;
    }
    false
}

fn has_right_ctrl_entry(entries: &Vec<Entry>) -> (r: bool)
    ensures
        r == entries@.contains(right_ctrl_entry()),
{
    let mut i: usize = 0;
    while i < entries.len()
        invariant
            i <= entries.len(),
            forall|k: int| 0 <= k < i ==> entries@[k] != right_ctrl_entry(),
        decreases entries.len() - i,
    {
        if entries[i].0 == 0xE01D && entries[i].1 == 0x001D {
            assert(entries@[i as int] == right_ctrl_entry());
            return true;
        }
        i += 1;
    }
    false
}

/// Whether the right control key has lost its Hanja function. Where the entries could not be read,
/// it counts as having it.
pub fn get_hanja_removal(read: &Result<Vec<Entry>, HelperError>) -> (r: bool)
    ensures
        r == (match *read {
            Ok(entries) => entries@.contains(right_ctrl_entry()),
            Err(_) => false,
        }),
{
    match read {
        Ok(entries) => has_right_ctrl_entry(entries),
        Err(_) => false,
    }
}

/// Takes the Hanja function away, or gives it back. Entries for other keys stay as they are.
pub fn merge_hanja_removal(entries: &mut Vec<Entry>, enable: bool)
    ensures
        final(entries)@ == (if enable {
            with_removal(old(entries)@)
        } else {
            without_removal(old(entries)@)
        }),
{
    if enable {
        if !has_entry_for(entries, 0xE01D) {
            entries.push((0xE01D, 0x001D));
        }
        if !has_entry_for(entries, 0x0071) {
            entries.push((0x0071, 0x0000));
        }
    } else {
        let ghost all = entries@;
        let mut kept: Vec<Entry> = Vec::new();
        let mut i: usize = 0;
        let n = entries.len();
        proof {
            reveal(Seq::filter);
            assert(all.take(0) =~= Seq::empty());
        }
        while i < n
            invariant
                i <= n,
                n == entries.len(),
                all == entries@,
                kept@ == without_removal(all.take(i as int)),
            decreases n - i,
        {
            proof {
                reveal(Seq::filter);
                assert(all.take(i + 1).drop_last() =~= all.take(i as int));
            }
            if entries[i].0 != 0xE01D && entries[i].0 != 0x0071 {
                kept.push(entries[i]);
            }
            i += 1;
        }
        assert(all.take(n as int) =~= all);
        *entries = kept;
    }
}

/// The change that takes the Hanja function away or gives it back, from the entries read before.
pub fn set_hanja_removal(read: Result<Vec<Entry>, HelperError>, enable: bool) -> (r: Result<
    RegistryWrite,
    HelperError,
>)
    requires
        read matches Ok(entries) ==> entries.len() < u32::MAX - 2,
    ensures
        match read {
            Ok(entries) => r matches Ok(change) && change.stored() == stored_value(
                if enable {
                    with_removal(entries@)
                } else {
                    without_removal(entries@)
                },
            ),
            Err(e) => r == Err::<RegistryWrite, HelperError>(e),
        },
{
    match read {
        Ok(entries) => {
            let mut entries = entries;
            proof {
                entries@.lemma_filter_len(|e: Entry| !is_hanja_entry(e));
            }
            merge_hanja_removal(&mut entries, enable);
            Ok(write_scancode_entries(&entries))
        },
        Err(e) => Err(e),
    }
}

/// The bytes of the entry at position `k` stand at `4 * k`.
proof fn lemma_entries_bytes(es: Seq<Entry>, k: int)
    requires
        0 <= k < es.len(),
    ensures
        entries_bytes(es).len() == 4 * es.len(),
        entries_bytes(es).subrange(4 * k, 4 * k + 4) == entry_bytes(es[k]),
    decreases es.len(),
{
    let front = es.drop_last();
    if front.len() > 0 {
        lemma_entries_bytes(front, 0);
    } else {
        assert(entries_bytes(front) =~= Seq::empty());
    }
    if k < front.len() {
        lemma_entries_bytes(front, k);
        assert(entries_bytes(es).subrange(4 * k, 4 * k + 4) =~= entries_bytes(front).subrange(
            4 * k,
            4 * k + 4,
        ));
    } else {
        assert(entries_bytes(es).subrange(4 * k, 4 * k + 4) =~= entry_bytes(es[k]));
    }
}

proof fn lemma_decode_from(es: Seq<Entry>, k: int)
    requires
        0 <= k <= es.len(),
        forall|i: int| 0 <= i < es.len() ==> #[trigger] es[i] != (0u16, 0u16),
    ensures
        entries_from(encoded(es), 12 + 4 * k) == es.skip(k),
    decreases es.len() - k,
{
    let b = encoded(es);
    let off = 12 + 4 * k;
    if es.len() > 0 {
        lemma_entries_bytes(es, 0);
    }
    assert(b.len() == 12 + 4 * es.len() + 4);
    if k == es.len() {
        assert(b[off] == 0 && b[off + 1] == 0 && b[off + 2] == 0 && b[off + 3] == 0);
        assert(entry_at(b, off) == (0u16, 0u16));
        assert(es.skip(k) =~= Seq::empty());
    } else {
        lemma_entries_bytes(es, k);
        let mid = entries_bytes(es);
        let e = es[k];
        let here = b.subrange(off, off + 4);
        assert(here =~= mid.subrange(4 * k, 4 * k + 4));
        bytes::law_bytes_round_trip(e.0, 0, 0);
        bytes::law_bytes_round_trip(e.1, 0, 0);
        assert(entry_at(b, off) == e) by {
            assert(b[off] == here[0] && here[0] == bytes::le_bytes2(e.1)[0]);
            assert(b[off + 1] == here[1] && here[1] == bytes::le_bytes2(e.1)[1]);
            assert(b[off + 2] == here[2] && here[2] == bytes::le_bytes2(e.0)[0]);
            assert(b[off + 3] == here[3] && here[3] == bytes::le_bytes2(e.0)[1]);
        }
        lemma_decode_from(es, k + 1);
        assert(es.skip(k) =~= seq![e] + es.skip(k + 1));
    }
}

/// What was stored is read back, in order, and no entries as no entries. An entry that is all zero
/// cannot be stored: it would end the list.
pub proof fn law_stored_entries_are_read_back(es: Seq<Entry>)
    requires
        !es.contains((0u16, 0u16)),
    ensures
        stored_entries(stored_value(es)) == es,
{
    assert(forall|i: int| 0 <= i < es.len() ==> #[trigger] es[i] != (0u16, 0u16)) by {
        assert(forall|i: int| 0 <= i < es.len() ==> es.contains(#[trigger] es[i]));
    }
    if es.len() == 0 {
        assert(es =~= Seq::empty());
    } else {
        lemma_decode_from(es, 0);
        assert(es.skip(0) =~= es);
    }
}

/// No entry that is read is all zero.
pub proof fn law_read_entries_are_not_zero(b: Seq<u8>, off: int)
    ensures
        !entries_from(b, off).contains((0u16, 0u16)),
        forall|i: int|
            0 <= i < entries_from(b, off).len() ==> #[trigger] entries_from(b, off)[i] != (
                0u16,
                0u16,
            ),
    decreases b.len() - off,
{
    if !(off < 0 || off + 4 > b.len() || entry_at(b, off) == (0u16, 0u16)) {
        law_read_entries_are_not_zero(b, off + 4);
        let rest = entries_from(b, off + 4);
        assert forall|i: int| 0 <= i < entries_from(b, off).len() implies #[trigger] entries_from(
            b,
            off,
        )[i] != (0u16, 0u16) by {
            if i > 0 {
                assert(entries_from(b, off)[i] == rest[i - 1]);
            }
        }
    }
}

/// The entries without those for the two keys: which they are.
proof fn lemma_without_removal(es: Seq<Entry>)
    ensures
        forall|e: Entry| #[trigger]
            without_removal(es).contains(e) == (es.contains(e) && !is_hanja_entry(e)),
        without_removal(es).len() <= es.len(),
        (forall|i: int| 0 <= i < es.len() ==> !is_hanja_entry(#[trigger] es[i]))
            ==> without_removal(es) == es,
    decreases es.len(),
{
    reveal(Seq::filter);
    let out = without_removal(es);
    if es.len() > 0 {
        let front = es.drop_last();
        let part = without_removal(front);
        let last = es.last();
        lemma_without_removal(front);
        assert(out == if is_hanja_entry(last) {
            part
        } else {
            part.push(last)
        });
        assert forall|e: Entry| #[trigger] out.contains(e) == (es.contains(e) && !is_hanja_entry(
            e,
        )) by {
            if es.contains(e) {
                let k = choose|k: int| 0 <= k < es.len() && es[k] == e;
                if k < front.len() {
                    assert(front[k] == e);
                    assert(front.contains(e));
                }
            }
            if front.contains(e) {
                let k = choose|k: int| 0 <= k < front.len() && front[k] == e;
                assert(es[k] == e);
            }
            assert(es[es.len() - 1] == last);
            if part.contains(e) {
                let k = choose|k: int| 0 <= k < part.len() && part[k] == e;
                assert(out[k] == e);
            }
            if !is_hanja_entry(last) {
                assert(out[part.len() as int] == last);
            }
            if out.contains(e) {
                let k = choose|k: int| 0 <= k < out.len() && out[k] == e;
                if k < part.len() {
                    assert(part[k] == e);
                }
            }
        }
        if forall|i: int| 0 <= i < es.len() ==> !is_hanja_entry(#[trigger] es[i]) {
            assert forall|i: int| 0 <= i < front.len() implies !is_hanja_entry(
                #[trigger] front[i],
            ) by {
                assert(es[i] == front[i]);
            }
            assert(es =~= front.push(last));
        }
    } else {
        assert(out =~= es);
    }
}

/// Taking the Hanja function away keeps every entry that was there, in place, and gives both keys an
/// entry; doing it twice is doing it once.
pub proof fn law_removal_keeps_other_entries(es: Seq<Entry>)
    ensures
        with_removal(es).len() <= es.len() + 2,
        es == with_removal(es).take(es.len() as int),
        has_key(with_removal(es), right_ctrl_entry().0),
        has_key(with_removal(es), hanja_key_entry().0),
        with_removal(with_removal(es)) == with_removal(es),
{
    let one = with_entry(es, right_ctrl_entry());
    let two = with_entry(one, hanja_key_entry());
    assert(has_key(one, right_ctrl_entry().0)) by {
        if !has_key(es, right_ctrl_entry().0) {
            assert(one[es.len() as int].0 == right_ctrl_entry().0);
        }
    }
    assert(has_key(two, right_ctrl_entry().0)) by {
        let k = choose|k: int| 0 <= k < one.len() && (#[trigger] one[k]).0 == right_ctrl_entry().0;
        assert(two[k] == one[k]);
    }
    assert(has_key(two, hanja_key_entry().0)) by {
        if !has_key(one, hanja_key_entry().0) {
            assert(two[one.len() as int].0 == hanja_key_entry().0);
        }
    }
    assert(es =~= two.take(es.len() as int));
}

/// After the Hanja function is taken away and stored, the right control key is found without it,
/// unless it had an entry of another kind before, which is left alone.
pub proof fn law_removal_takes_effect(value: Option<Seq<u8>>)
    ensures
        ({
            let before = stored_entries(value);
            let after = stored_entries(stored_value(with_removal(before)));
            &&& after == with_removal(before)
            &&& after.contains(right_ctrl_entry()) == (before.contains(right_ctrl_entry())
                || !has_key(before, right_ctrl_entry().0))
        }),
{
    let before = stored_entries(value);
    let after = with_removal(before);
    if let Some(b) = value {
        law_read_entries_are_not_zero(b, 12);
    }
    assert forall|i: int| 0 <= i < after.len() implies #[trigger] after[i] != (0u16, 0u16) by {
        if i < before.len() {
            assert(after[i] == before[i]);
        }
    }
    law_stored_entries_are_read_back(after);
    if before.contains(right_ctrl_entry()) {
        let k = choose|k: int| 0 <= k < before.len() && before[k] == right_ctrl_entry();
        assert(after[k] == before[k]);
    }
    if !has_key(before, right_ctrl_entry().0) {
        assert(after[before.len() as int] == right_ctrl_entry());
    }
    if after.contains(right_ctrl_entry()) && !before.contains(right_ctrl_entry()) && has_key(
        before,
        right_ctrl_entry().0,
    ) {
        let k = choose|k: int| 0 <= k < after.len() && after[k] == right_ctrl_entry();
        if k < before.len() {
            assert(before[k] == after[k]);
        }
    }
}

/// Whether the Hanja function was taken away is found out after the change is stored: where the right
/// control key had no entry of another kind, it is found without the function exactly where that was
/// asked for.
pub proof fn law_removal_is_found(value: Option<Seq<u8>>, enable: bool)
    requires
        forall|i: int|
            0 <= i < stored_entries(value).len() && (#[trigger] stored_entries(value)[i]).0
                == right_ctrl_entry().0 ==> stored_entries(value)[i] == right_ctrl_entry(),
    ensures
        ({
            let before = stored_entries(value);
            let change = if enable {
                with_removal(before)
            } else {
                without_removal(before)
            };
            stored_entries(stored_value(change)).contains(right_ctrl_entry()) == enable
        }),
{
    let before = stored_entries(value);
    if enable {
        law_removal_takes_effect(value);
        if has_key(before, right_ctrl_entry().0) {
            let k = choose|k: int|
                0 <= k < before.len() && (#[trigger] before[k]).0 == right_ctrl_entry().0;
            assert(before.contains(before[k]));
        }
    } else {
        if let Some(b) = value {
            law_read_entries_are_not_zero(b, 12);
        }
        lemma_without_removal(before);
        law_restoring_keeps_other_entries(before);
        law_stored_entries_are_read_back(without_removal(before));
    }
}

/// Giving the Hanja function back keeps exactly the entries for other keys, and the right control
/// key is then found with it.
pub proof fn law_restoring_keeps_other_entries(es: Seq<Entry>)
    ensures
        forall|e: Entry| #[trigger]
            without_removal(es).contains(e) == (es.contains(e) && !is_hanja_entry(e)),
        !without_removal(es).contains(right_ctrl_entry()),
        without_removal(without_removal(es)) == without_removal(es),
{
    lemma_without_removal(es);
    let out = without_removal(es);
    assert forall|i: int| 0 <= i < out.len() implies !is_hanja_entry(#[trigger] out[i]) by {
        assert(out.contains(out[i]));
    }
    lemma_without_removal(out);
}

/// Taking the Hanja function away and giving it back leaves the entries as they were, where there
/// were none for the two keys.
pub proof fn law_restoring_undoes_removal(es: Seq<Entry>)
    requires
        forall|i: int| 0 <= i < es.len() ==> !is_hanja_entry(#[trigger] es[i]),
    ensures
        without_removal(with_removal(es)) == es,
{
    reveal(Seq::filter);
    lemma_without_removal(es);
    let one = es.push(right_ctrl_entry());
    let two = one.push(hanja_key_entry());
    assert(!has_key(es, right_ctrl_entry().0));
    assert(!has_key(one, hanja_key_entry().0)) by {
        assert forall|i: int| 0 <= i < one.len() implies (#[trigger] one[i]).0
            != hanja_key_entry().0 by {
            if i < es.len() {
                assert(one[i] == es[i]);
            }
        }
    }
    assert(two.drop_last() =~= one);
    assert(one.drop_last() =~= es);
    assert(without_removal(two) == without_removal(one));
    assert(without_removal(one) == without_removal(es));
}

/// What stores several entries: no value for none, and otherwise eight zero bytes, the number of
/// entries and the terminator, each entry with the new scancode before the key's own, and four zero
/// bytes as the terminator. The number is that of the four-byte groups that follow it.
pub proof fn law_value_says(es: Seq<Entry>)
    requires
        es.len() < u32::MAX,
    ensures
        es.len() == 0 ==> stored_value(es) is None,
        es.len() > 0 ==> ({
            &&& stored_value(es) matches Some(b)
            &&& b.len() == 12 + 4 * (es.len() + 1)
            &&& forall|i: int| 0 <= i < 8 ==> #[trigger] b[i] == 0
            &&& b[8] + 0x100 * b[9] + 0x10000 * b[10] + 0x1000000 * b[11] == es.len() + 1
            &&& forall|k: int|
                0 <= k < es.len() ==> {
                    &&& b[12 + 4 * k] + 0x100 * b[13 + 4 * k] == (#[trigger] es[k]).1
                    &&& b[14 + 4 * k] + 0x100 * b[15 + 4 * k] == es[k].0
                }
            &&& forall|i: int| b.len() - 4 <= i < b.len() ==> #[trigger] b[i] == 0
        }),
{
    if es.len() > 0 {
        let b = encoded(es);
        let count = bytes::le_bytes4((es.len() + 1) as u32);
        let mid = entries_bytes(es);
        lemma_entries_bytes(es, 0);
        bytes::law_bytes_make_up_numbers(0, (es.len() + 1) as u32, 0, 0, 0);
        assert(b.len() == 12 + 4 * (es.len() + 1));
        assert(b[8] == count[0] && b[9] == count[1] && b[10] == count[2] && b[11] == count[3]);
        assert forall|k: int| 0 <= k < es.len() implies {
            &&& b[12 + 4 * k] + 0x100 * b[13 + 4 * k] == (#[trigger] es[k]).1
            &&& b[14 + 4 * k] + 0x100 * b[15 + 4 * k] == es[k].0
        } by {
            lemma_entries_bytes(es, k);
            let here = mid.subrange(4 * k, 4 * k + 4);
            assert(b[12 + 4 * k] == here[0] && b[13 + 4 * k] == here[1]);
            assert(b[14 + 4 * k] == here[2] && b[15 + 4 * k] == here[3]);
            bytes::law_bytes_make_up_numbers(es[k].1, 0, 0, 0, 0);
            bytes::law_bytes_make_up_numbers(es[k].0, 0, 0, 0, 0);
        }
    }
}

/// Which entries a value has, from an offset on: those in its four-byte groups, in order, up to the
/// first group that is all zero, or to the last whole group.
proof fn lemma_entries_from(b: Seq<u8>, off: int)
    requires
        0 <= off,
    ensures
        ({
            let es = entries_from(b, off);
            let end = off + 4 * es.len();
            &&& es.len() > 0 ==> end <= b.len()
            &&& forall|k: int|
                0 <= k < es.len() ==> {
                    &&& (#[trigger] es[k]).1 == b[off + 4 * k] + 0x100 * b[off + 4 * k + 1]
                    &&& es[k].0 == b[off + 4 * k + 2] + 0x100 * b[off + 4 * k + 3]
                    &&& es[k] != (0u16, 0u16)
                }
            &&& end + 4 <= b.len() ==> b[end] == 0 && b[end + 1] == 0 && b[end + 2] == 0 && b[end
                + 3] == 0
        }),
    decreases b.len() - off,
{
    let es = entries_from(b, off);
    if off + 4 <= b.len() {
        bytes::law_bytes_make_up_numbers(0, 0, 0, b[off], b[off + 1]);
        bytes::law_bytes_make_up_numbers(0, 0, 0, b[off + 2], b[off + 3]);
        if entry_at(b, off) != (0u16, 0u16) {
            let rest = entries_from(b, off + 4);
            lemma_entries_from(b, off + 4);
            assert(es.len() == rest.len() + 1);
            assert forall|k: int| 0 <= k < es.len() implies {
                &&& (#[trigger] es[k]).1 == b[off + 4 * k] + 0x100 * b[off + 4 * k + 1]
                &&& es[k].0 == b[off + 4 * k + 2] + 0x100 * b[off + 4 * k + 3]
                &&& es[k] != (0u16, 0u16)
            } by {
                if k > 0 {
                    assert(es[k] == rest[k - 1]);
                    assert(off + 4 + 4 * (k - 1) == off + 4 * k);
                }
            }
        }
    }
}

/// Which entries a value has: those in the four-byte groups after its first twelve bytes, in order, the
/// new scancode before the key's own, up to the first group that is all zero, or to the last whole
/// group.
pub proof fn law_entries_of_a_value(b: Seq<u8>)
    ensures
        ({
            let es = decoded(b);
            let end = 12 + 4 * es.len() as int;
            &&& es.len() > 0 ==> end <= b.len()
            &&& forall|k: int|
                0 <= k < es.len() ==> {
                    &&& (#[trigger] es[k]).1 == b[12 + 4 * k] + 0x100 * b[13 + 4 * k]
                    &&& es[k].0 == b[14 + 4 * k] + 0x100 * b[15 + 4 * k]
                    &&& es[k] != (0u16, 0u16)
                }
            &&& end + 4 <= b.len() ==> b[end] == 0 && b[end + 1] == 0 && b[end + 2] == 0 && b[end
                + 3] == 0
        }),
{
    lemma_entries_from(b, 12);
    let es = decoded(b);
    assert forall|k: int| 0 <= k < es.len() implies {
        &&& (#[trigger] es[k]).1 == b[12 + 4 * k] + 0x100 * b[13 + 4 * k]
        &&& es[k].0 == b[14 + 4 * k] + 0x100 * b[15 + 4 * k]
        &&& es[k] != (0u16, 0u16)
    } by {
        assert(12 + 4 * k + 1 == 13 + 4 * k);
    }
}

/// What taking the Hanja function away adds: an entry that makes the right control key, 0xE01D, the
/// left one, 0x1D, where it had no entry, and after it one that turns the Hanja key, 0x71, off, where
/// that had none.
pub proof fn law_removal_adds(es: Seq<Entry>)
    ensures
        ({
            let ctrl = exists|i: int| 0 <= i < es.len() && (#[trigger] es[i]).0 == 0xE01D;
            let hanja = exists|i: int| 0 <= i < es.len() && (#[trigger] es[i]).0 == 0x71;
            with_removal(es) == es + (if ctrl {
                Seq::empty()
            } else {
                seq![(0xE01Du16, 0x1Du16)]
            }) + (if hanja {
                Seq::empty()
            } else {
                seq![(0x71u16, 0u16)]
            })
        }),
{
    let one = with_entry(es, right_ctrl_entry());
    assert(has_key(one, 0x71) == has_key(es, 0x71)) by {
        if has_key(es, 0x71) {
            let k = choose|k: int| 0 <= k < es.len() && (#[trigger] es[k]).0 == 0x71;
            assert(one[k].0 == 0x71);
        }
        if has_key(one, 0x71) {
            let k = choose|k: int| 0 <= k < one.len() && (#[trigger] one[k]).0 == 0x71;
            assert(es[k].0 == 0x71);
        }
    }
    let ctrl = exists|i: int| 0 <= i < es.len() && (#[trigger] es[i]).0 == 0xE01D;
    let hanja = exists|i: int| 0 <= i < es.len() && (#[trigger] es[i]).0 == 0x71;
    assert(ctrl == has_key(es, 0xE01D));
    assert(hanja == has_key(es, 0x71));
    assert(with_removal(es) =~= es + (if ctrl {
        Seq::empty()
    } else {
        seq![(0xE01Du16, 0x1Du16)]
    }) + (if hanja {
        Seq::empty()
    } else {
        seq![(0x71u16, 0u16)]
    }));
}

/// What giving the Hanja function back leaves: of two lists together, what it leaves of each, in order;
/// of one entry, the entry, unless it is for the right control key, 0xE01D, or the Hanja key, 0x71.
pub proof fn law_restoring_leaves(a: Seq<Entry>, b: Seq<Entry>, e: Entry)
    ensures
        without_removal(Seq::empty()) == Seq::<Entry>::empty(),
        without_removal(a + b) == without_removal(a) + without_removal(b),
        without_removal(seq![e]) == (if e.0 == 0xE01D || e.0 == 0x71 {
            Seq::empty()
        } else {
            seq![e]
        }),
{
    reveal_with_fuel(Seq::filter, 3);
    Seq::filter_distributes_over_add(a, b, |x: Entry| !is_hanja_entry(x));
    assert(seq![e].drop_last() =~= Seq::empty());
    assert(without_removal(seq![e]) =~= if e.0 == 0xE01D || e.0 == 0x71 {
        Seq::empty()
    } else {
        seq![e]
    });
}

} // verus!
