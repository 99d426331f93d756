//! Numbers as bytes, the lowest byte first.

use vstd::prelude::*;

verus! {

/// The two bytes of a 16-bit number.
pub open spec fn le_bytes2(x: u16) -> Seq<u8> {
    seq![(x % 256) as u8, (x / 256) as u8]
}

/// The four bytes of a 32-bit number.
pub open spec fn le_bytes4(x: u32) -> Seq<u8> {
    seq![
        (x % 256) as u8,
        (x / 256 % 256) as u8,
        (x / 65536 % 256) as u8,
        (x / 16777216) as u8,
    ]
}

/// The 16-bit number that two bytes write.
pub open spec fn le_number(lo: u8, hi: u8) -> u16 {
    (lo + 256 * hi) as u16
}

/// The 16 bits of a signed number, as an unsigned one.
pub open spec fn bits16(x: i16) -> u16 {
    if x < 0 {
        (x + 65536) as u16
    } else {
        x as u16
    }
}

/// The 16-bit number that two bytes write.
pub fn u16_from_le(lo: u8, hi: u8) -> (r: u16)
    ensures
        r == le_number(lo, hi),
{
    lo as u16 + 256 * (hi as u16)
}

/// Appends the two bytes of a 16-bit number.
pub fn push_u16(out: &mut Vec<u8>, x: u16)
    ensures
        final(out)@ == old(out)@ + le_bytes2(x),
{
    out.push((x % 256) as u8);
    out.push((x / 256) as u8);
    assert(out@ =~= old(out)@ + le_bytes2(x));
}

/// Appends the four bytes of a 32-bit number.
pub fn push_u32(out: &mut Vec<u8>, x: u32)
    ensures
        final(out)@ == old(out)@ + le_bytes4(x),
{
    out.push((x % 256) as u8);
    out.push((x / 256 % 256) as u8);
    out.push((x / 65536 % 256) as u8);
    out.push((x / 16777216) as u8);
    assert(out@ =~= old(out)@ + le_bytes4(x));
}

/// Appends the two bytes of a signed 16-bit number.
pub fn push_i16(out: &mut Vec<u8>, x: i16)
    ensures
        final(out)@ == old(out)@ + le_bytes2(bits16(x)),
{
    let bits: u16 = if x < 0 {
        (x as i32 + 65536) as u16
    } else {
        x as u16
    };
    push_u16(out, bits);
}

/// Appends several bytes.
pub fn push_all(out: &mut Vec<u8>, bytes: &[u8])
    ensures
        final(out)@ == old(out)@ + bytes@,
{
    let mut i: usize = 0;
    assert(bytes@.take(0) =~= Seq::empty());
    assert(out@ =~= old(out)@ + bytes@.take(0));
    while i < bytes.len()
        invariant
            i <= bytes.len(),
            out@ == old(out)@ + bytes@.take(i as int),
        decreases bytes.len() - i,
    {
        out.push(bytes[i]);
        assert(out@ =~= old(out)@ + bytes@.take(i + 1));
        i += 1;
    }
    assert(bytes@.take(bytes.len() as int) =~= bytes@);
}

/// A number is read back from its bytes, and bytes from the number they write.
pub proof fn law_bytes_round_trip(x: u16, lo: u8, hi: u8)
    ensures
        le_number(le_bytes2(x)[0], le_bytes2(x)[1]) == x,
        le_bytes2(le_number(lo, hi)) == seq![lo, hi],
{
    assert(le_bytes2(le_number(lo, hi)) =~= seq![lo, hi]);
}

/// The bytes of a number make up the number, each 256 times what the one before it counts.
pub proof fn law_bytes_make_up_numbers(x: u16, y: u32, z: i16, lo: u8, hi: u8)
    ensures
        le_bytes2(x).len() == 2,
        le_bytes2(x)[0] + 0x100 * le_bytes2(x)[1] == x,
        le_bytes4(y).len() == 4,
        le_bytes4(y)[0] + 0x100 * le_bytes4(y)[1] + 0x10000 * le_bytes4(y)[2] + 0x1000000
            * le_bytes4(y)[3] == y,
        z >= 0 ==> bits16(z) == z,
        z < 0 ==> bits16(z) == 0x10000 + z,
        le_number(lo, hi) == lo + 0x100 * hi,
{
}

} // verus!
