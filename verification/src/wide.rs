//! Texts in the form that the system's functions take: UTF-16 with a zero at the end.

use vstd::prelude::*;

use crate::text::chars_of;

verus! {

/// The UTF-16 units of a character: one, or two surrogates.
pub open spec fn utf16_units(c: char) -> Seq<u16> {
    let n = c as u32;
    if n < 0x10000 {
        seq![n as u16]
    } else {
        seq![(0xD800 + (n - 0x10000) / 0x400) as u16, (0xDC00 + (n - 0x10000) % 0x400) as u16]
    }
}

/// A text in UTF-16.
pub open spec fn utf16(s: Seq<char>) -> Seq<u16>
    decreases s.len(),
{
    if s.len() == 0 {
        Seq::empty()
    } else {
        utf16(s.drop_last()) + utf16_units(s.last())
    }
}

/// A text in UTF-16, with a zero at the end.
pub fn to_wide(s: &str) -> (r: Vec<u16>)
    ensures
        r@ == utf16(s@).push(0),
{
    let v = chars_of(s);
    let n = v.len();
    let mut out: Vec<u16> = Vec::new();
    let mut i: usize = 0;
    assert(s@.take(0) =~= Seq::empty());
    while i < n
        invariant
            i <= n,
            n == v.len(),
            v@ == s@,
            out@ == utf16(s@.take(i as int)),
        decreases n - i,
    {
        assert(s@.take(i + 1).drop_last() =~= s@.take(i as int));
        let c: u32 = v[i] as u32;
        let ghost before = out@;
        if c < 0x10000 {
            out.push(c as u16);
        } else {
            out.push((0xD800 + (c - 0x10000) / 0x400) as u16);
            out.push((0xDC00 + (c - 0x10000) % 0x400) as u16);
        }
        assert(out@ =~= before + utf16_units(v@[i as int]));
        i += 1;
    }
    assert(s@.take(n as int) =~= s@);
    out.push(0);
    out
}

/// Different texts have different wide forms.
pub proof fn law_wide_forms_differ(a: Seq<char>, b: Seq<char>)
    requires
        utf16(a).push(0) == utf16(b).push(0),
    ensures
        a == b,
{
    assert(utf16(a) =~= utf16(a).push(0).drop_last());
    assert(utf16(b) =~= utf16(b).push(0).drop_last());
    lemma_utf16_injective(a, b);
}

/// Two joined lists with ends of one length are equal only where their parts are.
proof fn lemma_join_injective(p: Seq<u16>, x: Seq<u16>, q: Seq<u16>, y: Seq<u16>)
    requires
        p + x == q + y,
        x.len() == y.len(),
    ensures
        p == q,
        x == y,
{
    let u = p + x;
    let v = q + y;
    assert(u.len() == p.len() + x.len());
    assert(v.len() == q.len() + y.len());
    assert(p =~= u.take(p.len() as int));
    assert(q =~= v.take(q.len() as int));
    assert(x =~= u.skip(p.len() as int));
    assert(y =~= v.skip(q.len() as int));
}

proof fn lemma_utf16_injective(a: Seq<char>, b: Seq<char>)
    requires
        utf16(a) == utf16(b),
    ensures
        a == b,
    decreases a.len(),
{
    if a.len() > 0 {
        lemma_units_shape(a.last());
        assert(utf16(a).len() == utf16(a.drop_last()).len() + utf16_units(a.last()).len());
    }
    if b.len() > 0 {
        lemma_units_shape(b.last());
        assert(utf16(b).len() == utf16(b.drop_last()).len() + utf16_units(b.last()).len());
    }
    if a.len() == 0 || b.len() == 0 {
        assert(a =~= b);
    } else {
        let x = utf16_units(a.last());
        let y = utf16_units(b.last());
        let p = utf16(a.drop_last());
        let q = utf16(b.drop_last());
        assert((p + x).last() == x.last() && (q + y).last() == y.last());
        lemma_join_injective(p, x, q, y);
        lemma_units_injective(a.last(), b.last());
        lemma_utf16_injective(a.drop_last(), b.drop_last());
        assert(a =~= a.drop_last().push(a.last()));
        assert(b =~= b.drop_last().push(b.last()));
    }
}

/// A character takes two units exactly where its last unit is a low surrogate.
proof fn lemma_units_shape(c: char)
    ensures
        1 <= utf16_units(c).len() <= 2,
        (utf16_units(c).len() == 2) == (0xDC00 <= utf16_units(c).last() <= 0xDFFF),
{
}

proof fn lemma_units_injective(c: char, d: char)
    requires
        utf16_units(c) == utf16_units(d),
    ensures
        c == d,
{
    let x = utf16_units(c);
    let y = utf16_units(d);
    let n = c as u32;
    let m = d as u32;
    assert(x.len() == y.len());
    assert(x[0] == y[0]);
    if n < 0x10000 {
        assert(n == m);
    } else {
        assert(x[1] == y[1]);
        assert(x[0] == 0xD800 + (n - 0x10000) / 0x400);
        assert(y[0] == 0xD800 + (m - 0x10000) / 0x400);
        assert(x[1] == 0xDC00 + (n - 0x10000) % 0x400);
        assert(y[1] == 0xDC00 + (m - 0x10000) % 0x400);
        let a = n - 0x10000;
        let b = m - 0x10000;
        assert(a / 0x400 == b / 0x400 && a % 0x400 == b % 0x400);
        assert(a == 0x400 * (a / 0x400) + a % 0x400);
        assert(b == 0x400 * (b / 0x400) + b % 0x400);
    }
}

/// A character up to 0xFFFF is one unit, itself. Any other is a high and a low surrogate, which count
/// how far beyond 0xFFFF it is.
pub proof fn law_units_make_up_characters(c: char)
    ensures
        ({
            let u = utf16_units(c);
            if c as u32 <= 0xFFFF {
                u.len() == 1 && u[0] == c as u32
            } else {
                &&& u.len() == 2
                &&& 0xD800 <= u[0] <= 0xDBFF
                &&& 0xDC00 <= u[1] <= 0xDFFF
                &&& 0x10000 + 0x400 * (u[0] - 0xD800) + (u[1] - 0xDC00) == c as u32
            }
        }),
{
}

/// A text's units are those of its characters, in order: of no text none, of two texts together those
/// of the one and then those of the other.
pub proof fn law_units_of_texts(a: Seq<char>, b: Seq<char>, c: char)
    ensures
        utf16(Seq::empty()) == Seq::<u16>::empty(),
        utf16(seq![c]) == utf16_units(c),
        utf16(a + b) == utf16(a) + utf16(b),
    decreases b.len(),
{
    assert(seq![c].drop_last() =~= Seq::empty());
    reveal_with_fuel(utf16, 2);
    assert(utf16(seq![c]) =~= utf16_units(c));
    if b.len() == 0 {
        assert(a + b =~= a);
        assert(utf16(a) + utf16(b) =~= utf16(a));
    } else {
        law_units_of_texts(a, b.drop_last(), c);
        assert((a + b).drop_last() =~= a + b.drop_last());
        assert(utf16(a + b) =~= utf16(a) + utf16(b));
    }
}

} // verus!
