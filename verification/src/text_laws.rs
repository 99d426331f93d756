//! What holds of texts whatever they say.

use vstd::prelude::*;

use crate::text;

verus! {

/// Where the text begins after its leading white space.
proof fn lemma_trim_start(s: Seq<char>) -> (k: int)
    ensures
        0 <= k <= s.len(),
        text::trim_start(s) == s.skip(k),
        forall|i: int| 0 <= i < k ==> text::is_white_space(#[trigger] s[i]),
        k < s.len() ==> !text::is_white_space(s[k]),
    decreases s.len(),
{
    if s.len() > 0 && text::is_white_space(s[0]) {
        let rest = s.drop_first();
        let k = lemma_trim_start(rest);
        assert(s.skip(k + 1) =~= rest.skip(k));
        assert forall|i: int| 0 <= i < k + 1 implies text::is_white_space(#[trigger] s[i]) by {
            if i > 0 {
                assert(rest[i - 1] == s[i]);
            }
        }
        k + 1
    } else {
        assert(s.skip(0) =~= s);
        0
    }
}

/// Where the text ends before its trailing white space.
proof fn lemma_trim_end(s: Seq<char>) -> (k: int)
    ensures
        0 <= k <= s.len(),
        text::trim_end(s) == s.take(k),
        forall|i: int| k <= i < s.len() ==> text::is_white_space(#[trigger] s[i]),
        k > 0 ==> !text::is_white_space(s[k - 1]),
    decreases s.len(),
{
    if s.len() > 0 && text::is_white_space(s.last()) {
        let front = s.drop_last();
        let k = lemma_trim_end(front);
        assert(s.take(k) =~= front.take(k));
        assert forall|i: int| k <= i < s.len() implies text::is_white_space(#[trigger] s[i]) by {
            if i < front.len() {
                assert(front[i] == s[i]);
            }
        }
        k
    } else {
        assert(s.take(s.len() as int) =~= s);
        s.len() as int
    }
}

/// Trimming takes away white space before and after, all of it and nothing else.
pub proof fn law_trim_takes_white_space_only(s: Seq<char>) -> (r: (int, int))
    ensures
        0 <= r.0 <= r.1 <= s.len(),
        text::trimmed(s) == s.subrange(r.0, r.1),
        forall|i: int| 0 <= i < r.0 ==> text::is_white_space(#[trigger] s[i]),
        forall|i: int| r.1 <= i < s.len() ==> text::is_white_space(#[trigger] s[i]),
        r.0 < r.1 ==> !text::is_white_space(s[r.0]) && !text::is_white_space(s[r.1 - 1]),
{
    let a = lemma_trim_start(s);
    let rest = s.skip(a);
    let m = lemma_trim_end(rest);
    assert(rest.take(m) =~= s.subrange(a, a + m));
    assert forall|i: int| a + m <= i < s.len() implies text::is_white_space(#[trigger] s[i]) by {
        assert(rest[i - a] == s[i]);
    }
    if m > 0 {
        assert(rest[m - 1] == s[a + m - 1]);
    }
    (a, a + m)
}

/// The form in which hotkeys are compared is the text between its leading and trailing white space,
/// with each of its characters: the letters `A` to `Z` as `a` to `z` and the others as they are, where
/// they are ASCII characters, and otherwise what `str::to_lowercase` makes of it.
pub proof fn law_normal_form_keeps_characters(s: Seq<char>) -> (r: (int, int))
    ensures
        0 <= r.0 <= r.1 <= s.len(),
        forall|i: int| 0 <= i < r.0 ==> text::is_white_space(#[trigger] s[i]),
        forall|i: int| r.1 <= i < s.len() ==> text::is_white_space(#[trigger] s[i]),
        r.0 < r.1 ==> !text::is_white_space(s[r.0]) && !text::is_white_space(s[r.1 - 1]),
        if forall|i: int| r.0 <= i < r.1 ==> #[trigger] s[i] <= '\u{7F}' {
            &&& text::normalized(s).len() == r.1 - r.0
            &&& forall|i: int|
                0 <= i < r.1 - r.0 ==> #[trigger] text::normalized(s)[i] == (if 'A' <= s[r.0 + i]
                    <= 'Z' {
                    (s[r.0 + i] as u32 + 32) as char
                } else {
                    s[r.0 + i]
                })
        } else {
            text::normalized(s) == text::lowercase(s.subrange(r.0, r.1))
        },
{
    let r = law_trim_takes_white_space_only(s);
    let t = s.subrange(r.0, r.1);
    if forall|i: int| r.0 <= i < r.1 ==> #[trigger] s[i] <= '\u{7F}' {
        assert(text::is_ascii_text(t));
    } else {
        let i = choose|i: int| r.0 <= i < r.1 && #[trigger] s[i] > '\u{7F}';
        assert(t[i - r.0] > '\u{7F}');
    }
    r
}

/// Several texts with a `+` sign between each two.
pub open spec fn joined(parts: Seq<Seq<char>>) -> Seq<char>
    decreases parts.len(),
{
    if parts.len() == 0 {
        Seq::empty()
    } else if parts.len() == 1 {
        parts[0]
    } else {
        joined(parts.drop_last()) + seq!['+'] + parts.last()
    }
}

/// The pieces of a text hold no `+` sign, and with a `+` sign between each two they are the text.
pub proof fn law_pieces_make_the_text(s: Seq<char>)
    ensures
        text::pieces(s).len() >= 1,
        joined(text::pieces(s)) == s,
        forall|k: int|
            0 <= k < text::pieces(s).len() ==> !(#[trigger] text::pieces(s)[k]).contains('+'),
    decreases s.len(),
{
    let out = text::pieces(s);
    if s.len() == 0 {
        assert(out[0] =~= Seq::empty());
        assert(joined(out) =~= s);
    } else {
        let front = s.drop_last();
        let before = text::pieces(front);
        law_pieces_make_the_text(front);
        assert(s =~= front.push(s.last()));
        if s.last() == '+' {
            assert(out.drop_last() =~= before);
            assert(joined(out) =~= s);
            assert forall|k: int| 0 <= k < out.len() implies !(#[trigger] out[k]).contains('+') by {
                if k < before.len() {
                    assert(out[k] == before[k]);
                }
            }
        } else {
            let n = before.len() - 1;
            let last = before.last().push(s.last());
            assert(out.drop_last() =~= before.drop_last());
            assert(joined(out) =~= joined(before).push(s.last()));
            assert forall|k: int| 0 <= k < out.len() implies !(#[trigger] out[k]).contains('+') by {
                assert(!before[k].contains('+'));
                if k < n {
                    assert(out[k] == before[k]);
                } else if last.contains('+') {
                    let j = choose|j: int| 0 <= j < last.len() && last[j] == '+';
                    assert(before[n][j] == '+');
                }
            }
        }
    }
}

/// A `+` sign parts the pieces before it from those after it.
pub proof fn law_pieces_of_two(a: Seq<char>, b: Seq<char>)
    ensures
        text::pieces(a + seq!['+'] + b) == text::pieces(a) + text::pieces(b),
        !b.contains('+') ==> text::pieces(b) == seq![b],
    decreases b.len(),
{
    let s = a + seq!['+'] + b;
    law_pieces_make_the_text(a);
    law_pieces_make_the_text(b);
    if b.len() == 0 {
        assert(s.drop_last() =~= a);
        assert(text::pieces(s) =~= text::pieces(a) + text::pieces(b));
        assert(text::pieces(b) =~= seq![b]);
    } else {
        let front = b.drop_last();
        law_pieces_of_two(a, front);
        law_pieces_make_the_text(front);
        let p = text::pieces(a);
        let q = text::pieces(front);
        assert(s.drop_last() =~= a + seq!['+'] + front);
        assert((p + q).last() == q.last());
        assert((p + q).drop_last() =~= p + q.drop_last());
        assert(text::pieces(s) =~= p + text::pieces(b));
        if !b.contains('+') {
            assert(!front.contains('+')) by {
                if front.contains('+') {
                    let j = choose|j: int| 0 <= j < front.len() && front[j] == '+';
                    assert(b[j] == '+');
                }
            }
            assert(b[b.len() - 1] != '+');
            assert(front.push(b.last()) =~= b);
            assert(text::pieces(b) =~= seq![b]);
        }
    }
}

/// How numbers are read, digit by digit: a digit more makes ten times the number and the digit, as long
/// as that is a 32-bit number; nothing but a digit may follow; a `+` sign may stand before.
pub proof fn law_numbers_grow_by_digits(s: Seq<char>, c: char)
    ensures
        text::number_of(Seq::empty()) is None,
        '0' <= c <= '9' ==> text::number_of(seq![c]) == Some((c as u32 - '0' as u32) as u32),
        !('0' <= c <= '9') ==> text::number_of(s.push(c)) is None,
        '0' <= c <= '9' ==> (text::number_of(s) matches Some(v) ==> text::number_of(s.push(c)) == (
        if 10 * v + (c as u32 - '0' as u32) <= u32::MAX {
            Some((10 * v + (c as u32 - '0' as u32)) as u32)
        } else {
            None
        })),
        text::number_of(s) is None && s.len() > 0 && s != seq!['+'] ==> text::number_of(s.push(c))
            is None,
        s.len() > 0 && s[0] != '+' ==> text::number_of(seq!['+'] + s) == text::number_of(s),
        text::number_of(seq!['+']) is None,
        s.len() > 0 && s[0] == '+' ==> text::number_of(seq!['+'] + s) is None,
{
    let t = s.push(c);
    let d = text::unsigned_part(s);
    let e = text::unsigned_part(t);
    reveal_with_fuel(text::digits_value, 2);
    let one = seq![c];
    assert(one.drop_last() =~= Seq::empty());
    if '0' <= c <= '9' {
        assert(text::unsigned_part(one) == one);
        assert(text::digits_value(one) == (c as nat - '0' as nat) as nat);
    }
    assert(text::unsigned_part(seq!['+']) =~= Seq::empty());
    if s.len() > 0 {
        assert((seq!['+'] + s).drop_first() =~= s);
        assert(e =~= d.push(c));
        assert(e.drop_last() =~= d);
        assert(text::digits_value(e) == text::digits_value(d) * 10 + (c as nat - '0' as nat) as nat);
        assert(e[d.len() as int] == c);
        if text::is_number(e) && d.len() > 0 {
            assert forall|i: int| 0 <= i < d.len() implies '0' <= #[trigger] d[i] <= '9' by {
                assert(e[i] == d[i]);
            }
        }
        if s[0] == '+' && d.len() == 0 {
            assert(s =~= seq!['+']);
        }
    } else {
        assert(t =~= one);
        if c == '+' {
            assert(e =~= Seq::empty());
        }
    }
}

/// A number is read back from its decimal digits, which begin with no needless zero; a negative one has
/// a minus sign and the digits of its opposite.
pub proof fn law_decimal_is_read_back(n: nat)
    ensures
        text::is_number(text::decimal(n)),
        text::digits_value(text::decimal(n)) == n,
        n >= 10 ==> text::decimal(n)[0] != '0',
        n <= u32::MAX ==> text::number_of(text::decimal(n)) == Some(n as u32),
        n > u32::MAX ==> text::number_of(text::decimal(n)) is None,
        text::signed_decimal(n as int) == text::decimal(n),
        n > 0 ==> text::signed_decimal(-n) == seq!['-'] + text::decimal(n),
    decreases n,
{
    let t = text::decimal(n);
    if n < 10 {
        assert(t.drop_last() =~= Seq::empty());
        reveal_with_fuel(text::digits_value, 2);
        assert(text::is_number(t));
    } else {
        law_decimal_is_read_back(n / 10);
        let front = text::decimal(n / 10);
        assert(t.drop_last() =~= front);
        assert(text::is_number(t)) by {
            assert forall|i: int| 0 <= i < t.len() implies '0' <= #[trigger] t[i] <= '9' by {
                if i < front.len() {
                    assert(t[i] == front[i]);
                }
            }
        }
        assert(t[0] == front[0]);
        if n < 100 {
            assert(front =~= seq![text::digit_char(n / 10)]);
        }
    }
    assert(text::unsigned_part(t) == t) by {
        assert('0' <= t[0] <= '9');
    }
}

/// A part is found in a text exactly where the text is something, the part, and something more.
pub proof fn law_parts_are_found(a: Seq<char>, part: Seq<char>, b: Seq<char>)
    ensures
        text::occurs_in(a + part + b, part),
        text::occurs_in(a, part) ==> exists|x: Seq<char>, y: Seq<char>| a == #[trigger] (x + part + y),
{
    let s = a + part + b;
    assert(s.subrange(a.len() as int, (a.len() + part.len()) as int) =~= part);
    assert(text::occurs_at(s, part, a.len() as int));
    if text::occurs_in(a, part) {
        let i = choose|i: int| text::occurs_at(a, part, i);
        let x = a.take(i);
        let y = a.skip(i + part.len());
        assert(a =~= x + part + y);
    }
}

} // verus!
