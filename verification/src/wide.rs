//! Strings as the windowing API takes them: UTF-16 code units ended by a
//! zero unit.

use vstd::prelude::*;
use vstd::string::*;

verus! {

/// First code point outside the Basic Multilingual Plane.
pub const SUPPLEMENTARY_START: u32 = 0x10000;

/// First high (leading) surrogate.
pub const HIGH_SURROGATE_START: u32 = 0xD800;

/// First low (trailing) surrogate.
pub const LOW_SURROGATE_START: u32 = 0xDC00;

/// The UTF-16 code units of one character: itself below `0x10000`, else a
/// high surrogate carrying the upper ten bits of `c - 0x10000` and a low
/// surrogate carrying the lower ten.
pub open spec fn utf16_units(c: char) -> Seq<u16> {
    let v: u32 = c as u32;
    if v < 0x10000 {
        seq![v as u16]
    } else {
        seq![(0xD800 + (v - 0x10000) / 0x400) as u16, (0xDC00 + (v - 0x10000) % 0x400) as u16]
    }
}

/// The UTF-16 encoding of a character sequence.
pub open spec fn utf16(s: Seq<char>) -> Seq<u16>
    decreases s.len(),
{
    if s.len() == 0 {
        seq![]
    } else {
        utf16(s.drop_last()) + utf16_units(s.last())
    }
}

/// Reads UTF-16 code units back into characters, from the end: a low
/// surrogate joins the unit before it.
pub open spec fn utf16_decode(u: Seq<u16>) -> Seq<char>
    decreases u.len(),
{
    if u.len() == 0 {
        seq![]
    } else if u.len() >= 2 && 0xDC00 <= u.last() < 0xE000 {
        let hi: int = u[u.len() - 2] as int;
        let lo: int = u.last() as int;
        utf16_decode(u.subrange(0, u.len() - 2)).push(
            ((0x10000 + (hi - 0xD800) * 0x400 + (lo - 0xDC00)) as u32) as char,
        )
    } else {
        utf16_decode(u.drop_last()).push((u.last() as u32) as char)
    }
}

/// Appends the UTF-16 code units of `c`.
fn push_utf16(w: &mut Vec<u16>, c: char)
    ensures
        final(w)@ == old(w)@ + utf16_units(c),
{
    let v: u32 = c as u32;
    if v < SUPPLEMENTARY_START {
        w.push(v as u16);
    } else {
        let offset: u32 = v - SUPPLEMENTARY_START;
        w.push((HIGH_SURROGATE_START + offset / 0x400) as u16);
        w.push((LOW_SURROGATE_START + offset % 0x400) as u16);
    }
    assert(w@ =~= old(w)@ + utf16_units(c));
}

/// `s` as the wide string that the windowing API takes: its UTF-16 code
/// units and a terminating zero unit.
pub fn string_to_wstring(s: &str) -> (w: Vec<u16>)
    ensures
        w@ == utf16(s@).push(0u16),
{
    let mut w: Vec<u16> = Vec::new();
    let n: usize = s.unicode_len();
    let mut i: usize = 0;
    while i < n
        invariant
            n == s@.len(),
            i <= n,
            w@ == utf16(s@.take(i as int)),
        decreases n - i,
    {
        let c = s.get_char(i);
        push_utf16(&mut w, c);
        assert(s@.take(i + 1).drop_last() =~= s@.take(i as int));
        i = i + 1;
    }
    assert(s@.take(n as int) =~= s@);
    w.push(0u16);
    w
}

proof fn lemma_surrogate_pair(v: int)
    requires
        0x10000 <= v <= 0x10FFFF,
    ensures
        0xD800 <= 0xD800 + (v - 0x10000) / 0x400 < 0xDC00,
        0xDC00 <= 0xDC00 + (v - 0x10000) % 0x400 < 0xE000,
        0x10000 + ((v - 0x10000) / 0x400) * 0x400 + (v - 0x10000) % 0x400 == v,
{
    let o: int = v - 0x10000;
    assert(o == (o / 0x400) * 0x400 + o % 0x400) by (nonlinear_arith);
    assert(o / 0x400 < 0x400) by (nonlinear_arith)
        requires
            0 <= o < 0x100000,
    ;
}

/// Decoding the UTF-16 encoding of a character sequence gives the sequence
/// back: the wide string holds the text unchanged.
pub proof fn lemma_utf16_round_trip(s: Seq<char>)
    ensures
        utf16_decode(utf16(s)) == s,
    decreases s.len(),
{
    if s.len() > 0 {
        let c = s.last();
        let v: int = (c as u32) as int;
        vstd::utf8::char_is_scalar(c);
        lemma_utf16_round_trip(s.drop_last());
        let prev = utf16(s.drop_last());
        let u = utf16(s);
        assert(u == prev + utf16_units(c));
        if v < 0x10000 {
            assert(!(0xD800 <= v < 0xE000));
            assert(u.drop_last() =~= prev);
            assert(u.last() == v as u16);
            assert(((u.last() as u32) as char) == c) by {
                vstd::utf8::char_u32_cast(c, c as u32);
            }
        } else {
            lemma_surrogate_pair(v);
            assert(u.subrange(0, u.len() - 2) =~= prev);
            assert(u.last() == (0xDC00 + (v - 0x10000) % 0x400) as u16);
            assert(u[u.len() - 2] == (0xD800 + (v - 0x10000) / 0x400) as u16);
            let hi: int = u[u.len() - 2] as int;
            let lo: int = u.last() as int;
            assert((0x10000 + (hi - 0xD800) * 0x400 + (lo - 0xDC00)) as u32 == c as u32);
            vstd::utf8::char_u32_cast(c, c as u32);
        }
        assert(s.drop_last().push(c) =~= s);
    }
}

/// Every unit of the encoding of a character sequence is nonzero unless it
/// encodes the character `'\0'`; so the terminating zero is the first zero
/// of a wide string made from text without `'\0'`.
pub proof fn lemma_utf16_nonzero(s: Seq<char>)
    requires
        forall|i: int| 0 <= i < s.len() ==> s[i] != '\0',
    ensures
        forall|j: int| 0 <= j < utf16(s).len() ==> utf16(s)[j] != 0,
    decreases s.len(),
{
    if s.len() > 0 {
        let c = s.last();
        lemma_utf16_nonzero(s.drop_last());
        vstd::utf8::char_is_scalar(c);
        assert(c as u32 != 0) by {
            if c as u32 == 0 {
                vstd::utf8::char_u32_cast(c, 0);
                vstd::utf8::char_u32_cast('\0', '\0' as u32);
                assert('\0' as u32 == 0);
            }
        }
        if c as u32 >= 0x10000 {
            lemma_surrogate_pair((c as u32) as int);
        }
        let prev = utf16(s.drop_last());
        assert forall|j: int| 0 <= j < utf16(s).len() implies utf16(s)[j] != 0 by {
            if j >= prev.len() {
                assert(utf16(s)[j] == utf16_units(c)[j - prev.len()]);
            }
        }
    }
}

} // verus!
