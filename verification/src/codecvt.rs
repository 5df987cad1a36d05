//! Conversion between native strings and the null-terminated wide-character
//! (16-bit code unit) form required by the debug-output channel, together
//! with the decoding direction and a round-trip proof.

use vstd::prelude::*;
use vstd::string::*;

verus! {

use vstd::utf8::{char_is_scalar, char_u32_cast, is_scalar};

/// True when the string contains an embedded null character; such a string
/// cannot be carried by a null-terminated wide string.
pub open spec fn has_nul(s: Seq<char>) -> bool {
    exists|i: int| 0 <= i < s.len() && s[i] == '\0'
}

/// The wide code units that encode one Unicode scalar value: a single unit
/// below 0x10000, otherwise a surrogate pair.
pub open spec fn wide_units_of_char(c: char) -> Seq<u16> {
    if (c as u32) < 0x10000 {
        seq![(c as u32) as u16]
    } else {
        seq![
            (0xD800 + ((c as u32 - 0x10000) / 0x400)) as u16,
            (0xDC00 + ((c as u32 - 0x10000) % 0x400)) as u16,
        ]
    }
}

/// The wide code units that encode a string, character by character.
pub open spec fn wide_units(s: Seq<char>) -> Seq<u16>
    decreases s.len(),
{
    if s.len() == 0 {
        Seq::empty()
    } else {
        wide_units_of_char(s[0]) + wide_units(s.drop_first())
    }
}

/// A well-formed null-terminated wide string: at least the terminator,
/// which is the only zero unit.
pub open spec fn is_c_wstr(w: Seq<u16>) -> bool {
    &&& w.len() >= 1
    &&& w.last() == 0
    &&& forall|i: int| 0 <= i < w.len() - 1 ==> w[i] != 0
}

/// The units of a null-terminated wide string without its terminator.
pub open spec fn c_content(w: Seq<u16>) -> Seq<u16> {
    w.take(w.len() - 1)
}

pub open spec fn is_high_surrogate(u: u16) -> bool {
    0xD800 <= u < 0xDC00
}

pub open spec fn is_low_surrogate(u: u16) -> bool {
    0xDC00 <= u < 0xE000
}

/// The scalar value encoded by a surrogate pair.
pub open spec fn combine_surrogates(hi: u16, lo: u16) -> char {
    ((0x10000 + (hi - 0xD800) * 0x400 + (lo - 0xDC00)) as u32) as char
}

/// Decodes a sequence of wide code units back into a string; `None` when
/// the sequence is ill-formed (a lone or misordered surrogate).
pub open spec fn decode_wide(w: Seq<u16>) -> Option<Seq<char>>
    decreases w.len(),
{
    if w.len() == 0 {
        Some(Seq::empty())
    } else if !is_high_surrogate(w[0]) && !is_low_surrogate(w[0]) {
        match decode_wide(w.drop_first()) {
            Some(rest) => Some(seq![(w[0] as u32) as char] + rest),
            None => None,
        }
    } else if is_high_surrogate(w[0]) && w.len() >= 2 && is_low_surrogate(w[1]) {
        match decode_wide(w.skip(2)) {
            Some(rest) => Some(seq![combine_surrogates(w[0], w[1])] + rest),
            None => None,
        }
    } else {
        None
    }
}

/// Encoding distributes over concatenation.
proof fn lemma_wide_units_concat(a: Seq<char>, b: Seq<char>)
    ensures
        wide_units(a + b) == wide_units(a) + wide_units(b),
    decreases a.len(),
{
    if a.len() == 0 {
        assert(a + b =~= b);
        assert(wide_units(a) + wide_units(b) =~= wide_units(b));
    } else {
        assert((a + b).drop_first() =~= a.drop_first() + b);
        lemma_wide_units_concat(a.drop_first(), b);
        assert(wide_units(a + b) =~= wide_units(a) + wide_units(b));
    }
}

/// Extending a string by one character appends that character's units.
proof fn lemma_wide_units_snoc(s: Seq<char>, i: int)
    requires
        0 <= i < s.len(),
    ensures
        wide_units(s.take(i + 1)) == wide_units(s.take(i)) + wide_units_of_char(s[i]),
{
    assert(s.take(i + 1) =~= s.take(i) + seq![s[i]]);
    lemma_wide_units_concat(s.take(i), seq![s[i]]);
    assert(seq![s[i]].drop_first() =~= Seq::<char>::empty());
    assert(wide_units(Seq::<char>::empty()) =~= Seq::<u16>::empty());
    assert(wide_units(seq![s[i]]) =~= wide_units_of_char(s[i]));
}

/// The encoding of a string without embedded nulls contains no zero unit.
proof fn lemma_wide_units_no_nul(s: Seq<char>)
    requires
        !has_nul(s),
    ensures
        forall|j: int| 0 <= j < wide_units(s).len() ==> wide_units(s)[j] != 0,
    decreases s.len(),
{
    if s.len() > 0 {
        let c0 = s[0];
        let u0 = wide_units_of_char(c0);
        assert(c0 != '\0');
        char_is_scalar(c0);
        assert(c0 as u32 != 0) by {
            if c0 as u32 == 0 {
                char_u32_cast(c0, 0);
                char_u32_cast('\0', 0);
            }
        }
        assert(forall|j: int| 0 <= j < u0.len() ==> u0[j] != 0) by {
            if (c0 as u32) < 0x10000 {
                assert(u0[0] as u32 == c0 as u32);
            } else {
                assert((c0 as u32 - 0x10000) / 0x400 < 0x400);
                assert(u0[0] >= 0xD800);
                assert(u0[1] >= 0xDC00);
            }
        }
        assert(!has_nul(s.drop_first())) by {
            assert(forall|i: int|
                0 <= i < s.drop_first().len() ==> s.drop_first()[i] == s[i + 1]);
        }
        lemma_wide_units_no_nul(s.drop_first());
        assert forall|j: int| 0 <= j < wide_units(s).len() implies wide_units(s)[j] != 0 by {
            assert(wide_units(s) == u0 + wide_units(s.drop_first()));
            if j < u0.len() {
                assert(wide_units(s)[j] == u0[j]);
            } else {
                assert(wide_units(s)[j] == wide_units(s.drop_first())[j - u0.len()]);
            }
        }
    }
}

/// Decoding the encoding of any string yields that string back.
///
/// This is the round-trip law for the wide-character form: no information
/// is lost by `wide_units`, and `decode_wide` inverts it exactly.
pub proof fn lemma_wide_round_trip(s: Seq<char>)
    ensures
        decode_wide(wide_units(s)) == Some(s),
    decreases s.len(),
{
    if s.len() == 0 {
    } else {
        let c = s[0];
        let u = wide_units_of_char(c);
        let w = wide_units(s);
        lemma_wide_round_trip(s.drop_first());
        char_is_scalar(c);
        assert(is_scalar(c as u32));
        if (c as u32) < 0x10000 {
            assert(w =~= u + wide_units(s.drop_first()));
            assert(w[0] == (c as u32) as u16);
            assert(w[0] as u32 == c as u32);
            assert(!is_high_surrogate(w[0]) && !is_low_surrogate(w[0]));
            assert(w.drop_first() =~= wide_units(s.drop_first()));
            char_u32_cast(c, w[0] as u32);
            assert((w[0] as u32) as char == c);
            assert(seq![c] + s.drop_first() =~= s);
        } else {
            let v = c as u32 - 0x10000;
            assert(0 <= v < 0x100000);
            let hi = (0xD800 + v / 0x400) as u16;
            let lo = (0xDC00 + v % 0x400) as u16;
            assert(v / 0x400 < 0x400);
            assert(v % 0x400 < 0x400);
            assert(w =~= u + wide_units(s.drop_first()));
            assert(w[0] == hi && w[1] == lo);
            assert(is_high_surrogate(hi) && is_low_surrogate(lo));
            assert(w.skip(2) =~= wide_units(s.drop_first()));
            assert((hi - 0xD800) * 0x400 + (lo - 0xDC00) == v) by {
                vstd::arithmetic::div_mod::lemma_fundamental_div_mod(v as int, 0x400);
            }
            assert(((0x10000 + (hi - 0xD800) * 0x400 + (lo - 0xDC00)) as u32) == c as u32);
            char_u32_cast(c, (0x10000 + (hi - 0xD800) * 0x400 + (lo - 0xDC00)) as u32);
            assert(combine_surrogates(hi, lo) == c);
            assert(seq![c] + s.drop_first() =~= s);
        }
    }
}

/// Relies on `char::from_u32` of std: it returns the character with the
/// given scalar value, and `None` exactly when the value is a surrogate
/// or lies above the Unicode range.
#[verifier::external_body]
fn char_from_u32(u: u32) -> (r: Option<char>)
    ensures
        r is Some <==> (u < 0xD800 || (0xE000 <= u && u <= 0x10FFFF)),
        r matches Some(c) ==> c as u32 == u,
{
    char::from_u32(u)
}

/// Relies on `String::push` of std: it appends exactly one character at
/// the end of the string.
#[verifier::external_body]
fn push_char(s: &mut String, c: char)
    ensures
        final(s)@ == old(s)@.push(c),
{
    s.push(c)
}

/// Encodes a string as a null-terminated wide string. Fails exactly when
/// the string contains an embedded null character; on success the result
/// is the wide encoding of the string followed by the zero terminator.
pub fn str_to_c_wstr(s: &str) -> (r: Option<Vec<u16>>)
    ensures
        match r {
            Some(v) => {
                &&& !has_nul(s@)
                &&& v@ == wide_units(s@) + seq![0u16]
                &&& is_c_wstr(v@)
            },
            None => has_nul(s@),
        },
{
    let len = s.unicode_len();
    let mut out: Vec<u16> = Vec::new();
    let mut i: usize = 0;
    while i < len
        invariant
            i <= len,
            len == s@.len(),
            forall|j: int| 0 <= j < i ==> s@[j] != '\0',
            out@ == wide_units(s@.take(i as int)),
        decreases len - i,
    {
        let c = s.get_char(i);
        if c == '\0' {
            return None;
        }
        proof {
            lemma_wide_units_snoc(s@, i as int);
        }
        let u = c as u32;
        if u < 0x10000 {
            out.push(u as u16);
            assert(out@ =~= wide_units(s@.take(i + 1)));
        } else {
            let v = u - 0x10000;
            out.push(0xD800u16 + (v / 0x400) as u16);
            out.push(0xDC00u16 + (v % 0x400) as u16);
            assert(out@ =~= wide_units(s@.take(i + 1)));
        }
        i += 1;
    }
    assert(s@.take(len as int) =~= s@);
    proof {
        lemma_wide_units_no_nul(s@);
    }
    out.push(0u16);
    assert(out@ =~= wide_units(s@) + seq![0u16]);
    Some(out)
}

/// Decodes a sequence of wide code units (without a terminator) back into
/// a string; fails exactly when the units are not a well-formed encoding.
pub fn wstr_to_string(w: &[u16]) -> (r: Option<String>)
    ensures
        match r {
            Some(t) => decode_wide(w@) == Some(t@),
            None => decode_wide(w@) is None,
        },
{
    let mut out = String::new();
    let mut i: usize = 0;
    proof {
        assert(w@.skip(0) =~= w@);
        if decode_wide(w@) is Some {
            assert(out@ + decode_wide(w@).unwrap() =~= decode_wide(w@).unwrap());
        }
    }
    while i < w.len()
        invariant
            i <= w.len(),
            decode_wide(w@) == match decode_wide(w@.skip(i as int)) {
                Some(rest) => Some(out@ + rest),
                None => None::<Seq<char>>,
            },
        decreases w.len() - i,
    {
        let u = w[i];
        if u < 0xD800 || u >= 0xE000 {
            let c = match char_from_u32(u as u32) {
                Some(c) => c,
                None => {
                    proof {
                        assert(false);
                    }
                    return None;
                },
            };
            proof {
                char_u32_cast(c, w@[i as int] as u32);
            }
            assert(c == (w@[i as int] as u32) as char);
            let ghost prev = out@;
            push_char(&mut out, c);
            proof {
                let tail = w@.skip(i as int);
                assert(tail.drop_first() =~= w@.skip(i + 1));
                assert(tail[0] == w@[i as int]);
                assert(!is_high_surrogate(tail[0]) && !is_low_surrogate(tail[0]));
                if decode_wide(w@.skip(i + 1)) is Some {
                    let rest = decode_wide(w@.skip(i + 1)).unwrap();
                    assert(prev + (seq![c] + rest) =~= prev.push(c) + rest);
                }
            }
            i += 1;
        } else if u < 0xDC00 && i + 1 < w.len() && w[i + 1] >= 0xDC00 && w[i + 1] < 0xE000 {
            let hi = u;
            let lo = w[i + 1];
            let scalar: u32 = 0x10000 + ((hi as u32) - 0xD800) * 0x400 + ((lo as u32) - 0xDC00);
            assert(0x10000 <= scalar <= 0x10FFFF);
            let c = match char_from_u32(scalar) {
                Some(c) => c,
                None => {
                    proof {
                        assert(false);
                    }
                    return None;
                },
            };
            proof {
                char_u32_cast(c, scalar);
            }
            assert(c == combine_surrogates(w@[i as int], w@[i + 1]));
            let ghost prev = out@;
            push_char(&mut out, c);
            proof {
                let tail = w@.skip(i as int);
                assert(tail.skip(2) =~= w@.skip(i + 2));
                assert(tail[0] == w@[i as int] && tail[1] == w@[i + 1]);
                assert(is_high_surrogate(tail[0]) && is_low_surrogate(tail[1]));
                if decode_wide(w@.skip(i + 2)) is Some {
                    let rest = decode_wide(w@.skip(i + 2)).unwrap();
                    assert(prev + (seq![c] + rest) =~= prev.push(c) + rest);
                }
            }
            i += 2;
        } else {
            proof {
                let tail = w@.skip(i as int);
                assert(tail[0] == w@[i as int]);
                if is_high_surrogate(tail[0]) && tail.len() >= 2 {
                    assert(tail[1] == w@[i + 1]);
                }
                assert(decode_wide(tail) is None);
            }
            return None;
        }
    }
    proof {
        assert(w@.skip(i as int) =~= Seq::<u16>::empty());
        assert(out@ + Seq::<char>::empty() =~= out@);
    }
    Some(out)
}

} // verus!
