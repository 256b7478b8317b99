//! String payload codecs for data-object chunks: UTF-16 little-endian and
//! single-byte text, with a proved round trip for the UTF-16 encoder.

use vstd::prelude::*;

use crate::DbError;
use crate::cursor::le16;
use crate::cursor::u16_of_le;

verus! {

/// Encoding of a data-object string payload, selected by the chunk's
/// encoding-indicator field.
#[derive(Clone, Copy, Debug, PartialEq, Eq, Structural)]
pub enum StrEncoding {
    /// One byte per character, the 256 first code points.
    SingleByte,
    /// UTF-16, little-endian code units, surrogate pairs allowed.
    Utf16Le,
}

/// The UTF-16 code units of one character.
pub open spec fn char_units(c: char) -> Seq<u16> {
    let v = c as u32;
    if v < 0x10000 {
        seq![v as u16]
    } else {
        seq![
            (0xD800 + (v - 0x10000) / 0x400) as u16,
            (0xDC00 + (v - 0x10000) % 0x400) as u16,
        ]
    }
}

/// The UTF-16 code units of a character sequence.
pub open spec fn units_of(s: Seq<char>) -> Seq<u16>
    decreases s.len(),
{
    if s.len() == 0 {
        Seq::empty()
    } else {
        char_units(s[0]) + units_of(s.drop_first())
    }
}

/// Little-endian bytes of a code-unit sequence.
pub open spec fn bytes_of_units(us: Seq<u16>) -> Seq<u8>
    decreases us.len(),
{
    if us.len() == 0 {
        Seq::empty()
    } else {
        le16(us[0]) + bytes_of_units(us.drop_first())
    }
}

/// The UTF-16LE byte payload of a character sequence.
pub open spec fn utf16le_bytes(s: Seq<char>) -> Seq<u8> {
    bytes_of_units(units_of(s))
}

/// Code units read little-endian from an even-length byte sequence.
pub open spec fn units_from(b: Seq<u8>) -> Seq<u16>
    decreases b.len(),
{
    if b.len() < 2 {
        Seq::empty()
    } else {
        seq![u16_of_le(b[0], b[1]) as u16] + units_from(b.skip(2))
    }
}

/// Characters of a UTF-16 code-unit sequence; `None` on a lone or misordered
/// surrogate.
pub open spec fn chars_of_units(us: Seq<u16>) -> Option<Seq<char>>
    decreases us.len(),
{
    if us.len() == 0 {
        Some(Seq::empty())
    } else {
        let u0 = us[0];
        if u0 < 0xD800 || u0 >= 0xE000 {
            match chars_of_units(us.drop_first()) {
                Some(t) => Some(seq![((u0 as u32) as char)] + t),
                None => None,
            }
        } else if u0 < 0xDC00 && us.len() >= 2 && 0xDC00 <= us[1] && us[1] < 0xE000 {
            let v = 0x10000 + (u0 - 0xD800) * 0x400 + (us[1] - 0xDC00);
            match chars_of_units(us.skip(2)) {
                Some(t) => Some(seq![((v as u32) as char)] + t),
                None => None,
            }
        } else {
            None
        }
    }
}

/// Characters of a single-byte payload.
pub open spec fn latin1_chars(b: Seq<u8>) -> Seq<char> {
    Seq::new(b.len(), |i: int| (b[i] as u32) as char)
}

/// What a payload decodes to: `None` means the payload is malformed for the
/// claimed encoding (an odd UTF-16 byte length, or an invalid surrogate).
pub open spec fn decode_spec(b: Seq<u8>, enc: StrEncoding) -> Option<Seq<char>> {
    match enc {
        StrEncoding::SingleByte => Some(latin1_chars(b)),
        StrEncoding::Utf16Le => if b.len() % 2 == 0 {
            chars_of_units(units_from(b))
        } else {
            None
        },
    }
}

/// Relies on char::from_u32: returns `Some` exactly on Unicode scalar values
/// (not a surrogate, at most 0x10FFFF), and the returned character has the
/// given value.
#[verifier::external_body]
fn char_from_u32(v: u32) -> (r: Option<char>)
    ensures
        r is Some <==> (v < 0xD800 || (0xE000 <= v && v <= 0x10FFFF)),
        r matches Some(c) ==> c as u32 == v,
{
    char::from_u32(v)
}

/// Relies on String::push: appends exactly the given character.
#[verifier::external_body]
fn push_char(s: &mut String, c: char)
    ensures
        final(s)@ == old(s)@.push(c),
{
    s.push(c)
}

pub proof fn lemma_units_of_snoc(s: Seq<char>, i: int)
    requires
        0 <= i < s.len(),
    ensures
        units_of(s.take(i + 1)) == units_of(s.take(i)) + char_units(s[i]),
    decreases i,
{
    let a = s.take(i + 1);
    let b = s.take(i);
    if i == 0 {
        assert(a =~= seq![s[0]]);
        assert(a[0] == s[0]);
        assert(a.drop_first() =~= Seq::<char>::empty());
        assert(char_units(s[0]) + units_of(Seq::<char>::empty()) =~= char_units(s[0]));
        assert(units_of(b) + char_units(s[0]) =~= char_units(s[0]));
    } else {
        lemma_units_of_snoc(s.drop_first(), i - 1);
        assert(a[0] == s[0] && b[0] == s[0]);
        assert(a.drop_first() =~= s.drop_first().take(i));
        assert(b.drop_first() =~= s.drop_first().take(i - 1));
        assert(s.drop_first()[i - 1] == s[i]);
        assert(char_units(a[0]) + (units_of(b.drop_first()) + char_units(s[i])) =~= (char_units(
            b[0],
        ) + units_of(b.drop_first())) + char_units(s[i]));
    }
}

pub proof fn lemma_bytes_of_units_concat(a: Seq<u16>, b: Seq<u16>)
    ensures
        bytes_of_units(a + b) == bytes_of_units(a) + bytes_of_units(b),
    decreases a.len(),
{
    if a.len() == 0 {
        assert(a + b =~= b);
        assert(bytes_of_units(a) + bytes_of_units(b) =~= bytes_of_units(b));
    } else {
        lemma_bytes_of_units_concat(a.drop_first(), b);
        assert((a + b).drop_first() =~= a.drop_first() + b);
        assert(le16((a + b)[0]) + (bytes_of_units(a.drop_first()) + bytes_of_units(b)) =~= (le16(
            a[0],
        ) + bytes_of_units(a.drop_first())) + bytes_of_units(b));
    }
}

/// Encodes a string as UTF-16 little-endian payload bytes.
#[verifier::rlimit(80)]
pub fn encode_utf16le(s: &str) -> (r: Vec<u8>)
    ensures
        r@ == utf16le_bytes(s@),
        r@.len() % 2 == 0,
{
    let n = s.unicode_len();
    let mut out: Vec<u8> = Vec::new();
    let mut i: usize = 0;
    proof {
        assert(s@.take(0) =~= Seq::<char>::empty());
        assert(out@ =~= bytes_of_units(units_of(s@.take(0))));
    }
    while i < n
        invariant
            i <= n,
            n == s@.len(),
            out@ == bytes_of_units(units_of(s@.take(i as int))),
            out@.len() % 2 == 0,
        decreases n - i,
    {
        let c = s.get_char(i);
        let v = c as u32;
        proof {
            vstd::utf8::char_is_scalar(c);
        }
        if v < 0x10000 {
            let u = v as u16;
            out.push((u % 0x100) as u8);
            out.push(((u / 0x100) % 0x100) as u8);
            proof {
                lemma_units_of_snoc(s@, i as int);
                lemma_bytes_of_units_concat(units_of(s@.take(i as int)), char_units(c));
                assert(char_units(c).drop_first() =~= Seq::<u16>::empty());
                assert(le16(u) + bytes_of_units(Seq::<u16>::empty()) =~= le16(u));
                assert(out@ =~= bytes_of_units(units_of(s@.take(i as int))) + le16(u));
            }
        } else {
            let hi: u16 = (0xD800 + (v - 0x10000) / 0x400) as u16;
            let lo: u16 = (0xDC00 + (v - 0x10000) % 0x400) as u16;
            out.push((hi % 0x100) as u8);
            out.push(((hi / 0x100) % 0x100) as u8);
            out.push((lo % 0x100) as u8);
            out.push(((lo / 0x100) % 0x100) as u8);
            proof {
                lemma_units_of_snoc(s@, i as int);
                lemma_bytes_of_units_concat(units_of(s@.take(i as int)), char_units(c));
                reveal_with_fuel(bytes_of_units, 3);
                assert(char_units(c).drop_first() =~= seq![lo]);
                assert(seq![lo].drop_first() =~= Seq::<u16>::empty());
                assert(le16(lo) + bytes_of_units(Seq::<u16>::empty()) =~= le16(lo));
                assert(bytes_of_units(char_units(c)) =~= le16(hi) + le16(lo));
                assert(out@ =~= bytes_of_units(units_of(s@.take(i as int))) + (le16(hi) + le16(
                    lo,
                )));
            }
        }
        i = i + 1;
    }
    proof {
        assert(s@.take(n as int) =~= s@);
    }
    out
}

/// Decodes a payload in the given encoding; `DbError::Encoding` exactly when
/// the payload is malformed for that encoding.
pub fn decode_string(bytes: &Vec<u8>, enc: StrEncoding) -> (r: Result<String, DbError>)
    ensures
        match r {
            Ok(s) => decode_spec(bytes@, enc) == Some(s@),
            Err(e) => e == DbError::Encoding && decode_spec(bytes@, enc) is None,
        },
{
    match enc {
        StrEncoding::SingleByte => {
            let mut out = String::new();
            let mut i: usize = 0;
            proof {
                assert(out@ =~= latin1_chars(bytes@).take(0));
            }
            while i < bytes.len()
                invariant
                    i <= bytes@.len(),
                    out@ == latin1_chars(bytes@).take(i as int),
                decreases bytes@.len() - i,
            {
                let b = bytes[i];
                let ghost prev = out@;
                let mut c0: char = ' ';
                match char_from_u32(b as u32) {
                    Some(c) => {
                        c0 = c;
                        push_char(&mut out, c);
                    },
                    None => {
                        proof {
                            assert(false);
                        }
                    },
                }
                i = i + 1;
                proof {
                    vstd::utf8::char_u32_cast(c0, b as u32);
                    assert(latin1_chars(bytes@)[i - 1] == c0);
                    assert(out@ =~= latin1_chars(bytes@).take(i as int));
                }
            }
            proof {
                assert(latin1_chars(bytes@).take(bytes@.len() as int) =~= latin1_chars(bytes@));
            }
            Ok(out)
        },
        StrEncoding::Utf16Le => {
            if bytes.len() % 2 != 0 {
                return Err(DbError::Encoding);
            }
            let mut units: Vec<u16> = Vec::new();
            let mut i: usize = 0;
            proof {
                assert(bytes@.skip(0) =~= bytes@);
                assert(units@ + units_from(bytes@) =~= units_from(bytes@));
            }
            while i < bytes.len()
                invariant
                    i <= bytes@.len(),
                    i % 2 == 0,
                    bytes@.len() % 2 == 0,
                    bytes@.len() <= usize::MAX,
                    units@.len() == i / 2,
                    units@ + units_from(bytes@.skip(i as int)) == units_from(bytes@),
                decreases bytes@.len() - i,
            {
                let b0 = bytes[i];
                let b1 = bytes[i + 1];
                let u: u16 = b0 as u16 + 0x100 * (b1 as u16);
                let ghost prev_units = units@;
                units.push(u);
                proof {
                    let rest = bytes@.skip(i as int);
                    assert(rest[0] == b0 && rest[1] == b1);
                    assert(rest.skip(2) =~= bytes@.skip(i + 2));
                    assert(units_from(rest) == seq![u] + units_from(bytes@.skip(i + 2)));
                    assert(units@ =~= prev_units + seq![u]);
                    assert(prev_units + (seq![u] + units_from(bytes@.skip(i + 2))) =~= units@
                        + units_from(bytes@.skip(i + 2)));
                }
                i = i + 2;
            }
            proof {
                assert(bytes@.skip(bytes@.len() as int) =~= Seq::<u8>::empty());
                assert(units@ + units_from(Seq::<u8>::empty()) =~= units@);
            }
            decode_units(&units)
        },
    }
}

/// Decodes UTF-16 code units into a string; `DbError::Encoding` exactly on an
/// invalid surrogate sequence.
fn decode_units(units: &Vec<u16>) -> (r: Result<String, DbError>)
    ensures
        match r {
            Ok(s) => chars_of_units(units@) == Some(s@),
            Err(e) => e == DbError::Encoding && chars_of_units(units@) is None,
        },
{
    let mut out = String::new();
    let mut i: usize = 0;
    let n = units.len();
    proof {
        assert(n == units@.len());
        assert(units@.skip(0) =~= units@);
        assert forall|t: Seq<char>| chars_of_units(units@.skip(0)) == Some::<Seq<char>>(t) implies
            chars_of_units(units@) == Some::<Seq<char>>(out@ + t) by {
            assert(out@ + t =~= t);
        }
    }
    while i < units.len()
        invariant
            i <= units@.len(),
            units@.len() <= usize::MAX,
            forall|t: Seq<char>|
                chars_of_units(units@.skip(i as int)) == Some::<Seq<char>>(t)
                    ==> chars_of_units(units@) == Some::<Seq<char>>(out@ + t),
            chars_of_units(units@.skip(i as int)) is None ==> chars_of_units(units@) is None,
        decreases units@.len() - i,
    {
        let u0 = units[i];
        let ghost rest = units@.skip(i as int);
        let ghost prev = out@;
        if u0 < 0xD800 || u0 >= 0xE000 {
            let mut c0: char = ' ';
            match char_from_u32(u0 as u32) {
                Some(c) => {
                    c0 = c;
                    push_char(&mut out, c);
                },
                None => {
                    proof {
                        assert(false);
                    }
                },
            }
            i = i + 1;
            proof {
                vstd::utf8::char_u32_cast(c0, u0 as u32);
                assert(rest.drop_first() =~= units@.skip(i as int));
                assert forall|t: Seq<char>|
                    chars_of_units(units@.skip(i as int)) == Some::<Seq<char>>(t) implies
                    chars_of_units(units@) == Some::<Seq<char>>(out@ + t) by {
                    assert(chars_of_units(rest) == Some(seq![c0] + t));
                    assert(prev + (seq![c0] + t) =~= out@ + t);
                }
            }
        } else if u0 < 0xDC00 && i + 1 < units.len() && 0xDC00 <= units[i + 1] && units[i + 1]
            < 0xE000 {
            let u1 = units[i + 1];
            let v: u32 = 0x10000 + (u0 as u32 - 0xD800) * 0x400 + (u1 as u32 - 0xDC00);
            let mut c0: char = ' ';
            match char_from_u32(v) {
                Some(c) => {
                    c0 = c;
                    push_char(&mut out, c);
                },
                None => {
                    proof {
                        assert(false);
                    }
                },
            }
            i = i + 2;
            proof {
                vstd::utf8::char_u32_cast(c0, v);
                assert(rest.skip(2) =~= units@.skip(i as int));
                assert(rest[0] == u0 && rest[1] == u1);
                assert(0x10000 + (rest[0] - 0xD800) * 0x400 + (rest[1] - 0xDC00) == v as int);
                assert forall|t: Seq<char>|
                    chars_of_units(units@.skip(i as int)) == Some::<Seq<char>>(t) implies
                    chars_of_units(units@) == Some::<Seq<char>>(out@ + t) by {
                    assert(chars_of_units(rest) == Some(seq![c0] + t));
                    assert(prev + (seq![c0] + t) =~= out@ + t);
                }
            }
        } else {
            proof {
                assert(chars_of_units(rest) is None);
            }
            return Err(DbError::Encoding);
        }
    }
    proof {
        assert(units@.skip(units@.len() as int) =~= Seq::<u16>::empty());
        assert(out@ + Seq::<char>::empty() =~= out@);
    }
    Ok(out)
}

/// The UTF-16 round trip: any string's encoded payload is even-length and
/// decodes back to the same characters.
pub proof fn lemma_utf16_roundtrip(s: Seq<char>)
    ensures
        utf16le_bytes(s).len() % 2 == 0,
        decode_spec(utf16le_bytes(s), StrEncoding::Utf16Le) == Some(s),
{
    lemma_units_from_bytes(units_of(s));
    lemma_chars_of_units_of(s);
}

/// Reading code units back from their own little-endian bytes is the
/// identity.
pub proof fn lemma_units_from_bytes(us: Seq<u16>)
    ensures
        bytes_of_units(us).len() == 2 * us.len(),
        units_from(bytes_of_units(us)) == us,
    decreases us.len(),
{
    if us.len() == 0 {
        assert(units_from(bytes_of_units(us)) =~= us);
    } else {
        lemma_units_from_bytes(us.drop_first());
        let b = bytes_of_units(us);
        crate::cursor::lemma_le16_roundtrip(us[0]);
        assert(b.skip(2) =~= bytes_of_units(us.drop_first()));
        assert(units_from(b) =~= us);
    }
}

/// Decoding the code units of a character sequence gives it back.
pub proof fn lemma_chars_of_units_of(s: Seq<char>)
    ensures
        chars_of_units(units_of(s)) == Some(s),
    decreases s.len(),
{
    if s.len() == 0 {
        assert(chars_of_units(units_of(s)) =~= Some(s));
    } else {
        lemma_chars_of_units_of(s.drop_first());
        let c = s[0];
        vstd::utf8::char_is_scalar(c);
        let v = c as u32;
        let us = units_of(s);
        if v < 0x10000 {
            assert(us.drop_first() =~= units_of(s.drop_first()));
            assert(us[0] == v as u16);
            assert(us[0] as u32 == v);
            vstd::utf8::char_u32_cast(c, v);
            assert(((us[0] as u32) as char) == c);
            assert(seq![c] + s.drop_first() =~= s);
        } else {
            assert(us[0] == (0xD800 + (v - 0x10000) / 0x400) as u16);
            assert(us[1] == (0xDC00 + (v - 0x10000) % 0x400) as u16);
            assert(us.skip(2) =~= units_of(s.drop_first()));
            let w = 0x10000 + (us[0] - 0xD800) * 0x400 + (us[1] - 0xDC00);
            assert(w == v as int);
            vstd::utf8::char_u32_cast(c, v);
            assert(((w as u32) as char) == c);
            assert(seq![c] + s.drop_first() =~= s);
        }
    }
}

} // verus!
