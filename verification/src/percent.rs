//! Percent-encoding of stamp and broker identity values.
//!
//! A value is taken as its UTF-8 bytes; the unreserved bytes (ASCII letters,
//! digits, `-`, `.`, `_`) stand for themselves and every other byte becomes
//! `%` followed by two upper-case hexadecimal digits.
use vstd::prelude::*;
use vstd::utf8::*;
use crate::text::{ascii_chars, owned, push_char, utf8_string};

verus! {

/// Whether `b` may stand for itself in an encoded value.
pub open spec fn unreserved(b: u8) -> bool {
    ||| (48 <= b && b <= 57)
    ||| (65 <= b && b <= 90)
    ||| (97 <= b && b <= 122)
    ||| b == 45
    ||| b == 46
    ||| b == 95
}

/// The upper-case hexadecimal digit (as a byte) of `v`, below sixteen.
pub open spec fn hex_digit(v: u8) -> u8 {
    if v < 10 {
        (48 + v) as u8
    } else {
        (55 + v) as u8
    }
}

/// The value of a hexadecimal digit byte (either case).
pub open spec fn hex_value(b: u8) -> Option<u8> {
    if 48 <= b && b <= 57 {
        Some((b - 48) as u8)
    } else if 97 <= b && b <= 102 {
        Some((b - 87) as u8)
    } else if 65 <= b && b <= 70 {
        Some((b - 55) as u8)
    } else {
        None
    }
}

/// The encoding of one byte.
pub open spec fn escape_byte(b: u8) -> Seq<u8> {
    if unreserved(b) {
        seq![b]
    } else {
        seq![37u8, hex_digit(b / 16), hex_digit(b % 16)]
    }
}

/// The encoding of a byte string.
pub open spec fn escape(bytes: Seq<u8>) -> Seq<u8>
    decreases bytes.len(),
{
    if bytes.len() == 0 {
        seq![]
    } else {
        escape_byte(bytes[0]) + escape(bytes.drop_first())
    }
}

/// The bytes that an encoded byte string stands for; `None` where a `%` is
/// not followed by two hexadecimal digits.
pub open spec fn unescape(bytes: Seq<u8>) -> Option<Seq<u8>>
    decreases bytes.len(),
{
    if bytes.len() == 0 {
        Some(seq![])
    } else if bytes[0] == 37 {
        if bytes.len() >= 3 && hex_value(bytes[1]) is Some && hex_value(bytes[2]) is Some {
            match unescape(bytes.skip(3)) {
                Some(rest) => Some(
                    seq![(hex_value(bytes[1])->0 * 16 + hex_value(bytes[2])->0) as u8] + rest,
                ),
                None => None,
            }
        } else {
            None
        }
    } else {
        match unescape(bytes.drop_first()) {
            Some(rest) => Some(seq![bytes[0]] + rest),
            None => None,
        }
    }
}

/// The encoding of the text `s`.
pub open spec fn encoded(s: Seq<char>) -> Seq<char> {
    ascii_chars(escape(encode_utf8(s)))
}

/// The message given for a `%` that two hexadecimal digits do not follow.
pub open spec fn escape_error() -> Seq<char> {
    "stamp value contains invalid percent escape"@
}

/// The message given when the decoded bytes are not UTF-8.
pub open spec fn utf8_error() -> Seq<char> {
    "stamp value is not valid UTF-8"@
}

/// What decoding the text `s` gives.
pub open spec fn decoded(s: Seq<char>) -> Result<Seq<char>, Seq<char>> {
    match unescape(encode_utf8(s)) {
        None => Err(escape_error()),
        Some(b) => if valid_utf8(b) {
            Ok(decode_utf8(b))
        } else {
            Err(utf8_error())
        },
    }
}

fn is_unreserved(b: u8) -> (r: bool)
    ensures
        r == unreserved(b),
{
    (48 <= b && b <= 57) || (65 <= b && b <= 90) || (97 <= b && b <= 122) || b == 45 || b == 46
        || b == 95
}

fn hex_encode(v: u8) -> (r: u8)
    requires
        v < 16,
    ensures
        r == hex_digit(v),
{
    if v < 10 {
        48 + v
    } else {
        55 + v
    }
}

fn hex_decode(b: u8) -> (r: Option<u8>)
    ensures
        r == hex_value(b),
{
    if 48 <= b && b <= 57 {
        Some(b - 48)
    } else if 97 <= b && b <= 102 {
        Some(b - 87)
    } else if 65 <= b && b <= 70 {
        Some(b - 55)
    } else {
        None
    }
}

/// Percent-encodes `value`.
pub fn encode(value: &str) -> (r: String)
    ensures
        r@ == encoded(value@),
{
    let bytes = value.as_bytes();
    let ghost all = bytes@;
    assert(all == encode_utf8(value@));
    let mut out = String::new();
    let ghost mut done: Seq<u8> = seq![];
    let mut i: usize = 0;
    assert(all.skip(0) =~= all);
    assert(out@ =~= ascii_chars(done));
    while i < bytes.len()
        invariant
            all == bytes@,
            i <= all.len(),
            out@ == ascii_chars(done),
            escape(all) == done + escape(all.skip(i as int)),
        decreases all.len() - i,
    {
        let b = bytes[i];
        let ghost before = done;
        assert(all.skip(i as int).drop_first() =~= all.skip(i + 1));
        assert(all.skip(i as int)[0] == b);
        if is_unreserved(b) {
            push_char(&mut out, b as char);
            proof {
                done = done + seq![b];
            }
        } else {
            let hi = hex_encode(b / 16);
            let lo = hex_encode(b % 16);
            push_char(&mut out, '%');
            push_char(&mut out, hi as char);
            push_char(&mut out, lo as char);
            proof {
                done = done + seq![37u8, hi, lo];
            }
        }
        assert(out@ =~= ascii_chars(done));
        i = i + 1;
        assert(escape(all) =~= done + escape(all.skip(i as int)));
    }
    assert(all.skip(i as int) =~= Seq::<u8>::empty());
    assert(done =~= escape(all));
    out
}

/// Percent-decodes `value`.
pub fn decode(value: &str) -> (r: Result<String, String>)
    ensures
        match decoded(value@) {
            Ok(s) => r matches Ok(t) && t@ == s,
            Err(e) => r matches Err(m) && m@ == e,
        },
{
    let bytes = value.as_bytes();
    let ghost all = bytes@;
    let mut out: Vec<u8> = Vec::new();
    let mut index: usize = 0;
    assert(all.skip(0) =~= all);
    while index < bytes.len()
        invariant
            all == bytes@,
            all == encode_utf8(value@),
            index <= all.len(),
            unescape(all) == match unescape(all.skip(index as int)) {
                Some(rest) => Some(out@ + rest),
                None => None,
            },
        decreases all.len() - index,
    {
        let ghost rest = all.skip(index as int);
        if bytes[index] == 37 {
            let high = if bytes.len() - index > 1 {
                hex_decode(bytes[index + 1])
            } else {
                None
            };
            let low = if bytes.len() - index > 2 {
                hex_decode(bytes[index + 2])
            } else {
                None
            };
            match (high, low) {
                (Some(h), Some(l)) => {
                    assert(rest[1] == all[index + 1]);
                    assert(rest[2] == all[index + 2]);
                    assert(rest.skip(3) =~= all.skip(index + 3));
                    let v: u8 = h * 16 + l;
                    out.push(v);
                    index = index + 3;
                },
                _ => {
                    assert(unescape(rest) is None);
                    return Err(owned("stamp value contains invalid percent escape"));
                },
            }
        } else {
            let b = bytes[index];
            assert(rest.drop_first() =~= all.skip(index + 1));
            out.push(b);
            index = index + 1;
        }
    }
    assert(all.skip(index as int) =~= Seq::<u8>::empty());
    assert(unescape(all) == Some(out@));
    match utf8_string(out) {
        Some(s) => Ok(s),
        None => Err(owned("stamp value is not valid UTF-8")),
    }
}

/// Whether `c` can occur in an encoded value: an unreserved character or `%`.
pub open spec fn encoded_char(c: char) -> bool {
    ||| ('0' <= c && c <= '9')
    ||| ('A' <= c && c <= 'Z')
    ||| ('a' <= c && c <= 'z')
    ||| c == '-'
    ||| c == '.'
    ||| c == '_'
    ||| c == '%'
}

proof fn lemma_escape_bytes(b: Seq<u8>)
    ensures
        forall|i: int| 0 <= i < escape(b).len() ==> (unreserved(#[trigger] escape(b)[i]) || escape(b)[i] == 37),
    decreases b.len(),
{
    if b.len() > 0 {
        lemma_escape_bytes(b.drop_first());
        let head = escape_byte(b[0]);
        let tail = escape(b.drop_first());
        assert(escape(b) == head + tail);
        assert forall|i: int| 0 <= i < escape(b).len() implies (unreserved(#[trigger] escape(b)[i]) || escape(b)[i] == 37) by {
            if i >= head.len() {
                assert(escape(b)[i] == tail[i - head.len()]);
            }
        }
    }
}

proof fn lemma_unescape_escape(b: Seq<u8>)
    ensures
        unescape(escape(b)) == Some(b),
    decreases b.len(),
{
    if b.len() == 0 {
        assert(escape(b) =~= Seq::<u8>::empty());
    } else {
        lemma_unescape_escape(b.drop_first());
        let e = escape(b);
        let tail = escape(b.drop_first());
        let x = b[0];
        if unreserved(x) {
            assert(e.drop_first() =~= tail);
            assert(b =~= seq![x] + b.drop_first());
        } else {
            let hi = x / 16;
            let lo = x % 16;
            assert(e[1] == hex_digit(hi));
            assert(e[2] == hex_digit(lo));
            assert(hex_value(hex_digit(hi)) == Some(hi));
            assert(hex_value(hex_digit(lo)) == Some(lo));
            assert(e.skip(3) =~= tail);
            assert((hi * 16 + lo) as u8 == x);
            assert(b =~= seq![x] + b.drop_first());
        }
    }
}

proof fn lemma_ascii_round(e: Seq<u8>)
    requires
        forall|i: int| 0 <= i < e.len() ==> #[trigger] e[i] < 128,
    ensures
        is_ascii_chars(ascii_chars(e)),
        encode_utf8(ascii_chars(e)) == e,
{
    let c = ascii_chars(e);
    assert forall|i: int| 0 <= i < c.len() implies '\0' <= #[trigger] c[i] <= '\u{7f}' by {
        assert(c[i] == e[i] as char);
        assert(e[i] < 128);
    }
    is_ascii_chars_encode_utf8(c);
    assert forall|i: int| 0 <= i < e.len() implies #[trigger] encode_utf8(c)[i] == e[i] by {
        assert(c[i] as u8 == encode_utf8(c)[i]);
        let x = e[i];
        assert((x as char) as u8 == x);
    }
    assert(encode_utf8(c) =~= e);
}

/// Decoding an encoded value gives the value back: for every text `s`,
/// `decode(encode(s))` is `Ok(s)`.
pub proof fn lemma_decode_encode(s: Seq<char>)
    ensures
        decoded(encoded(s)) == Ok::<Seq<char>, Seq<char>>(s),
{
    let b = encode_utf8(s);
    let e = escape(b);
    lemma_escape_bytes(b);
    assert forall|i: int| 0 <= i < e.len() implies #[trigger] e[i] < 128 by {
        assert(unreserved(e[i]) || e[i] == 37);
    }
    lemma_ascii_round(e);
    lemma_unescape_escape(b);
    encode_utf8_valid_utf8(s);
    encode_utf8_decode_utf8(s);
}

/// An encoded value holds only unreserved characters and `%`: never `;`,
/// `=` or white space, so it can stand in a `key=value;...` list.
pub proof fn lemma_encoded_chars(s: Seq<char>)
    ensures
        forall|i: int| 0 <= i < encoded(s).len() ==> encoded_char(#[trigger] encoded(s)[i]),
{
    let e = escape(encode_utf8(s));
    lemma_escape_bytes(encode_utf8(s));
    assert forall|i: int| 0 <= i < encoded(s).len() implies encoded_char(#[trigger] encoded(s)[i]) by {
        assert(encoded(s)[i] == e[i] as char);
        assert(unreserved(e[i]) || e[i] == 37);
    }
}

} // verus!
