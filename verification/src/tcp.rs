//! Listening TCP sockets: the Linux `/proc/net/tcp` tables and the
//! byte order of the port numbers in IP Helper tables.
//!
//! Reading the tables and the socket inodes of a process is the caller's
//! part; this module reads a table's text.
use vstd::prelude::*;
use crate::argv::{eq_str, views};
use crate::text::{join, join_from, 
    chars_of, cut, debug_quoted, debug_text, decimal, decimal_string, lines, owned, piece,
    push_char, push_str, split_lines, split_once, split_words, string_of, words,
};

verus! {

/// `x` with its two bytes exchanged.
pub open spec fn swapped(x: u16) -> u16 {
    ((x % 256) * 256 + x / 256) as u16
}

/// `u16::from_be`: on a big-endian machine `x` itself, on a little-endian
/// one `x` with its bytes exchanged. Which of the two holds is a fact of the
/// machine, so the contract names both.
#[verifier::external_body]
fn from_network_order(x: u16) -> (r: u16)
    ensures
        r == x || r == swapped(x),
{
    u16::from_be(x)
}

/// The port number held in network byte order in the low 16 bits of
/// `value` (as IP Helper tables store it).
pub fn port(value: u32) -> (r: u16)
    ensures
        r == (value % 65536) as u16 || r == swapped((value % 65536) as u16),
{
    let low = (value % 65536) as u16;
    from_network_order(low)
}

/// A listening socket: its IP address octets (four for IPv4, sixteen for
/// IPv6) and its port.
#[derive(Clone, Debug, PartialEq, Eq)]
pub struct Listener {
    pub octets: Vec<u8>,
    pub port: u16,
}

/// A listener as plain values.
pub type ListenerView = (Seq<u8>, u16);

impl View for Listener {
    type V = ListenerView;

    open spec fn view(&self) -> ListenerView {
        (self.octets@, self.port)
    }
}

/// The value of a hexadecimal digit (either case).
pub open spec fn hex_of(c: char) -> Option<nat> {
    if '0' <= c && c <= '9' {
        Some((c as nat - '0' as nat) as nat)
    } else if 'a' <= c && c <= 'f' {
        Some((c as nat - 'a' as nat + 10) as nat)
    } else if 'A' <= c && c <= 'F' {
        Some((c as nat - 'A' as nat + 10) as nat)
    } else {
        None
    }
}

/// The message of an empty number.
pub open spec fn empty_number() -> Seq<char> {
    "cannot parse integer from empty string"@
}

/// The message of a character that is not a digit.
pub open spec fn invalid_digit() -> Seq<char> {
    "invalid digit found in string"@
}

/// The message of a number above its type's maximum.
pub open spec fn too_large() -> Seq<char> {
    "number too large to fit in target type"@
}

/// The digits `d` read after `acc`, from the left: the first character
/// that is no digit, or the first digit that takes the value above `max`,
/// ends the reading with its message.
pub open spec fn hex_run(d: Seq<char>, acc: nat, max: nat) -> Result<nat, Seq<char>>
    decreases d.len(),
{
    if d.len() == 0 {
        Ok(acc)
    } else {
        match hex_of(d[0]) {
            None => Err(invalid_digit()),
            Some(x) => if acc * 16 + x > max {
                Err(too_large())
            } else {
                hex_run(d.drop_first(), acc * 16 + x, max)
            },
        }
    }
}

/// An unsigned hexadecimal number of at most `max` (`from_str_radix` with
/// radix 16): an optional `+`, then digits.
pub open spec fn hex_number(s: Seq<char>, max: nat) -> Result<nat, Seq<char>> {
    if s.len() == 0 {
        Err(empty_number())
    } else if s.len() == 1 && (s[0] == '+' || s[0] == '-') {
        Err(invalid_digit())
    } else if s[0] == '+' {
        hex_run(s.drop_first(), 0, max)
    } else {
        hex_run(s, 0, max)
    }
}

/// The number of bytes of a character in UTF-8.
pub open spec fn utf8_width(c: char) -> nat {
    if (c as u32) < 0x80 {
        1
    } else if (c as u32) < 0x800 {
        2
    } else if (c as u32) < 0x10000 {
        3
    } else {
        4
    }
}

/// The number of bytes of `s` in UTF-8.
pub open spec fn byte_len(s: Seq<char>) -> nat
    decreases s.len(),
{
    if s.len() == 0 {
        0
    } else {
        utf8_width(s[0]) + byte_len(s.drop_first())
    }
}

/// Whether every character of `s` is ASCII.
pub open spec fn ascii(s: Seq<char>) -> bool {
    forall|i: int| 0 <= i < s.len() ==> (s[i] as u32) < 0x80
}

/// The four bytes of `raw`, least significant first.
pub open spec fn le_bytes(raw: nat) -> Seq<u8> {
    seq![
        (raw % 256) as u8,
        (raw / 256 % 256) as u8,
        (raw / 65536 % 256) as u8,
        (raw / 16777216 % 256) as u8,
    ]
}

/// The sixteen bytes of an IPv6 address column: four words of eight
/// hexadecimal digits, each stored least significant byte first.
pub open spec fn v6_words(addr: Seq<char>, k: nat) -> Result<Seq<u8>, Seq<char>>
    decreases 4 - k,
{
    if k >= 4 {
        Ok(seq![])
    } else {
        match hex_number(addr.subrange(8 * k as int, 8 * k as int + 8), u32::MAX as nat) {
            Err(e) => Err(e),
            Ok(w) => match v6_words(addr, k + 1) {
                Err(e) => Err(e),
                Ok(rest) => Ok(le_bytes(w) + rest),
            },
        }
    }
}

/// The listener that a `local_address` column (`ADDR:PORT`, in hex) names.
pub open spec fn address_of(value: Seq<char>) -> Result<ListenerView, Seq<char>> {
    match split_once(value, ':') {
        None => Err("invalid /proc tcp local_address "@ + debug_text(value)),
        Some((addr, port)) => match hex_number(port, u16::MAX as nat) {
            Err(e) => Err("invalid /proc tcp port "@ + debug_text(port) + ": "@ + e),
            Ok(p) => if byte_len(addr) == 8 {
                match hex_number(addr, u32::MAX as nat) {
                    Err(e) => Err("invalid /proc tcp IPv4 address "@ + debug_text(addr) + ": "@ + e),
                    Ok(raw) => Ok((le_bytes(raw), p as u16)),
                }
            } else if byte_len(addr) == 32 {
                match v6_words(addr, 0) {
                    Err(e) => Err("invalid /proc tcp IPv6 address "@ + debug_text(addr) + ": "@ + e),
                    Ok(bytes) => Ok((bytes, p as u16)),
                }
            } else {
                Err("invalid /proc tcp address width "@ + debug_text(addr))
            },
        },
    }
}

/// Whether a table line is a listening socket (state `0A`) whose inode is
/// one of `inodes`.
pub open spec fn selected(cols: Seq<Seq<char>>, inodes: Seq<Seq<char>>) -> bool {
    cols.len() > 9 && cols[3] == "0A"@ && inodes.contains(cols[9])
}

/// The listeners of the table lines `ls`, in order, or the message of the
/// first selected line whose address cannot be read.
pub open spec fn table_rows(ls: Seq<Seq<char>>, inodes: Seq<Seq<char>>) -> Result<Seq<ListenerView>, Seq<char>>
    decreases ls.len(),
{
    if ls.len() == 0 {
        Ok(seq![])
    } else {
        let cols = words(ls[0]);
        if selected(cols, inodes) {
            match address_of(cols[1]) {
                Err(e) => Err(e),
                Ok(l) => match table_rows(ls.drop_first(), inodes) {
                    Err(e) => Err(e),
                    Ok(rest) => Ok(seq![l] + rest),
                },
            }
        } else {
            table_rows(ls.drop_first(), inodes)
        }
    }
}

/// The listeners of a `/proc/net/tcp` (or `tcp6`) table: the lines after
/// the header that are listening sockets of one of `inodes`.
pub open spec fn table_of(text: Seq<char>, inodes: Seq<Seq<char>>) -> Result<Seq<ListenerView>, Seq<char>> {
    if lines(text).len() == 0 {
        Ok(seq![])
    } else {
        table_rows(lines(text).drop_first(), inodes)
    }
}

/// Whether reading the address column `value` stays within whole
/// characters: an address part of 32 bytes is read in slices of 8 bytes,
/// which needs ASCII text.
pub open spec fn readable(value: Seq<char>) -> bool {
    match split_once(value, ':') {
        None => true,
        Some((addr, _)) => byte_len(addr) == 32 ==> ascii(addr),
    }
}

/// Whether every selected line of `text` has a readable address column.
pub open spec fn table_readable(text: Seq<char>, inodes: Seq<Seq<char>>) -> bool {
    forall|i: int|
        1 <= i < lines(text).len() && selected(#[trigger] words(lines(text)[i]), inodes) ==> readable(
            words(lines(text)[i])[1],
        )
}

fn hex_digit_of(c: char) -> (r: Option<u64>)
    ensures
        match hex_of(c) {
            Some(v) => r == Some(v as u64) && v < 16,
            None => r is None,
        },
{
    if '0' <= c && c <= '9' {
        Some((c as u64) - ('0' as u64))
    } else if 'a' <= c && c <= 'f' {
        Some((c as u64) - ('a' as u64) + 10)
    } else if 'A' <= c && c <= 'F' {
        Some((c as u64) - ('A' as u64) + 10)
    } else {
        None
    }
}

/// Reads an unsigned hexadecimal number of at most `max`.
fn hex_parse(s: &[char], max: u64) -> (r: Result<u64, String>)
    ensures
        match hex_number(s@, max as nat) {
            Ok(v) => r == Ok::<u64, String>(v as u64) && v <= max,
            Err(e) => r matches Err(m) && m@ == e,
        },
        r matches Ok(v) ==> v <= max,
{
    if s.len() == 0 {
        return Err(owned("cannot parse integer from empty string"));
    }
    if s.len() == 1 && (s[0] == '+' || s[0] == '-') {
        return Err(owned("invalid digit found in string"));
    }
    let mut i: usize = if s[0] == '+' {
        1
    } else {
        0
    };
    let ghost d = if s@[0] == '+' {
        s@.drop_first()
    } else {
        s@
    };
    assert(s@.skip(i as int) =~= d);
    let mut acc: u64 = 0;
    while i < s.len()
        invariant
            i <= s@.len(),
            acc <= max,
            hex_number(s@, max as nat) == hex_run(d, 0, max as nat),
            hex_run(d, 0, max as nat) == hex_run(s@.skip(i as int), acc as nat, max as nat),
        decreases s@.len() - i,
    {
        let ghost rest = s@.skip(i as int);
        assert(rest[0] == s@[i as int]);
        assert(rest.drop_first() =~= s@.skip(i + 1));
        match hex_digit_of(s[i]) {
            None => {
                return Err(owned("invalid digit found in string"));
            },
            Some(x) => {
                if x > max || acc > (max - x) / 16 {
                    assert(acc * 16 + x > max) by (nonlinear_arith)
                        requires
                            x > max || acc > (max - x) / 16,
                            x < 16,
                    ;
                    return Err(owned("number too large to fit in target type"));
                }
                assert(acc * 16 + x <= max) by (nonlinear_arith)
                    requires
                        x <= max,
                        acc <= (max - x) / 16,
                ;
                acc = acc * 16 + x;
            },
        }
        i = i + 1;
    }
    assert(s@.skip(i as int) =~= Seq::<char>::empty());
    Ok(acc)
}

/// The four bytes of `raw`, least significant first.
fn le_bytes_of(raw: u64, out: &mut Vec<u8>)
    requires
        raw <= u32::MAX,
    ensures
        final(out)@ == old(out)@ + le_bytes(raw as nat),
{
    out.push((raw % 256) as u8);
    out.push((raw / 256 % 256) as u8);
    out.push((raw / 65536 % 256) as u8);
    out.push((raw / 16777216 % 256) as u8);
    assert(out@ =~= old(out)@ + le_bytes(raw as nat));
}

proof fn lemma_byte_len_push(a: Seq<char>, c: char)
    ensures
        byte_len(a.push(c)) == byte_len(a) + utf8_width(c),
    decreases a.len(),
{
    if a.len() == 0 {
        assert(a.push(c).drop_first() =~= Seq::<char>::empty());
        assert(a.push(c)[0] == c);
        assert(byte_len(Seq::<char>::empty()) == 0);
        assert(byte_len(a.push(c)) == utf8_width(c) + byte_len(a.push(c).drop_first()));
    } else {
        lemma_byte_len_push(a.drop_first(), c);
        assert(a.push(c).drop_first() =~= a.drop_first().push(c));
        assert(a.push(c)[0] == a[0]);
    }
}

proof fn lemma_ascii_len(s: Seq<char>)
    requires
        ascii(s),
    ensures
        byte_len(s) == s.len(),
    decreases s.len(),
{
    if s.len() > 0 {
        assert(ascii(s.drop_first()));
        lemma_ascii_len(s.drop_first());
    }
}

/// The number of bytes of `s` in UTF-8, or 33 when that is more than 32.
fn width_class(s: &[char]) -> (r: u64)
    ensures
        r == if byte_len(s@) > 32 {
            33
        } else {
            byte_len(s@)
        },
{
    let mut r: u64 = 0;
    let mut i: usize = 0;
    assert(s@.take(0) =~= Seq::<char>::empty());
    while i < s.len()
        invariant
            i <= s@.len(),
            r == if byte_len(s@.take(i as int)) > 32 {
                33
            } else {
                byte_len(s@.take(i as int))
            },
        decreases s@.len() - i,
    {
        let c = s[i];
        let w: u64 = if (c as u32) < 0x80 {
            1
        } else if (c as u32) < 0x800 {
            2
        } else if (c as u32) < 0x10000 {
            3
        } else {
            4
        };
        proof {
            lemma_byte_len_push(s@.take(i as int), c);
            assert(s@.take(i + 1) =~= s@.take(i as int).push(c));
        }
        if r < 33 {
            r = r + w;
            if r > 32 {
                r = 33;
            }
        }
        i = i + 1;
    }
    assert(s@.take(i as int) =~= s@);
    r
}

/// The listener that a `local_address` column names.
fn address(value: &[char]) -> (r: Result<Listener, String>)
    requires
        readable(value@),
    ensures
        match address_of(value@) {
            Ok(l) => r matches Ok(x) && x@ == l,
            Err(e) => r matches Err(m) && m@ == e,
        },
        r matches Ok(x) ==> x.octets@.len() == 4 || x.octets@.len() == 16,
{
    let (addr, port_text) = match cut(value, ':') {
        None => {
            let shown = debug_quoted(string_of(value).as_str());
            let mut m = owned("invalid /proc tcp local_address ");
            push_str(&mut m, shown.as_str());
            return Err(m);
        },
        Some(parts) => parts,
    };
    let port = match hex_parse(&port_text, 65535) {
        Err(e) => {
            let shown = debug_quoted(string_of(&port_text).as_str());
            let mut m = owned("invalid /proc tcp port ");
            push_str(&mut m, shown.as_str());
            push_str(&mut m, ": ");
            push_str(&mut m, e.as_str());
            return Err(m);
        },
        Ok(p) => p as u16,
    };
    let width = width_class(&addr);
    let mut octets: Vec<u8> = Vec::new();
    if width == 8 {
        match hex_parse(&addr, 0xffff_ffff) {
            Err(e) => {
                let shown = debug_quoted(string_of(&addr).as_str());
                let mut m = owned("invalid /proc tcp IPv4 address ");
                push_str(&mut m, shown.as_str());
                push_str(&mut m, ": ");
                push_str(&mut m, e.as_str());
                return Err(m);
            },
            Ok(raw) => {
                le_bytes_of(raw, &mut octets);
                assert(octets@ =~= le_bytes(raw as nat));
            },
        }
    } else if width == 32 {
        proof {
            lemma_ascii_len(addr@);
        }
        let mut k: usize = 0;
        assert(octets@ + Seq::<u8>::empty() =~= Seq::<u8>::empty());
        while k < 4
            invariant
                k <= 4,
                addr@.len() == 32,
                octets@.len() == 4 * k,
                byte_len(addr@) == 32,
                split_once(value@, ':') == Some((addr@, port_text@)),
                hex_number(port_text@, u16::MAX as nat) == Ok::<nat, Seq<char>>(port as nat),
                v6_words(addr@, 0) == match v6_words(addr@, k as nat) {
                    Ok(rest) => Ok(octets@ + rest),
                    Err(e) => Err(e),
                },
            decreases 4 - k,
        {
            let word = piece(&addr, 8 * k, 8 * k + 8);
            assert(word@ =~= addr@.subrange(8 * k as int, 8 * k as int + 8));
            let ghost before = octets@;
            assert(v6_words(addr@, k as nat) == match hex_number(word@, u32::MAX as nat) {
                Err(e) => Err(e),
                Ok(w) => match v6_words(addr@, (k + 1) as nat) {
                    Err(e) => Err(e),
                    Ok(rest) => Ok(le_bytes(w) + rest),
                },
            });
            match hex_parse(&word, 0xffff_ffff) {
                Err(e) => {
                    let shown = debug_quoted(string_of(&addr).as_str());
                    let mut m = owned("invalid /proc tcp IPv6 address ");
                    push_str(&mut m, shown.as_str());
                    push_str(&mut m, ": ");
                    push_str(&mut m, e.as_str());
                    return Err(m);
                },
                Ok(w) => {
                    le_bytes_of(w, &mut octets);
                    proof {
                        match v6_words(addr@, (k + 1) as nat) {
                            Ok(rest) => {
                                assert(before + (le_bytes(w as nat) + rest) =~= octets@ + rest);
                            },
                            Err(_) => {},
                        }
                    }
                },
            }
            k = k + 1;
        }
        assert(v6_words(addr@, 4) == Ok::<Seq<u8>, Seq<char>>(Seq::<u8>::empty()));
        assert(octets@ + Seq::<u8>::empty() =~= octets@);
    } else {
        let shown = debug_quoted(string_of(&addr).as_str());
        let mut m = owned("invalid /proc tcp address width ");
        push_str(&mut m, shown.as_str());
        return Err(m);
    }
    Ok(Listener { octets, port })
}

/// Whether `key` is one of `inodes`.
fn member(inodes: &Vec<String>, key: &str) -> (r: bool)
    ensures
        r == views(inodes@).contains(key@),
{
    let mut i: usize = 0;
    while i < inodes.len()
        invariant
            i <= inodes@.len(),
            forall|j: int| 0 <= j < i ==> inodes@[j]@ != key@,
        decreases inodes@.len() - i,
    {
        if eq_str(&inodes[i], key) {
            assert(views(inodes@)[i as int] == key@);
            return true;
        }
        i = i + 1;
    }
    assert forall|j: int| 0 <= j < views(inodes@).len() implies views(inodes@)[j] != key@ by {
        assert(views(inodes@)[j] == inodes@[j]@);
    }
    false
}

fn all_ascii(s: &[char]) -> (r: bool)
    ensures
        r == ascii(s@),
{
    let mut k: usize = 0;
    while k < s.len()
        invariant
            k <= s@.len(),
            forall|t: int| 0 <= t < k ==> (s@[t] as u32) < 0x80,
        decreases s@.len() - k,
    {
        if (s[k] as u32) >= 0x80 {
            return false;
        }
        k = k + 1;
    }
    true
}

/// Whether `table` can read `text`: every selected line's address column
/// stays within whole characters when it is read in 8-byte slices.
pub fn readable_table(text: &str, inodes: &Vec<String>) -> (r: bool)
    ensures
        r == table_readable(text@, views(inodes@)),
{
    let chars = chars_of(text);
    let ls = split_lines(&chars);
    let ghost all = lines(text@);
    let ghost keys = views(inodes@);
    let mut i: usize = 1;
    while i < ls.len()
        invariant
            1 <= i,
            ls@.len() == all.len(),
            forall|k: int| 0 <= k < ls@.len() ==> #[trigger] ls@[k]@ == all[k],
            all == lines(text@),
            keys == views(inodes@),
            forall|j: int|
                1 <= j < i && j < all.len() && selected(#[trigger] words(all[j]), keys) ==> readable(
                    words(all[j])[1],
                ),
        decreases ls@.len() - i,
    {
        assert(ls@[i as int]@ == all[i as int]);
        let cols = split_words(&ls[i]);
        if cols.len() > 9 {
            let state = string_of(&cols[3]);
            let inode = string_of(&cols[9]);
            proof {
                reveal_strlit("0A");
            }
            if eq_str(&state, "0A") && member(inodes, inode.as_str()) {
                assert(selected(words(all[i as int]), keys));
                match cut(&cols[1], ':') {
                    None => {},
                    Some((addr, _)) => {
                        if width_class(&addr) == 32 && !all_ascii(&addr) {
                            assert(!readable(words(all[i as int])[1]));
                            return false;
                        }
                    },
                }
            } else {
                assert(!selected(words(all[i as int]), keys));
            }
        } else {
            assert(!selected(words(all[i as int]), keys));
        }
        i = i + 1;
    }
    true
}

/// The views of listeners.
pub open spec fn listener_views(v: Seq<Listener>) -> Seq<ListenerView> {
    v.map_values(|l: Listener| l@)
}

/// The listening sockets of a `/proc/net/tcp` (or `tcp6`) table that
/// belong to one of the socket inodes `inodes`, in table order, or the
/// message of the first such line whose address cannot be read.
pub fn table(text: &str, inodes: &Vec<String>) -> (r: Result<Vec<Listener>, String>)
    requires
        table_readable(text@, views(inodes@)),
    ensures
        match table_of(text@, views(inodes@)) {
            Ok(v) => r matches Ok(x) && listener_views(x@) == v,
            Err(e) => r matches Err(m) && m@ == e,
        },
        r matches Ok(x) ==> forall|k: int|
            0 <= k < x@.len() ==> #[trigger] x@[k].octets@.len() == 4 || x@[k].octets@.len() == 16,
{
    let chars = chars_of(text);
    let ls = split_lines(&chars);
    let ghost all = lines(text@);
    let ghost keys = views(inodes@);
    let mut out: Vec<Listener> = Vec::new();
    if ls.len() == 0 {
        return Ok(out);
    }
    let mut i: usize = 1;
    assert(all.skip(1) =~= all.drop_first());
    while i < ls.len()
        invariant
            1 <= i <= ls@.len(),
            ls@.len() == all.len(),
            forall|k: int| 0 <= k < ls@.len() ==> #[trigger] ls@[k]@ == all[k],
            all == lines(text@),
            keys == views(inodes@),
            table_readable(text@, keys),
            forall|k: int|
                0 <= k < out@.len() ==> #[trigger] out@[k].octets@.len() == 4 || out@[k].octets@.len()
                    == 16,
            table_of(text@, keys) == match table_rows(all.skip(i as int), keys) {
                Ok(rest) => Ok(listener_views(out@) + rest),
                Err(e) => Err(e),
            },
        decreases ls@.len() - i,
    {
        let ghost line = all[i as int];
        assert(ls@[i as int]@ == line);
        assert(all.skip(i as int)[0] == line);
        assert(all.skip(i as int).drop_first() =~= all.skip(i + 1));
        let cols = split_words(&ls[i]);
        let ghost cv = words(line);
        let ghost before = listener_views(out@);
        let mut keep = false;
        if cols.len() > 9 {
            let state = string_of(&cols[3]);
            let inode = string_of(&cols[9]);
            proof {
                reveal_strlit("0A");
            }
            keep = eq_str(&state, "0A") && member(inodes, inode.as_str());
        }
        assert(keep == selected(cv, keys));
        if keep {
            assert(readable(cv[1]));
            match address(&cols[1]) {
                Err(e) => {
                    return Err(e);
                },
                Ok(l) => {
                    out.push(l);
                    proof {
                        match table_rows(all.skip(i + 1), keys) {
                            Ok(rest) => {
                                assert(before + (seq![l@] + rest) =~= listener_views(out@) + rest);
                            },
                            Err(_) => {},
                        }
                    }
                },
            }
        }
        i = i + 1;
    }
    assert(all.skip(i as int) =~= Seq::<Seq<char>>::empty());
    assert(listener_views(out@) + Seq::<ListenerView>::empty() =~= listener_views(out@));
    Ok(out)
}

/// The character of the hexadecimal digit `d` (below sixteen), lower case.
pub open spec fn hex_char(d: nat) -> char {
    if d < 10 {
        ((d + '0' as nat) as u32) as char
    } else {
        ((d - 10 + 'a' as nat) as u32) as char
    }
}

/// The shortest lower-case hexadecimal rendering of `n` (`{:x}`).
pub open spec fn hex_text(n: nat) -> Seq<char>
    decreases n,
{
    if n < 16 {
        seq![hex_char(n)]
    } else {
        hex_text(n / 16).push(hex_char(n % 16))
    }
}

/// Four octets written as `a.b.c.d`.
pub open spec fn dotted(o: Seq<u8>) -> Seq<char> {
    decimal(o[0] as nat) + seq!['.'] + decimal(o[1] as nat) + seq!['.'] + decimal(o[2] as nat)
        + seq!['.'] + decimal(o[3] as nat)
}

/// The eight 16-bit groups of sixteen octets.
pub open spec fn segments(o: Seq<u8>) -> Seq<nat> {
    Seq::new(8, |k: int| (o[2 * k] as nat) * 256 + o[2 * k + 1] as nat)
}

/// Groups written in hexadecimal and joined with `:`.
pub open spec fn groups_text(g: Seq<nat>) -> Seq<char> {
    join(g.map_values(|x: nat| hex_text(x)), seq![':'])
}

/// The first longest run of zero groups from index `i` on, given the run
/// `cur` (start, length) that ends just before `i` and the longest run
/// `best` found so far.
pub open spec fn zero_scan(g: Seq<nat>, i: int, cur: (int, int), best: (int, int)) -> (int, int)
    decreases g.len() - i,
{
    if i >= g.len() {
        best
    } else if g[i] == 0 {
        let next = if cur.1 == 0 {
            (i, 1)
        } else {
            (cur.0, cur.1 + 1)
        };
        zero_scan(g, i + 1, next, if next.1 > best.1 {
            next
        } else {
            best
        })
    } else {
        zero_scan(g, i + 1, (0, 0), best)
    }
}

/// Whether sixteen octets hold an IPv4-mapped address (`::ffff:a.b.c.d`).
pub open spec fn v4_mapped(o: Seq<u8>) -> bool {
    (forall|k: int| 0 <= k < 10 ==> o[k] == 0) && o[10] == 0xff && o[11] == 0xff
}

/// Sixteen octets written as an IPv6 address (as `Ipv6Addr` displays
/// them): an IPv4-mapped address as `::ffff:a.b.c.d`, else the groups in
/// hexadecimal with the first longest run of two or more zero groups
/// written `::`.
pub open spec fn v6_text(o: Seq<u8>) -> Seq<char> {
    if v4_mapped(o) {
        "::ffff:"@ + dotted(o.subrange(12, 16))
    } else {
        let g = segments(o);
        let run = zero_scan(g, 0, (0, 0), (0, 0));
        if run.1 > 1 {
            groups_text(g.take(run.0)) + "::"@ + groups_text(g.skip(run.0 + run.1))
        } else {
            groups_text(g)
        }
    }
}

/// A listener written as a socket address (as `SocketAddr` displays it).
pub open spec fn socket_text(l: ListenerView) -> Seq<char> {
    if l.0.len() == 4 {
        dotted(l.0) + seq![':'] + decimal(l.1 as nat)
    } else {
        seq!['['] + v6_text(l.0) + "]:"@ + decimal(l.1 as nat)
    }
}

fn hex_digit_char(d: u64) -> (r: char)
    requires
        d < 16,
    ensures
        r == hex_char(d as nat),
{
    if d < 10 {
        let b: u8 = d as u8 + 48;
        b as char
    } else {
        let b: u8 = d as u8 + 87;
        b as char
    }
}

fn hex_string(n: u64) -> (r: String)
    ensures
        r@ == hex_text(n as nat),
    decreases n,
{
    if n < 16 {
        let mut s = String::new();
        push_char(&mut s, hex_digit_char(n));
        assert(s@ =~= hex_text(n as nat));
        s
    } else {
        let mut s = hex_string(n / 16);
        push_char(&mut s, hex_digit_char(n % 16));
        s
    }
}

fn dotted_string(o: &[u8]) -> (r: String)
    requires
        o@.len() >= 4,
    ensures
        r@ == dotted(o@),
{
    let mut s = decimal_string(o[0] as u64);
    push_char(&mut s, '.');
    push_str(&mut s, decimal_string(o[1] as u64).as_str());
    push_char(&mut s, '.');
    push_str(&mut s, decimal_string(o[2] as u64).as_str());
    push_char(&mut s, '.');
    push_str(&mut s, decimal_string(o[3] as u64).as_str());
    s
}

/// The groups `g[a..b]` written in hexadecimal and joined with `:`.
fn groups_string(g: &Vec<u64>, a: usize, b: usize) -> (r: String)
    requires
        a <= b <= g@.len(),
    ensures
        r@ == groups_text(g@.subrange(a as int, b as int).map_values(|x: u64| x as nat)),
{
    let mut parts: Vec<String> = Vec::new();
    let mut i: usize = a;
    while i < b
        invariant
            a <= i <= b,
            b <= g@.len(),
            parts@.map_values(|x: String| x@) == g@.subrange(a as int, i as int).map_values(
                |x: u64| hex_text(x as nat),
            ),
        decreases b - i,
    {
        let ghost before = parts@.map_values(|x: String| x@);
        let h = hex_string(g[i]);
        parts.push(h);
        assert(parts@.map_values(|x: String| x@) =~= before.push(hex_text(g@[i as int] as nat)));
        assert(g@.subrange(a as int, i + 1) =~= g@.subrange(a as int, i as int).push(g@[i as int]));
        assert(parts@.map_values(|x: String| x@) =~= g@.subrange(a as int, i + 1).map_values(
            |x: u64| hex_text(x as nat),
        ));
        i = i + 1;
    }
    let r = join_from(&parts, 0, ":");
    assert(parts@.map_values(|x: String| x@).skip(0) =~= parts@.map_values(|x: String| x@));
    assert(g@.subrange(a as int, b as int).map_values(|x: u64| x as nat).map_values(
        |x: nat| hex_text(x),
    ) =~= g@.subrange(a as int, b as int).map_values(|x: u64| hex_text(x as nat)));
    proof {
        reveal_strlit(":");
    }
    assert(":"@ =~= seq![':']);
    r
}

impl Listener {
    /// This listener written as a socket address.
    pub fn to_string(&self) -> (r: String)
        requires
            self.octets@.len() == 4 || self.octets@.len() == 16,
        ensures
            r@ == socket_text(self@),
    {
        let o = self.octets.as_slice();
        if o.len() == 4 {
            let mut s = dotted_string(o);
            push_char(&mut s, ':');
            push_str(&mut s, decimal_string(self.port as u64).as_str());
            return s;
        }
        let mut s = owned("[");
        let mut mapped = o[10] == 0xff && o[11] == 0xff;
        let mut k: usize = 0;
        while k < 10
            invariant
                k <= 10,
                o@.len() == 16,
                mapped == (o@[10] == 0xff && o@[11] == 0xff && forall|j: int| 0 <= j < k ==> o@[j] == 0),
            decreases 10 - k,
        {
            if o[k] != 0 {
                mapped = false;
            }
            k = k + 1;
        }
        if mapped {
            push_str(&mut s, "::ffff:");
            let tail = piece_u8(o, 12, 16);
            push_str(&mut s, dotted_string(&tail).as_str());
            proof {
                reveal_strlit("::ffff:");
            }
        } else {
            let mut g: Vec<u64> = Vec::new();
            let mut j: usize = 0;
            while j < 8
                invariant
                    j <= 8,
                    o@.len() == 16,
                    g@.len() == j,
                    forall|t: int| 0 <= t < j ==> #[trigger] g@[t] as nat == segments(o@)[t],
                decreases 8 - j,
            {
                g.push((o[2 * j] as u64) * 256 + (o[2 * j + 1] as u64));
                j = j + 1;
            }
            let ghost gs = segments(o@);
            assert(g@.map_values(|x: u64| x as nat) =~= gs);
            let mut cur: (usize, usize) = (0, 0);
            let mut best: (usize, usize) = (0, 0);
            let mut i: usize = 0;
            while i < 8
                invariant
                    i <= 8,
                    g@.len() == 8,
                    g@.map_values(|x: u64| x as nat) == gs,
                    cur.1 <= i,
                    best.1 <= 8,
                    best.0 + best.1 <= 8,
                    zero_scan(gs, 0, (0, 0), (0, 0)) == zero_scan(
                        gs,
                        i as int,
                        (cur.0 as int, cur.1 as int),
                        (best.0 as int, best.1 as int),
                    ),
                    cur.1 > 0 ==> cur.0 + cur.1 == i,
                decreases 8 - i,
            {
                assert(gs[i as int] == g@[i as int] as nat);
                if g[i] == 0 {
                    cur = if cur.1 == 0 {
                        (i, 1)
                    } else {
                        (cur.0, cur.1 + 1)
                    };
                    if cur.1 > best.1 {
                        best = cur;
                    }
                } else {
                    cur = (0, 0);
                }
                i = i + 1;
            }
            if best.1 > 1 {
                push_str(&mut s, groups_string(&g, 0, best.0).as_str());
                push_str(&mut s, "::");
                push_str(&mut s, groups_string(&g, best.0 + best.1, 8).as_str());
                proof {
                    reveal_strlit("::");
                    assert(gs.take(best.0 as int) =~= g@.subrange(0, best.0 as int).map_values(
                        |x: u64| x as nat,
                    ));
                    assert(gs.skip(best.0 + best.1) =~= g@.subrange(best.0 + best.1, 8).map_values(
                        |x: u64| x as nat,
                    ));
                }
            } else {
                push_str(&mut s, groups_string(&g, 0, 8).as_str());
                assert(gs =~= g@.subrange(0, 8).map_values(|x: u64| x as nat));
            }
        }
        push_str(&mut s, "]:");
        push_str(&mut s, decimal_string(self.port as u64).as_str());
        proof {
            reveal_strlit("[");
            reveal_strlit("]:");
        }
        s
    }
}

/// The bytes `s[a..b]`.
fn piece_u8(s: &[u8], a: usize, b: usize) -> (r: Vec<u8>)
    requires
        a <= b <= s@.len(),
    ensures
        r@ == s@.subrange(a as int, b as int),
{
    let mut out: Vec<u8> = Vec::new();
    let mut i: usize = a;
    while i < b
        invariant
            a <= i <= b,
            b <= s@.len(),
            out@ == s@.subrange(a as int, i as int),
        decreases b - i,
    {
        out.push(s[i]);
        assert(s@.subrange(a as int, i + 1) =~= s@.subrange(a as int, i as int).push(s@[i as int]));
        i = i + 1;
    }
    out
}

} // verus!
