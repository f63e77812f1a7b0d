//! The packed `--sidecar-stamp` argument that identifies a launched target.
//!
//! A stamp is written as `v=<version>;a=<app>;n=<namespace>;m=<mode>;s=<source>`
//! with an optional `;e=<endpoint>`, every value percent-encoded.
use vstd::prelude::*;
use crate::argv::{flag_in, flag_value, opt_view, views};
use crate::percent::{decoded, encoded, encoded_char, lemma_decode_encode, lemma_encoded_chars};
use crate::text::{
    chars_of, debug_quoted, debug_text, decimal, decimal_string, decimal_value, owned, parse_decimal,
    push_char, push_str, split, split_char, split_once, string_of, cut, lemma_split_cons,
    lemma_split_single, lemma_split_once_at, starts_with,
};

pub mod default;

verus! {

/// The flag that carries a stamp on a command line.
pub const FLAG: &'static str = "--sidecar-stamp";

/// The stamp protocol version that sidecar writes and accepts.
pub const VERSION: u8 = 1;

/// The identity that sidecar appends to a launched target's arguments.
#[derive(Clone, Debug, PartialEq, Eq)]
pub struct Stamp {
    pub version: u8,
    pub app: String,
    pub namespace: String,
    pub mode: String,
    pub source: String,
    pub endpoint: Option<String>,
}

/// A stamp as plain values.
pub struct StampView {
    pub version: u8,
    pub app: Seq<char>,
    pub namespace: Seq<char>,
    pub mode: Seq<char>,
    pub source: Seq<char>,
    pub endpoint: Option<Seq<char>>,
}

impl View for Stamp {
    type V = StampView;

    open spec fn view(&self) -> StampView {
        StampView {
            version: self.version,
            app: self.app@,
            namespace: self.namespace@,
            mode: self.mode@,
            source: self.source@,
            endpoint: opt_view(self.endpoint),
        }
    }
}

/// `key=value` with the value percent-encoded.
pub open spec fn pair(key: char, value: Seq<char>) -> Seq<char> {
    seq![key, '='] + encoded(value)
}

/// The packed text of a stamp.
pub open spec fn stamp_text(s: StampView) -> Seq<char> {
    seq!['v', '='] + decimal(s.version as nat) + seq![';'] + pair('a', s.app) + seq![';'] + pair(
        'n',
        s.namespace,
    ) + seq![';'] + pair('m', s.mode) + seq![';'] + pair('s', s.source) + match s.endpoint {
        Some(e) => seq![';'] + pair('e', e),
        None => Seq::<char>::empty(),
    }
}

/// The command-line argument that carries a stamp.
pub open spec fn stamp_arg(s: StampView) -> Seq<char> {
    FLAG@.push('=') + stamp_text(s)
}

/// The stamp fields read so far while decoding.
pub struct Fields {
    pub version: Option<u8>,
    pub app: Option<Seq<char>>,
    pub namespace: Option<Seq<char>>,
    pub mode: Option<Seq<char>>,
    pub source: Option<Seq<char>>,
    pub endpoint: Option<Seq<char>>,
}

/// No field read yet.
pub open spec fn no_fields() -> Fields {
    Fields {
        version: None,
        app: None,
        namespace: None,
        mode: None,
        source: None,
        endpoint: None,
    }
}

/// The message for a segment without `=`.
pub open spec fn segment_error() -> Seq<char> {
    "stamp segment must use key=value form"@
}

/// The message for a key given twice.
pub open spec fn duplicate_error(key: Seq<char>) -> Seq<char> {
    "duplicate stamp key "@ + debug_text(key)
}

/// The message for a key that a stamp does not have.
pub open spec fn unknown_error(key: Seq<char>) -> Seq<char> {
    "unknown stamp key "@ + debug_text(key)
}

/// The message for a version that is not a `u8`.
pub open spec fn version_error() -> Seq<char> {
    "stamp version must be an integer"@
}

/// The message for a version other than [`VERSION`].
pub open spec fn unsupported_error(v: u8) -> Seq<char> {
    "unsupported stamp version "@ + decimal(v as nat)
}

/// The message for a required key that is absent.
pub open spec fn missing_error(key: char) -> Seq<char> {
    "stamp missing "@ + debug_text(seq![key])
}

/// The version that a `v` value gives.
pub open spec fn vetted(value: Seq<char>) -> Result<u8, Seq<char>> {
    match decimal_value(value) {
        Some(n) => if n <= 255 {
            if n == VERSION as nat {
                Ok(VERSION)
            } else {
                Err(unsupported_error(n as u8))
            }
        } else {
            Err(version_error())
        },
        None => Err(version_error()),
    }
}

/// The fields after reading one decoded `key=value` segment.
pub open spec fn absorb(f: Fields, key: Seq<char>, value: Seq<char>) -> Result<Fields, Seq<char>> {
    if key == seq!['v'] {
        if f.version is None {
            match vetted(value) {
                Ok(v) => Ok(Fields { version: Some(v), ..f }),
                Err(e) => Err(e),
            }
        } else {
            Err(duplicate_error(key))
        }
    } else if key == seq!['a'] {
        if f.app is None {
            Ok(Fields { app: Some(value), ..f })
        } else {
            Err(duplicate_error(key))
        }
    } else if key == seq!['n'] {
        if f.namespace is None {
            Ok(Fields { namespace: Some(value), ..f })
        } else {
            Err(duplicate_error(key))
        }
    } else if key == seq!['m'] {
        if f.mode is None {
            Ok(Fields { mode: Some(value), ..f })
        } else {
            Err(duplicate_error(key))
        }
    } else if key == seq!['s'] {
        if f.source is None {
            Ok(Fields { source: Some(value), ..f })
        } else {
            Err(duplicate_error(key))
        }
    } else if key == seq!['e'] {
        if f.endpoint is None {
            Ok(Fields { endpoint: Some(value), ..f })
        } else {
            Err(duplicate_error(key))
        }
    } else {
        Err(unknown_error(key))
    }
}

/// The fields after reading the segments `segs` in order, or the first error.
pub open spec fn scan(segs: Seq<Seq<char>>, f: Fields) -> Result<Fields, Seq<char>>
    decreases segs.len(),
{
    if segs.len() == 0 {
        Ok(f)
    } else {
        match split_once(segs[0], '=') {
            None => Err(segment_error()),
            Some((key, raw)) => match decoded(raw) {
                Err(e) => Err(e),
                Ok(value) => match absorb(f, key, value) {
                    Ok(g) => scan(segs.drop_first(), g),
                    Err(e) => Err(e),
                },
            },
        }
    }
}

/// The stamp that complete fields make; without `lenient` the version is
/// required too, with it an absent version reads as [`VERSION`].
pub open spec fn finish(f: Fields, lenient: bool) -> Result<StampView, Seq<char>> {
    if f.version is None && !lenient {
        Err(missing_error('v'))
    } else if f.app is None {
        Err(missing_error('a'))
    } else if f.namespace is None {
        Err(missing_error('n'))
    } else if f.mode is None {
        Err(missing_error('m'))
    } else if f.source is None {
        Err(missing_error('s'))
    } else {
        Ok(
            StampView {
                version: match f.version {
                    Some(v) => v,
                    None => VERSION,
                },
                app: f.app->0,
                namespace: f.namespace->0,
                mode: f.mode->0,
                source: f.source->0,
                endpoint: f.endpoint,
            },
        )
    }
}

/// What decoding the packed text `value` gives.
pub open spec fn decode_text(value: Seq<char>, lenient: bool) -> Result<StampView, Seq<char>> {
    match scan(split(value, ';'), no_fields()) {
        Ok(f) => finish(f, lenient),
        Err(e) => Err(e),
    }
}

/// The stamp that a command line carries, if one decodes.
pub open spec fn stamp_in(args: Seq<Seq<char>>, lenient: bool) -> Option<StampView> {
    match flag_value(args, FLAG@) {
        Some(v) => match decode_text(v, lenient) {
            Ok(s) => Some(s),
            Err(_) => None,
        },
        None => None,
    }
}

/// The view of an optional stamp.
pub open spec fn opt_stamp(o: Option<Stamp>) -> Option<StampView> {
    match o {
        Some(s) => Some(s@),
        None => None,
    }
}

impl Stamp {
    /// A copy of this stamp.
    pub fn copy(&self) -> (r: Stamp)
        ensures
            r@ == self@,
    {
        Stamp {
            version: self.version,
            app: self.app.clone(),
            namespace: self.namespace.clone(),
            mode: self.mode.clone(),
            source: self.source.clone(),
            endpoint: match &self.endpoint {
                Some(e) => Some(e.clone()),
                None => None,
            },
        }
    }

    /// The single argument that carries this stamp.
    pub fn args(&self) -> (r: Vec<String>)
        ensures
            r@.len() == 1,
            r@[0]@ == stamp_arg(self@),
    {
        let mut arg = owned(FLAG);
        push_char(&mut arg, '=');
        let text = encode(self);
        push_str(&mut arg, text.as_str());
        let mut out: Vec<String> = Vec::new();
        out.push(arg);
        out
    }

    /// This stamp carrying the runtime endpoint `endpoint`.
    pub fn at(&self, endpoint: &str) -> (r: Stamp)
        ensures
            r@ == (StampView { endpoint: Some(endpoint@), ..self@ }),
    {
        let mut stamp = self.copy();
        stamp.endpoint = Some(owned(endpoint));
        stamp
    }
}

/// The packed value of the stamp flag on the command line `args`.
pub fn flag(args: &[String]) -> (r: Option<String>)
    ensures
        opt_view(r) == flag_value(views(args@), FLAG@),
{
    flag_in(args, FLAG)
}

/// The stamp that the command line `args` carries, if its value decodes.
pub fn find(args: &[String]) -> (r: Option<Stamp>)
    ensures
        opt_stamp(r) == stamp_in(views(args@), false),
{
    match flag(args) {
        Some(value) => match decode(value.as_str()) {
            Ok(s) => Some(s),
            Err(_) => None,
        },
        None => None,
    }
}

/// The stamp that the command line `args` carries, if its value decodes.
pub fn read(args: &[String]) -> (r: Option<Stamp>)
    ensures
        opt_stamp(r) == stamp_in(views(args@), false),
{
    find(args)
}

/// The stamp that the command line `args` carries, where a stamp without
/// a `v` field is read as one of the current version.
pub fn read_stamp(args: &[String]) -> (r: Option<Stamp>)
    ensures
        opt_stamp(r) == stamp_in(views(args@), true),
{
    match flag(args) {
        Some(value) => match decode_with(value.as_str(), true) {
            Ok(s) => Some(s),
            Err(_) => None,
        },
        None => None,
    }
}

fn append_pair(out: &mut String, key: char, value: &String)
    ensures
        final(out)@ == old(out)@ + seq![';'] + pair(key, value@),
{
    push_char(out, ';');
    push_char(out, key);
    push_char(out, '=');
    let e = crate::percent::encode(value.as_str());
    push_str(out, e.as_str());
    assert(final(out)@ =~= old(out)@ + seq![';'] + pair(key, value@));
}

/// The packed text of `stamp`.
pub fn encode(stamp: &Stamp) -> (r: String)
    ensures
        r@ == stamp_text(stamp@),
{
    let mut out = String::new();
    push_char(&mut out, 'v');
    push_char(&mut out, '=');
    let v = decimal_string(stamp.version as u64);
    push_str(&mut out, v.as_str());
    append_pair(&mut out, 'a', &stamp.app);
    append_pair(&mut out, 'n', &stamp.namespace);
    append_pair(&mut out, 'm', &stamp.mode);
    append_pair(&mut out, 's', &stamp.source);
    let ghost base = out@;
    match &stamp.endpoint {
        Some(e) => {
            append_pair(&mut out, 'e', e);
        },
        None => {},
    }
    assert(out@ =~= stamp_text(stamp@));
    out
}

fn one(key: &Vec<char>, c: char) -> (r: bool)
    ensures
        r == (key@ == seq![c]),
{
    if key.len() == 1 && key[0] == c {
        assert(key@ =~= seq![c]);
        true
    } else {
        false
    }
}

fn duplicate(key: &Vec<char>) -> (r: String)
    ensures
        r@ == duplicate_error(key@),
{
    let mut m = owned("duplicate stamp key ");
    let k = string_of(key);
    let q = debug_quoted(k.as_str());
    push_str(&mut m, q.as_str());
    m
}

fn missing(key: char) -> (r: String)
    ensures
        r@ == missing_error(key),
{
    let mut m = owned("stamp missing ");
    let mut k = String::new();
    push_char(&mut k, key);
    assert(k@ =~= seq![key]);
    let q = debug_quoted(k.as_str());
    push_str(&mut m, q.as_str());
    m
}

fn vet(value: &String) -> (r: Result<u8, String>)
    ensures
        match vetted(value@) {
            Ok(v) => r == Ok::<u8, String>(v),
            Err(e) => r matches Err(m) && m@ == e,
        },
{
    let chars = chars_of(value.as_str());
    match parse_decimal(&chars) {
        Some(n) => {
            if n <= 255 {
                if n == 1 {
                    Ok(VERSION)
                } else {
                    let mut m = owned("unsupported stamp version ");
                    let d = decimal_string(n);
                    push_str(&mut m, d.as_str());
                    Err(m)
                }
            } else {
                Err(owned("stamp version must be an integer"))
            }
        },
        None => Err(owned("stamp version must be an integer")),
    }
}

fn decode_with(value: &str, lenient: bool) -> (r: Result<Stamp, String>)
    ensures
        match decode_text(value@, lenient) {
            Ok(s) => r matches Ok(t) && t@ == s,
            Err(e) => r matches Err(m) && m@ == e,
        },
{
    let chars = chars_of(value);
    let segs = split_char(&chars, ';');
    let ghost all = split(value@, ';');
    let mut version: Option<u8> = None;
    let mut app: Option<String> = None;
    let mut namespace: Option<String> = None;
    let mut mode: Option<String> = None;
    let mut source: Option<String> = None;
    let mut endpoint: Option<String> = None;
    let mut i: usize = 0;
    assert(all.skip(0) =~= all);
    while i < segs.len()
        invariant
            all == split(value@, ';'),
            segs@.len() == all.len(),
            forall|k: int| 0 <= k < segs@.len() ==> #[trigger] segs@[k]@ == all[k],
            i <= segs@.len(),
            scan(all, no_fields()) == scan(
                all.skip(i as int),
                Fields {
                    version: version,
                    app: opt_view(app),
                    namespace: opt_view(namespace),
                    mode: opt_view(mode),
                    source: opt_view(source),
                    endpoint: opt_view(endpoint),
                },
            ),
        decreases segs@.len() - i,
    {
        let ghost f = Fields {
            version: version,
            app: opt_view(app),
            namespace: opt_view(namespace),
            mode: opt_view(mode),
            source: opt_view(source),
            endpoint: opt_view(endpoint),
        };
        let ghost rest = all.skip(i as int);
        assert(rest[0] == segs@[i as int]@);
        assert(rest.drop_first() =~= all.skip(i + 1));
        let (key, raw) = match cut(&segs[i], '=') {
            Some(kv) => kv,
            None => {
                return Err(owned("stamp segment must use key=value form"));
            },
        };
        let raw_text = string_of(&raw);
        let decoded_value = match crate::percent::decode(raw_text.as_str()) {
            Ok(d) => d,
            Err(e) => {
                return Err(e);
            },
        };
        if one(&key, 'v') {
            if version.is_none() {
                match vet(&decoded_value) {
                    Ok(v) => {
                        version = Some(v);
                    },
                    Err(e) => {
                        return Err(e);
                    },
                }
            } else {
                return Err(duplicate(&key));
            }
        } else if one(&key, 'a') {
            if app.is_none() {
                app = Some(decoded_value);
            } else {
                return Err(duplicate(&key));
            }
        } else if one(&key, 'n') {
            if namespace.is_none() {
                namespace = Some(decoded_value);
            } else {
                return Err(duplicate(&key));
            }
        } else if one(&key, 'm') {
            if mode.is_none() {
                mode = Some(decoded_value);
            } else {
                return Err(duplicate(&key));
            }
        } else if one(&key, 's') {
            if source.is_none() {
                source = Some(decoded_value);
            } else {
                return Err(duplicate(&key));
            }
        } else if one(&key, 'e') {
            if endpoint.is_none() {
                endpoint = Some(decoded_value);
            } else {
                return Err(duplicate(&key));
            }
        } else {
            let mut m = owned("unknown stamp key ");
            let k = string_of(&key);
            let q = debug_quoted(k.as_str());
            push_str(&mut m, q.as_str());
            return Err(m);
        }
        i = i + 1;
    }
    assert(all.skip(i as int) =~= Seq::<Seq<char>>::empty());
    let version = match version {
        Some(v) => v,
        None => {
            if lenient {
                VERSION
            } else {
                return Err(missing('v'));
            }
        },
    };
    let app = match app {
        Some(v) => v,
        None => {
            return Err(missing('a'));
        },
    };
    let namespace = match namespace {
        Some(v) => v,
        None => {
            return Err(missing('n'));
        },
    };
    let mode = match mode {
        Some(v) => v,
        None => {
            return Err(missing('m'));
        },
    };
    let source = match source {
        Some(v) => v,
        None => {
            return Err(missing('s'));
        },
    };
    Ok(Stamp { version, app, namespace, mode, source, endpoint })
}

/// Decodes the packed text of a stamp.
pub fn decode(value: &str) -> (r: Result<Stamp, String>)
    ensures
        match decode_text(value@, false) {
            Ok(s) => r matches Ok(t) && t@ == s,
            Err(e) => r matches Err(m) && m@ == e,
        },
{
    decode_with(value, false)
}

proof fn lemma_pair(key: char, value: Seq<char>)
    requires
        key != ';' && key != '=',
    ensures
        forall|i: int| 0 <= i < pair(key, value).len() ==> pair(key, value)[i] != ';',
        split_once(pair(key, value), '=') == Some((seq![key], encoded(value))),
        decoded(encoded(value)) == Ok::<Seq<char>, Seq<char>>(value),
{
    lemma_encoded_chars(value);
    let p = pair(key, value);
    let e = encoded(value);
    assert forall|i: int| 0 <= i < p.len() implies p[i] != ';' by {
        if i >= 2 {
            assert(p[i] == e[i - 2]);
            assert(encoded_char(e[i - 2]));
        }
    }
    assert forall|i: int| 0 <= i < e.len() implies e[i] != '=' by {
        assert(encoded_char(e[i]));
    }
    assert(p =~= seq![key] + seq!['='] + e);
    lemma_split_once_at(seq![key], e, '=');
    lemma_decode_encode(value);
}

/// The segments of a stamp's packed text.
pub open spec fn stamp_segments(s: StampView) -> Seq<Seq<char>> {
    seq![seq!['v', '=', '1'], pair('a', s.app), pair('n', s.namespace), pair('m', s.mode)]
        + match s.endpoint {
        Some(e) => seq![pair('s', s.source), pair('e', e)],
        None => seq![pair('s', s.source)],
    }
}

proof fn lemma_stamp_split(s: StampView)
    requires
        s.version == VERSION,
    ensures
        split(stamp_text(s), ';') == stamp_segments(s),
{
    let v = seq!['v', '='] + decimal(1);
    assert(decimal(1) =~= seq!['1']);
    assert(v =~= seq!['v', '=', '1']);
    let pa = pair('a', s.app);
    let pn = pair('n', s.namespace);
    let pm = pair('m', s.mode);
    let ps = pair('s', s.source);
    lemma_pair('a', s.app);
    lemma_pair('n', s.namespace);
    lemma_pair('m', s.mode);
    lemma_pair('s', s.source);
    let semi = seq![';'];
    let tail = match s.endpoint {
        Some(e) => semi + pair('e', e),
        None => Seq::<char>::empty(),
    };
    let last = ps + tail;
    match s.endpoint {
        Some(e) => {
            lemma_pair('e', e);
            lemma_split_single(pair('e', e), ';');
            lemma_split_cons(ps, pair('e', e), ';');
            assert(last =~= ps + semi + pair('e', e));
        },
        None => {
            lemma_split_single(ps, ';');
            assert(last =~= ps);
        },
    }
    lemma_split_cons(pm, last, ';');
    lemma_split_cons(pn, pm + semi + last, ';');
    lemma_split_cons(pa, pn + semi + (pm + semi + last), ';');
    assert forall|i: int| 0 <= i < v.len() implies v[i] != ';' by {}
    lemma_split_cons(v, pa + semi + (pn + semi + (pm + semi + last)), ';');
    let text = stamp_text(s);
    assert(text =~= v + semi + (pa + semi + (pn + semi + (pm + semi + last))));
    assert(split(text, ';') =~= stamp_segments(s));
}

proof fn lemma_version_segment()
    ensures
        split_once(seq!['v', '=', '1'], '=') == Some((seq!['v'], seq!['1'])),
        decoded(seq!['1']) == Ok::<Seq<char>, Seq<char>>(seq!['1']),
        vetted(seq!['1']) == Ok::<u8, Seq<char>>(VERSION),
{
    assert(seq!['v', '=', '1'] =~= seq!['v'] + seq!['='] + seq!['1']);
    lemma_split_once_at(seq!['v'], seq!['1'], '=');
    lemma_decode_encode(seq!['1']);
    lemma_one_encodes_itself();
    assert(crate::text::unsigned_digits(seq!['1']) =~= seq!['1']);
    assert(crate::text::digit_value('1') == 1);
    assert(crate::text::digits_value(seq!['1']) == 1) by {
        assert(seq!['1'].drop_last() =~= Seq::<char>::empty());
        assert(seq!['1'].last() == '1');
        assert(crate::text::digits_value(Seq::<char>::empty()) == 0);
    }
    assert(decimal_value(seq!['1']) == Some(1nat));
}

proof fn lemma_keys_differ()
    ensures
        seq!['a'] != seq!['v'],
        seq!['n'] != seq!['v'],
        seq!['n'] != seq!['a'],
        seq!['m'] != seq!['v'],
        seq!['m'] != seq!['a'],
        seq!['m'] != seq!['n'],
        seq!['s'] != seq!['v'],
        seq!['s'] != seq!['a'],
        seq!['s'] != seq!['n'],
        seq!['s'] != seq!['m'],
        seq!['e'] != seq!['v'],
        seq!['e'] != seq!['a'],
        seq!['e'] != seq!['n'],
        seq!['e'] != seq!['m'],
        seq!['e'] != seq!['s'],
{
    assert(seq!['a'][0] != seq!['v'][0]);
    assert(seq!['n'][0] != seq!['v'][0]);
    assert(seq!['n'][0] != seq!['a'][0]);
    assert(seq!['m'][0] != seq!['v'][0]);
    assert(seq!['m'][0] != seq!['a'][0]);
    assert(seq!['m'][0] != seq!['n'][0]);
    assert(seq!['s'][0] != seq!['v'][0]);
    assert(seq!['s'][0] != seq!['a'][0]);
    assert(seq!['s'][0] != seq!['n'][0]);
    assert(seq!['s'][0] != seq!['m'][0]);
    assert(seq!['e'][0] != seq!['v'][0]);
    assert(seq!['e'][0] != seq!['a'][0]);
    assert(seq!['e'][0] != seq!['n'][0]);
    assert(seq!['e'][0] != seq!['m'][0]);
    assert(seq!['e'][0] != seq!['s'][0]);
}

proof fn lemma_scan_step(seg: Seq<char>, rest: Seq<Seq<char>>, f: Fields, key: Seq<char>, raw: Seq<char>, g: Fields)
    requires
        split_once(seg, '=') == Some((key, raw)),
        decoded(raw) matches Ok(value) && absorb(f, key, value) == Ok::<Fields, Seq<char>>(g),
    ensures
        scan(seq![seg] + rest, f) == scan(rest, g),
{
    assert((seq![seg] + rest).drop_first() =~= rest);
    assert((seq![seg] + rest)[0] == seg);
}

proof fn lemma_stamp_scan(s: StampView)
    ensures
        scan(stamp_segments(s), no_fields()) == Ok::<Fields, Seq<char>>(
            Fields {
                version: Some(VERSION),
                app: Some(s.app),
                namespace: Some(s.namespace),
                mode: Some(s.mode),
                source: Some(s.source),
                endpoint: s.endpoint,
            },
        ),
{
    let pa = pair('a', s.app);
    let pn = pair('n', s.namespace);
    let pm = pair('m', s.mode);
    let ps = pair('s', s.source);
    lemma_pair('a', s.app);
    lemma_pair('n', s.namespace);
    lemma_pair('m', s.mode);
    lemma_pair('s', s.source);
    lemma_version_segment();
    lemma_keys_differ();
    let rest_e = match s.endpoint {
        Some(e) => seq![pair('e', e)],
        None => Seq::<Seq<char>>::empty(),
    };
    let f0 = no_fields();
    let f1 = Fields { version: Some(VERSION), ..f0 };
    let f2 = Fields { app: Some(s.app), ..f1 };
    let f3 = Fields { namespace: Some(s.namespace), ..f2 };
    let f4 = Fields { mode: Some(s.mode), ..f3 };
    let f5 = Fields { source: Some(s.source), ..f4 };
    let f6 = Fields { endpoint: s.endpoint, ..f5 };
    match s.endpoint {
        Some(e) => {
            lemma_pair('e', e);
            lemma_scan_step(pair('e', e), Seq::<Seq<char>>::empty(), f5, seq!['e'], encoded(e), f6);
            assert(seq![pair('e', e)] =~= seq![pair('e', e)] + Seq::<Seq<char>>::empty());
        },
        None => {
            assert(f6 == f5);
        },
    }
    assert(scan(rest_e, f5) == Ok::<Fields, Seq<char>>(f6));
    lemma_scan_step(ps, rest_e, f4, seq!['s'], encoded(s.source), f5);
    let r4 = seq![ps] + rest_e;
    lemma_scan_step(pm, r4, f3, seq!['m'], encoded(s.mode), f4);
    let r3 = seq![pm] + r4;
    lemma_scan_step(pn, r3, f2, seq!['n'], encoded(s.namespace), f3);
    let r2 = seq![pn] + r3;
    lemma_scan_step(pa, r2, f1, seq!['a'], encoded(s.app), f2);
    let r1 = seq![pa] + r2;
    lemma_scan_step(seq!['v', '=', '1'], r1, f0, seq!['v'], seq!['1'], f1);
    assert(stamp_segments(s) =~= seq![seq!['v', '=', '1']] + r1);
}

/// Decoding the packed text of a stamp of the current version gives the
/// stamp back.
pub proof fn lemma_stamp_roundtrip(s: StampView)
    requires
        s.version == VERSION,
    ensures
        decode_text(stamp_text(s), false) == Ok::<StampView, Seq<char>>(s),
{
    lemma_stamp_split(s);
    lemma_stamp_scan(s);
}

proof fn lemma_one_encodes_itself()
    ensures
        encoded(seq!['1']) == seq!['1'],
{
    assert(vstd::utf8::encode_utf8(seq!['1']) =~= seq![49u8]) by {
        assert(vstd::utf8::is_ascii_chars(seq!['1']));
        vstd::utf8::is_ascii_chars_encode_utf8(seq!['1']);
        assert(seq!['1'][0] == '1');
    }
    assert(crate::percent::escape(seq![49u8]) =~= seq![49u8]) by {
        assert(seq![49u8].drop_first() =~= Seq::<u8>::empty());
        reveal_with_fuel(crate::percent::escape, 2);
    }
    assert(encoded(seq!['1']) =~= seq!['1']);
}

/// A stamp's own argument carries it: reading the command line that
/// `args` writes gives the stamp back (for the current version).
pub proof fn lemma_args_read(s: StampView)
    requires
        s.version == VERSION,
    ensures
        stamp_in(seq![stamp_arg(s)], false) == Some(s),
{
    let arg = stamp_arg(s);
    let f = FLAG@;
    assert(arg.len() > f.len());
    assert(arg != f);
    assert(arg.take(f.push('=').len() as int) =~= f.push('='));
    assert(starts_with(arg, f.push('=')));
    assert(arg.skip(f.len() + 1int) =~= stamp_text(s));
    lemma_stamp_roundtrip(s);
}

} // verus!
