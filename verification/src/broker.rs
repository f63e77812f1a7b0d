//! The `--sidecar-broker` identity of a project's runtime broker and its
//! hello handshake.
//!
//! The identity is written as `p=<project>;n=<namespace>;s=<source>`, every
//! value percent-encoded.
use vstd::prelude::*;
use crate::argv::{flag_in, flag_value, opt_view, views, eq_str};
use crate::percent::{decoded, encoded, encoded_char, lemma_decode_encode, lemma_encoded_chars};
use crate::stamp;
use crate::text::{
    chars_of, cut, debug_quoted, debug_text, lemma_split_cons, lemma_split_once_at,
    lemma_split_single, owned, push_char, push_str, split, split_char, split_once, starts_with,
    string_of,
};

verus! {

/// The flag that carries a broker identity on a command line.
pub const FLAG: &'static str = "--sidecar-broker";

/// The broker hello protocol version.
pub const VERSION: u8 = 1;

/// Which project and namespace a broker serves.
#[derive(Clone, Debug, PartialEq, Eq)]
pub struct Identity {
    pub project: String,
    pub namespace: String,
    pub source: String,
}

/// An identity as plain values.
pub struct IdentityView {
    pub project: Seq<char>,
    pub namespace: Seq<char>,
    pub source: Seq<char>,
}

impl View for Identity {
    type V = IdentityView;

    open spec fn view(&self) -> IdentityView {
        IdentityView { project: self.project@, namespace: self.namespace@, source: self.source@ }
    }
}

/// A request sent to a broker.
#[derive(Clone, Debug, PartialEq, Eq)]
pub enum Request {
    Hello { protocol: u8, project: String, namespace: String },
}

/// A broker's answer.
#[derive(Clone, Debug, PartialEq, Eq)]
pub enum Response {
    HelloOk { protocol: u8, project: String, namespace: String },
    HelloError { message: String },
}

/// `key=value` with the value percent-encoded.
pub open spec fn pair(key: char, value: Seq<char>) -> Seq<char> {
    seq![key, '='] + encoded(value)
}

/// The packed text of an identity.
pub open spec fn identity_text(i: IdentityView) -> Seq<char> {
    pair('p', i.project) + seq![';'] + pair('n', i.namespace) + seq![';'] + pair('s', i.source)
}

/// The command-line argument that carries an identity.
pub open spec fn identity_arg(i: IdentityView) -> Seq<char> {
    FLAG@.push('=') + identity_text(i)
}

/// The identity fields read so far while decoding.
pub struct Fields {
    pub project: Option<Seq<char>>,
    pub namespace: Option<Seq<char>>,
    pub source: Option<Seq<char>>,
}

/// The message for a segment without `=`.
pub open spec fn segment_error() -> Seq<char> {
    "broker identity segment must use key=value form"@
}

/// The message for a key given twice.
pub open spec fn duplicate_error(key: Seq<char>) -> Seq<char> {
    "duplicate broker identity key "@ + debug_text(key)
}

/// The message for a key that an identity does not have.
pub open spec fn unknown_error(key: Seq<char>) -> Seq<char> {
    "unknown broker identity key "@ + debug_text(key)
}

/// The message for a required key that is absent.
pub open spec fn missing_error(key: char) -> Seq<char> {
    "broker identity missing "@ + debug_text(seq![key])
}

/// The fields after reading one decoded `key=value` segment.
pub open spec fn absorb(f: Fields, key: Seq<char>, value: Seq<char>) -> Result<Fields, Seq<char>> {
    if key == seq!['p'] {
        if f.project is None {
            Ok(Fields { project: Some(value), ..f })
        } else {
            Err(duplicate_error(key))
        }
    } else if key == seq!['n'] {
        if f.namespace is None {
            Ok(Fields { namespace: Some(value), ..f })
        } else {
            Err(duplicate_error(key))
        }
    } else if key == seq!['s'] {
        if f.source is None {
            Ok(Fields { source: Some(value), ..f })
        } else {
            Err(duplicate_error(key))
        }
    } else {
        Err(unknown_error(key))
    }
}

/// The fields after reading the segments `segs` in order, or the first error.
pub open spec fn scan(segs: Seq<Seq<char>>, f: Fields) -> Result<Fields, Seq<char>>
    decreases segs.len(),
{
    if segs.len() == 0 {
        Ok(f)
    } else {
        match split_once(segs[0], '=') {
            None => Err(segment_error()),
            Some((key, raw)) => match decoded(raw) {
                Err(e) => Err(e),
                Ok(value) => match absorb(f, key, value) {
                    Ok(g) => scan(segs.drop_first(), g),
                    Err(e) => Err(e),
                },
            },
        }
    }
}

/// What decoding the packed text `value` gives.
pub open spec fn decode_text(value: Seq<char>) -> Result<IdentityView, Seq<char>> {
    match scan(split(value, ';'), Fields { project: None, namespace: None, source: None }) {
        Ok(f) => if f.project is None {
            Err(missing_error('p'))
        } else if f.namespace is None {
            Err(missing_error('n'))
        } else if f.source is None {
            Err(missing_error('s'))
        } else {
            Ok(
                IdentityView {
                    project: f.project->0,
                    namespace: f.namespace->0,
                    source: f.source->0,
                },
            )
        },
        Err(e) => Err(e),
    }
}

/// The identity that a command line carries, if one decodes.
pub open spec fn identity_in(args: Seq<Seq<char>>) -> Option<IdentityView> {
    match flag_value(args, FLAG@) {
        Some(v) => match decode_text(v) {
            Ok(i) => Some(i),
            Err(_) => None,
        },
        None => None,
    }
}

/// The message a broker answers a hello that is not its own with.
pub open spec fn mismatch_error() -> Seq<char> {
    "broker hello did not match expected protocol, project, or namespace"@
}

/// Whether a hello naming `protocol`, `project` and `namespace` is the one
/// the broker `id` answers.
pub open spec fn accepts(id: IdentityView, protocol: u8, project: Seq<char>, namespace: Seq<char>) -> bool {
    protocol == VERSION && project == id.project && namespace == id.namespace
}

/// The view of an optional identity.
pub open spec fn opt_identity(o: Option<Identity>) -> Option<IdentityView> {
    match o {
        Some(i) => Some(i@),
        None => None,
    }
}

impl Identity {
    /// The identity of the broker for `project` and `namespace`.
    pub fn new(project: &str, namespace: &str) -> (r: Identity)
        ensures
            r.project@ == project@,
            r.namespace@ == namespace@,
            r.source@ == stamp::default::SOURCE@,
    {
        Identity {
            project: owned(project),
            namespace: owned(namespace),
            source: owned(stamp::default::SOURCE),
        }
    }

    /// The single argument that carries this identity.
    pub fn args(&self) -> (r: Vec<String>)
        ensures
            r@.len() == 1,
            r@[0]@ == identity_arg(self@),
    {
        let mut arg = owned(FLAG);
        push_char(&mut arg, '=');
        let text = self.encode();
        push_str(&mut arg, text.as_str());
        let mut out: Vec<String> = Vec::new();
        out.push(arg);
        out
    }

    /// The hello a client sends to find this broker.
    pub fn hello(&self) -> (r: Request)
        ensures
            r matches Request::Hello { protocol, project, namespace } && protocol == VERSION
                && project@ == self.project@ && namespace@ == self.namespace@,
    {
        Request::Hello {
            protocol: VERSION,
            project: self.project.clone(),
            namespace: self.namespace.clone(),
        }
    }

    /// The answer this broker gives to `request`: the matching `Ok` when it
    /// names this broker's protocol, project and namespace, else an error.
    pub fn validate(&self, request: &Request) -> (r: Result<Response, String>)
        ensures
            match request {
                Request::Hello { protocol, project, namespace } => if accepts(
                    self@,
                    *protocol,
                    project@,
                    namespace@,
                ) {
                    r matches Ok(Response::HelloOk { protocol: p, project: pr, namespace: ns }) && p
                        == VERSION && pr@ == self.project@ && ns@ == self.namespace@
                } else {
                    r matches Err(m) && m@ == mismatch_error()
                },
            },
    {
        match request {
            Request::Hello { protocol, project, namespace } => {
                if *protocol == VERSION && eq_str(project, self.project.as_str()) && eq_str(
                    namespace,
                    self.namespace.as_str(),
                ) {
                    Ok(
                        Response::HelloOk {
                            protocol: VERSION,
                            project: self.project.clone(),
                            namespace: self.namespace.clone(),
                        },
                    )
                } else {
                    Err(
                        owned(
                            "broker hello did not match expected protocol, project, or namespace",
                        ),
                    )
                }
            },
        }
    }

    /// Whether a broker's reply confirms this identity: a `HelloOk` that
    /// names this broker protocol, project and namespace.
    pub fn confirms(&self, response: &Response) -> (r: bool)
        ensures
            r == (response matches Response::HelloOk { protocol, project, namespace } && accepts(
                self@,
                *protocol,
                project@,
                namespace@,
            )),
    {
        match response {
            Response::HelloOk { protocol, project, namespace } => *protocol == VERSION && eq_str(
                project,
                self.project.as_str(),
            ) && eq_str(namespace, self.namespace.as_str()),
            Response::HelloError { .. } => false,
        }
    }

    /// The packed text of this identity.
    pub fn encode(&self) -> (r: String)
        ensures
            r@ == identity_text(self@),
    {
        let mut out = String::new();
        push_char(&mut out, 'p');
        push_char(&mut out, '=');
        let e = crate::percent::encode(self.project.as_str());
        push_str(&mut out, e.as_str());
        append_pair(&mut out, 'n', &self.namespace);
        append_pair(&mut out, 's', &self.source);
        assert(out@ =~= identity_text(self@));
        out
    }

    /// Decodes the packed text of an identity.
    pub fn decode(value: &str) -> (r: Result<Identity, String>)
        ensures
            match decode_text(value@) {
                Ok(i) => r matches Ok(t) && t@ == i,
                Err(e) => r matches Err(m) && m@ == e,
            },
    {
        let chars = chars_of(value);
        let segs = split_char(&chars, ';');
        let ghost all = split(value@, ';');
        let mut project: Option<String> = None;
        let mut namespace: Option<String> = None;
        let mut source: Option<String> = None;
        let mut i: usize = 0;
        assert(all.skip(0) =~= all);
        while i < segs.len()
            invariant
                all == split(value@, ';'),
                segs@.len() == all.len(),
                forall|k: int| 0 <= k < segs@.len() ==> #[trigger] segs@[k]@ == all[k],
                i <= segs@.len(),
                scan(all, Fields { project: None, namespace: None, source: None }) == scan(
                    all.skip(i as int),
                    Fields {
                        project: opt_view(project),
                        namespace: opt_view(namespace),
                        source: opt_view(source),
                    },
                ),
            decreases segs@.len() - i,
        {
            let ghost rest = all.skip(i as int);
            assert(rest[0] == segs@[i as int]@);
            assert(rest.drop_first() =~= all.skip(i + 1));
            let (key, raw) = match cut(&segs[i], '=') {
                Some(kv) => kv,
                None => {
                    return Err(owned("broker identity segment must use key=value form"));
                },
            };
            let raw_text = string_of(&raw);
            let decoded_value = match crate::percent::decode(raw_text.as_str()) {
                Ok(d) => d,
                Err(e) => {
                    return Err(e);
                },
            };
            if one(&key, 'p') {
                if project.is_none() {
                    project = Some(decoded_value);
                } else {
                    return Err(duplicate(&key));
                }
            } else if one(&key, 'n') {
                if namespace.is_none() {
                    namespace = Some(decoded_value);
                } else {
                    return Err(duplicate(&key));
                }
            } else if one(&key, 's') {
                if source.is_none() {
                    source = Some(decoded_value);
                } else {
                    return Err(duplicate(&key));
                }
            } else {
                let mut m = owned("unknown broker identity key ");
                let k = string_of(&key);
                let q = debug_quoted(k.as_str());
                push_str(&mut m, q.as_str());
                return Err(m);
            }
            i = i + 1;
        }
        assert(all.skip(i as int) =~= Seq::<Seq<char>>::empty());
        let project = match project {
            Some(v) => v,
            None => {
                return Err(missing('p'));
            },
        };
        let namespace = match namespace {
            Some(v) => v,
            None => {
                return Err(missing('n'));
            },
        };
        let source = match source {
            Some(v) => v,
            None => {
                return Err(missing('s'));
            },
        };
        Ok(Identity { project, namespace, source })
    }
}

fn append_pair(out: &mut String, key: char, value: &String)
    ensures
        final(out)@ == old(out)@ + seq![';'] + pair(key, value@),
{
    push_char(out, ';');
    push_char(out, key);
    push_char(out, '=');
    let e = crate::percent::encode(value.as_str());
    push_str(out, e.as_str());
    assert(final(out)@ =~= old(out)@ + seq![';'] + pair(key, value@));
}

fn one(key: &Vec<char>, c: char) -> (r: bool)
    ensures
        r == (key@ == seq![c]),
{
    if key.len() == 1 && key[0] == c {
        assert(key@ =~= seq![c]);
        true
    } else {
        false
    }
}

fn duplicate(key: &Vec<char>) -> (r: String)
    ensures
        r@ == duplicate_error(key@),
{
    let mut m = owned("duplicate broker identity key ");
    let k = string_of(key);
    let q = debug_quoted(k.as_str());
    push_str(&mut m, q.as_str());
    m
}

fn missing(key: char) -> (r: String)
    ensures
        r@ == missing_error(key),
{
    let mut m = owned("broker identity missing ");
    let mut k = String::new();
    push_char(&mut k, key);
    assert(k@ =~= seq![key]);
    let q = debug_quoted(k.as_str());
    push_str(&mut m, q.as_str());
    m
}

/// The packed value of the broker flag on the command line `args`.
pub fn flag(args: &[String]) -> (r: Option<String>)
    ensures
        opt_view(r) == flag_value(views(args@), FLAG@),
{
    flag_in(args, FLAG)
}

/// The broker identity that the command line `args` carries, if its value
/// decodes.
pub fn read(args: &[String]) -> (r: Option<Identity>)
    ensures
        opt_identity(r) == identity_in(views(args@)),
{
    match flag(args) {
        Some(value) => match Identity::decode(value.as_str()) {
            Ok(i) => Some(i),
            Err(_) => None,
        },
        None => None,
    }
}

proof fn lemma_pair(key: char, value: Seq<char>)
    requires
        key != ';' && key != '=',
    ensures
        forall|i: int| 0 <= i < pair(key, value).len() ==> pair(key, value)[i] != ';',
        split_once(pair(key, value), '=') == Some((seq![key], encoded(value))),
        decoded(encoded(value)) == Ok::<Seq<char>, Seq<char>>(value),
{
    lemma_encoded_chars(value);
    let p = pair(key, value);
    let e = encoded(value);
    assert forall|i: int| 0 <= i < p.len() implies p[i] != ';' by {
        if i >= 2 {
            assert(p[i] == e[i - 2]);
            assert(encoded_char(e[i - 2]));
        }
    }
    assert forall|i: int| 0 <= i < e.len() implies e[i] != '=' by {
        assert(encoded_char(e[i]));
    }
    assert(p =~= seq![key] + seq!['='] + e);
    lemma_split_once_at(seq![key], e, '=');
    lemma_decode_encode(value);
}

proof fn lemma_scan_step(
    seg: Seq<char>,
    rest: Seq<Seq<char>>,
    f: Fields,
    key: Seq<char>,
    raw: Seq<char>,
    g: Fields,
)
    requires
        split_once(seg, '=') == Some((key, raw)),
        decoded(raw) matches Ok(value) && absorb(f, key, value) == Ok::<Fields, Seq<char>>(g),
    ensures
        scan(seq![seg] + rest, f) == scan(rest, g),
{
    assert((seq![seg] + rest).drop_first() =~= rest);
    assert((seq![seg] + rest)[0] == seg);
}

/// Decoding the packed text of an identity gives the identity back.
pub proof fn lemma_identity_roundtrip(i: IdentityView)
    ensures
        decode_text(identity_text(i)) == Ok::<IdentityView, Seq<char>>(i),
{
    let pp = pair('p', i.project);
    let pn = pair('n', i.namespace);
    let ps = pair('s', i.source);
    lemma_pair('p', i.project);
    lemma_pair('n', i.namespace);
    lemma_pair('s', i.source);
    let semi = seq![';'];
    lemma_split_single(ps, ';');
    lemma_split_cons(pn, ps, ';');
    lemma_split_cons(pp, pn + semi + ps, ';');
    assert(identity_text(i) =~= pp + semi + (pn + semi + ps));
    let segs = seq![pp, pn, ps];
    assert(split(identity_text(i), ';') =~= segs);
    assert(seq!['n'][0] != seq!['p'][0]);
    assert(seq!['s'][0] != seq!['p'][0]);
    assert(seq!['s'][0] != seq!['n'][0]);
    let f0 = Fields { project: None, namespace: None, source: None };
    let f1 = Fields { project: Some(i.project), ..f0 };
    let f2 = Fields { namespace: Some(i.namespace), ..f1 };
    let f3 = Fields { source: Some(i.source), ..f2 };
    lemma_scan_step(ps, Seq::<Seq<char>>::empty(), f2, seq!['s'], encoded(i.source), f3);
    assert(seq![ps] =~= seq![ps] + Seq::<Seq<char>>::empty());
    lemma_scan_step(pn, seq![ps], f1, seq!['n'], encoded(i.namespace), f2);
    lemma_scan_step(pp, seq![pn] + seq![ps], f0, seq!['p'], encoded(i.project), f1);
    assert(segs =~= seq![pp] + (seq![pn] + seq![ps]));
    assert(seq![pn, ps] =~= seq![pn] + seq![ps]);
}

/// A broker's own argument carries it: reading the command line that
/// `args` writes gives the identity back.
pub proof fn lemma_args_read(i: IdentityView)
    ensures
        identity_in(seq![identity_arg(i)]) == Some(i),
{
    let arg = identity_arg(i);
    let f = FLAG@;
    assert(arg.len() > f.len());
    assert(arg != f);
    assert(arg.take(f.push('=').len() as int) =~= f.push('='));
    assert(starts_with(arg, f.push('=')));
    assert(arg.skip(f.len() + 1int) =~= identity_text(i));
    lemma_identity_roundtrip(i);
}

/// A broker accepts its own hello: the hello that `hello` writes names the
/// protocol, project and namespace that `validate` answers `HelloOk` to.
pub proof fn lemma_hello_accepted(id: IdentityView)
    ensures
        accepts(id, VERSION, id.project, id.namespace),
{
}

/// The handshake between a client identity `c` and a broker `b`: the broker
/// accepts the client's hello exactly when both name the same project and
/// namespace, and then the reply it gives (its protocol, project and
/// namespace) is confirmed by the client.
pub proof fn lemma_handshake(b: IdentityView, c: IdentityView)
    ensures
        accepts(b, VERSION, c.project, c.namespace) <==> (b.project == c.project && b.namespace
            == c.namespace),
        accepts(b, VERSION, c.project, c.namespace) ==> accepts(c, VERSION, b.project, b.namespace),
{
}

} // verus!
