//! Lifecycle decisions that sit between launching processes: readiness
//! facts passed from one target to the next, target selection, pid lists
//! and the runtime status line.
use vstd::prelude::*;
use crate::argv::{eq_str, opt_view, views};
use crate::json::{json_has, json_member, json_str_at, json_string, json_text, json_u64, json_u64_at};
use crate::plan::Target;
use crate::text::{
    chars_of, cut, debug_quoted, debug_text, decimal, decimal_string, join, owned, push_char,
    push_str, split_once, string_of, lines, split_lines, trim, trimmed,
};

verus! {

/// What a target reported when it became ready.
#[derive(Clone, Debug, PartialEq, Eq)]
pub struct Ready {
    pub role: String,
    pub endpoint: Option<String>,
    pub runtime: Option<String>,
    pub instance: Option<String>,
}

/// Readiness facts as plain values.
pub struct ReadyView {
    pub role: Seq<char>,
    pub endpoint: Option<Seq<char>>,
    pub runtime: Option<Seq<char>>,
    pub instance: Option<Seq<char>>,
}

impl View for Ready {
    type V = ReadyView;

    open spec fn view(&self) -> ReadyView {
        ReadyView {
            role: self.role@,
            endpoint: opt_view(self.endpoint),
            runtime: opt_view(self.runtime),
            instance: opt_view(self.instance),
        }
    }
}

/// The readiness facts of the targets started so far, by target name.
pub struct Chain {
    ready: Vec<(String, Ready)>,
}

/// The entries of a chain as plain values.
pub open spec fn entries(v: Seq<(String, Ready)>) -> Seq<(Seq<char>, ReadyView)> {
    v.map_values(|e: (String, Ready)| (e.0@, e.1@))
}

/// The facts recorded for `name`: the first entry with that name.
pub open spec fn lookup(e: Seq<(Seq<char>, ReadyView)>, name: Seq<char>) -> Option<ReadyView>
    decreases e.len(),
{
    if e.len() == 0 {
        None
    } else if e[0].0 == name {
        Some(e[0].1)
    } else {
        lookup(e.drop_first(), name)
    }
}

impl View for Chain {
    type V = Seq<(Seq<char>, ReadyView)>;

    closed spec fn view(&self) -> Seq<(Seq<char>, ReadyView)> {
        entries(self.ready@)
    }
}

/// The message for an `inherits_env` field that is not a readiness fact.
pub open spec fn field_error(field: Seq<char>) -> Seq<char> {
    "invalid inherits_env field "@ + debug_text(field)
        + "; expected endpoint|runtime_endpoint|instance_id"@
}

/// The message for an `inherits_env` source without a `.`.
pub open spec fn source_error(from: Seq<char>) -> Seq<char> {
    "invalid inherits_env source "@ + debug_text(from) + "; expected '<target>.<field>'"@
}

/// The value that `field` of the readiness facts `ready` gives.
pub open spec fn inherited_of(ready: Option<ReadyView>, field: Seq<char>) -> Result<Option<Seq<char>>, Seq<char>> {
    match ready {
        None => Ok(None),
        Some(r) => if field == "endpoint"@ {
            Ok(r.endpoint)
        } else if field == "runtime_endpoint"@ {
            Ok(r.runtime)
        } else if field == "instance_id"@ {
            Ok(r.instance)
        } else {
            Err(field_error(field))
        },
    }
}

/// The environment that the bindings `b` (name, `<target>.<field>`) take
/// from the chain `e`, in order; bindings whose fact is absent are skipped.
pub open spec fn inherits_of(
    e: Seq<(Seq<char>, ReadyView)>,
    b: Seq<(Seq<char>, Seq<char>)>,
) -> Result<Seq<(Seq<char>, Seq<char>)>, Seq<char>>
    decreases b.len(),
{
    if b.len() == 0 {
        Ok(seq![])
    } else {
        let (name, from) = b[0];
        match split_once(from, '.') {
            None => Err(source_error(from)),
            Some((source, field)) => match inherited_of(lookup(e, source), field) {
                Err(m) => Err(m),
                Ok(v) => match inherits_of(e, b.drop_first()) {
                    Err(m) => Err(m),
                    Ok(rest) => Ok(
                        match v {
                            Some(x) => seq![(name, x)],
                            None => Seq::<(Seq<char>, Seq<char>)>::empty(),
                        } + rest,
                    ),
                },
            },
        }
    }
}

/// The views of environment pairs.
pub open spec fn pair_views(v: Seq<(String, String)>) -> Seq<(Seq<char>, Seq<char>)> {
    v.map_values(|p: (String, String)| (p.0@, p.1@))
}

fn copy_ready(r: &Ready) -> (o: Ready)
    ensures
        o@ == r@,
{
    Ready {
        role: r.role.clone(),
        endpoint: match &r.endpoint {
            Some(x) => Some(x.clone()),
            None => None,
        },
        runtime: match &r.runtime {
            Some(x) => Some(x.clone()),
            None => None,
        },
        instance: match &r.instance {
            Some(x) => Some(x.clone()),
            None => None,
        },
    }
}

/// The value that `field` of `ready` gives.
pub fn inherited(ready: Option<&Ready>, field: &str) -> (r: Result<Option<String>, String>)
    ensures
        match inherited_of(
            match ready {
                Some(x) => Some(x@),
                None => None,
            },
            field@,
        ) {
            Ok(v) => r matches Ok(x) && opt_view(x) == v,
            Err(m) => r matches Err(x) && x@ == m,
        },
{
    let ready = match ready {
        Some(r) => r,
        None => {
            return Ok(None);
        },
    };
    let f = owned(field);
    if eq_str(&f, "endpoint") {
        Ok(copy_ready(ready).endpoint)
    } else if eq_str(&f, "runtime_endpoint") {
        Ok(copy_ready(ready).runtime)
    } else if eq_str(&f, "instance_id") {
        Ok(copy_ready(ready).instance)
    } else {
        let mut m = owned("invalid inherits_env field ");
        let q = debug_quoted(field);
        push_str(&mut m, q.as_str());
        push_str(&mut m, "; expected endpoint|runtime_endpoint|instance_id");
        Err(m)
    }
}

impl Chain {
    /// A chain with no facts.
    pub fn new() -> (r: Chain)
        ensures
            r@ == Seq::<(Seq<char>, ReadyView)>::empty(),
    {
        let c = Chain { ready: Vec::new() };
        assert(c@ =~= Seq::<(Seq<char>, ReadyView)>::empty());
        c
    }

    /// The facts recorded for `name`.
    pub fn get(&self, name: &str) -> (r: Option<&Ready>)
        ensures
            match r {
                Some(x) => lookup(self@, name@) == Some(x@),
                None => lookup(self@, name@) is None,
            },
    {
        let ghost e = self@;
        let mut i: usize = 0;
        assert(e.skip(0) =~= e);
        while i < self.ready.len()
            invariant
                e == entries(self.ready@),
                i <= self.ready@.len(),
                lookup(e, name@) == lookup(e.skip(i as int), name@),
            decreases self.ready@.len() - i,
        {
            let ghost rest = e.skip(i as int);
            assert(rest[0] == (self.ready@[i as int].0@, self.ready@[i as int].1@));
            assert(rest.drop_first() =~= e.skip(i + 1));
            if eq_str(&self.ready[i].0, name) {
                return Some(&self.ready[i].1);
            }
            i = i + 1;
        }
        None
    }

    /// Records the facts `ready` for `name`, in place of any earlier ones.
    pub fn record(&mut self, name: &str, ready: &Ready)
        ensures
            forall|k: Seq<char>| #[trigger] lookup(final(self)@, k) == if k == name@ {
                Some(ready@)
            } else {
                lookup(old(self)@, k)
            },
    {
        let ghost e = self@;
        let mut i: usize = 0;
        while i < self.ready.len()
            invariant
                e == old(self)@,
                e == entries(self.ready@),
                i <= self.ready@.len(),
                forall|j: int| 0 <= j < i ==> e[j].0 != name@,
            decreases self.ready@.len() - i,
        {
            assert(e[i as int].0 == self.ready@[i as int].0@);
            if eq_str(&self.ready[i].0, name) {
                let entry = (owned(name), copy_ready(ready));
                let ghost ev = (entry.0@, entry.1@);
                self.ready.set(i, entry);
                proof {
                    assert(self@ =~= e.update(i as int, ev));
                    lemma_lookup_update(e, i as int, ev, name@);
                }
                return;
            }
            i = i + 1;
        }
        let entry = (owned(name), copy_ready(ready));
        let ghost ev = (entry.0@, entry.1@);
        self.ready.push(entry);
        proof {
            assert(self@ =~= e.push(ev));
            lemma_lookup_push(e, ev, name@);
        }
    }

    /// The environment that `target`'s `inherits_env` bindings take from the
    /// facts recorded so far.
    pub fn inherits(&self, target: &Target) -> (r: Result<Vec<(String, String)>, String>)
        ensures
            match inherits_of(self@, crate::plan::inherit_views(target.inherits@)) {
                Ok(v) => r matches Ok(x) && pair_views(x@) == v,
                Err(m) => r matches Err(x) && x@ == m,
            },
    {
        let ghost b = crate::plan::inherit_views(target.inherits@);
        let mut env: Vec<(String, String)> = Vec::new();
        let mut i: usize = 0;
        assert(b.skip(0) =~= b);
        assert(pair_views(env@) =~= Seq::<(Seq<char>, Seq<char>)>::empty());
        while i < target.inherits.len()
            invariant
                b == crate::plan::inherit_views(target.inherits@),
                i <= target.inherits@.len(),
                inherits_of(self@, b) == match inherits_of(self@, b.skip(i as int)) {
                    Ok(rest) => Ok(pair_views(env@) + rest),
                    Err(m) => Err(m),
                },
            decreases target.inherits@.len() - i,
        {
            let binding = &target.inherits[i];
            let ghost rest = b.skip(i as int);
            assert(rest[0] == (binding.name@, binding.from@));
            assert(rest.drop_first() =~= b.skip(i + 1));
            let from = chars_of(binding.from.as_str());
            let (source, field) = match cut(&from, '.') {
                Some(sf) => sf,
                None => {
                    let mut m = owned("invalid inherits_env source ");
                    let q = debug_quoted(binding.from.as_str());
                    push_str(&mut m, q.as_str());
                    push_str(&mut m, "; expected '<target>.<field>'");
                    return Err(m);
                },
            };
            let source_name = string_of(&source);
            let field_name = string_of(&field);
            let value = inherited(self.get(source_name.as_str()), field_name.as_str())?;
            let ghost before = pair_views(env@);
            let ghost single = match opt_view(value) {
                Some(v) => seq![(binding.name@, v)],
                None => Seq::<(Seq<char>, Seq<char>)>::empty(),
            };
            match value {
                Some(v) => {
                    env.push((binding.name.clone(), v));
                    assert(pair_views(env@) =~= before + single);
                },
                None => {
                    assert(pair_views(env@) =~= before + single);
                },
            }
            proof {
                match inherits_of(self@, b.skip(i + 1)) {
                    Ok(r2) => {
                        assert(before + (single + r2) =~= pair_views(env@) + r2);
                    },
                    Err(_) => {},
                }
            }
            i = i + 1;
        }
        assert(b.skip(i as int) =~= Seq::<(Seq<char>, Seq<char>)>::empty());
        assert(pair_views(env@) + Seq::<(Seq<char>, Seq<char>)>::empty() =~= pair_views(env@));
        Ok(env)
    }
}

proof fn lemma_lookup_update(e: Seq<(Seq<char>, ReadyView)>, i: int, x: (Seq<char>, ReadyView), name: Seq<char>)
    requires
        0 <= i < e.len(),
        e[i].0 == name,
        x.0 == name,
        forall|j: int| 0 <= j < i ==> e[j].0 != name,
    ensures
        forall|k: Seq<char>| #[trigger] lookup(e.update(i, x), k) == if k == name {
            Some(x.1)
        } else {
            lookup(e, k)
        },
    decreases e.len(),
{
    assert forall|k: Seq<char>| #[trigger] lookup(e.update(i, x), k) == if k == name {
        Some(x.1)
    } else {
        lookup(e, k)
    } by {
        lemma_lookup_update_one(e, i, x, name, k);
    }
}

proof fn lemma_lookup_update_one(
    e: Seq<(Seq<char>, ReadyView)>,
    i: int,
    x: (Seq<char>, ReadyView),
    name: Seq<char>,
    k: Seq<char>,
)
    requires
        0 <= i < e.len(),
        e[i].0 == name,
        x.0 == name,
        forall|j: int| 0 <= j < i ==> e[j].0 != name,
    ensures
        lookup(e.update(i, x), k) == if k == name {
            Some(x.1)
        } else {
            lookup(e, k)
        },
    decreases i,
{
    let u = e.update(i, x);
    if i == 0 {
        assert(u.drop_first() =~= e.drop_first());
    } else {
        assert(u[0] == e[0]);
        assert(u.drop_first() =~= e.drop_first().update(i - 1, x));
        lemma_lookup_update_one(e.drop_first(), i - 1, x, name, k);
    }
}

proof fn lemma_lookup_push(e: Seq<(Seq<char>, ReadyView)>, x: (Seq<char>, ReadyView), name: Seq<char>)
    requires
        x.0 == name,
        forall|j: int| 0 <= j < e.len() ==> e[j].0 != name,
    ensures
        forall|k: Seq<char>| #[trigger] lookup(e.push(x), k) == if k == name {
            Some(x.1)
        } else {
            lookup(e, k)
        },
{
    assert forall|k: Seq<char>| #[trigger] lookup(e.push(x), k) == if k == name {
        Some(x.1)
    } else {
        lookup(e, k)
    } by {
        lemma_lookup_push_one(e, x, name, k);
    }
}

proof fn lemma_lookup_push_one(e: Seq<(Seq<char>, ReadyView)>, x: (Seq<char>, ReadyView), name: Seq<char>, k: Seq<char>)
    requires
        x.0 == name,
        forall|j: int| 0 <= j < e.len() ==> e[j].0 != name,
    ensures
        lookup(e.push(x), k) == if k == name {
            Some(x.1)
        } else {
            lookup(e, k)
        },
    decreases e.len(),
{
    if e.len() == 0 {
        assert(e.push(x).drop_first() =~= Seq::<(Seq<char>, ReadyView)>::empty());
    } else {
        assert(e.push(x)[0] == e[0]);
        assert(e.push(x).drop_first() =~= e.drop_first().push(x));
        lemma_lookup_push_one(e.drop_first(), x, name, k);
    }
}

/// Whether `c` stays as it is in a file name part.
pub open spec fn name_safe(c: char) -> bool {
    ('0' <= c && c <= '9') || ('A' <= c && c <= 'Z') || ('a' <= c && c <= 'z') || c == '-' || c
        == '_'
}

/// `value` with every character but ASCII letters, digits, `-` and `_`
/// replaced by `_`.
pub open spec fn sanitized(value: Seq<char>) -> Seq<char> {
    value.map_values(|c: char| if name_safe(c) { c } else { '_' })
}

/// `value` made safe for a file name.
pub fn sanitize(value: &str) -> (r: String)
    ensures
        r@ == sanitized(value@),
{
    let chars = chars_of(value);
    let mut out = String::new();
    let mut i: usize = 0;
    while i < chars.len()
        invariant
            chars@ == value@,
            i <= chars@.len(),
            out@ == sanitized(value@).take(i as int),
        decreases chars@.len() - i,
    {
        let c = chars[i];
        let keep = ('0' <= c && c <= '9') || ('A' <= c && c <= 'Z') || ('a' <= c && c <= 'z') || c
            == '-' || c == '_';
        push_char(&mut out, if keep { c } else { '_' });
        assert(sanitized(value@).take(i + 1) =~= sanitized(value@).take(i as int).push(
            if keep { c } else { '_' },
        ));
        i = i + 1;
    }
    assert(sanitized(value@).take(chars@.len() as int) =~= sanitized(value@));
    out
}

/// The names of targets.
pub open spec fn target_names(t: Seq<Target>) -> Seq<Seq<char>> {
    t.map_values(|x: Target| x.name@)
}

/// The index of the first target named `name`.
pub open spec fn first_named(names: Seq<Seq<char>>, name: Seq<char>) -> Option<int>
    decreases names.len(),
{
    if names.len() == 0 {
        None
    } else if names[0] == name {
        Some(0)
    } else {
        match first_named(names.drop_first(), name) {
            Some(i) => Some(i + 1),
            None => None,
        }
    }
}

/// The integers below `n`, in order.
pub open spec fn upto(n: nat) -> Seq<int> {
    Seq::new(n, |k: int| k)
}

/// Indices as integers.
pub open spec fn indices(v: Seq<usize>) -> Seq<int> {
    v.map_values(|i: usize| i as int)
}

/// Which targets (by index) a lifecycle command acts on.
pub open spec fn pick_of(names: Seq<Seq<char>>, sidecar: Option<Seq<char>>) -> Result<Seq<int>, Seq<char>> {
    match sidecar {
        Some(name) => match first_named(names, name) {
            Some(i) => Ok(seq![i]),
            None => Err("unknown target `"@ + name + "` in this manifest"@),
        },
        None => if names.len() == 0 {
            Err("manifest declares no lifecycle targets"@)
        } else {
            Ok(upto(names.len()))
        },
    }
}

proof fn lemma_first_named(names: Seq<Seq<char>>, name: Seq<char>, i: int)
    requires
        0 <= i <= names.len(),
        forall|j: int| 0 <= j < i ==> names[j] != name,
    ensures
        i < names.len() && names[i] == name ==> first_named(names, name) == Some(i),
        i == names.len() ==> first_named(names, name) is None,
    decreases i,
{
    if i > 0 {
        lemma_first_named(names.drop_first(), name, i - 1);
    }
}

/// The indices of the targets a lifecycle command acts on: the one named
/// `sidecar`, or all of them.
pub fn pick(targets: &Vec<Target>, sidecar: Option<&str>) -> (r: Result<Vec<usize>, String>)
    ensures
        match pick_of(target_names(targets@), match sidecar {
            Some(s) => Some(s@),
            None => None,
        }) {
            Ok(v) => r matches Ok(x) && indices(x@) == v,
            Err(m) => r matches Err(x) && x@ == m,
        },
{
    let ghost names = target_names(targets@);
    match sidecar {
        Some(name) => {
            let mut i: usize = 0;
            while i < targets.len()
                invariant
                    names == target_names(targets@),
                    sidecar == Some(name),
                    i <= targets@.len(),
                    forall|j: int| 0 <= j < i ==> names[j] != name@,
                decreases targets@.len() - i,
            {
                assert(names[i as int] == targets@[i as int].name@);
                if eq_str(&targets[i].name, name) {
                    proof {
                        lemma_first_named(names, name@, i as int);
                        assert(first_named(names, name@) == Some(i as int));
                        assert(pick_of(names, Some(name@)) == Ok::<Seq<int>, Seq<char>>(seq![i as int]));
                    }
                    let mut out: Vec<usize> = Vec::new();
                    out.push(i);
                    assert(indices(out@) =~= seq![i as int]);
                    return Ok(out);
                }
                i = i + 1;
            }
            proof {
                lemma_first_named(names, name@, i as int);
            }
            let mut m = owned("unknown target `");
            push_str(&mut m, name);
            push_str(&mut m, "` in this manifest");
            Err(m)
        },
        None => {
            if targets.len() == 0 {
                return Err(owned("manifest declares no lifecycle targets"));
            }
            let mut out: Vec<usize> = Vec::new();
            let mut i: usize = 0;
            while i < targets.len()
                invariant
                    i <= targets@.len(),
                    indices(out@) == upto(i as nat),
                decreases targets@.len() - i,
            {
                let ghost before = out@;
                out.push(i);
                assert(indices(out@) =~= indices(before).push(i as int));
                assert(upto((i + 1) as nat) =~= upto(i as nat).push(i as int));
                i = i + 1;
            }
            Ok(out)
        },
    }
}

/// The pids of a target: the recorded one first, then each discovered one
/// not yet listed, in order.
pub open spec fn merged(recorded: Option<u32>, hits: Seq<u32>) -> Seq<u32>
    decreases hits.len(),
{
    if hits.len() == 0 {
        match recorded {
            Some(p) => seq![p],
            None => seq![],
        }
    } else {
        let m = merged(recorded, hits.drop_last());
        if m.contains(hits.last()) {
            m
        } else {
            m.push(hits.last())
        }
    }
}

/// The pids of a target from its recorded pid and the discovered ones.
pub fn merge_pids(recorded: Option<u32>, hits: &Vec<u32>) -> (r: Vec<u32>)
    ensures
        r@ == merged(recorded, hits@),
{
    let mut pids: Vec<u32> = Vec::new();
    if let Some(p) = recorded {
        pids.push(p);
    }
    assert(hits@.take(0) =~= Seq::<u32>::empty());
    assert(pids@ =~= merged(recorded, hits@.take(0)));
    let mut i: usize = 0;
    while i < hits.len()
        invariant
            i <= hits@.len(),
            pids@ == merged(recorded, hits@.take(i as int)),
        decreases hits@.len() - i,
    {
        let h = hits[i];
        let mut seen = false;
        let mut j: usize = 0;
        while j < pids.len()
            invariant
                j <= pids@.len(),
                seen <==> exists|k: int| 0 <= k < j && pids@[k] == h,
            decreases pids@.len() - j,
        {
            if pids[j] == h {
                seen = true;
            }
            j = j + 1;
        }
        assert(hits@.take(i + 1).drop_last() =~= hits@.take(i as int));
        assert(hits@.take(i + 1).last() == h);
        assert(seen == pids@.contains(h));
        if !seen {
            pids.push(h);
        }
        i = i + 1;
    }
    assert(hits@.take(hits@.len() as int) =~= hits@);
    pids
}

/// The line that describes the runtime broker.
pub open spec fn runtime_text(endpoint: Option<Seq<char>>, pids: Seq<u32>) -> Seq<char> {
    if pids.len() > 0 {
        match endpoint {
            Some(e) => "runtime: running (pid "@ + decimal(pids[0] as nat) + ") "@ + e,
            None => "runtime: starting or stale (pid "@ + decimal(pids[0] as nat) + ")"@,
        }
    } else {
        "runtime: stopped"@
    }
}

/// The line that describes the runtime broker from its endpoint and pids.
pub fn runtime_line(endpoint: Option<&str>, pids: &Vec<u32>) -> (r: String)
    ensures
        r@ == runtime_text(
            match endpoint {
                Some(e) => Some(e@),
                None => None,
            },
            pids@,
        ),
{
    if pids.len() == 0 {
        return owned("runtime: stopped");
    }
    let pid = decimal_string(pids[0] as u64);
    match endpoint {
        Some(e) => {
            let mut s = owned("runtime: running (pid ");
            push_str(&mut s, pid.as_str());
            push_str(&mut s, ") ");
            push_str(&mut s, e);
            s
        },
        None => {
            let mut s = owned("runtime: starting or stale (pid ");
            push_str(&mut s, pid.as_str());
            push_str(&mut s, ")");
            s
        },
    }
}

/// A command and its arguments as one line, separated by spaces.
pub fn command_line(command: &str, args: &Vec<String>) -> (r: String)
    ensures
        r@ == join(seq![command@] + views(args@), " "@),
{
    let mut all: Vec<String> = Vec::new();
    all.push(owned(command));
    let mut i: usize = 0;
    while i < args.len()
        invariant
            i <= args@.len(),
            views(all@) == seq![command@] + views(args@).take(i as int),
        decreases args@.len() - i,
    {
        let ghost before = all@;
        all.push(args[i].clone());
        assert(views(all@) =~= views(before).push(args@[i as int]@));
        assert(views(args@).take(i + 1) =~= views(args@).take(i as int).push(args@[i as int]@));
        i = i + 1;
    }
    assert(views(args@).take(args@.len() as int) =~= views(args@));
    let r = crate::text::join_from(&all, 0, " ");
    assert(views(all@).skip(0) =~= views(all@));
    r
}

/// The views of optional readiness reports.
pub open spec fn report_views(v: Seq<Option<Ready>>) -> Seq<Option<ReadyView>> {
    v.map_values(|o: Option<Ready>| match o {
        Some(r) => Some(r@),
        None => None,
    })
}

/// The last report whose role is `expected`.
pub open spec fn latest_of(reports: Seq<Option<ReadyView>>, expected: Seq<char>) -> Option<ReadyView>
    decreases reports.len(),
{
    if reports.len() == 0 {
        None
    } else {
        match reports.last() {
            Some(r) => if r.role == expected {
                Some(r)
            } else {
                latest_of(reports.drop_last(), expected)
            },
            None => latest_of(reports.drop_last(), expected),
        }
    }
}

/// The readiness a target reported for role `expected`, from the lines of
/// its log in order (each read as a report, or `None` when it is not one):
/// the last report with that role.
pub fn latest_ready(reports: &Vec<Option<Ready>>, expected: &str) -> (r: Option<Ready>)
    ensures
        match latest_of(report_views(reports@), expected@) {
            Some(v) => r matches Some(x) && x@ == v,
            None => r is None,
        },
{
    let ghost all = report_views(reports@);
    let mut i: usize = reports.len();
    assert(all.take(i as int) =~= all);
    while i > 0
        invariant
            i <= reports@.len(),
            all == report_views(reports@),
            latest_of(all, expected@) == latest_of(all.take(i as int), expected@),
        decreases i,
    {
        let ghost part = all.take(i as int);
        assert(part.drop_last() =~= all.take(i - 1));
        assert(part.last() == all[i - 1]);
        match &reports[i - 1] {
            Some(ready) => {
                if eq_str(&ready.role, expected) {
                    return Some(copy_ready(ready));
                }
            },
            None => {},
        }
        i = i - 1;
    }
    None
}

/// `s` as one JSON Pointer token: `~` written `~0` and `/` written `~1`.
pub open spec fn pointer_token(s: Seq<char>) -> Seq<char>
    decreases s.len(),
{
    if s.len() == 0 {
        seq![]
    } else {
        pointer_token(s.drop_last()) + if s.last() == '~' {
            "~0"@
        } else if s.last() == '/' {
            "~1"@
        } else {
            seq![s.last()]
        }
    }
}

/// The JSON Pointer of member `key` inside the value at `base`.
pub open spec fn member_pointer(base: Seq<char>, key: Seq<char>) -> Seq<char> {
    base + seq!['/'] + pointer_token(key)
}

/// The JSON Pointer of member `key` inside the value at `base`.
pub fn pointer_to(base: &str, key: &str) -> (r: String)
    ensures
        r@ == member_pointer(base@, key@),
{
    let k = chars_of(key);
    let mut out = owned(base);
    push_char(&mut out, '/');
    let ghost start = out@;
    let mut i: usize = 0;
    assert(k@.take(0) =~= Seq::<char>::empty());
    while i < k.len()
        invariant
            i <= k@.len(),
            k@ == key@,
            out@ == start + pointer_token(k@.take(i as int)),
        decreases k@.len() - i,
    {
        let c = k[i];
        assert(k@.take(i + 1).drop_last() =~= k@.take(i as int));
        assert(k@.take(i + 1).last() == c);
        if c == '~' {
            push_str(&mut out, "~0");
        } else if c == '/' {
            push_str(&mut out, "~1");
        } else {
            push_char(&mut out, c);
        }
        proof {
            reveal_strlit("~0");
            reveal_strlit("~1");
        }
        assert(out@ =~= start + pointer_token(k@.take(i + 1)));
        i = i + 1;
    }
    assert(k@.take(i as int) =~= k@);
    out
}

/// The readiness facts read from the JSON object at `base` in the JSON
/// text `t`, with the member names `keys` (role, endpoint, runtime,
/// instance); the role is empty when it has none.
pub open spec fn facts_at(t: Seq<char>, base: Seq<char>, keys: (Seq<char>, Seq<char>, Seq<char>, Seq<char>)) -> ReadyView {
    ReadyView {
        role: match json_str_at(t, member_pointer(base, keys.0)) {
            Some(r) => r,
            None => seq![],
        },
        endpoint: json_str_at(t, member_pointer(base, keys.1)),
        runtime: json_str_at(t, member_pointer(base, keys.2)),
        instance: json_str_at(t, member_pointer(base, keys.3)),
    }
}

fn facts(t: &str, base: &str, role: &str, endpoint: &str, runtime: &str, instance: &str) -> (r: Ready)
    ensures
        r@ == facts_at(t@, base@, (role@, endpoint@, runtime@, instance@)),
{
    let role_value = match json_string(t, pointer_to(base, role).as_str()) {
        Some(v) => v,
        None => String::new(),
    };
    Ready {
        role: role_value,
        endpoint: json_string(t, pointer_to(base, endpoint).as_str()),
        runtime: json_string(t, pointer_to(base, runtime).as_str()),
        instance: json_string(t, pointer_to(base, instance).as_str()),
    }
}

/// The readiness report that one log line holds: none unless the trimmed
/// line is JSON; else its `role` (empty when missing), `endpoint`,
/// `runtime_endpoint` and `instance_id` strings.
pub open spec fn report_of(line: Seq<char>) -> Option<ReadyView> {
    let t = trim(line);
    if json_text(t) {
        Some(facts_at(t, seq![], ("role"@, "endpoint"@, "runtime_endpoint"@, "instance_id"@)))
    } else {
        None
    }
}

/// The readiness report that one log line holds.
pub fn report(line: &str) -> (r: Option<Ready>)
    ensures
        match report_of(line@) {
            Some(v) => r matches Some(x) && x@ == v,
            None => r is None,
        },
{
    proof {
        reveal_strlit("");
    }
    let t = string_of(&trimmed(&chars_of(line)));
    if crate::json::json_parse(t.as_str()).is_err() {
        return None;
    }
    Some(facts(t.as_str(), "", "role", "endpoint", "runtime_endpoint", "instance_id"))
}

/// The readiness that a target's log text reports for role `expected`:
/// the last line, read as a report, with that role.
pub open spec fn scan_of(text: Seq<char>, expected: Seq<char>) -> Option<ReadyView> {
    latest_of(lines(text).map_values(|l: Seq<char>| report_of(l)), expected)
}

/// The readiness that a target's log text reports for role `expected`.
pub fn scan(text: &str, expected: &str) -> (r: Option<Ready>)
    ensures
        match scan_of(text@, expected@) {
            Some(v) => r matches Some(x) && x@ == v,
            None => r is None,
        },
{
    let chars = chars_of(text);
    let ls = split_lines(&chars);
    let ghost all = lines(text@);
    let mut reports: Vec<Option<Ready>> = Vec::new();
    let mut i: usize = 0;
    while i < ls.len()
        invariant
            i <= ls@.len(),
            ls@.len() == all.len(),
            all == lines(text@),
            forall|k: int| 0 <= k < ls@.len() ==> #[trigger] ls@[k]@ == all[k],
            report_views(reports@) == all.take(i as int).map_values(|l: Seq<char>| report_of(l)),
        decreases ls@.len() - i,
    {
        let line = string_of(&ls[i]);
        assert(line@ == all[i as int]);
        let ghost before = report_views(reports@);
        reports.push(report(line.as_str()));
        assert(report_views(reports@) =~= before.push(report_of(all[i as int])));
        assert(all.take(i + 1) =~= all.take(i as int).push(all[i as int]));
        assert(all.take(i + 1).map_values(|l: Seq<char>| report_of(l)) =~= all.take(
            i as int,
        ).map_values(|l: Seq<char>| report_of(l)).push(report_of(all[i as int])));
        i = i + 1;
    }
    assert(all.take(i as int) =~= all);
    latest_ready(&reports, expected)
}

/// The JSON Pointer of target `name`'s entry in the state file.
pub open spec fn entry_pointer(name: Seq<char>) -> Seq<char> {
    member_pointer(seq![], name)
}

/// The readiness facts saved for target `name` in the state file text `t`:
/// none unless its entry has a `ready` member; else that member's `role`
/// (empty when missing), `endpoint`, `runtimeEndpoint` and `instanceId`.
pub open spec fn saved_ready_of(t: Seq<char>, name: Seq<char>) -> Option<ReadyView> {
    let base = member_pointer(entry_pointer(name), "ready"@);
    if json_has(t, base) {
        Some(facts_at(t, base, ("role"@, "endpoint"@, "runtimeEndpoint"@, "instanceId"@)))
    } else {
        None
    }
}

/// The readiness facts saved for target `name` in the state file text.
pub fn saved_ready(state: &str, name: &str) -> (r: Option<Ready>)
    ensures
        match saved_ready_of(state@, name@) {
            Some(v) => r matches Some(x) && x@ == v,
            None => r is None,
        },
{
    proof {
        reveal_strlit("");
    }
    let entry = pointer_to("", name);
    let base = pointer_to(entry.as_str(), "ready");
    if json_member(state, base.as_str()).is_none() {
        return None;
    }
    Some(facts(state, base.as_str(), "role", "endpoint", "runtimeEndpoint", "instanceId"))
}

/// The pid saved for target `name` in the state file text: its `pid`
/// member, when that is an unsigned integer that fits a `u32`.
pub fn saved_pid(state: &str, name: &str) -> (r: Option<u32>)
    ensures
        match json_u64_at(state@, member_pointer(entry_pointer(name@), "pid"@)) {
            Some(p) => if p <= u32::MAX {
                r == Some(p as u32)
            } else {
                r is None
            },
            None => r is None,
        },
{
    proof {
        reveal_strlit("");
    }
    let entry = pointer_to("", name);
    let at = pointer_to(entry.as_str(), "pid");
    match json_u64(state, at.as_str()) {
        Some(p) => if p <= 0xffff_ffff {
            Some(p as u32)
        } else {
            None
        },
        None => None,
    }
}

/// The port saved for target `name` in the state file text: its `port`
/// member, when that is an unsigned integer.
pub fn saved_port(state: &str, name: &str) -> (r: Option<u64>)
    ensures
        r == json_u64_at(state@, member_pointer(entry_pointer(name@), "port"@)),
{
    proof {
        reveal_strlit("");
    }
    let entry = pointer_to("", name);
    let at = pointer_to(entry.as_str(), "port");
    json_u64(state, at.as_str())
}

proof fn lemma_first_named_props(names: Seq<Seq<char>>, name: Seq<char>)
    ensures
        match first_named(names, name) {
            Some(i) => 0 <= i < names.len() && names[i] == name && forall|j: int|
                0 <= j < i ==> names[j] != name,
            None => forall|j: int| 0 <= j < names.len() ==> names[j] != name,
        },
    decreases names.len(),
{
    if names.len() > 0 && names[0] != name {
        lemma_first_named_props(names.drop_first(), name);
        match first_named(names.drop_first(), name) {
            Some(i) => {
                assert(names[i + 1] == names.drop_first()[i]);
                assert forall|j: int| 0 <= j < i + 1 implies names[j] != name by {
                    if j > 0 {
                        assert(names[j] == names.drop_first()[j - 1]);
                    }
                }
            },
            None => {
                assert forall|j: int| 0 <= j < names.len() implies names[j] != name by {
                    if j > 0 {
                        assert(names[j] == names.drop_first()[j - 1]);
                    }
                }
            },
        }
    }
}

/// A named lifecycle command acts on exactly one target, the first one
/// with that name, and fails exactly when no target has the name; an
/// unnamed one acts on every target, each once and in order, and fails
/// exactly when there is none.
pub proof fn lemma_pick(names: Seq<Seq<char>>, sidecar: Option<Seq<char>>)
    ensures
        sidecar matches Some(n) ==> match pick_of(names, sidecar) {
            Ok(v) => v.len() == 1 && 0 <= v[0] < names.len() && names[v[0]] == n && forall|j: int|
                0 <= j < v[0] ==> names[j] != n,
            Err(_) => forall|j: int| 0 <= j < names.len() ==> names[j] != n,
        },
        sidecar is None ==> match pick_of(names, sidecar) {
            Ok(v) => names.len() > 0 && v.len() == names.len() && forall|k: int|
                0 <= k < v.len() ==> v[k] == k,
            Err(_) => names.len() == 0,
        },
{
    if let Some(n) = sidecar {
        lemma_first_named_props(names, n);
    }
}

} // verus!
