//! Finding stamped targets and runtime brokers in a process listing.
//!
//! Listing the processes is the caller's part (`ps -axo pid=,command=`);
//! this module reads such a listing and picks out the processes whose
//! command line carries a given stamp or broker identity.
use vstd::prelude::*;
use crate::argv::{views, word_strings};
use crate::broker;
use crate::stamp;
use crate::text::{
    chars_of, decimal_value, find, lines, parse_decimal, piece, space, split_lines, string_of,
    trim, trim_bounds, trim_start, trimmed, words, is_space,
};

verus! {

/// A process whose command line carries a matching target stamp.
#[derive(Clone, Debug, PartialEq, Eq)]
pub struct Stamped {
    pub pid: u32,
    pub command: String,
}

/// A process whose command line carries a matching broker identity.
#[derive(Clone, Debug, PartialEq, Eq)]
pub struct Broker {
    pub pid: u32,
    pub command: String,
}

/// A listing row as plain values.
pub type Row = (u32, Seq<char>);

/// The views of listing rows.
pub open spec fn row_views(v: Seq<(u32, String)>) -> Seq<Row> {
    v.map_values(|r: (u32, String)| (r.0, r.1@))
}

/// The index of the first white-space character of `s`.
pub open spec fn space_index(s: Seq<char>) -> Option<int>
    decreases s.len(),
{
    if s.len() == 0 {
        None
    } else if is_space(s[0]) {
        Some(0)
    } else {
        match space_index(s.drop_first()) {
            Some(i) => Some(i + 1),
            None => None,
        }
    }
}

/// The row that one listing line gives: a pid, white space, a command.
pub open spec fn ps_row(line: Seq<char>) -> Option<Row> {
    let t = trim_start(line);
    match space_index(t) {
        None => None,
        Some(i) => match decimal_value(trim(t.take(i))) {
            Some(v) => if v <= u32::MAX {
                Some((v as u32, trim(t.skip(i + 1))))
            } else {
                None
            },
            None => None,
        },
    }
}

/// The rows of the lines that give one, in order.
pub open spec fn ps_rows(ls: Seq<Seq<char>>) -> Seq<Row>
    decreases ls.len(),
{
    if ls.len() == 0 {
        seq![]
    } else {
        (match ps_row(ls[0]) {
            Some(r) => seq![r],
            None => Seq::<Row>::empty(),
        }) + ps_rows(ls.drop_first())
    }
}

/// The rows of a process listing.
pub open spec fn listing(text: Seq<char>) -> Seq<Row> {
    ps_rows(lines(text))
}

/// The rows for which `keep` holds, in order.
pub open spec fn select(rows: Seq<Row>, keep: spec_fn(Seq<char>) -> bool) -> Seq<Row>
    decreases rows.len(),
{
    if rows.len() == 0 {
        seq![]
    } else {
        (if keep(rows[0].1) {
            seq![rows[0]]
        } else {
            Seq::<Row>::empty()
        }) + select(rows.drop_first(), keep)
    }
}

/// Whether a command line carries a stamp of `app` (any app when `None`) in
/// `namespace`.
pub open spec fn stamped_in(command: Seq<char>, app: Option<Seq<char>>, namespace: Seq<char>) -> bool {
    match stamp::stamp_in(words(command), false) {
        Some(s) => (app is None || s.app == app->0) && s.namespace == namespace,
        None => false,
    }
}

/// Whether a command line carries the broker identity of `project` and
/// `namespace`.
pub open spec fn broker_in(command: Seq<char>, project: Seq<char>, namespace: Seq<char>) -> bool {
    match broker::identity_in(words(command)) {
        Some(i) => i.project == project && i.namespace == namespace,
        None => false,
    }
}

/// The views of stamped processes.
pub open spec fn stamped_views(v: Seq<Stamped>) -> Seq<Row> {
    v.map_values(|p: Stamped| (p.pid, p.command@))
}

/// The views of broker processes.
pub open spec fn broker_views(v: Seq<Broker>) -> Seq<Row> {
    v.map_values(|p: Broker| (p.pid, p.command@))
}

/// The view of an optional string slice.
pub open spec fn opt_str(o: Option<&str>) -> Option<Seq<char>> {
    match o {
        Some(s) => Some(s@),
        None => None,
    }
}

proof fn lemma_space_index(s: Seq<char>, i: int)
    requires
        0 <= i <= s.len(),
        forall|j: int| 0 <= j < i ==> !is_space(#[trigger] s[j]),
    ensures
        i < s.len() && is_space(s[i]) ==> space_index(s) == Some(i),
        i == s.len() ==> space_index(s) is None,
    decreases i,
{
    if i > 0 {
        lemma_space_index(s.drop_first(), i - 1);
    }
}

/// The row that one listing line gives.
pub fn row(line: &[char]) -> (r: Option<(u32, String)>)
    ensures
        match ps_row(line@) {
            Some(x) => r matches Some(y) && y.0 == x.0 && y.1@ == x.1,
            None => r is None,
        },
{
    let (a, _) = trim_bounds(line);
    let t = piece(line, a, line.len());
    assert(t@ == trim_start(line@));
    let mut i: usize = 0;
    while i < t.len() && !space(t[i])
        invariant_except_break
            i <= t@.len(),
            forall|j: int| 0 <= j < i ==> !is_space(#[trigger] t@[j]),
        ensures
            i <= t@.len(),
            forall|j: int| 0 <= j < i ==> !is_space(#[trigger] t@[j]),
            i < t@.len() ==> is_space(t@[i as int]),
        decreases t@.len() - i,
    {
        i = i + 1;
    }
    proof {
        lemma_space_index(t@, i as int);
    }
    if i == t.len() {
        return None;
    }
    let pid_text = trimmed(&piece(&t, 0, i));
    match parse_decimal(&pid_text) {
        Some(v) => {
            if v <= 4294967295 {
                let command = trimmed(&piece(&t, i + 1, t.len()));
                Some((v as u32, string_of(&command)))
            } else {
                None
            }
        },
        None => None,
    }
}

/// The rows of a process listing: for each line that holds a pid, white
/// space and a command, the pid and the trimmed command.
pub fn parse(text: &str) -> (r: Vec<(u32, String)>)
    ensures
        row_views(r@) == listing(text@),
{
    let chars = chars_of(text);
    let ls = split_lines(&chars);
    let ghost all = lines(text@);
    let mut out: Vec<(u32, String)> = Vec::new();
    let mut i: usize = 0;
    assert(all.skip(0) =~= all);
    assert(row_views(out@) + ps_rows(all.skip(0)) =~= ps_rows(all));
    while i < ls.len()
        invariant
            all == lines(text@),
            ls@.len() == all.len(),
            forall|k: int| 0 <= k < ls@.len() ==> #[trigger] ls@[k]@ == all[k],
            i <= ls@.len(),
            row_views(out@) + ps_rows(all.skip(i as int)) == ps_rows(all),
        decreases ls@.len() - i,
    {
        let ghost before = row_views(out@);
        let ghost rest = all.skip(i as int);
        assert(rest[0] == ls@[i as int]@);
        assert(rest.drop_first() =~= all.skip(i + 1));
        match row(&ls[i]) {
            Some(x) => {
                let ghost xv = (x.0, x.1@);
                out.push(x);
                assert(row_views(out@) =~= before.push(xv));
            },
            None => {},
        }
        assert(row_views(out@) + ps_rows(all.skip(i + 1)) =~= ps_rows(all));
        i = i + 1;
    }
    assert(all.skip(i as int) =~= Seq::<Seq<char>>::empty());
    assert(row_views(out@) =~= ps_rows(all));
    out
}

fn stamped_match(command: &String, app: Option<&str>, namespace: &str) -> (r: bool)
    ensures
        r == stamped_in(command@, opt_str(app), namespace@),
{
    let args = word_strings(command.as_str());
    match stamp::find(&args) {
        Some(s) => {
            let app_ok = match app {
                Some(name) => crate::argv::eq_str(&s.app, name),
                None => true,
            };
            app_ok && crate::argv::eq_str(&s.namespace, namespace)
        },
        None => false,
    }
}

fn broker_match(command: &String, project: &str, namespace: &str) -> (r: bool)
    ensures
        r == broker_in(command@, project@, namespace@),
{
    let args = word_strings(command.as_str());
    match broker::read(&args) {
        Some(i) => crate::argv::eq_str(&i.project, project) && crate::argv::eq_str(
            &i.namespace,
            namespace,
        ),
        None => false,
    }
}

impl Stamped {
    /// The listed processes whose command line carries a stamp of `app`
    /// (any app when `None`) in `namespace`, in listing order.
    pub fn filter(rows: Vec<(u32, String)>, app: Option<&str>, namespace: &str) -> (r: Vec<Stamped>)
        ensures
            stamped_views(r@) == select(
                row_views(rows@),
                |c: Seq<char>| stamped_in(c, opt_str(app), namespace@),
            ),
    {
        let ghost keep = |c: Seq<char>| stamped_in(c, opt_str(app), namespace@);
        let ghost all = row_views(rows@);
        let mut out: Vec<Stamped> = Vec::new();
        let mut i: usize = 0;
        assert(all.skip(0) =~= all);
        assert(stamped_views(out@) + select(all.skip(0), keep) =~= select(all, keep));
        while i < rows.len()
            invariant
                all == row_views(rows@),
                keep == (|c: Seq<char>| stamped_in(c, opt_str(app), namespace@)),
                i <= rows@.len(),
                stamped_views(out@) + select(all.skip(i as int), keep) == select(all, keep),
            decreases rows@.len() - i,
        {
            let ghost before = stamped_views(out@);
            let ghost rest = all.skip(i as int);
            assert(rest[0] == (rows@[i as int].0, rows@[i as int].1@));
            assert(rest.drop_first() =~= all.skip(i + 1));
            let (pid, command) = (rows[i].0, &rows[i].1);
            if stamped_match(command, app, namespace) {
                out.push(Stamped { pid, command: command.clone() });
                assert(stamped_views(out@) =~= before.push(rest[0]));
            }
            assert(stamped_views(out@) + select(all.skip(i + 1), keep) =~= select(all, keep));
            i = i + 1;
        }
        assert(all.skip(i as int) =~= Seq::<Row>::empty());
        assert(stamped_views(out@) =~= select(all, keep));
        out
    }
}

impl Broker {
    /// The listed processes whose command line carries the broker identity
    /// of `project` and `namespace`, in listing order.
    pub fn filter(rows: Vec<(u32, String)>, project: &str, namespace: &str) -> (r: Vec<Broker>)
        ensures
            broker_views(r@) == select(
                row_views(rows@),
                |c: Seq<char>| broker_in(c, project@, namespace@),
            ),
    {
        let ghost keep = |c: Seq<char>| broker_in(c, project@, namespace@);
        let ghost all = row_views(rows@);
        let mut out: Vec<Broker> = Vec::new();
        let mut i: usize = 0;
        assert(all.skip(0) =~= all);
        assert(broker_views(out@) + select(all.skip(0), keep) =~= select(all, keep));
        while i < rows.len()
            invariant
                all == row_views(rows@),
                keep == (|c: Seq<char>| broker_in(c, project@, namespace@)),
                i <= rows@.len(),
                broker_views(out@) + select(all.skip(i as int), keep) == select(all, keep),
            decreases rows@.len() - i,
        {
            let ghost before = broker_views(out@);
            let ghost rest = all.skip(i as int);
            assert(rest[0] == (rows@[i as int].0, rows@[i as int].1@));
            assert(rest.drop_first() =~= all.skip(i + 1));
            let (pid, command) = (rows[i].0, &rows[i].1);
            if broker_match(command, project, namespace) {
                out.push(Broker { pid, command: command.clone() });
                assert(broker_views(out@) =~= before.push(rest[0]));
            }
            assert(broker_views(out@) + select(all.skip(i + 1), keep) =~= select(all, keep));
            i = i + 1;
        }
        assert(all.skip(i as int) =~= Seq::<Row>::empty());
        assert(broker_views(out@) =~= select(all, keep));
        out
    }
}

/// A row is in the selection exactly when it is listed and passes `keep`.
pub proof fn lemma_select(rows: Seq<Row>, keep: spec_fn(Seq<char>) -> bool, x: Row)
    ensures
        select(rows, keep).contains(x) <==> (rows.contains(x) && keep(x.1)),
    decreases rows.len(),
{
    if rows.len() > 0 {
        lemma_select(rows.drop_first(), keep, x);
        let head = if keep(rows[0].1) {
            seq![rows[0]]
        } else {
            Seq::<Row>::empty()
        };
        let rest = select(rows.drop_first(), keep);
        assert(select(rows, keep) == head + rest);
        if select(rows, keep).contains(x) {
            let k = choose|k: int| 0 <= k < select(rows, keep).len() && select(rows, keep)[k] == x;
            if k < head.len() {
                assert(rows[0] == x);
                assert(rows.contains(x));
            } else {
                assert(rest[k - head.len()] == x);
                assert(rest.contains(x));
                let j = choose|j: int| 0 <= j < rows.drop_first().len() && rows.drop_first()[j] == x;
                assert(rows[j + 1] == x);
            }
        }
        if rows.contains(x) && keep(x.1) {
            let j = choose|j: int| 0 <= j < rows.len() && rows[j] == x;
            if j == 0 {
                assert((head + rest)[0] == x);
            } else {
                assert(rows.drop_first()[j - 1] == x);
                assert(rest.contains(x));
                let k = choose|k: int| 0 <= k < rest.len() && rest[k] == x;
                assert((head + rest)[head.len() + k] == x);
            }
        }
    }
}

/// The stamped processes kept for `app` (any, when `None`) and `namespace`
/// are exactly the listed ones whose command line carries a stamp in that
/// namespace and, when an app is named, of that app.
pub proof fn lemma_stamped_filter(rows: Seq<Row>, app: Option<Seq<char>>, namespace: Seq<char>, x: Row)
    ensures
        select(rows, |c: Seq<char>| stamped_in(c, app, namespace)).contains(x) <==> (rows.contains(x)
            && (stamp::stamp_in(words(x.1), false) matches Some(s) && s.namespace == namespace
            && (app is None || s.app == app->0))),
{
    lemma_select(rows, |c: Seq<char>| stamped_in(c, app, namespace), x);
}

/// The broker processes kept for `project` and `namespace` are exactly the
/// listed ones whose command line carries that broker identity.
pub proof fn lemma_broker_filter(rows: Seq<Row>, project: Seq<char>, namespace: Seq<char>, x: Row)
    ensures
        select(rows, |c: Seq<char>| broker_in(c, project, namespace)).contains(x) <==> (rows.contains(
            x,
        ) && (broker::identity_in(words(x.1)) matches Some(i) && i.project == project && i.namespace
            == namespace)),
{
    lemma_select(rows, |c: Seq<char>| broker_in(c, project, namespace), x);
}

} // verus!
