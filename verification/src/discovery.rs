//! Stamp-based process discovery over a `ps -axo pid=,command=` listing.
//!
//! Running `ps` is the caller's part; this module reads its output and
//! keeps the processes whose command line satisfies a test on its words.
use vstd::prelude::*;
use crate::argv::{eq_str, views, word_strings};
use crate::process::{listing, opt_str, row_views, select, Row};
use crate::stamp;
use crate::text::words;

verus! {

/// A discovered process with the command line it runs.
#[derive(Clone, Debug, PartialEq, Eq)]
pub struct StampedProcess {
    pub pid: u32,
    pub command: String,
}

/// The views of discovered processes.
pub open spec fn process_views(v: Seq<StampedProcess>) -> Seq<Row> {
    v.map_values(|p: StampedProcess| (p.pid, p.command@))
}

/// The rows whose `keep` flag is set, in order.
pub open spec fn pick(rows: Seq<Row>, keep: Seq<bool>) -> Seq<Row>
    decreases rows.len(),
{
    if rows.len() == 0 || keep.len() == 0 {
        seq![]
    } else {
        (if keep[0] {
            seq![rows[0]]
        } else {
            Seq::<Row>::empty()
        }) + pick(rows.drop_first(), keep.drop_first())
    }
}

/// Whether `predicate` answered `b` for an argument list whose words are `w`.
pub open spec fn answered<F: Fn(&[String]) -> bool>(predicate: F, w: Seq<Seq<char>>, b: bool) -> bool {
    exists|a: &[String]| views(a@) == w && #[trigger] predicate.ensures((a,), b)
}

/// The rows of a process listing (see `process::parse`).
pub fn parse_ps_output(text: &str) -> (r: Vec<(u32, String)>)
    ensures
        row_views(r@) == listing(text@),
{
    crate::process::parse(text)
}

/// The rows whose command line, split into words, `predicate` answers
/// `true` for, in order.
pub fn filter_stamped<F: Fn(&[String]) -> bool>(rows: Vec<(u32, String)>, predicate: F) -> (r: Vec<StampedProcess>)
    requires
        forall|a: &[String]| #[trigger] predicate.requires((a,)),
    ensures
        exists|keep: Seq<bool>|
            #![trigger pick(row_views(rows@), keep)]
            {
                &&& keep.len() == rows@.len()
                &&& forall|i: int|
                    0 <= i < keep.len() ==> answered(predicate, words(rows@[i].1@), #[trigger] keep[i])
                &&& process_views(r@) == pick(row_views(rows@), keep)
            },
{
    let ghost all = row_views(rows@);
    let ghost mut keep: Seq<bool> = seq![];
    let mut out: Vec<StampedProcess> = Vec::new();
    let mut i: usize = 0;
    while i < rows.len()
        invariant
            forall|a: &[String]| #[trigger] predicate.requires((a,)),
            all == row_views(rows@),
            i <= rows@.len(),
            keep.len() == i,
            forall|k: int| 0 <= k < i ==> answered(predicate, words(rows@[k].1@), #[trigger] keep[k]),
            forall|k: int| 0 <= k < i ==> (#[trigger] keep[k]) == true || keep[k] == false,
            process_views(out@) == pick(all.take(i as int), keep),
        decreases rows@.len() - i,
    {
        let args = word_strings(rows[i].1.as_str());
        let slice = args.as_slice();
        let kept = predicate(slice);
        assert(views(slice@) == words(rows@[i as int].1@));
        assert(answered(predicate, words(rows@[i as int].1@), kept));
        let ghost before = process_views(out@);
        let ghost old_keep = keep;
        if kept {
            out.push(StampedProcess { pid: rows[i].0, command: rows[i].1.clone() });
        }
        proof {
            keep = keep.push(kept);
            lemma_pick_push(all.take(i as int), old_keep, all[i as int], kept);
            assert(all.take(i + 1) =~= all.take(i as int).push(all[i as int]));
            assert(all[i as int] == (rows@[i as int].0, rows@[i as int].1@));
        }
        assert(process_views(out@) =~= before + if kept {
            seq![all[i as int]]
        } else {
            Seq::<Row>::empty()
        });
        assert forall|k: int| 0 <= k < i + 1 implies answered(predicate, words(rows@[k].1@), #[trigger] keep[k]) by {
            if k < i {
                assert(keep[k] == old_keep[k]);
            }
        }
        i = i + 1;
    }
    assert(all.take(i as int) =~= all);
    out
}

proof fn lemma_pick_push(rows: Seq<Row>, keep: Seq<bool>, x: Row, b: bool)
    requires
        rows.len() == keep.len(),
    ensures
        pick(rows.push(x), keep.push(b)) == pick(rows, keep) + if b {
            seq![x]
        } else {
            Seq::<Row>::empty()
        },
    decreases rows.len(),
{
    if rows.len() == 0 {
        assert(rows.push(x).drop_first() =~= Seq::<Row>::empty());
        assert(keep.push(b).drop_first() =~= Seq::<bool>::empty());
        assert(rows.push(x)[0] == x);
        assert(keep.push(b)[0] == b);
        assert(pick(Seq::<Row>::empty(), Seq::<bool>::empty()) =~= Seq::<Row>::empty());
        assert(pick(rows.push(x), keep.push(b)) =~= if b {
            seq![x]
        } else {
            Seq::<Row>::empty()
        });
    } else {
        lemma_pick_push(rows.drop_first(), keep.drop_first(), x, b);
        assert(rows.push(x).drop_first() =~= rows.drop_first().push(x));
        assert(keep.push(b).drop_first() =~= keep.drop_first().push(b));
        assert(rows.push(x)[0] == rows[0]);
        assert(keep.push(b)[0] == keep[0]);
        let head = if keep[0] {
            seq![rows[0]]
        } else {
            Seq::<Row>::empty()
        };
        assert(pick(rows, keep) == head + pick(rows.drop_first(), keep.drop_first()));
        assert(pick(rows.push(x), keep.push(b)) == head + pick(rows.drop_first().push(x), keep.drop_first().push(b)));
        assert(pick(rows.push(x), keep.push(b)) =~= pick(rows, keep) + if b {
            seq![x]
        } else {
            Seq::<Row>::empty()
        });
    }
}

/// Whether the command line `args` carries a stamp (with or without a
/// version field) of `app`.
pub fn match_app(args: &[String], app: &str) -> (r: bool)
    ensures
        r == (stamp::stamp_in(views(args@), true) matches Some(s) && s.app == app@),
{
    match stamp::read_stamp(args) {
        Some(s) => eq_str(&s.app, app),
        None => false,
    }
}

/// Whether the command line `args` carries a stamp (with or without a
/// version field) in `namespace`.
pub fn match_namespace(args: &[String], namespace: &str) -> (r: bool)
    ensures
        r == (stamp::stamp_in(views(args@), true) matches Some(s) && s.namespace == namespace@),
{
    match stamp::read_stamp(args) {
        Some(s) => eq_str(&s.namespace, namespace),
        None => false,
    }
}

/// Whether a command line carries a stamp (with or without a version field)
/// of `app` (any app when `None`) in `namespace`.
pub open spec fn lenient_in(command: Seq<char>, app: Option<Seq<char>>, namespace: Seq<char>) -> bool {
    match stamp::stamp_in(words(command), true) {
        Some(s) => (app is None || s.app == app->0) && s.namespace == namespace,
        None => false,
    }
}

/// The listed processes whose command line carries a stamp of `app` (any
/// app when `None`) in `namespace`, in listing order.
fn keep_lenient(rows: Vec<(u32, String)>, app: Option<&str>, namespace: &str) -> (r: Vec<StampedProcess>)
    ensures
        process_views(r@) == select(
            row_views(rows@),
            |c: Seq<char>| lenient_in(c, opt_str(app), namespace@),
        ),
{
    let ghost keep = |c: Seq<char>| lenient_in(c, opt_str(app), namespace@);
    let ghost all = row_views(rows@);
    let mut out: Vec<StampedProcess> = Vec::new();
    let mut i: usize = 0;
    assert(all.skip(0) =~= all);
    assert(process_views(out@) + select(all.skip(0), keep) =~= select(all, keep));
    while i < rows.len()
        invariant
            all == row_views(rows@),
            keep == (|c: Seq<char>| lenient_in(c, opt_str(app), namespace@)),
            i <= rows@.len(),
            process_views(out@) + select(all.skip(i as int), keep) == select(all, keep),
        decreases rows@.len() - i,
    {
        let ghost before = process_views(out@);
        let ghost rest = all.skip(i as int);
        assert(rest[0] == (rows@[i as int].0, rows@[i as int].1@));
        assert(rest.drop_first() =~= all.skip(i + 1));
        let args = word_strings(rows[i].1.as_str());
        let slice = args.as_slice();
        let app_ok = match app {
            Some(name) => match_app(slice, name),
            None => true,
        };
        let kept = app_ok && match_namespace(slice, namespace);
        assert(kept == keep(rows@[i as int].1@));
        if kept {
            out.push(StampedProcess { pid: rows[i].0, command: rows[i].1.clone() });
            assert(process_views(out@) =~= before.push(rest[0]));
        }
        assert(process_views(out@) + select(all.skip(i + 1), keep) =~= select(all, keep));
        i = i + 1;
    }
    assert(all.skip(i as int) =~= Seq::<Row>::empty());
    assert(process_views(out@) =~= select(all, keep));
    out
}

/// The processes of a listing whose stamp names `app` in `namespace`, in
/// listing order. Listing the processes (`ps`) is the caller's part.
pub fn discover_by_app_namespace(rows: Vec<(u32, String)>, app: &str, namespace: &str) -> (r: Vec<StampedProcess>)
    ensures
        process_views(r@) == select(
            row_views(rows@),
            |c: Seq<char>| lenient_in(c, Some(app@), namespace@),
        ),
{
    keep_lenient(rows, Some(app), namespace)
}

/// The processes of a listing whose stamp is in `namespace`, in listing
/// order. Listing the processes (`ps`) is the caller's part.
pub fn discover_by_namespace(rows: Vec<(u32, String)>, namespace: &str) -> (r: Vec<StampedProcess>)
    ensures
        process_views(r@) == select(
            row_views(rows@),
            |c: Seq<char>| lenient_in(c, None, namespace@),
        ),
{
    keep_lenient(rows, None, namespace)
}

} // verus!
