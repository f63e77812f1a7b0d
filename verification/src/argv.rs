//! Reading a `--flag=value` or `--flag value` pair out of a command line.
use vstd::prelude::*;
use crate::text::{chars_of, has_prefix, piece, split_words, starts_with, string_of, words};

verus! {

/// The character sequences of a list of strings.
pub open spec fn views(v: Seq<String>) -> Seq<Seq<char>> {
    v.map_values(|s: String| s@)
}

/// The view of an optional string.
pub open spec fn opt_view(o: Option<String>) -> Option<Seq<char>> {
    match o {
        Some(s) => Some(s@),
        None => None,
    }
}

/// The value that the first argument mentioning `flag` carries: the next
/// argument after a bare `flag`, or the rest of a `flag=value` argument.
pub open spec fn flag_value(args: Seq<Seq<char>>, flag: Seq<char>) -> Option<Seq<char>>
    decreases args.len(),
{
    if args.len() == 0 {
        None
    } else if args[0] == flag {
        if args.len() > 1 {
            Some(args[1])
        } else {
            None
        }
    } else if starts_with(args[0], flag.push('=')) {
        Some(args[0].skip(flag.len() + 1int))
    } else {
        flag_value(args.drop_first(), flag)
    }
}

/// Whether two character sequences are equal.
pub fn same(a: &[char], b: &[char]) -> (r: bool)
    ensures
        r == (a@ == b@),
{
    if a.len() != b.len() {
        return false;
    }
    let mut i: usize = 0;
    while i < a.len()
        invariant
            a@.len() == b@.len(),
            i <= a@.len(),
            forall|j: int| 0 <= j < i ==> a@[j] == b@[j],
        decreases a@.len() - i,
    {
        if a[i] != b[i] {
            return false;
        }
        i = i + 1;
    }
    assert(a@ =~= b@);
    true
}

/// Whether a string equals a string slice.
pub fn eq_str(a: &String, b: &str) -> (r: bool)
    ensures
        r == (a@ == b@),
{
    let x = chars_of(a.as_str());
    let y = chars_of(b);
    same(&x, &y)
}

/// The value carried by `flag` on the command line `args`.
pub fn flag_in(args: &[String], flag: &str) -> (r: Option<String>)
    ensures
        opt_view(r) == flag_value(views(args@), flag@),
{
    let f = chars_of(flag);
    let mut prefix = chars_of(flag);
    prefix.push('=');
    let ghost all = views(args@);
    let mut i: usize = 0;
    assert(all.skip(0) =~= all);
    while i < args.len()
        invariant
            all == views(args@),
            f@ == flag@,
            prefix@ == flag@.push('='),
            i <= args@.len(),
            flag_value(all, flag@) == flag_value(all.skip(i as int), flag@),
        decreases args@.len() - i,
    {
        let ghost rest = all.skip(i as int);
        assert(rest[0] == args@[i as int]@);
        let value = chars_of(args[i].as_str());
        if same(&value, &f) {
            if i + 1 < args.len() {
                assert(rest[1] == args@[i + 1]@);
                return Some(args[i + 1].clone());
            }
            return None;
        }
        if has_prefix(&value, &prefix) {
            let tail = piece(&value, prefix.len(), value.len());
            assert(tail@ =~= rest[0].skip(flag@.len() + 1int));
            return Some(string_of(&tail));
        }
        assert(rest.drop_first() =~= all.skip(i + 1));
        i = i + 1;
    }
    assert(all.skip(i as int) =~= Seq::<Seq<char>>::empty());
    None
}

/// Whether an argument is an occurrence of `flag`, bare or with a value.
pub open spec fn mentions(arg: Seq<char>, flag: Seq<char>) -> bool {
    arg == flag || starts_with(arg, flag.push('='))
}

/// Arguments that do not mention `flag` do not change the value it carries.
pub proof fn lemma_flag_skip(a: Seq<Seq<char>>, b: Seq<Seq<char>>, flag: Seq<char>)
    requires
        forall|i: int| 0 <= i < a.len() ==> !mentions(#[trigger] a[i], flag),
    ensures
        flag_value(a + b, flag) == flag_value(b, flag),
    decreases a.len(),
{
    if a.len() > 0 {
        assert((a + b)[0] == a[0]);
        assert(!mentions(a[0], flag));
        assert((a + b).drop_first() =~= a.drop_first() + b);
        lemma_flag_skip(a.drop_first(), b, flag);
    } else {
        assert(a + b =~= b);
    }
}

/// The white-space separated words of `s`, as strings
/// (`str::split_whitespace`).
pub fn word_strings(s: &str) -> (r: Vec<String>)
    ensures
        views(r@) == words(s@),
{
    let chars = chars_of(s);
    let parts = split_words(&chars);
    let mut out: Vec<String> = Vec::new();
    let mut i: usize = 0;
    while i < parts.len()
        invariant
            parts@.len() == words(s@).len(),
            forall|k: int| 0 <= k < parts@.len() ==> #[trigger] parts@[k]@ == words(s@)[k],
            i <= parts@.len(),
            views(out@) == words(s@).take(i as int),
        decreases parts@.len() - i,
    {
        let w = string_of(&parts[i]);
        let ghost before = out@;
        out.push(w);
        assert(views(out@) =~= views(before).push(parts@[i as int]@));
        assert(words(s@).take(i + 1) =~= words(s@).take(i as int).push(words(s@)[i as int]));
        i = i + 1;
    }
    assert(words(s@).take(parts@.len() as int) =~= words(s@));
    out
}

} // verus!
