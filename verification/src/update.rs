//! Release channels and version ordering for the update notice.
use vstd::prelude::*;
use crate::argv::opt_view;
use crate::json::{json_str_at, json_string, json_u64, json_u64_at};
use crate::argv::eq_str;
use crate::text::{
    chars_of, decimal_value, find_pat, find_str, lemma_find_pat, owned, parse_decimal, piece, push_str,
    split, split_char, string_of, strip_end_char, trim, trim_end_char, trimmed,
};

verus! {

/// How long, in seconds, a cached release check stays fresh by default.
pub const TTL: u64 = 86400;

/// A release version: `(major, minor, patch)` and `(0, n)` for beta `n` or
/// `(1, 0)` for a stable release, compared in that order.
pub struct Version {
    pub base: (u32, u32, u32),
    pub pre: (u8, u32),
}

/// The `u32` that `s` reads as.
pub open spec fn u32_of(s: Seq<char>) -> Option<u32> {
    match decimal_value(s) {
        Some(n) => if n <= u32::MAX {
            Some(n as u32)
        } else {
            None
        },
        None => None,
    }
}

/// `t` without one leading `v`.
pub open spec fn without_v(t: Seq<char>) -> Seq<char> {
    if t.len() > 0 && t[0] == 'v' {
        t.drop_first()
    } else {
        t
    }
}

/// The `major.minor.patch` triple that `base` reads as.
pub open spec fn base_of(base: Seq<char>) -> Option<(u32, u32, u32)> {
    let parts = split(base, '.');
    if parts.len() == 3 && u32_of(parts[0]) is Some && u32_of(parts[1]) is Some && u32_of(
        parts[2],
    ) is Some {
        Some((u32_of(parts[0])->0, u32_of(parts[1])->0, u32_of(parts[2])->0))
    } else {
        None
    }
}

/// The version that `value` names: `[v]major.minor.patch[-beta.n]`.
pub open spec fn version_of(value: Seq<char>) -> Option<((u32, u32, u32), (u8, u32))> {
    let t = without_v(trim(value));
    match find_pat(t, "-beta."@) {
        Some(i) => match u32_of(t.skip(i + 6)) {
            Some(b) => match base_of(t.take(i)) {
                Some(v) => Some((v, (0u8, b))),
                None => None,
            },
            None => None,
        },
        None => match base_of(t) {
            Some(v) => Some((v, (1u8, 0u32))),
            None => None,
        },
    }
}

/// Whether version `a` orders after version `b`.
pub open spec fn after(a: ((u32, u32, u32), (u8, u32)), b: ((u32, u32, u32), (u8, u32))) -> bool {
    let (x, p) = a;
    let (y, q) = b;
    if x.0 != y.0 {
        x.0 > y.0
    } else if x.1 != y.1 {
        x.1 > y.1
    } else if x.2 != y.2 {
        x.2 > y.2
    } else if p.0 != q.0 {
        p.0 > q.0
    } else {
        p.1 > q.1
    }
}

/// Whether `remote` names a version that orders after `local`; false when
/// either does not name a version.
pub open spec fn newer_of(remote: Seq<char>, local: Seq<char>) -> bool {
    match (version_of(remote), version_of(local)) {
        (Some(r), Some(l)) => after(r, l),
        _ => false,
    }
}

/// The seconds that a TTL setting names: a bare number, or a number with
/// an `s`, `m`, `h` or `d` suffix, when the seconds fit in a `u64`.
pub open spec fn duration_of(raw: Seq<char>) -> Option<nat> {
    let t = trim(raw);
    if t.len() == 0 {
        None
    } else if decimal_value(t) is Some && decimal_value(t)->0 <= u64::MAX {
        decimal_value(t)
    } else {
        let unit: nat = if t.last() == 's' {
            1
        } else if t.last() == 'm' {
            60
        } else if t.last() == 'h' {
            3600
        } else if t.last() == 'd' {
            86400
        } else {
            0
        };
        if unit == 0 {
            None
        } else {
            match decimal_value(t.drop_last()) {
                Some(n) => if n <= u64::MAX && n * unit <= u64::MAX {
                    Some(n * unit)
                } else {
                    None
                },
                None => None,
            }
        }
    }
}

fn read_u32(s: &[char]) -> (r: Option<u32>)
    ensures
        r == u32_of(s@),
{
    match parse_decimal(s) {
        Some(n) => if n <= 4294967295 {
            Some(n as u32)
        } else {
            None
        },
        None => None,
    }
}

fn read_base(base: &[char]) -> (r: Option<(u32, u32, u32)>)
    ensures
        r == base_of(base@),
{
    let parts = split_char(base, '.');
    if parts.len() != 3 {
        return None;
    }
    let major = read_u32(&parts[0]);
    let minor = read_u32(&parts[1]);
    let patch = read_u32(&parts[2]);
    match (major, minor, patch) {
        (Some(a), Some(b), Some(c)) => Some((a, b, c)),
        _ => None,
    }
}

/// The version that `value` names, if it names one.
pub fn version(value: &str) -> (r: Option<Version>)
    ensures
        match version_of(value@) {
            Some(v) => r matches Some(x) && x.base == v.0 && x.pre == v.1,
            None => r is None,
        },
{
    proof {
        reveal_strlit("-beta.");
    }
    let all = chars_of(value);
    let trimmed_value = trimmed(&all);
    let t = if trimmed_value.len() > 0 && trimmed_value[0] == 'v' {
        piece(&trimmed_value, 1, trimmed_value.len())
    } else {
        trimmed_value
    };
    let marker = chars_of("-beta.");
    match find_str(&t, &marker) {
        Some(i) => {
            proof {
                lemma_find_pat(t@, marker@);
            }
            assert(i + 6 <= t@.len());
            let beta = read_u32(&piece(&t, i + 6, t.len()));
            match beta {
                Some(b) => match read_base(&piece(&t, 0, i)) {
                    Some(v) => Some(Version { base: v, pre: (0, b) }),
                    None => None,
                },
                None => None,
            }
        },
        None => match read_base(&t) {
            Some(v) => Some(Version { base: v, pre: (1, 0) }),
            None => None,
        },
    }
}

/// Whether `remote` names a newer release than `local`.
pub fn newer(remote: &str, local: &str) -> (r: bool)
    ensures
        r == newer_of(remote@, local@),
{
    match (version(remote), version(local)) {
        (Some(r), Some(l)) => {
            let (x, p) = (r.base, r.pre);
            let (y, q) = (l.base, l.pre);
            if x.0 != y.0 {
                x.0 > y.0
            } else if x.1 != y.1 {
                x.1 > y.1
            } else if x.2 != y.2 {
                x.2 > y.2
            } else if p.0 != q.0 {
                p.0 > q.0
            } else {
                p.1 > q.1
            }
        },
        _ => false,
    }
}

/// The seconds that a TTL setting names, if it names a duration that fits
/// in a `u64`.
pub fn ttl(raw: &str) -> (r: Option<u64>)
    ensures
        match duration_of(raw@) {
            Some(n) => r == Some(n as u64),
            None => r is None,
        },
{
    let all = chars_of(raw);
    let t = trimmed(&all);
    if t.len() == 0 {
        return None;
    }
    if let Some(n) = parse_decimal(&t) {
        return Some(n);
    }
    let last = t[t.len() - 1];
    let unit: u64 = if last == 's' {
        1
    } else if last == 'm' {
        60
    } else if last == 'h' {
        3600
    } else if last == 'd' {
        86400
    } else {
        0
    };
    if unit == 0 {
        return None;
    }
    let num = piece(&t, 0, t.len() - 1);
    assert(num@ =~= t@.drop_last());
    match parse_decimal(&num) {
        Some(n) => n.checked_mul(unit),
        None => None,
    }
}

/// Whether update checks run on `channel`, given the value of the mute
/// setting (`SIDECAR_NO_UPDATE_CHECK`) if it is set: never on `dev` or an
/// empty channel, and not when the setting is non-empty and not `0`.
pub fn enabled(channel: &str, mute: Option<&str>) -> (r: bool)
    ensures
        r == (channel@ != "dev"@ && channel@.len() != 0 && !(mute matches Some(v) && v@.len()
            != 0 && v@ != "0"@)),
{
    let c = owned(channel);
    if eq_str(&c, "dev") || chars_of(channel).len() == 0 {
        return false;
    }
    match mute {
        Some(v) => {
            let m = owned(v);
            !(chars_of(v).len() != 0 && !eq_str(&m, "0"))
        },
        None => true,
    }
}

/// The channel a build checks: the configured one when it is set and
/// non-empty, else the build's own.
pub fn channel(build: &str, configured: Option<&str>) -> (r: String)
    ensures
        r@ == match configured {
            Some(c) => if c@.len() != 0 {
                c@
            } else {
                build@
            },
            None => build@,
        },
{
    match configured {
        Some(c) => {
            if chars_of(c).len() != 0 {
                owned(c)
            } else {
                owned(build)
            }
        },
        None => owned(build),
    }
}

/// Whether a release check made at `checked` is still fresh at `now` under
/// a TTL of `ttl` seconds (never with a zero TTL).
pub fn fresh(checked: u64, now: u64, ttl: u64) -> (r: bool)
    ensures
        r == (ttl != 0 && (if now >= checked {
            now - checked
        } else {
            0
        }) < ttl),
{
    if ttl == 0 {
        return false;
    }
    now.saturating_sub(checked) < ttl
}

/// The address of a channel's latest release file `name` under `base`.
pub fn latest_url(base: &str, channel: &str, name: &str) -> (r: String)
    ensures
        r@ == trim_end_char(base@, '/') + seq!['/'] + channel@ + "/latest/"@ + name@,
{
    let b = strip_end_char(&chars_of(base), '/');
    let mut url = string_of(&b);
    crate::text::push_char(&mut url, '/');
    push_str(&mut url, channel);
    push_str(&mut url, "/latest/");
    push_str(&mut url, name);
    url
}

/// No version is newer than itself.
pub proof fn lemma_newer_irreflexive(v: Seq<char>)
    ensures
        !newer_of(v, v),
{
}

/// Of two versions at most one is newer than the other.
pub proof fn lemma_newer_asymmetric(a: Seq<char>, b: Seq<char>)
    ensures
        newer_of(a, b) ==> !newer_of(b, a),
{
}

/// Being newer is transitive.
pub proof fn lemma_newer_transitive(a: Seq<char>, b: Seq<char>, c: Seq<char>)
    ensures
        newer_of(a, b) && newer_of(b, c) ==> newer_of(a, c),
{
}

/// A stable release is newer than every beta of the same version.
pub proof fn lemma_stable_after_beta(stable: Seq<char>, beta: Seq<char>)
    requires
        version_of(stable) matches Some(s) && s.1 == (1u8, 0u32),
        version_of(beta) matches Some(b) && (b.1).0 == 0u8,
        (version_of(stable)->0).0 == (version_of(beta)->0).0,
    ensures
        newer_of(stable, beta),
{
}

/// The release recorded in the update cache text `t` for `channel`, when
/// it is still fresh at `now` under a TTL of `ttl` seconds: none with a
/// zero TTL; else the cache must be JSON whose `channel` string is
/// `channel`, with an unsigned `checked_at` and a `latest_version` string,
/// checked less than `ttl` seconds before `now`.
pub open spec fn cached_of(t: Seq<char>, channel: Seq<char>, now: u64, ttl: u64) -> Option<Seq<char>> {
    if ttl == 0 {
        None
    } else if json_str_at(t, "/channel"@) != Some(channel) {
        None
    } else {
        match (json_u64_at(t, "/checked_at"@), json_str_at(t, "/latest_version"@)) {
            (Some(checked), Some(latest)) => if (if now >= checked {
                now - checked
            } else {
                0
            }) < ttl {
                Some(latest)
            } else {
                None
            },
            _ => None,
        }
    }
}

/// The release recorded in the update cache text for `channel`, when it is
/// still fresh.
pub fn cached_release(text: &str, channel: &str, now: u64, ttl: u64) -> (r: Option<String>)
    ensures
        opt_view(r) == cached_of(text@, channel@, now, ttl),
{
    if ttl == 0 {
        return None;
    }
    match json_string(text, "/channel") {
        Some(c) => {
            if !eq_str(&c, channel) {
                return None;
            }
        },
        None => {
            return None;
        },
    }
    let checked = match json_u64(text, "/checked_at") {
        Some(k) => k,
        None => {
            return None;
        },
    };
    let latest = match json_string(text, "/latest_version") {
        Some(l) => l,
        None => {
            return None;
        },
    };
    if fresh(checked, now, ttl) {
        Some(latest)
    } else {
        None
    }
}

/// The release version that a channel's metadata text names: its
/// `releaseVersion` string.
pub fn release_of(body: &str) -> (r: Option<String>)
    ensures
        opt_view(r) == json_str_at(body@, "/releaseVersion"@),
{
    json_string(body, "/releaseVersion")
}

} // verus!
