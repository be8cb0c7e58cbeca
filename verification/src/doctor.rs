//! `doctor`: how ages and versions read, and what a set of checks amounts to.

use vstd::prelude::*;
use crate::errors::{CliError, PcliExitCode};
use crate::text::{chars_of, decimal, u64_text, drop_leading};

verus! {

/// How one check of the local setup came out.
#[derive(Debug, Clone, Copy, PartialEq, Eq, Structural)]
pub enum Status {
    Pass,
    Warn,
    Fail,
}

/// A check's name, outcome and what it found.
#[derive(Debug, Clone)]
pub struct Check {
    pub name: &'static str,
    pub status: Status,
    pub detail: String,
}

pub fn check(name: &'static str, status: Status, detail: String) -> (r: Check)
    ensures
        r.name == name,
        r.status == status,
        r.detail == detail,
{
    Check { name, status, detail }
}

/// A number of seconds in the largest units that fit: `42s`, `5m`, `3h 20m`,
/// `2d 4h`.
pub open spec fn spec_human_seconds(secs: nat) -> Seq<char> {
    if secs < 60 {
        decimal(secs) + "s"@
    } else if secs < 3600 {
        decimal(secs / 60) + "m"@
    } else if secs < 86_400 {
        decimal(secs / 3600) + "h "@ + decimal((secs % 3600) / 60) + "m"@
    } else {
        decimal(secs / 86_400) + "d "@ + decimal((secs % 86_400) / 3600) + "h"@
    }
}

pub fn human_seconds(secs: u64) -> (r: String)
    ensures
        r@ == spec_human_seconds(secs as nat),
{
    if secs < 60 {
        let mut r = u64_text(secs);
        r.append("s");
        r
    } else if secs < 3600 {
        let mut r = u64_text(secs / 60);
        r.append("m");
        r
    } else if secs < 86_400 {
        let mut r = u64_text(secs / 3600);
        r.append("h ");
        let m = u64_text((secs % 3600) / 60);
        r.append(m.as_str());
        r.append("m");
        r
    } else {
        let mut r = u64_text(secs / 86_400);
        r.append("d ");
        let h = u64_text((secs % 86_400) / 3600);
        r.append(h.as_str());
        r.append("h");
        r
    }
}

/// The pieces of `s` between dots, empty ones included, as `str::split('.')`.
pub open spec fn dot_split_state(s: Seq<char>) -> (Seq<Seq<char>>, Seq<char>)
    decreases s.len(),
{
    if s.len() == 0 {
        (seq![], seq![])
    } else {
        let (done, cur) = dot_split_state(s.drop_last());
        if s.last() == '.' {
            (done.push(cur), seq![])
        } else {
            (done, cur.push(s.last()))
        }
    }
}

pub open spec fn dot_pieces(s: Seq<char>) -> Seq<Seq<char>> {
    dot_split_state(s).0.push(dot_split_state(s).1)
}

pub open spec fn is_ascii_digit(c: char) -> bool {
    '0' <= c <= '9'
}

/// The number of ASCII digits `s` starts with.
pub open spec fn leading_digit_count(s: Seq<char>) -> nat
    decreases s.len(),
{
    if s.len() > 0 && is_ascii_digit(s[0]) {
        1 + leading_digit_count(s.drop_first())
    } else {
        0
    }
}

/// The number that decimal digits `d` write.
pub open spec fn digits_value(d: Seq<char>) -> nat
    decreases d.len(),
{
    if d.len() == 0 {
        0
    } else {
        digits_value(d.drop_last()) * 10 + ((d.last() as int) - 48) as nat
    }
}

/// A version piece's number: its leading digits read as a `u64`, or 0 when
/// there are none or they do not fit.
pub open spec fn piece_value(p: Seq<char>) -> u64 {
    let d = p.take(leading_digit_count(p) as int);
    if d.len() == 0 || digits_value(d) > u64::MAX {
        0
    } else {
        digits_value(d) as u64
    }
}

pub open spec fn nth_piece_value(pieces: Seq<Seq<char>>, i: int) -> u64 {
    if i < pieces.len() {
        piece_value(pieces[i])
    } else {
        0
    }
}

pub open spec fn is_v() -> spec_fn(char) -> bool {
    |c: char| c == 'v'
}

/// The (major, minor, patch) of a version such as `v1.2.3` or `1.10.0-rc1`:
/// leading `v`s dropped, and each of the first three dot-separated pieces read
/// by its leading digits; a missing or unreadable piece counts as 0.
pub open spec fn spec_version_tuple(v: Seq<char>) -> (u64, u64, u64) {
    let pieces = dot_pieces(drop_leading(v, is_v()));
    (nth_piece_value(pieces, 0), nth_piece_value(pieces, 1), nth_piece_value(pieces, 2))
}

proof fn lemma_leading_digits_step(p: Seq<char>, k: int)
    requires
        0 <= k < p.len(),
        forall|j: int| 0 <= j < k ==> is_ascii_digit(#[trigger] p[j]),
    ensures
        leading_digit_count(p) >= k,
        is_ascii_digit(p[k]) ==> leading_digit_count(p) >= k + 1,
        !is_ascii_digit(p[k]) ==> leading_digit_count(p) == k,
    decreases k,
{
    if k > 0 {
        let q = p.drop_first();
        assert forall|j: int| 0 <= j < k - 1 implies is_ascii_digit(#[trigger] q[j]) by {
            assert(q[j] == p[j + 1]);
        }
        lemma_leading_digits_step(q, k - 1);
    }
}

proof fn lemma_leading_digits_all(p: Seq<char>)
    requires
        forall|j: int| 0 <= j < p.len() ==> is_ascii_digit(#[trigger] p[j]),
    ensures
        leading_digit_count(p) == p.len(),
    decreases p.len(),
{
    if p.len() > 0 {
        let q = p.drop_first();
        assert forall|j: int| 0 <= j < q.len() implies is_ascii_digit(#[trigger] q[j]) by {
            assert(q[j] == p[j + 1]);
        }
        lemma_leading_digits_all(q);
    }
}

proof fn lemma_digits_value_grows(d: Seq<char>, c: char)
    requires
        is_ascii_digit(c),
    ensures
        digits_value(d.push(c)) >= digits_value(d),
        digits_value(d.push(c)) == digits_value(d) * 10 + ((c as int) - 48),
{
    assert(d.push(c).drop_last() =~= d);
}

/// The value of one version piece.
fn piece_number(p: &Vec<char>) -> (r: u64)
    ensures
        r == piece_value(p@),
{
    let n = p.len();
    let mut i: usize = 0;
    let mut value: u64 = 0;
    let mut overflow = false;
    while i < n && '0' <= p[i] && p[i] <= '9'
        invariant
            i <= n == p.len(),
            forall|j: int| 0 <= j < i ==> is_ascii_digit(#[trigger] p@[j]),
            !overflow ==> value as nat == digits_value(p@.take(i as int)),
            overflow ==> digits_value(p@.take(i as int)) > u64::MAX,
        decreases n - i,
    {
        let d = (p[i] as u32 - 48) as u64;
        assert(d as int == (p@[i as int] as int) - 48);
        proof {
            lemma_digits_value_grows(p@.take(i as int), p@[i as int]);
            assert(p@.take(i + 1) =~= p@.take(i as int).push(p@[i as int]));
        }
        if !overflow {
            if value > (u64::MAX - d) / 10 {
                overflow = true;
                assert(value * 10 + d > u64::MAX) by (nonlinear_arith)
                    requires
                        value > (u64::MAX - d) / 10,
                        d <= 9,
                ;
            } else {
                assert(value * 10 + d <= u64::MAX) by (nonlinear_arith)
                    requires
                        value <= (u64::MAX - d) / 10,
                        d <= 9,
                ;
                value = value * 10 + d;
            }
        }
        i = i + 1;
    }
    proof {
        if i < n {
            lemma_leading_digits_step(p@, i as int);
        } else {
            lemma_leading_digits_all(p@);
            assert(p@.take(n as int) =~= p@);
        }
    }
    assert(leading_digit_count(p@) == i);
    if overflow || i == 0 {
        0
    } else {
        value
    }
}

/// The (major, minor, patch) of a version string.
pub fn version_tuple(v: &str) -> (r: (u64, u64, u64))
    ensures
        r == spec_version_tuple(v@),
{
    let chars = chars_of(v);
    let n = chars.len();
    let mut start: usize = 0;
    assert(chars@.subrange(0, n as int) =~= chars@);
    while start < n && chars[start] == 'v'
        invariant
            start <= n == chars.len(),
            drop_leading(chars@, is_v()) == drop_leading(chars@.subrange(start as int, n as int), is_v()),
        decreases n - start,
    {
        assert(chars@.subrange(start as int, n as int).drop_first() =~= chars@.subrange(start + 1, n as int));
        start = start + 1;
    }
    let ghost s = chars@.subrange(start as int, n as int);
    assert(drop_leading(s, is_v()) == s) by {
        if s.len() > 0 {
            assert(s[0] == chars@[start as int]);
        }
    }
    let mut pieces: Vec<Vec<char>> = Vec::new();
    let mut cur: Vec<char> = Vec::new();
    for i in start..n
        invariant
            start <= n == chars.len(),
            s == chars@.subrange(start as int, n as int),
            (char_vec_views(pieces@), cur@) == dot_split_state(chars@.subrange(start as int, i as int)),
    {
        let ghost t = chars@.subrange(start as int, i as int);
        assert(chars@.subrange(start as int, i + 1).drop_last() =~= t);
        assert(chars@.subrange(start as int, i + 1).last() == chars@[i as int]);
        if chars[i] == '.' {
            let piece = cur;
            let ghost before = char_vec_views(pieces@);
            let ghost pv = piece@;
            pieces.push(piece);
            assert(char_vec_views(pieces@) =~= before.push(pv));
            cur = Vec::new();
            assert(cur@ =~= Seq::<char>::empty());
        } else {
            cur.push(chars[i]);
        }
    }
    let ghost before = char_vec_views(pieces@);
    let ghost cv = cur@;
    pieces.push(cur);
    assert(char_vec_views(pieces@) =~= before.push(cv));
    assert(char_vec_views(pieces@) == dot_pieces(s));
    let major = if pieces.len() > 0 {
        piece_number(&pieces[0])
    } else {
        0
    };
    let minor = if pieces.len() > 1 {
        piece_number(&pieces[1])
    } else {
        0
    };
    let patch = if pieces.len() > 2 {
        piece_number(&pieces[2])
    } else {
        0
    };
    (major, minor, patch)
}

pub open spec fn char_vec_views(v: Seq<Vec<char>>) -> Seq<Seq<char>> {
    v.map_values(|x: Vec<char>| x@)
}

/// Whether the version `latest` is newer than `current`, comparing their
/// (major, minor, patch) in that order.
pub fn newer_version(latest: &str, current: &str) -> (r: bool)
    ensures
        r == later_version(spec_version_tuple(latest@), spec_version_tuple(current@)),
{
    let (a, b, c) = version_tuple(latest);
    let (x, y, z) = version_tuple(current);
    a > x || (a == x && (b > y || (b == y && c > z)))
}

/// The credentials check: which client credentials the keychain holds for
/// the environment; both are needed for a pass.
pub fn credentials_check(env_key: &str, has_id: bool, has_secret: bool) -> (r: Check)
    ensures
        r.name == "credentials",
        r.status == if has_id && has_secret {
            Status::Pass
        } else {
            Status::Warn
        },
        r.detail@ == "os-keychain backend, system keychain; environment '"@ + env_key@ + "': "@ + (if has_id
            && has_secret {
            "client ID and secret stored"@
        } else if has_id {
            "client ID stored, secret missing"@
        } else if has_secret {
            "secret stored, client ID missing"@
        } else {
            "no client credentials stored"@
        }),
{
    let stored = if has_id && has_secret {
        "client ID and secret stored"
    } else if has_id {
        "client ID stored, secret missing"
    } else if has_secret {
        "secret stored, client ID missing"
    } else {
        "no client credentials stored"
    };
    let mut detail = String::from_str("os-keychain backend, system keychain; environment '");
    detail.append(env_key);
    detail.append("': ");
    detail.append(stored);
    Check {
        name: "credentials",
        status: if has_id && has_secret {
            Status::Pass
        } else {
            Status::Warn
        },
        detail,
    }
}

/// The update check, from what the last daily check recorded: the latest
/// release it found and how many seconds ago, if it ran. A newer release than
/// `current` is a warning.
pub fn update_check(recorded: Option<(&str, u64)>, current: &str) -> (r: Check)
    ensures
        r.name == "update",
        match recorded {
            None => r.status == Status::Pass
                && r.detail@ == "no check recorded yet (runs once a day in terminal sessions)"@,
            Some((latest, age)) => {
                if later_version(spec_version_tuple(latest@), spec_version_tuple(current@)) {
                    r.status == Status::Warn && r.detail@ == "v"@ + latest@ + " is available (you have v"@
                        + current@ + "; checked "@ + spec_human_seconds(age as nat) + " ago)"@
                } else {
                    r.status == Status::Pass && r.detail@ == "up to date (latest known v"@ + latest@
                        + ", checked "@ + spec_human_seconds(age as nat) + " ago)"@
                }
            },
        },
{
    match recorded {
        None => check(
            "update",
            Status::Pass,
            String::from_str("no check recorded yet (runs once a day in terminal sessions)"),
        ),
        Some((latest, age)) => {
            let ago = human_seconds(age);
            if newer_version(latest, current) {
                let mut d = String::from_str("v");
                d.append(latest);
                d.append(" is available (you have v");
                d.append(current);
                d.append("; checked ");
                d.append(ago.as_str());
                d.append(" ago)");
                check("update", Status::Warn, d)
            } else {
                let mut d = String::from_str("up to date (latest known v");
                d.append(latest);
                d.append(", checked ");
                d.append(ago.as_str());
                d.append(" ago)");
                check("update", Status::Pass, d)
            }
        },
    }
}

/// What is stored as the access token.
#[derive(Debug, Clone)]
pub enum StoredToken {
    /// No token.
    Absent,
    /// A token whose expiry could not be read, with the reason.
    Undecodable(String),
    /// A token that expires at this UNIX time.
    Expires(i64),
}

/// The token check, and whether there is something usable to authenticate
/// with: a token still valid, or client credentials to get a new one.
pub fn token_check(token: &StoredToken, now: i64, renewable: bool) -> (r: (Check, bool))
    requires
        token matches StoredToken::Expires(exp) ==> i64::MIN < exp - now <= i64::MAX,
    ensures
        r.0.name == "token",
        match *token {
            StoredToken::Absent => {
                &&& r.1 == renewable
                &&& r.0.status == if renewable {
                    Status::Pass
                } else {
                    Status::Fail
                }
                &&& r.0.detail@ == if renewable {
                    "none stored; obtained automatically on the next command"@
                } else {
                    "none stored - run 'pcli2 auth login'"@
                }
            },
            StoredToken::Undecodable(e) => {
                &&& !r.1
                &&& r.0.status == Status::Warn
                &&& r.0.detail@ == "stored but not decodable ("@ + e@ + "); a renewal will replace it"@
            },
            StoredToken::Expires(exp) => if exp - now > 0 {
                &&& r.1
                &&& r.0.status == Status::Pass
                &&& r.0.detail@ == "valid for "@ + spec_human_seconds((exp - now) as nat)
            } else {
                &&& r.1 == renewable
                &&& r.0.status == if renewable {
                    Status::Pass
                } else {
                    Status::Fail
                }
                &&& r.0.detail@ == if renewable {
                    "expired "@ + spec_human_seconds((now - exp) as nat) + " ago; renewed automatically on the next command"@
                } else {
                    "expired and no client credentials are stored - run 'pcli2 auth login'"@
                }
            },
        },
{
    match token {
        StoredToken::Absent => {
            if renewable {
                (check("token", Status::Pass, String::from_str("none stored; obtained automatically on the next command")), true)
            } else {
                (check("token", Status::Fail, String::from_str("none stored - run 'pcli2 auth login'")), false)
            }
        },
        StoredToken::Undecodable(e) => {
            let mut detail = String::from_str("stored but not decodable (");
            detail.append(e.as_str());
            detail.append("); a renewal will replace it");
            (check("token", Status::Warn, detail), false)
        },
        StoredToken::Expires(exp) => {
            let remaining = *exp - now;
            if remaining > 0 {
                let mut detail = String::from_str("valid for ");
                let age = human_seconds(remaining as u64);
                detail.append(age.as_str());
                (check("token", Status::Pass, detail), true)
            } else if renewable {
                let mut detail = String::from_str("expired ");
                let age = human_seconds((-remaining) as u64);
                detail.append(age.as_str());
                detail.append(" ago; renewed automatically on the next command");
                (check("token", Status::Pass, detail), true)
            } else {
                (check(
                    "token",
                    Status::Fail,
                    String::from_str("expired and no client credentials are stored - run 'pcli2 auth login'"),
                ), false)
            }
        },
    }
}

/// Whether any check failed.
pub open spec fn any_failed(checks: Seq<Check>) -> bool {
    exists|i: int| 0 <= i < checks.len() && (#[trigger] checks[i]).status == Status::Fail
}

/// The doctor's result: success unless a check failed; then an exit code
/// saying whether a service could not be reached or the setup is wrong (the
/// checks are already printed).
pub fn doctor_result(checks: &Vec<Check>, connectivity_failed: bool) -> (r: Result<(), CliError>)
    ensures
        !any_failed(checks@) ==> r is Ok,
        any_failed(checks@) ==> r == Err::<(), CliError>(CliError::AlreadyReported(
            if connectivity_failed {
                PcliExitCode::Unavailable
            } else {
                PcliExitCode::ConfigError
            },
        )),
{
    let n = checks.len();
    for i in 0..n
        invariant
            n == checks.len(),
            forall|j: int| 0 <= j < i ==> (#[trigger] checks@[j]).status != Status::Fail,
    {
        if checks[i].status == Status::Fail {
            return Err(CliError::AlreadyReported(if connectivity_failed {
                PcliExitCode::Unavailable
            } else {
                PcliExitCode::ConfigError
            }));
        }
    }
    Ok(())
}

/// Whether `a` is a later (major, minor, patch) than `b`.
pub open spec fn later_version(a: (u64, u64, u64), b: (u64, u64, u64)) -> bool {
    a.0 > b.0 || (a.0 == b.0 && (a.1 > b.1 || (a.1 == b.1 && a.2 > b.2)))
}

/// Being a newer release is a strict order: no version is newer than
/// itself, of two versions at most one is newer than the other, and a version
/// newer than one newer than a third is newer than the third.
pub proof fn lemma_newer_is_a_strict_order(a: Seq<char>, b: Seq<char>, c: Seq<char>)
    ensures
        !later_version(spec_version_tuple(a), spec_version_tuple(a)),
        later_version(spec_version_tuple(a), spec_version_tuple(b)) ==> !later_version(
            spec_version_tuple(b),
            spec_version_tuple(a),
        ),
        later_version(spec_version_tuple(a), spec_version_tuple(b)) && later_version(
            spec_version_tuple(b),
            spec_version_tuple(c),
        ) ==> later_version(spec_version_tuple(a), spec_version_tuple(c)),
{
}

/// Versions compare by their major number first, then their minor number,
/// then their patch number: the first that differs decides.
pub proof fn lemma_newer_decided_by_first_difference(a: (u64, u64, u64), b: (u64, u64, u64))
    ensures
        a.0 > b.0 ==> later_version(a, b),
        a.0 < b.0 ==> !later_version(a, b),
        a.0 == b.0 && a.1 > b.1 ==> later_version(a, b),
        a.0 == b.0 && a.1 < b.1 ==> !later_version(a, b),
        a.0 == b.0 && a.1 == b.1 ==> (later_version(a, b) <==> a.2 > b.2),
{
}

/// `d` is a non-empty run of decimal digits whose number fits a `u64`.
pub open spec fn is_number_text(d: Seq<char>) -> bool {
    &&& d.len() > 0
    &&& forall|i: int| 0 <= i < d.len() ==> is_ascii_digit(#[trigger] d[i])
    &&& digits_value(d) <= u64::MAX
}

proof fn lemma_dot_split_reads_piece(y: Seq<char>, x: Seq<char>)
    requires
        forall|i: int| 0 <= i < x.len() ==> x[i] != '.',
    ensures
        dot_split_state(y + x) == (dot_split_state(y).0, dot_split_state(y).1 + x),
    decreases x.len(),
{
    if x.len() == 0 {
        assert(y + x =~= y);
        assert(dot_split_state(y).1 + x =~= dot_split_state(y).1);
    } else {
        lemma_dot_split_reads_piece(y, x.drop_last());
        assert((y + x).drop_last() =~= y + x.drop_last());
        assert((y + x).last() == x.last());
        assert(dot_split_state(y).1 + x =~= (dot_split_state(y).1 + x.drop_last()).push(x.last()));
    }
}

proof fn lemma_dot_split_dot(y: Seq<char>)
    ensures
        dot_split_state(y + seq!['.']) == (dot_split_state(y).0.push(dot_split_state(y).1), Seq::<char>::empty()),
{
    assert((y + seq!['.']).drop_last() =~= y);
}

proof fn lemma_number_piece(d: Seq<char>)
    requires
        is_number_text(d),
    ensures
        piece_value(d) == digits_value(d),
        forall|i: int| 0 <= i < d.len() ==> d[i] != '.' && d[i] != 'v',
{
    lemma_leading_digits_all(d);
    assert(d.take(d.len() as int) =~= d);
    assert forall|i: int| 0 <= i < d.len() implies d[i] != '.' && d[i] != 'v' by {
        assert(is_ascii_digit(d[i]));
    }
}

/// A version written `major.minor.patch` in decimal, with or without a
/// leading `v`, reads as those three numbers.
pub proof fn lemma_version_reads_its_numbers(major: Seq<char>, minor: Seq<char>, patch: Seq<char>)
    requires
        is_number_text(major),
        is_number_text(minor),
        is_number_text(patch),
    ensures
        spec_version_tuple(major + "."@ + minor + "."@ + patch) == (
            digits_value(major) as u64,
            digits_value(minor) as u64,
            digits_value(patch) as u64,
        ),
        spec_version_tuple("v"@ + major + "."@ + minor + "."@ + patch) == (
            digits_value(major) as u64,
            digits_value(minor) as u64,
            digits_value(patch) as u64,
        ),
{
    reveal_strlit(".");
    reveal_strlit("v");
    lemma_number_piece(major);
    lemma_number_piece(minor);
    lemma_number_piece(patch);
    let text = major + "."@ + minor + "."@ + patch;
    let s1 = major + seq!['.'];
    let s2 = s1 + minor;
    let s3 = s2 + seq!['.'];
    assert(text =~= s3 + patch);
    let e = Seq::<char>::empty();
    assert(e + major =~= major);
    lemma_dot_split_reads_piece(e, major);
    lemma_dot_split_dot(major);
    lemma_dot_split_reads_piece(s1, minor);
    lemma_dot_split_dot(s2);
    lemma_dot_split_reads_piece(s3, patch);
    assert(dot_split_state(s3).1 + patch =~= patch);
    assert(dot_split_state(s1).1 + minor =~= minor);
    let pieces = dot_pieces(text);
    assert(pieces =~= seq![major, minor, patch]);
    assert(drop_leading(text, is_v()) == text) by {
        assert(text[0] == major[0]);
    }
    let vt = "v"@ + major + "."@ + minor + "."@ + patch;
    assert(vt.drop_first() =~= text);
    assert(drop_leading(vt, is_v()) == drop_leading(text, is_v()));
}

/// A release written `a.b.c` is newer than one written `x.y.z` when its major
/// number is greater; with equal majors, when its minor number is greater;
/// with equal majors and minors, when its patch number is greater; and in no
/// other case.
pub proof fn lemma_newer_release(
    a: Seq<char>,
    b: Seq<char>,
    c: Seq<char>,
    x: Seq<char>,
    y: Seq<char>,
    z: Seq<char>,
)
    requires
        is_number_text(a),
        is_number_text(b),
        is_number_text(c),
        is_number_text(x),
        is_number_text(y),
        is_number_text(z),
    ensures
        digits_value(a) > digits_value(x) ==> later_version(
            spec_version_tuple(a + "."@ + b + "."@ + c),
            spec_version_tuple(x + "."@ + y + "."@ + z),
        ),
        digits_value(a) < digits_value(x) ==> !later_version(
            spec_version_tuple(a + "."@ + b + "."@ + c),
            spec_version_tuple(x + "."@ + y + "."@ + z),
        ),
        digits_value(a) == digits_value(x) ==> (later_version(
            spec_version_tuple(a + "."@ + b + "."@ + c),
            spec_version_tuple(x + "."@ + y + "."@ + z),
        ) <==> (digits_value(b) > digits_value(y) || (digits_value(b) == digits_value(y) && digits_value(c)
            > digits_value(z)))),
{
    lemma_version_reads_its_numbers(a, b, c);
    lemma_version_reads_its_numbers(x, y, z);
}

} // verus!
