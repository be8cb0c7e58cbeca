//! Character-level text utilities with their meaning stated over `Seq<char>`.

use vstd::prelude::*;

verus! {

/// Unicode's `White_Space` property, which `char::is_whitespace` and
/// `str::trim` go by.
pub open spec fn spec_is_whitespace(c: char) -> bool {
    ||| '\u{09}' <= c <= '\u{0D}'
    ||| c == ' '
    ||| c == '\u{85}'
    ||| c == '\u{A0}'
    ||| c == '\u{1680}'
    ||| '\u{2000}' <= c <= '\u{200A}'
    ||| c == '\u{2028}'
    ||| c == '\u{2029}'
    ||| c == '\u{202F}'
    ||| c == '\u{205F}'
    ||| c == '\u{3000}'
}

/// Whether `c` is white space in Unicode's sense.
pub fn is_whitespace(c: char) -> (b: bool)
    ensures
        b == spec_is_whitespace(c),
{
    ('\u{09}' <= c && c <= '\u{0D}') || c == ' ' || c == '\u{85}' || c == '\u{A0}' || c
        == '\u{1680}' || ('\u{2000}' <= c && c <= '\u{200A}') || c == '\u{2028}' || c == '\u{2029}'
        || c == '\u{202F}' || c == '\u{205F}' || c == '\u{3000}'
}

/// The characters of `s`, in order.
pub(crate) fn chars_of(s: &str) -> (v: Vec<char>)
    ensures
        v@ == s@,
{
    let mut v: Vec<char> = Vec::new();
    for c in it: s.chars()
        invariant
            it.seq() == s@,
            v@ == s@.take(it.index()),
    {
        v.push(c);
    }
    assert(v@ =~= s@);
    v
}

/// The string made of the characters in `v`, in order.
#[verifier::external_body]
pub(crate) fn string_of(v: &[char]) -> (s: String)
    ensures
        s@ == v@,
{
    v.iter().collect()
}

/// Whether `a` and `b` hold the same characters.
pub fn str_eq(a: &str, b: &str) -> (r: bool)
    ensures
        r == (a@ == b@),
{
    let va = chars_of(a);
    let vb = chars_of(b);
    if va.len() != vb.len() {
        return false;
    }
    let n = va.len();
    for i in 0..n
        invariant
            n == va.len() == vb.len(),
            va@ == a@,
            vb@ == b@,
            forall|j: int| 0 <= j < i ==> va@[j] == vb@[j],
    {
        if va[i] != vb[i] {
            return false;
        }
    }
    assert(va@ =~= vb@);
    true
}

/// `s` without the leading characters that satisfy `p`.
pub open spec fn drop_leading(s: Seq<char>, p: spec_fn(char) -> bool) -> Seq<char>
    decreases s.len(),
{
    if s.len() > 0 && p(s[0]) {
        drop_leading(s.drop_first(), p)
    } else {
        s
    }
}

/// `s` without the trailing characters that satisfy `p`.
pub open spec fn drop_trailing(s: Seq<char>, p: spec_fn(char) -> bool) -> Seq<char>
    decreases s.len(),
{
    if s.len() > 0 && p(s.last()) {
        drop_trailing(s.drop_last(), p)
    } else {
        s
    }
}

/// The slash character.
pub open spec fn is_slash() -> spec_fn(char) -> bool {
    |c: char| c == '/'
}

pub open spec fn ws() -> spec_fn(char) -> bool {
    |c: char| spec_is_whitespace(c)
}

/// What `str::trim` gives back: no white space at either end.
pub open spec fn spec_trim(s: Seq<char>) -> Seq<char> {
    drop_trailing(drop_leading(s, ws()), ws())
}

proof fn lemma_drop_leading_step(s: Seq<char>, i: int, p: spec_fn(char) -> bool)
    requires
        0 <= i < s.len(),
        p(s[i]),
    ensures
        drop_leading(s.subrange(i, s.len() as int), p) == drop_leading(
            s.subrange(i + 1, s.len() as int),
            p,
        ),
{
    assert(s.subrange(i, s.len() as int).drop_first() =~= s.subrange(i + 1, s.len() as int));
}

proof fn lemma_drop_trailing_step(s: Seq<char>, j: int, p: spec_fn(char) -> bool)
    requires
        0 < j <= s.len(),
        p(s[j - 1]),
    ensures
        drop_trailing(s.subrange(0, j), p) == drop_trailing(s.subrange(0, j - 1), p),
{
    assert(s.subrange(0, j).drop_last() =~= s.subrange(0, j - 1));
}

/// The bounds `[start, end)` of `s` without the leading and trailing
/// characters that `keep_out` rejects.
fn trimmed_bounds_ws(v: &Vec<char>) -> (r: (usize, usize))
    ensures
        r.0 <= r.1 <= v.len(),
        v@.subrange(r.0 as int, r.1 as int) == spec_trim(v@),
{
    let n = v.len();
    let mut i: usize = 0;
    assert(v@.subrange(0, n as int) =~= v@);
    while i < n && is_whitespace(v[i])
        invariant
            i <= n == v.len(),
            drop_leading(v@, ws()) == drop_leading(v@.subrange(i as int, n as int), ws()),
        decreases n - i,
    {
        proof {
            lemma_drop_leading_step(v@, i as int, ws());
        }
        i = i + 1;
    }
    let ghost lead = v@.subrange(i as int, n as int);
    assert(drop_leading(lead, ws()) == lead) by {
        if lead.len() > 0 {
            assert(lead[0] == v@[i as int]);
        }
    }
    let mut j: usize = n;
    assert(lead.subrange(0, (n - i) as int) =~= lead);
    while j > i && is_whitespace(v[j - 1])
        invariant
            i <= j <= n == v.len(),
            lead == v@.subrange(i as int, n as int),
            drop_trailing(lead, ws()) == drop_trailing(v@.subrange(i as int, j as int), ws()),
        decreases j - i,
    {
        proof {
            let t = v@.subrange(i as int, j as int);
            lemma_drop_trailing_step(t, (j - i) as int, ws());
            assert(t.subrange(0, (j - i) as int) =~= t);
            assert(t.subrange(0, (j - i - 1) as int) =~= v@.subrange(i as int, j - 1));
        }
        j = j - 1;
    }
    let ghost t = v@.subrange(i as int, j as int);
    assert(drop_trailing(t, ws()) == t) by {
        if t.len() > 0 {
            assert(t.last() == v@[j - 1]);
        }
    }
    (i, j)
}

/// `s` with white space removed from both ends, as `str::trim` does.
pub fn trim(s: &str) -> (r: String)
    ensures
        r@ == spec_trim(s@),
{
    let v = chars_of(s);
    let (a, b) = trimmed_bounds_ws(&v);
    string_of(&v.as_slice()[a..b])
}


/// What `str::trim_matches('/')` gives back: no slash at either end.
pub open spec fn spec_trim_slashes(s: Seq<char>) -> Seq<char> {
    drop_trailing(drop_leading(s, is_slash()), is_slash())
}

/// `s` with slashes removed from both ends, as `str::trim_matches('/')` does.
pub fn trim_slashes(s: &str) -> (r: String)
    ensures
        r@ == spec_trim_slashes(s@),
{
    let v = chars_of(s);
    let n = v.len();
    let mut i: usize = 0;
    assert(v@.subrange(0, n as int) =~= v@);
    while i < n && v[i] == '/'
        invariant
            i <= n == v.len(),
            drop_leading(v@, is_slash()) == drop_leading(v@.subrange(i as int, n as int), is_slash()),
        decreases n - i,
    {
        proof {
            lemma_drop_leading_step(v@, i as int, is_slash());
        }
        i = i + 1;
    }
    let ghost lead = v@.subrange(i as int, n as int);
    assert(drop_leading(lead, is_slash()) == lead) by {
        if lead.len() > 0 {
            assert(lead[0] == v@[i as int]);
        }
    }
    let mut j: usize = n;
    assert(lead.subrange(0, (n - i) as int) =~= lead);
    while j > i && v[j - 1] == '/'
        invariant
            i <= j <= n == v.len(),
            lead == v@.subrange(i as int, n as int),
            drop_trailing(lead, is_slash()) == drop_trailing(v@.subrange(i as int, j as int), is_slash()),
        decreases j - i,
    {
        proof {
            let t = v@.subrange(i as int, j as int);
            lemma_drop_trailing_step(t, (j - i) as int, is_slash());
            assert(t.subrange(0, (j - i) as int) =~= t);
            assert(t.subrange(0, (j - i - 1) as int) =~= v@.subrange(i as int, j - 1));
        }
        j = j - 1;
    }
    let ghost t = v@.subrange(i as int, j as int);
    assert(drop_trailing(t, is_slash()) == t) by {
        if t.len() > 0 {
            assert(t.last() == v@[j - 1]);
        }
    }
    string_of(&v.as_slice()[i..j])
}

/// `c` with an ASCII capital letter lowered, anything else unchanged.
pub open spec fn spec_ascii_lower(c: char) -> char {
    if 'A' <= c <= 'Z' {
        ((c as int) + 32) as char
    } else {
        c
    }
}

pub fn ascii_lower(c: char) -> (r: char)
    ensures
        r == spec_ascii_lower(c),
{
    if 'A' <= c && c <= 'Z' {
        let b = c as u8;
        assert(b == c as u32);
        ((b + 32) as u8) as char
    } else {
        c
    }
}

/// `s` with every ASCII capital letter lowered, as `str::to_ascii_lowercase`.
pub open spec fn spec_ascii_lowercase(s: Seq<char>) -> Seq<char> {
    s.map_values(|c: char| spec_ascii_lower(c))
}

pub fn ascii_lowercase(s: &str) -> (r: String)
    ensures
        r@ == spec_ascii_lowercase(s@),
{
    let v = chars_of(s);
    let mut out: Vec<char> = Vec::new();
    let n = v.len();
    for i in 0..n
        invariant
            n == v.len(),
            v@ == s@,
            out@ == spec_ascii_lowercase(v@.take(i as int)),
    {
        let c = ascii_lower(v[i]);
        out.push(c);
        assert(spec_ascii_lowercase(v@.take(i + 1)) =~= spec_ascii_lowercase(v@.take(i as int)).push(c));
    }
    assert(v@.take(n as int) =~= v@);
    string_of(out.as_slice())
}

/// Equality ignoring the case of ASCII letters, as `str::eq_ignore_ascii_case`.
pub open spec fn spec_eq_ignore_ascii_case(a: Seq<char>, b: Seq<char>) -> bool {
    &&& a.len() == b.len()
    &&& forall|i: int| 0 <= i < a.len() ==> spec_ascii_lower(#[trigger] a[i]) == spec_ascii_lower(b[i])
}

pub fn eq_ignore_ascii_case_chars(a: &[char], b: &[char]) -> (r: bool)
    ensures
        r == spec_eq_ignore_ascii_case(a@, b@),
{
    if a.len() != b.len() {
        return false;
    }
    let n = a.len();
    for i in 0..n
        invariant
            n == a.len() == b.len(),
            forall|j: int| 0 <= j < i ==> spec_ascii_lower(#[trigger] a@[j]) == spec_ascii_lower(b@[j]),
    {
        if ascii_lower(a[i]) != ascii_lower(b[i]) {
            return false;
        }
    }
    true
}

pub fn eq_ignore_ascii_case(a: &str, b: &str) -> (r: bool)
    ensures
        r == spec_eq_ignore_ascii_case(a@, b@),
{
    let va = chars_of(a);
    let vb = chars_of(b);
    eq_ignore_ascii_case_chars(va.as_slice(), vb.as_slice())
}

/// Whether `s` begins with `prefix`.
pub open spec fn spec_starts_with(s: Seq<char>, prefix: Seq<char>) -> bool {
    prefix.len() <= s.len() && s.take(prefix.len() as int) == prefix
}

pub fn starts_with(s: &str, prefix: &str) -> (r: bool)
    ensures
        r == spec_starts_with(s@, prefix@),
{
    let vs = chars_of(s);
    let vp = chars_of(prefix);
    if vp.len() > vs.len() {
        return false;
    }
    let n = vp.len();
    for i in 0..n
        invariant
            n == vp.len() <= vs.len(),
            vs@ == s@,
            vp@ == prefix@,
            forall|j: int| 0 <= j < i ==> vs@[j] == vp@[j],
    {
        if vs[i] != vp[i] {
            assert(vs@.take(n as int)[i as int] == vs@[i as int]);
            return false;
        }
    }
    assert(vs@.take(n as int) =~= vp@);
    true
}

/// Whether `needle` occurs in `s` starting at position `at`.
pub open spec fn occurs_at(s: Seq<char>, needle: Seq<char>, at: int) -> bool {
    0 <= at && at + needle.len() <= s.len() && s.subrange(at, at + needle.len()) == needle
}

/// Whether `needle` occurs anywhere in `s`, as `str::contains`.
pub open spec fn spec_contains(s: Seq<char>, needle: Seq<char>) -> bool {
    exists|at: int| occurs_at(s, needle, at)
}

pub fn contains(s: &str, needle: &str) -> (r: bool)
    ensures
        r == spec_contains(s@, needle@),
{
    let vs = chars_of(s);
    let vn = chars_of(needle);
    if vn.len() > vs.len() {
        return false;
    }
    if vn.len() == 0 {
        assert(vs@.subrange(0, 0) =~= vn@);
        assert(occurs_at(vs@, vn@, 0));
        return true;
    }
    let last = vs.len() - vn.len();
    let mut at: usize = 0;
    while at <= last
        invariant
            vs@ == s@,
            vn@ == needle@,
            last == vs.len() - vn.len(),
            vn.len() >= 1,
            at <= last + 1,
            forall|k: int| 0 <= k < at ==> !occurs_at(vs@, vn@, k),
        decreases last + 1 - at,
    {
        let mut i: usize = 0;
        let mut ok = true;
        while i < vn.len()
            invariant
                at <= last,
                last == vs.len() - vn.len(),
                i <= vn.len(),
                ok ==> forall|j: int| 0 <= j < i ==> vs@[at + j] == vn@[j],
                !ok ==> !occurs_at(vs@, vn@, at as int),
            decreases vn.len() - i,
        {
            if vs[at + i] != vn[i] {
                ok = false;
                assert(vs@.subrange(at as int, at + vn.len())[i as int] == vs@[at + i]);
            }
            i = i + 1;
        }
        if ok {
            assert(vs@.subrange(at as int, at + vn.len()) =~= vn@);
            assert(occurs_at(vs@, vn@, at as int));
            return true;
        }
        at = at + 1;
    }
    assert forall|k: int| !occurs_at(vs@, vn@, k) by {
        if 0 <= k && k + vn@.len() <= vs@.len() {
            assert(k < at);
        }
    }
    false
}

/// The decimal digit character for `d < 10`.
pub open spec fn digit_char(d: nat) -> char {
    (48 + d) as char
}

/// The decimal text of `n`, with no sign and no leading zeros.
pub open spec fn decimal(n: nat) -> Seq<char>
    decreases n,
{
    if n < 10 {
        seq![digit_char(n)]
    } else {
        decimal(n / 10).push(digit_char(n % 10))
    }
}

/// The digit character for `d`, below ten.
fn digit_of(d: u64) -> (c: char)
    requires
        d < 10,
    ensures
        c == digit_char(d as nat),
{
    let b: u8 = (48 + d) as u8;
    b as char
}

/// The decimal digits of `n`, most significant first.
fn decimal_chars(n: u64) -> (v: Vec<char>)
    ensures
        v@ == decimal(n as nat),
    decreases n,
{
    if n < 10 {
        let mut v: Vec<char> = Vec::new();
        v.push(digit_of(n));
        assert(v@ =~= decimal(n as nat));
        v
    } else {
        let mut v = decimal_chars(n / 10);
        v.push(digit_of(n % 10));
        v
    }
}

/// The decimal text of `n`, as `u64`'s `Display` writes it.
pub(crate) fn u64_text(n: u64) -> (s: String)
    ensures
        s@ == decimal(n as nat),
{
    let v = decimal_chars(n);
    string_of(v.as_slice())
}

/// Decimal digits with a comma before each group of three from the right.
pub open spec fn group_thousands(d: Seq<char>) -> Seq<char>
    decreases d.len(),
{
    if d.len() <= 3 {
        d
    } else {
        group_thousands(d.take(d.len() - 3)) + seq![','] + d.skip(d.len() - 3)
    }
}

/// `n` written with thousands separators, as indicatif's `HumanCount` displays
/// it: every digit of `n`, with a comma after each digit that has a positive
/// multiple of three digits to its right.
#[verifier::external_body]
pub(crate) fn human_count(n: u64) -> (s: String)
    ensures
        s@ == group_thousands(decimal(n as nat)),
{
    format!("{}", indicatif::HumanCount(n))
}

/// The items of `list` with `sep` between each two.
pub open spec fn seq_join(list: Seq<Seq<char>>, sep: Seq<char>) -> Seq<char>
    decreases list.len(),
{
    if list.len() == 0 {
        seq![]
    } else if list.len() == 1 {
        list[0]
    } else {
        seq_join(list.drop_last(), sep) + sep + list.last()
    }
}

pub open spec fn views(list: Seq<String>) -> Seq<Seq<char>> {
    list.map_values(|s: String| s@)
}

/// The strings of `list` joined with `sep`, as `[String]::join`.
pub fn join(list: &Vec<String>, sep: &str) -> (r: String)
    ensures
        r@ == seq_join(views(list@), sep@),
{
    let mut res = String::new();
    let n = list.len();
    for i in 0..n
        invariant
            n == list.len(),
            res@ == seq_join(views(list@).take(i as int), sep@),
    {
        if i != 0 {
            res.append(sep);
        }
        res.append(list[i].as_str());
        assert(views(list@).take(i + 1).drop_last() =~= views(list@).take(i as int));
    }
    assert(views(list@).take(n as int) =~= views(list@));
    res
}

/// What `str::to_uppercase` makes of `s`.
pub uninterp spec fn upper(s: Seq<char>) -> Seq<char>;

/// `s` in upper case, by `str::to_uppercase` (Unicode's full case mapping,
/// under which one character may become several). The contract claims only
/// that the result is the named function of the text.
#[verifier::external_body]
pub(crate) fn to_upper(s: &str) -> (r: String)
    ensures
        r@ == upper(s@),
{
    s.to_uppercase()
}

/// What `str::to_lowercase` makes of `s`.
pub uninterp spec fn lower(s: Seq<char>) -> Seq<char>;

/// `s` in lower case, by `str::to_lowercase` (Unicode's full case mapping).
/// The contract claims only that the result is the named function of the
/// text.
#[verifier::external_body]
pub(crate) fn to_lower(s: &str) -> (r: String)
    ensures
        r@ == lower(s@),
{
    s.to_lowercase()
}

} // verus!
