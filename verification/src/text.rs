//! Character-level text predicates shared by the other modules.
use vstd::prelude::*;
use vstd::string::{StrSliceExecFns, StringExecFns};

verus! {

broadcast use vstd::string::group_string_axioms;

/// `p` is a prefix of `s`.
pub open spec fn seq_starts_with(s: Seq<char>, p: Seq<char>) -> bool {
    p.len() <= s.len() && s.subrange(0, p.len() as int) == p
}

/// `p` occurs in `s` at position `i`.
pub open spec fn occurs_at(s: Seq<char>, p: Seq<char>, i: int) -> bool {
    0 <= i && i + p.len() <= s.len() && s.subrange(i, i + p.len()) == p
}

/// `p` occurs somewhere in `s`.
pub open spec fn seq_contains(s: Seq<char>, p: Seq<char>) -> bool {
    exists|i: int| occurs_at(s, p, i)
}

/// The characters of a string slice, in order.
pub fn chars_of(s: &str) -> (v: Vec<char>)
    ensures
        v@ == s@,
{
    let mut v: Vec<char> = Vec::new();
    for c in it: s.chars()
        invariant
            v@ == it.seq().take(it.index()),
            it.seq() == s@,
    {
        v.push(c);
    }
    v
}

} // verus!

verus! {

/// Whether `p` occurs in `s` at index `i`.
pub fn matches_at(s: &Vec<char>, p: &Vec<char>, i: usize) -> (res: bool)
    ensures
        res == occurs_at(s@, p@, i as int),
{
    if i > s.len() || p.len() > s.len() - i {
        return false;
    }
    let mut j: usize = 0;
    while j < p.len()
        invariant
            j <= p.len(),
            i + p.len() <= s.len(),
            forall|k: int| 0 <= k < j ==> s@[i + k] == p@[k],
        decreases p.len() - j,
    {
        if s[i + j] != p[j] {
            assert(s@.subrange(i as int, i + p.len())[j as int] != p@[j as int]);
            return false;
        }
        j += 1;
    }
    assert(s@.subrange(i as int, i + p.len()) =~= p@);
    true
}

/// Whether `s` begins with `p`.
pub fn starts_with_chars(s: &Vec<char>, p: &Vec<char>) -> (res: bool)
    ensures
        res == seq_starts_with(s@, p@),
{
    matches_at(s, p, 0)
}

/// Whether `p` occurs anywhere in `s`.
pub fn contains_chars(s: &Vec<char>, p: &Vec<char>) -> (res: bool)
    ensures
        res == seq_contains(s@, p@),
{
    if p.len() > s.len() {
        return false;
    }
    let last = s.len() - p.len();
    let mut i: usize = 0;
    while i < last
        invariant
            last == s.len() - p.len(),
            p.len() <= s.len(),
            i <= last,
            forall|k: int| 0 <= k < i ==> !occurs_at(s@, p@, k),
        decreases last - i,
    {
        if matches_at(s, p, i) {
            return true;
        }
        i += 1;
    }
    if matches_at(s, p, last) {
        return true;
    }
    assert forall|k: int| !occurs_at(s@, p@, k) by {
        if 0 <= k && k + p.len() <= s.len() {
            assert(k <= last);
        }
    }
    false
}

/// Whether two character sequences are equal.
pub fn same_chars(a: &Vec<char>, b: &Vec<char>) -> (res: bool)
    ensures
        res == (a@ == b@),
{
    if a.len() != b.len() {
        return false;
    }
    let r = matches_at(a, b, 0);
    proof {
        if r {
            assert(a@.subrange(0, b@.len() as int) =~= a@);
        } else {
            assert(a@.subrange(0, b@.len() as int) =~= a@);
        }
    }
    r
}

/// Whether the string `s` begins with `p`.
pub fn text_starts_with(s: &str, p: &str) -> (res: bool)
    ensures
        res == seq_starts_with(s@, p@),
{
    starts_with_chars(&chars_of(s), &chars_of(p))
}

/// Whether `p` occurs in the string `s`.
pub fn text_contains(s: &str, p: &str) -> (res: bool)
    ensures
        res == seq_contains(s@, p@),
{
    contains_chars(&chars_of(s), &chars_of(p))
}

/// Whether two strings hold the same characters.
pub fn text_eq(a: &str, b: &str) -> (res: bool)
    ensures
        res == (a@ == b@),
{
    same_chars(&chars_of(a), &chars_of(b))
}

} // verus!

verus! {

/// Unicode's White_Space property, which `char::is_whitespace` reports.
pub open spec fn spec_is_whitespace(c: char) -> bool {
    let u = c as u32;
    ||| 0x09 <= u <= 0x0d
    ||| u == 0x20
    ||| u == 0x85
    ||| u == 0xa0
    ||| u == 0x1680
    ||| 0x2000 <= u <= 0x200a
    ||| u == 0x2028
    ||| u == 0x2029
    ||| u == 0x202f
    ||| u == 0x205f
    ||| u == 0x3000
}

/// The characters that a trim removes.
#[derive(Clone, Copy, Debug, PartialEq, Eq, Structural)]
pub enum Trimmed {
    Whitespace,
    Parentheses,
}

/// Whether a trim of `kind` removes `c`.
pub open spec fn spec_trims(kind: Trimmed, c: char) -> bool {
    match kind {
        Trimmed::Whitespace => spec_is_whitespace(c),
        Trimmed::Parentheses => c == '(' || c == ')',
    }
}

/// `s` without its leading characters of `kind`.
pub open spec fn strip_start(s: Seq<char>, kind: Trimmed) -> Seq<char>
    decreases s.len(),
{
    if s.len() > 0 && spec_trims(kind, s[0]) {
        strip_start(s.drop_first(), kind)
    } else {
        s
    }
}

/// `s` without its trailing characters of `kind`.
pub open spec fn strip_end(s: Seq<char>, kind: Trimmed) -> Seq<char>
    decreases s.len(),
{
    if s.len() > 0 && spec_trims(kind, s.last()) {
        strip_end(s.drop_last(), kind)
    } else {
        s
    }
}

/// `s` without leading and trailing characters of `kind`.
pub open spec fn strip(s: Seq<char>, kind: Trimmed) -> Seq<char> {
    strip_end(strip_start(s, kind), kind)
}

/// `s` without leading and trailing whitespace, as `str::trim` returns it.
pub open spec fn spec_trim(s: Seq<char>) -> Seq<char> {
    strip(s, Trimmed::Whitespace)
}

/// Whether `c` is whitespace.
pub fn is_whitespace(c: char) -> (res: bool)
    ensures
        res == spec_is_whitespace(c),
{
    let u = c as u32;
    (0x09 <= u && u <= 0x0d) || u == 0x20 || u == 0x85 || u == 0xa0 || u == 0x1680 || (0x2000 <= u
        && u <= 0x200a) || u == 0x2028 || u == 0x2029 || u == 0x202f || u == 0x205f || u == 0x3000
}

fn trims(kind: Trimmed, c: char) -> (res: bool)
    ensures
        res == spec_trims(kind, c),
{
    match kind {
        Trimmed::Whitespace => is_whitespace(c),
        Trimmed::Parentheses => c == '(' || c == ')',
    }
}

proof fn lemma_strip_start_skip(s: Seq<char>, kind: Trimmed, i: int)
    requires
        0 <= i <= s.len(),
        forall|k: int| 0 <= k < i ==> spec_trims(kind, #[trigger] s[k]),
    ensures
        strip_start(s, kind) == strip_start(s.subrange(i, s.len() as int), kind),
    decreases i,
{
    if i > 0 {
        let t = s.drop_first();
        assert forall|k: int| 0 <= k < i - 1 implies spec_trims(kind, #[trigger] t[k]) by {
            assert(t[k] == s[k + 1]);
        }
        lemma_strip_start_skip(t, kind, i - 1);
        assert(t.subrange(i - 1, t.len() as int) =~= s.subrange(i, s.len() as int));
    } else {
        assert(s.subrange(0, s.len() as int) =~= s);
    }
}

proof fn lemma_strip_end_skip(s: Seq<char>, kind: Trimmed, j: int)
    requires
        0 <= j <= s.len(),
        forall|k: int| j <= k < s.len() ==> spec_trims(kind, #[trigger] s[k]),
    ensures
        strip_end(s, kind) == strip_end(s.subrange(0, j), kind),
    decreases s.len() - j,
{
    if j < s.len() {
        let t = s.drop_last();
        assert forall|k: int| j <= k < t.len() implies spec_trims(kind, #[trigger] t[k]) by {
            assert(t[k] == s[k]);
        }
        assert(spec_trims(kind, s.last()));
        lemma_strip_end_skip(t, kind, j);
        assert(t.subrange(0, j) =~= s.subrange(0, j));
    } else {
        assert(s.subrange(0, j) =~= s);
    }
}

/// `s` without leading and trailing characters of `kind`.
pub fn strip_text(s: &str, kind: Trimmed) -> (res: &str)
    ensures
        res@ == strip(s@, kind),
{
    let v = chars_of(s);
    let n = v.len();
    let mut a: usize = 0;
    while a < n && trims(kind, v[a])
        invariant
            a <= n,
            n == v.len(),
            forall|k: int| 0 <= k < a ==> spec_trims(kind, #[trigger] v@[k]),
        decreases n - a,
    {
        a += 1;
    }
    let mut b: usize = n;
    while b > a && trims(kind, v[b - 1])
        invariant
            a <= b <= n,
            n == v.len(),
            forall|k: int| b <= k < n ==> spec_trims(kind, #[trigger] v@[k]),
        decreases b - a,
    {
        b -= 1;
    }
    proof {
        lemma_strip_start_skip(v@, kind, a as int);
        let rest = v@.subrange(a as int, n as int);
        if a < n {
            assert(rest[0] == v@[a as int]);
            assert(!spec_trims(kind, rest[0]));
        } else {
            assert(rest.len() == 0);
        }
        assert(strip_start(rest, kind) == rest);
        assert forall|k: int| b - a <= k < rest.len() implies spec_trims(kind, #[trigger] rest[k]) by {
            assert(rest[k] == v@[a + k]);
        }
        lemma_strip_end_skip(rest, kind, b - a);
        let mid = rest.subrange(0, b - a);
        assert(mid =~= v@.subrange(a as int, b as int));
        if b > a {
            assert(mid.last() == v@[b - 1]);
        }
        assert(strip_end(mid, kind) == mid);
    }
    s.substring_char(a, b)
}

/// `s` without leading and trailing whitespace.
pub fn trim_text(s: &str) -> (res: &str)
    ensures
        res@ == spec_trim(s@),
{
    strip_text(s, Trimmed::Whitespace)
}

/// The code of `c` with ASCII capitals lowered.
pub open spec fn ascii_lower_code(c: char) -> u32 {
    if 'A' <= c <= 'Z' {
        (c as u32 + 32) as u32
    } else {
        c as u32
    }
}

/// `a` and `b` are equal when ASCII letter case is ignored, as
/// `str::eq_ignore_ascii_case` compares them.
pub open spec fn eq_ignore_ascii_case(a: Seq<char>, b: Seq<char>) -> bool {
    a.len() == b.len() && forall|i: int| 0 <= i < a.len() ==> #[trigger] ascii_lower_code(a[i])
        == ascii_lower_code(b[i])
}

fn lower_code(c: char) -> (res: u32)
    ensures
        res == ascii_lower_code(c),
{
    let u = c as u32;
    if 'A' <= c && c <= 'Z' {
        u + 32
    } else {
        u
    }
}

/// Whether `a` and `b` are equal when ASCII letter case is ignored.
pub fn eq_ignore_ascii_case_chars(a: &Vec<char>, b: &Vec<char>) -> (res: bool)
    ensures
        res == eq_ignore_ascii_case(a@, b@),
{
    if a.len() != b.len() {
        return false;
    }
    let mut i: usize = 0;
    while i < a.len()
        invariant
            i <= a.len(),
            a.len() == b.len(),
            forall|k: int| 0 <= k < i ==> #[trigger] ascii_lower_code(a@[k]) == ascii_lower_code(b@[k]),
        decreases a.len() - i,
    {
        if lower_code(a[i]) != lower_code(b[i]) {
            return false;
        }
        i += 1;
    }
    true
}

/// Whether `s`, without surrounding whitespace, equals `lit` when ASCII
/// letter case is ignored.
pub fn trimmed_is(s: &str, lit: &str) -> (res: bool)
    ensures
        res == eq_ignore_ascii_case(spec_trim(s@), lit@),
{
    eq_ignore_ascii_case_chars(&chars_of(trim_text(s)), &chars_of(lit))
}

} // verus!

verus! {

/// `s` with every occurrence of `pat` replaced by `with`, scanning from the
/// front and never re-reading a replaced occurrence, as `str::replace` does
/// for a pattern that is not empty.
pub open spec fn replaced(s: Seq<char>, pat: Seq<char>, with: Seq<char>) -> Seq<char>
    decreases s.len(),
{
    if s.len() == 0 || pat.len() == 0 {
        s
    } else if seq_starts_with(s, pat) {
        with + replaced(s.skip(pat.len() as int), pat, with)
    } else {
        seq![s[0]] + replaced(s.drop_first(), pat, with)
    }
}

/// Replaces every occurrence of `pat` (not empty) in `s` by `with`.
pub fn replace_text(s: &str, pat: &str, with: &str) -> (res: String)
    requires
        pat@.len() > 0,
    ensures
        res@ == replaced(s@, pat@, with@),
{
    let cs = chars_of(s);
    let ps = chars_of(pat);
    let n = s.unicode_len();
    let mut out = String::new();
    let mut i: usize = 0;
    assert(s@.skip(0) =~= s@);
    assert(out@ + replaced(s@, pat@, with@) =~= replaced(s@, pat@, with@));
    while i < n
        invariant
            i <= n,
            n == s@.len(),
            cs@ == s@,
            ps@ == pat@,
            pat@.len() > 0,
            out@ + replaced(s@.skip(i as int), pat@, with@) == replaced(s@, pat@, with@),
        decreases n - i,
    {
        let ghost rest = s@.skip(i as int);
        if matches_at(&cs, &ps, i) {
            proof {
                assert(rest.subrange(0, pat@.len() as int) =~= s@.subrange(
                    i as int,
                    i + pat@.len(),
                ));
                assert(rest.skip(pat@.len() as int) =~= s@.skip(i + pat@.len()));
            }
            out.append(with);
            assert(out@ + replaced(s@.skip(i + pat@.len()), pat@, with@) =~= replaced(
                s@,
                pat@,
                with@,
            ));
            i = i + ps.len();
        } else {
            proof {
                if seq_starts_with(rest, pat@) {
                    assert(s@.subrange(i as int, i + pat@.len()) =~= rest.subrange(
                        0,
                        pat@.len() as int,
                    ));
                }
                assert(rest.drop_first() =~= s@.skip(i + 1));
            }
            let one = s.substring_char(i, i + 1);
            assert(one@ =~= seq![rest[0]]);
            out.append(one);
            assert(out@ + replaced(s@.skip(i + 1), pat@, with@) =~= replaced(s@, pat@, with@));
            i = i + 1;
        }
    }
    assert(s@.skip(n as int) =~= Seq::<char>::empty());
    assert(out@ =~= replaced(s@, pat@, with@));
    out
}

} // verus!
