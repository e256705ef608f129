//! Character-level tests on argument tokens and declared names.
use vstd::prelude::*;

verus! {

/// `p` occurs in `t` as a contiguous run of characters.
pub open spec fn contains_seq(t: Seq<char>, p: Seq<char>) -> bool {
    exists|i: int| 0 <= i && i + p.len() <= t.len() && #[trigger] t.subrange(i, i + p.len()) == p
}

/// The token starts a flag: its first character is `-`.
pub open spec fn dashed(t: Seq<char>) -> bool {
    t.len() > 0 && t[0] == '-'
}

/// The token is a long-form flag: it starts with `--`.
pub open spec fn double_dashed(t: Seq<char>) -> bool {
    t.len() > 1 && t[0] == '-' && t[1] == '-'
}

/// The characters of `s`, in order.
pub fn chars_of(s: &str) -> (r: Vec<char>)
    ensures
        r@ == s@,
{
    let n = s.unicode_len();
    let mut v: Vec<char> = Vec::new();
    let mut i: usize = 0;
    while i < n
        invariant
            n == s@.len(),
            i <= n,
            v@ == s@.subrange(0, i as int),
        decreases n - i,
    {
        v.push(s.get_char(i));
        i = i + 1;
        assert(v@ =~= s@.subrange(0, i as int));
    }
    assert(v@ =~= s@);
    v
}

/// Whether `p` stands in `t` starting at position `at`.
fn occurs_at(t: &Vec<char>, p: &Vec<char>, at: usize) -> (r: bool)
    requires
        at + p@.len() <= t@.len(),
    ensures
        r == (t@.subrange(at as int, at + p@.len()) == p@),
{
    let n = t.len();
    let mut j: usize = 0;
    while j < p.len()
        invariant
            n == t@.len(),
            at + p@.len() <= t@.len(),
            j <= p@.len(),
            forall|m: int| 0 <= m < j ==> t@[at + m] == p@[m],
        decreases p@.len() - j,
    {
        if t[at + j] != p[j] {
            assert(t@.subrange(at as int, at + p@.len())[j as int] != p@[j as int]);
            return false;
        }
        j = j + 1;
    }
    assert(t@.subrange(at as int, at + p@.len()) =~= p@);
    true
}

/// Whether the characters of `p` occur in `t` as a contiguous run.
pub fn contains_text(t: &str, p: &str) -> (r: bool)
    ensures
        r == contains_seq(t@, p@),
{
    let tc = chars_of(t);
    let pc = chars_of(p);
    if pc.len() > tc.len() {
        return false;
    }
    let last = tc.len() - pc.len();
    let mut i: usize = 0;
    loop
        invariant
            tc@ == t@,
            pc@ == p@,
            last == t@.len() - p@.len(),
            i <= last,
            forall|m: int| 0 <= m < i ==> #[trigger] t@.subrange(m, m + p@.len()) != p@,
        decreases last - i,
    {
        if occurs_at(&tc, &pc, i) {
            return true;
        }
        if i == last {
            return false;
        }
        i = i + 1;
    }
}

/// Whether `a` and `b` hold the same characters.
pub fn same_text(a: &str, b: &str) -> (r: bool)
    ensures
        r == (a@ == b@),
{
    let ac = chars_of(a);
    let bc = chars_of(b);
    if ac.len() != bc.len() {
        return false;
    }
    let r = occurs_at(&ac, &bc, 0);
    assert(ac@.subrange(0, bc@.len() as int) =~= ac@);
    r
}

/// Whether the token starts a flag.
pub fn is_dashed(t: &str) -> (r: bool)
    ensures
        r == dashed(t@),
{
    t.unicode_len() > 0 && t.get_char(0) == '-'
}

/// Whether the token is a long-form flag.
pub fn is_double_dashed(t: &str) -> (r: bool)
    ensures
        r == double_dashed(t@),
{
    t.unicode_len() > 1 && t.get_char(0) == '-' && t.get_char(1) == '-'
}

/// Whether the token is exactly `-` followed by `alias`.
pub fn is_short_form(t: &str, alias: &str) -> (r: bool)
    ensures
        r == (t@ == seq!['-'] + alias@),
{
    let tc = chars_of(t);
    let ac = chars_of(alias);
    if tc.len() == 0 || tc.len() - 1 != ac.len() || tc[0] != '-' {
        assert(tc@.len() > 0 && tc@[0] != '-' ==> (seq!['-'] + alias@)[0] == '-');
        return false;
    }
    let r = occurs_at(&tc, &ac, 1);
    assert(r ==> t@ =~= seq!['-'] + alias@);
    assert(t@ == seq!['-'] + alias@ ==> t@.subrange(1, t@.len() as int) =~= alias@);
    r
}

} // verus!
