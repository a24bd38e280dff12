//! The scroll resolver: given a freshly fetched diff and, when one
//! exists, the previous diff recorded for the same file, it computes
//! the vertical offset (in lines) that reveals the first meaningful
//! change to the reader.

use vstd::prelude::*;

use crate::text::{spec_lines, split_lines};

verus! {

/// A diff line that records an added line of content: it starts with
/// `'+'` but is not a `+++` file header.
pub open spec fn is_addition_line(l: Seq<char>) -> bool {
    l.len() >= 1 && l[0] == '+' && !(l.len() >= 3 && l[1] == '+' && l[2] == '+')
}

/// A diff line that records a removed line of content: it starts with
/// `'-'` but is not a `---` file header.
pub open spec fn is_removal_line(l: Seq<char>) -> bool {
    l.len() >= 1 && l[0] == '-' && !(l.len() >= 3 && l[1] == '-' && l[2] == '-')
}

/// A content-change line: an addition or a removal.
pub open spec fn is_change_line(l: Seq<char>) -> bool {
    is_addition_line(l) || is_removal_line(l)
}

/// First index `>= i` of an addition line in `ls`, if any.
pub open spec fn first_addition_from(ls: Seq<Seq<char>>, i: int) -> Option<int>
    decreases ls.len() - i,
{
    if i < 0 || i >= ls.len() {
        None
    } else if is_addition_line(ls[i]) {
        Some(i)
    } else {
        first_addition_from(ls, i + 1)
    }
}

/// First index `>= i` of a content-change line in `ls`, if any.
pub open spec fn first_change_from(ls: Seq<Seq<char>>, i: int) -> Option<int>
    decreases ls.len() - i,
{
    if i < 0 || i >= ls.len() {
        None
    } else if is_change_line(ls[i]) {
        Some(i)
    } else {
        first_change_from(ls, i + 1)
    }
}

/// `a - b`, clamped below at zero.
pub open spec fn clamp_sub(a: int, b: int) -> int {
    if a >= b {
        a - b
    } else {
        0
    }
}

/// Offset for a diff with no recorded predecessor: three lines of
/// context above the first addition; failing any addition, the tail of
/// a long diff (more than ten lines shows the last eight), else zero.
pub open spec fn spec_smart_scroll(ls: Seq<Seq<char>>) -> int {
    match first_addition_from(ls, 0) {
        Some(i) => clamp_sub(i, 3),
        None => if ls.len() > 10 {
            ls.len() - 8
        } else {
            0
        },
    }
}

/// `spec_smart_scroll` applied to the lines of a diff text.
pub open spec fn spec_smart_scroll_text(s: Seq<char>) -> int {
    spec_smart_scroll(spec_lines(s))
}

/// First index at which `c` and `p` diverge, scanning from `i`: the
/// first position where either side is exhausted or the lines differ.
/// (When `c == p` the scan runs off both ends; callers treat that case
/// separately.)
pub open spec fn first_divergence(c: Seq<Seq<char>>, p: Seq<Seq<char>>, i: int) -> int
    decreases c.len() - i,
{
    if i < 0 || i >= c.len() || i >= p.len() {
        i
    } else if c[i] != p[i] {
        i
    } else {
        first_divergence(c, p, i + 1)
    }
}

/// The divergence point of current lines `c` against previous lines
/// `p`, or `None` when the two are identical.
pub open spec fn spec_divergence(c: Seq<Seq<char>>, p: Seq<Seq<char>>) -> Option<int> {
    if c == p {
        None
    } else {
        Some(first_divergence(c, p, 0))
    }
}

/// Offset for a diff with a recorded predecessor: three lines of
/// context above the first content change at or after the divergence
/// point; failing one, two lines above the divergence point itself;
/// and with no divergence at all, the smart scroll of the current diff.
pub open spec fn spec_diff_scroll(c: Seq<Seq<char>>, p: Seq<Seq<char>>) -> int {
    match spec_divergence(c, p) {
        None => spec_smart_scroll(c),
        Some(d) => match first_change_from(c, d) {
            Some(i) => clamp_sub(i, 3),
            None => clamp_sub(d, 2),
        },
    }
}

/// `spec_diff_scroll` applied to the lines of the two diff texts.
pub open spec fn spec_diff_scroll_text(cur: Seq<char>, prev: Seq<char>) -> int {
    spec_diff_scroll(spec_lines(cur), spec_lines(prev))
}

fn is_addition(l: &String) -> (r: bool)
    ensures
        r == is_addition_line(l@),
{
    let s = l.as_str();
    let n = s.unicode_len();
    if n == 0 {
        return false;
    }
    if s.get_char(0) != '+' {
        return false;
    }
    !(n >= 3 && s.get_char(1) == '+' && s.get_char(2) == '+')
}

fn is_change(l: &String) -> (r: bool)
    ensures
        r == is_change_line(l@),
{
    let s = l.as_str();
    let n = s.unicode_len();
    if n == 0 {
        return false;
    }
    let c0 = s.get_char(0);
    if c0 == '+' {
        !(n >= 3 && s.get_char(1) == '+' && s.get_char(2) == '+')
    } else if c0 == '-' {
        !(n >= 3 && s.get_char(1) == '-' && s.get_char(2) == '-')
    } else {
        false
    }
}

/// `spec_smart_scroll` over already-split lines.
pub fn smart_scroll_lines(ls: &Vec<String>) -> (r: usize)
    ensures
        r == spec_smart_scroll(ls.deep_view()),
{
    let n = ls.len();
    let ghost dv = ls.deep_view();
    proof {
        assert(dv.len() == n);
    }
    let mut i: usize = 0;
    while i < n
        invariant
            i <= n,
            n == ls.len(),
            dv == ls.deep_view(),
            dv.len() == n,
            first_addition_from(dv, 0) == first_addition_from(dv, i as int),
        decreases n - i,
    {
        proof {
            assert(dv[i as int] == ls@[i as int]@);
        }
        if is_addition(&ls[i]) {
            return if i >= 3 {
                i - 3
            } else {
                0
            };
        }
        i += 1;
    }
    if n > 10 {
        n - 8
    } else {
        0
    }
}

/// Offset revealing the first addition of a diff that has no recorded
/// predecessor; see `spec_smart_scroll`.
pub fn smart_scroll(diff: &str) -> (r: usize)
    ensures
        r == spec_smart_scroll_text(diff@),
{
    let ls = split_lines(diff);
    smart_scroll_lines(&ls)
}

/// Offset revealing what changed between `current` and `previous`,
/// the diff last recorded for the same file; see `spec_diff_scroll`.
pub fn diff_against_previous(current: &str, previous: &str) -> (r: usize)
    ensures
        r == spec_diff_scroll_text(current@, previous@),
{
    let c = split_lines(current);
    let p = split_lines(previous);
    let ghost cdv = c.deep_view();
    let ghost pdv = p.deep_view();
    let cn = c.len();
    let pn = p.len();
    proof {
        assert(cdv.len() == cn);
        assert(pdv.len() == pn);
    }
    let mut i: usize = 0;
    while i < cn && i < pn && c[i] == p[i]
        invariant
            i <= cn,
            cn == c.len(),
            pn == p.len(),
            cdv == c.deep_view(),
            pdv == p.deep_view(),
            cdv.len() == cn,
            pdv.len() == pn,
            forall|k: int| 0 <= k < i ==> cdv[k] == pdv[k],
            first_divergence(cdv, pdv, 0) == first_divergence(cdv, pdv, i as int),
        decreases cn - i,
    {
        proof {
            assert(cdv[i as int] == c@[i as int]@);
            assert(pdv[i as int] == p@[i as int]@);
        }
        i += 1;
    }
    if i == cn && i == pn {
        proof {
            assert(cdv =~= pdv);
        }
        return smart_scroll_lines(&c);
    }
    proof {
        if i < cn && i < pn {
            assert(cdv[i as int] == c@[i as int]@);
            assert(pdv[i as int] == p@[i as int]@);
            assert(cdv[i as int] != pdv[i as int]);
        } else {
            assert(cdv.len() != pdv.len());
        }
        assert(cdv != pdv);
        assert(first_divergence(cdv, pdv, i as int) == i);
    }
    let d = i;
    let mut j = d;
    while j < cn
        invariant
            d <= j <= cn,
            cn == c.len(),
            cdv == c.deep_view(),
            cdv == spec_lines(current@),
            pdv == spec_lines(previous@),
            cdv.len() == cn,
            spec_divergence(cdv, pdv) == Some(d as int),
            first_change_from(cdv, d as int) == first_change_from(cdv, j as int),
        decreases cn - j,
    {
        proof {
            assert(cdv[j as int] == c@[j as int]@);
        }
        if is_change(&c[j]) {
            return if j >= 3 {
                j - 3
            } else {
                0
            };
        }
        j += 1;
    }
    if d >= 2 {
        d - 2
    } else {
        0
    }
}

/// Law: resolving a diff against an identical previous diff falls back
/// to the smart scroll of that diff.
pub proof fn lemma_identical_diffs_fall_back(d: Seq<char>)
    ensures
        spec_diff_scroll_text(d, d) == spec_smart_scroll_text(d),
{
}

proof fn lemma_first_addition_none(ls: Seq<Seq<char>>, i: int)
    requires
        forall|k: int| i <= k < ls.len() ==> !is_addition_line(#[trigger] ls[k]),
    ensures
        first_addition_from(ls, i) is None,
    decreases ls.len() - i,
{
    if i < 0 || i >= ls.len() {
    } else {
        lemma_first_addition_none(ls, i + 1);
    }
}

/// Law: a diff whose lines include no addition and number at most ten
/// resolves to offset zero under the smart scroll.
pub proof fn lemma_no_addition_short_diff(d: Seq<char>)
    requires
        forall|k: int| 0 <= k < spec_lines(d).len() ==> !is_addition_line(#[trigger] spec_lines(d)[k]),
        spec_lines(d).len() <= 10,
    ensures
        spec_smart_scroll_text(d) == 0,
{
    lemma_first_addition_none(spec_lines(d), 0);
}

} // verus!
