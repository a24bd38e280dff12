//! Plain-text helpers shared by the engine: splitting text into lines
//! the way the rest of the crate understands them, trimming surrounding
//! whitespace, and extracting the file-name component of a path.
//!
//! A line break is a `'\n'`; a line carries no terminator, and a single
//! trailing `'\r'` is stripped from each `'\n'`-terminated line (so
//! `"\r\n"` breaks a line too, while a bare final `'\r'` is kept). Text
//! that ends with a line break yields no empty final line.

use vstd::prelude::*;

verus! {

/// Index of the first `'\n'` in `s`, or `s.len()` when there is none.
pub open spec fn line_break_at(s: Seq<char>) -> int
    decreases s.len(),
{
    if s.len() == 0 {
        0
    } else if s[0] == '\n' {
        0
    } else {
        1 + line_break_at(s.skip(1))
    }
}

pub proof fn lemma_line_break_at_is(s: Seq<char>, i: int)
    requires
        0 <= i <= s.len(),
        forall|k: int| 0 <= k < i ==> s[k] != '\n',
        i < s.len() ==> s[i] == '\n',
    ensures
        line_break_at(s) == i,
    decreases s.len(),
{
    if s.len() == 0 {
    } else if s[0] == '\n' {
        if i > 0 {
            assert(s[0] != '\n');
        }
    } else {
        assert(i >= 1) by {
            if i == 0 {
                assert(s[0] == '\n');
            }
        }
        assert forall|k: int| 0 <= k < i - 1 implies s.skip(1)[k] != '\n' by {
            assert(s.skip(1)[k] == s[k + 1]);
        }
        if i - 1 < s.skip(1).len() {
            assert(s.skip(1)[i - 1] == s[i]);
        }
        lemma_line_break_at_is(s.skip(1), i - 1);
    }
}

/// A line with one trailing `'\r'` removed, if it has one.
pub open spec fn strip_carriage_return(l: Seq<char>) -> Seq<char> {
    if l.len() > 0 && l[l.len() - 1] == '\r' {
        l.take(l.len() - 1)
    } else {
        l
    }
}

/// The lines of `s`: split on `'\n'`, one trailing `'\r'` stripped from
/// each `'\n'`-terminated line (a bare `'\r'` at the end of the text is
/// kept), and no empty final line for text ending in `'\n'`.
pub open spec fn spec_lines(s: Seq<char>) -> Seq<Seq<char>>
    decreases s.len(),
{
    if s.len() == 0 {
        Seq::empty()
    } else {
        let b = line_break_at(s);
        if 0 <= b && b < s.len() {
            seq![strip_carriage_return(s.take(b))] + spec_lines(s.skip(b + 1))
        } else {
            seq![s]
        }
    }
}

/// Splits `text` into its lines, as `spec_lines` describes them.
pub fn split_lines(text: &str) -> (r: Vec<String>)
    ensures
        r.deep_view() == spec_lines(text@),
{
    let n = text.unicode_len();
    let mut r: Vec<String> = Vec::new();
    let mut pos: usize = 0;
    proof {
        assert(text@.skip(0) =~= text@);
        assert(r.deep_view() + spec_lines(text@) =~= spec_lines(text@));
    }
    while pos < n
        invariant
            pos <= n,
            n == text@.len(),
            r.deep_view() + spec_lines(text@.skip(pos as int)) == spec_lines(text@),
        decreases n - pos,
    {
        let ghost prev_r = r.deep_view();
        let mut j = pos;
        while j < n && text.get_char(j) != '\n'
            invariant
                pos <= j <= n,
                n == text@.len(),
                forall|k: int| pos <= k < j ==> text@[k] != '\n',
            decreases n - j,
        {
            j += 1;
        }
        let mut end = j;
        if j < n && end > pos && text.get_char(end - 1) == '\r' {
            end -= 1;
        }
        let line = text.substring_char(pos, end);
        let owned = String::from_str(line);
        proof {
            let s = text@;
            let rest = s.skip(pos as int);
            assert forall|k: int| 0 <= k < j - pos implies rest[k] != '\n' by {
                assert(rest[k] == s[pos + k]);
            }
            if j < n {
                assert(rest[j - pos] == s[j as int]);
            }
            lemma_line_break_at_is(rest, j - pos);
            if j < n {
                assert(rest.take(j - pos) =~= s.subrange(pos as int, j as int));
                assert(strip_carriage_return(rest.take(j - pos)) =~= owned@);
                assert(rest.skip(j - pos + 1) =~= s.skip(j + 1));
                assert(spec_lines(rest) == seq![owned@] + spec_lines(s.skip(j + 1)));
            } else {
                assert(rest =~= owned@);
                assert(spec_lines(rest) == seq![owned@]);
                assert(s.skip(n as int) =~= Seq::<char>::empty());
            }
        }
        r.push(owned);
        proof {
            assert(r.deep_view() =~= prev_r.push(owned@));
        }
        pos = if j < n { j + 1 } else { n };
        proof {
            assert(r.deep_view() + spec_lines(text@.skip(pos as int)) =~= spec_lines(text@));
        }
    }
    proof {
        assert(text@.skip(n as int) =~= Seq::<char>::empty());
        assert(r.deep_view() =~= r.deep_view() + spec_lines(text@.skip(n as int)));
    }
    r
}

/// The whitespace characters that trimming and blankness tests honour.
pub open spec fn is_space_char(c: char) -> bool {
    c == ' ' || c == '\t' || c == '\n' || c == '\r'
}

/// Text made only of whitespace characters (or empty).
pub open spec fn spec_is_blank(s: Seq<char>) -> bool {
    forall|i: int| 0 <= i < s.len() ==> is_space_char(#[trigger] s[i])
}

fn is_space(c: char) -> (r: bool)
    ensures
        r == is_space_char(c),
{
    c == ' ' || c == '\t' || c == '\n' || c == '\r'
}

/// Whether `text` holds nothing but whitespace.
pub fn is_blank(text: &str) -> (r: bool)
    ensures
        r == spec_is_blank(text@),
{
    let n = text.unicode_len();
    let mut i: usize = 0;
    while i < n
        invariant
            i <= n,
            n == text@.len(),
            forall|k: int| 0 <= k < i ==> is_space_char(#[trigger] text@[k]),
        decreases n - i,
    {
        if !is_space(text.get_char(i)) {
            return false;
        }
        i += 1;
    }
    true
}

/// Number of leading whitespace characters of `s`.
pub open spec fn leading_space_count(s: Seq<char>) -> int
    decreases s.len(),
{
    if s.len() == 0 {
        0
    } else if !is_space_char(s[0]) {
        0
    } else {
        1 + leading_space_count(s.skip(1))
    }
}

/// Number of trailing whitespace characters of `s`.
pub open spec fn trailing_space_count(s: Seq<char>) -> int
    decreases s.len(),
{
    if s.len() == 0 {
        0
    } else if !is_space_char(s[s.len() - 1]) {
        0
    } else {
        1 + trailing_space_count(s.take(s.len() - 1))
    }
}

/// `s` with leading and trailing whitespace removed.
pub open spec fn spec_trim(s: Seq<char>) -> Seq<char> {
    if spec_is_blank(s) {
        Seq::empty()
    } else {
        s.subrange(leading_space_count(s), s.len() - trailing_space_count(s))
    }
}

pub proof fn lemma_leading_space_count_is(s: Seq<char>, i: int)
    requires
        0 <= i <= s.len(),
        forall|k: int| 0 <= k < i ==> is_space_char(#[trigger] s[k]),
        i < s.len() ==> !is_space_char(s[i]),
    ensures
        leading_space_count(s) == i,
    decreases s.len(),
{
    if s.len() == 0 {
    } else if !is_space_char(s[0]) {
        if i > 0 {
            assert(is_space_char(s[0]));
        }
    } else {
        assert(i >= 1) by {
            if i == 0 {
                assert(!is_space_char(s[0]));
            }
        }
        assert forall|k: int| 0 <= k < i - 1 implies is_space_char(#[trigger] s.skip(1)[k]) by {
            assert(s.skip(1)[k] == s[k + 1]);
        }
        if i - 1 < s.skip(1).len() {
            assert(s.skip(1)[i - 1] == s[i]);
        }
        lemma_leading_space_count_is(s.skip(1), i - 1);
    }
}

pub proof fn lemma_trailing_space_count_is(s: Seq<char>, i: int)
    requires
        0 <= i <= s.len(),
        forall|k: int| s.len() - i <= k < s.len() ==> is_space_char(#[trigger] s[k]),
        i < s.len() ==> !is_space_char(s[s.len() - i - 1]),
    ensures
        trailing_space_count(s) == i,
    decreases s.len(),
{
    if s.len() == 0 {
    } else if !is_space_char(s[s.len() - 1]) {
        if i > 0 {
            assert(is_space_char(s[s.len() - 1]));
        }
    } else {
        assert(i >= 1) by {
            if i == 0 {
                assert(!is_space_char(s[s.len() - 1]));
            }
        }
        let t = s.take(s.len() - 1);
        assert forall|k: int| t.len() - (i - 1) <= k < t.len() implies is_space_char(
            #[trigger] t[k],
        ) by {
            assert(t[k] == s[k]);
        }
        if i - 1 < t.len() {
            assert(t[t.len() - (i - 1) - 1] == s[s.len() - i - 1]);
        }
        lemma_trailing_space_count_is(t, i - 1);
    }
}

/// `text` with leading and trailing whitespace removed.
pub fn trim_whitespace(text: &str) -> (r: String)
    ensures
        r@ == spec_trim(text@),
{
    let n = text.unicode_len();
    let mut a: usize = 0;
    while a < n && is_space(text.get_char(a))
        invariant
            a <= n,
            n == text@.len(),
            forall|k: int| 0 <= k < a ==> is_space_char(#[trigger] text@[k]),
        decreases n - a,
    {
        a += 1;
    }
    if a == n {
        let r = String::new();
        proof {
            assert(spec_is_blank(text@));
            assert(r@ =~= spec_trim(text@));
        }
        return r;
    }
    let mut b: usize = n;
    while b > a && is_space(text.get_char(b - 1))
        invariant
            a <= b <= n,
            n == text@.len(),
            forall|k: int| b <= k < n ==> is_space_char(#[trigger] text@[k]),
        decreases b,
    {
        b -= 1;
    }
    proof {
        assert(!is_space_char(text@[a as int]));
        assert(!spec_is_blank(text@));
        lemma_leading_space_count_is(text@, a as int);
        assert(!is_space_char(text@[b - 1]));
        lemma_trailing_space_count_is(text@, n - b);
    }
    let piece = text.substring_char(a, b);
    String::from_str(piece)
}

/// Index of the last `'/'` in `s`, or `-1` when there is none.
pub open spec fn last_slash_at(s: Seq<char>) -> int
    decreases s.len(),
{
    if s.len() == 0 {
        -1
    } else if s[s.len() - 1] == '/' {
        s.len() - 1
    } else {
        last_slash_at(s.take(s.len() - 1))
    }
}

/// The file-name component of a path: everything after the last `'/'`,
/// or the whole path when it has no `'/'`.
pub open spec fn spec_file_name(s: Seq<char>) -> Seq<char> {
    s.subrange(last_slash_at(s) + 1, s.len() as int)
}

pub proof fn lemma_last_slash_at_is(s: Seq<char>, i: int)
    requires
        -1 <= i < s.len(),
        forall|k: int| i < k < s.len() ==> s[k] != '/',
        i >= 0 ==> s[i] == '/',
    ensures
        last_slash_at(s) == i,
    decreases s.len(),
{
    if s.len() == 0 {
    } else if s[s.len() - 1] == '/' {
        if i < s.len() - 1 {
            assert(s[s.len() - 1] != '/');
        }
    } else {
        assert(i < s.len() - 1) by {
            if i == s.len() - 1 {
                assert(s[i] == '/');
            }
        }
        let t = s.take(s.len() - 1);
        assert forall|k: int| i < k < t.len() implies t[k] != '/' by {
            assert(t[k] == s[k]);
        }
        if i >= 0 {
            assert(t[i] == s[i]);
        }
        lemma_last_slash_at_is(t, i);
    }
}

/// The file-name component of `path`, per `spec_file_name`.
pub fn file_name_of(path: &str) -> (r: String)
    ensures
        r@ == spec_file_name(path@),
{
    let n = path.unicode_len();
    let mut b: usize = n;
    while b > 0 && path.get_char(b - 1) != '/'
        invariant
            b <= n,
            n == path@.len(),
            forall|k: int| b <= k < n ==> path@[k] != '/',
        decreases b,
    {
        b -= 1;
    }
    proof {
        if b > 0 {
            lemma_last_slash_at_is(path@, b - 1);
        } else {
            lemma_last_slash_at_is(path@, -1);
        }
    }
    let piece = path.substring_char(b, n);
    String::from_str(piece)
}

} // verus!
