//! Classifying the fetched texts line by line for the rendering
//! surface: which kind of diff line each line is, and how a line of the
//! status summary is structured (a per-file entry with its change
//! stats, the closing summary, or plain text). How a category is then
//! drawn — colors, spans — is the rendering surface's business.

use vstd::prelude::*;

use crate::text::{spec_trim, trim_whitespace};

verus! {

/// Whether `prefix` starts `s`.
pub open spec fn spec_starts_with(s: Seq<char>, prefix: Seq<char>) -> bool {
    prefix.len() <= s.len() && s.subrange(0, prefix.len() as int) == prefix
}

/// Whether `s` starts with `prefix`, per `spec_starts_with`.
pub fn starts_with(s: &str, prefix: &str) -> (r: bool)
    ensures
        r == spec_starts_with(s@, prefix@),
{
    let n = s.unicode_len();
    let m = prefix.unicode_len();
    if m > n {
        return false;
    }
    let mut i: usize = 0;
    while i < m
        invariant
            i <= m,
            m <= n,
            m == prefix@.len(),
            n == s@.len(),
            forall|k: int| 0 <= k < i ==> s@[k] == prefix@[k],
        decreases m - i,
    {
        if s.get_char(i) != prefix.get_char(i) {
            proof {
                if spec_starts_with(s@, prefix@) {
                    assert(s@.subrange(0, m as int)[i as int] == s@[i as int]);
                }
            }
            return false;
        }
        i += 1;
    }
    proof {
        assert(s@.subrange(0, m as int) =~= prefix@);
    }
    true
}

/// Whether `s` holds the character `c` anywhere.
pub open spec fn spec_contains_char(s: Seq<char>, c: char) -> bool {
    exists|i: int| 0 <= i < s.len() && s[i] == c
}

/// Whether `s` holds `c`, per `spec_contains_char`.
pub fn contains_char(s: &str, c: char) -> (r: bool)
    ensures
        r == spec_contains_char(s@, c),
{
    let n = s.unicode_len();
    let mut i: usize = 0;
    while i < n
        invariant
            i <= n,
            n == s@.len(),
            forall|k: int| 0 <= k < i ==> s@[k] != c,
        decreases n - i,
    {
        if s.get_char(i) == c {
            return true;
        }
        i += 1;
    }
    false
}

/// Whether `pat` occurs in `s` as a contiguous run.
pub open spec fn spec_contains_text(s: Seq<char>, pat: Seq<char>) -> bool {
    exists|i: int| 0 <= i <= s.len() - pat.len() && #[trigger] s.subrange(i, i + pat.len()) == pat
}

fn matches_at(s: &str, i: usize, pat: &str) -> (r: bool)
    requires
        i + pat@.len() <= s@.len(),
    ensures
        r == (s@.subrange(i as int, i + pat@.len()) == pat@),
{
    let n = s.unicode_len();
    let m = pat.unicode_len();
    let mut k: usize = 0;
    while k < m
        invariant
            k <= m,
            m == pat@.len(),
            n == s@.len(),
            i + m <= n,
            forall|t: int| 0 <= t < k ==> s@[i + t] == pat@[t],
        decreases m - k,
    {
        if s.get_char(i + k) != pat.get_char(k) {
            proof {
                if s@.subrange(i as int, i + pat@.len()) == pat@ {
                    assert(s@.subrange(i as int, i + pat@.len())[k as int] == s@[i + k]);
                }
            }
            return false;
        }
        k += 1;
    }
    proof {
        assert(s@.subrange(i as int, i + pat@.len()) =~= pat@);
    }
    true
}

/// Whether `s` holds `pat`, per `spec_contains_text`.
pub fn contains_text(s: &str, pat: &str) -> (r: bool)
    ensures
        r == spec_contains_text(s@, pat@),
{
    let n = s.unicode_len();
    let m = pat.unicode_len();
    if m > n {
        proof {
            assert(!spec_contains_text(s@, pat@));
        }
        return false;
    }
    if m == 0 {
        proof {
            assert(s@.subrange(0, 0 + pat@.len() as int) =~= pat@);
            assert(spec_contains_text(s@, pat@));
        }
        return true;
    }
    let mut i: usize = 0;
    while i <= n - m
        invariant
            0 < m <= n,
            i <= n - m + 1,
            n == s@.len(),
            m == pat@.len(),
            forall|j: int| 0 <= j < i ==> #[trigger] s@.subrange(j, j + pat@.len()) != pat@,
        decreases n - i,
    {
        if matches_at(s, i, pat) {
            return true;
        }
        i += 1;
    }
    proof {
        assert(!spec_contains_text(s@, pat@)) by {
            if spec_contains_text(s@, pat@) {
                let j = choose|j: int|
                    0 <= j <= s@.len() - pat@.len() && #[trigger] s@.subrange(j, j + pat@.len())
                        == pat@;
                assert(s@.subrange(j, j + pat@.len()) != pat@);
            }
        }
    }
    false
}

/// Index of the first `c` in `s`, or `s.len()` when there is none.
pub open spec fn first_index_of(s: Seq<char>, c: char) -> int
    decreases s.len(),
{
    if s.len() == 0 {
        0
    } else if s[0] == c {
        0
    } else {
        1 + first_index_of(s.skip(1), c)
    }
}

proof fn lemma_first_index_of_is(s: Seq<char>, c: char, i: int)
    requires
        0 <= i <= s.len(),
        forall|k: int| 0 <= k < i ==> s[k] != c,
        i < s.len() ==> s[i] == c,
    ensures
        first_index_of(s, c) == i,
    decreases s.len(),
{
    if s.len() == 0 {
    } else if s[0] == c {
        if i > 0 {
            assert(s[0] != c);
        }
    } else {
        assert(i >= 1) by {
            if i == 0 {
                assert(s[0] == c);
            }
        }
        assert forall|k: int| 0 <= k < i - 1 implies s.skip(1)[k] != c by {
            assert(s.skip(1)[k] == s[k + 1]);
        }
        if i - 1 < s.skip(1).len() {
            assert(s.skip(1)[i - 1] == s[i]);
        }
        lemma_first_index_of_is(s.skip(1), c, i - 1);
    }
}

/// The segments of `s` between occurrences of `c`: always at least one
/// segment, with an empty final segment for text ending in `c`.
pub open spec fn spec_split_at_char(s: Seq<char>, c: char) -> Seq<Seq<char>>
    decreases s.len(),
{
    let i = first_index_of(s, c);
    if 0 <= i && i < s.len() {
        seq![s.take(i)] + spec_split_at_char(s.skip(i + 1), c)
    } else {
        seq![s]
    }
}

/// Splits `s` at every `c`, per `spec_split_at_char`.
pub fn split_at_char(s: &str, c: char) -> (r: Vec<String>)
    ensures
        r.deep_view() == spec_split_at_char(s@, c),
{
    let n = s.unicode_len();
    let mut r: Vec<String> = Vec::new();
    let mut pos: usize = 0;
    proof {
        assert(s@.skip(0) =~= s@);
        assert(r.deep_view() + spec_split_at_char(s@, c) =~= spec_split_at_char(s@, c));
    }
    loop
        invariant
            pos <= n,
            n == s@.len(),
            r.deep_view() + spec_split_at_char(s@.skip(pos as int), c) == spec_split_at_char(
                s@,
                c,
            ),
        decreases n - pos,
    {
        let ghost prev_r = r.deep_view();
        let mut j = pos;
        while j < n && s.get_char(j) != c
            invariant
                pos <= j <= n,
                n == s@.len(),
                forall|k: int| pos <= k < j ==> s@[k] != c,
            decreases n - j,
        {
            j += 1;
        }
        let piece = s.substring_char(pos, j);
        let owned = String::from_str(piece);
        proof {
            let rest = s@.skip(pos as int);
            assert forall|k: int| 0 <= k < j - pos implies rest[k] != c by {
                assert(rest[k] == s@[pos + k]);
            }
            if j < n {
                assert(rest[j - pos] == s@[j as int]);
            }
            lemma_first_index_of_is(rest, c, j - pos);
        }
        r.push(owned);
        proof {
            assert(r.deep_view() =~= prev_r.push(owned@));
        }
        if j < n {
            proof {
                let rest = s@.skip(pos as int);
                assert(rest.take(j - pos) =~= s@.subrange(pos as int, j as int));
                assert(rest.skip(j - pos + 1) =~= s@.skip(j + 1));
                assert(spec_split_at_char(rest, c) == seq![owned@] + spec_split_at_char(
                    s@.skip(j + 1),
                    c,
                ));
                assert(r.deep_view() + spec_split_at_char(s@.skip(j + 1), c) =~= spec_split_at_char(
                    s@,
                    c,
                ));
            }
            pos = j + 1;
        } else {
            proof {
                let rest = s@.skip(pos as int);
                assert(rest.take(j - pos) =~= rest);
                assert(owned@ =~= rest);
                assert(spec_split_at_char(rest, c) == seq![owned@]);
                assert(r.deep_view() =~= spec_split_at_char(s@, c));
            }
            return r;
        }
    }
}

/// How one line of a diff is categorized for display.
#[derive(Clone, Copy, Debug, PartialEq, Eq, Structural)]
pub enum DiffLineKind {
    /// A hunk header (`@@`).
    HunkHeader,
    /// A `+++` or `---` file header.
    FileHeader,
    /// An added line of content.
    Addition,
    /// A removed line of content.
    Removal,
    /// Version-control metadata (`index `, `diff --git`).
    Metadata,
    /// Unchanged context.
    Context,
}

/// The category of a diff line, read off its first characters.
pub open spec fn spec_classify_diff_line(l: Seq<char>) -> DiffLineKind {
    if spec_starts_with(l, "@@"@) {
        DiffLineKind::HunkHeader
    } else if spec_starts_with(l, "+++"@) || spec_starts_with(l, "---"@) {
        DiffLineKind::FileHeader
    } else if spec_starts_with(l, "+"@) {
        DiffLineKind::Addition
    } else if spec_starts_with(l, "-"@) {
        DiffLineKind::Removal
    } else if spec_starts_with(l, "index "@) || spec_starts_with(l, "diff --git"@) {
        DiffLineKind::Metadata
    } else {
        DiffLineKind::Context
    }
}

/// Categorizes one diff line, per `spec_classify_diff_line`.
pub fn classify_diff_line(line: &str) -> (r: DiffLineKind)
    ensures
        r == spec_classify_diff_line(line@),
{
    if starts_with(line, "@@") {
        DiffLineKind::HunkHeader
    } else if starts_with(line, "+++") || starts_with(line, "---") {
        DiffLineKind::FileHeader
    } else if starts_with(line, "+") {
        DiffLineKind::Addition
    } else if starts_with(line, "-") {
        DiffLineKind::Removal
    } else if starts_with(line, "index ") || starts_with(line, "diff --git") {
        DiffLineKind::Metadata
    } else {
        DiffLineKind::Context
    }
}

/// How one line of the status summary is structured.
pub enum StatLine {
    /// A per-file entry: the file part and the stats part around the
    /// first `'|'`, trimmed, with whether the stats mention additions
    /// or removals.
    FileEntry { file: String, stats: String, has_plus: bool, has_minus: bool },
    /// The closing totals line.
    Summary,
    /// Anything else.
    Plain,
}

/// The mathematical shadow of a `StatLine`.
pub ghost enum StatLineView {
    FileEntry { file: Seq<char>, stats: Seq<char>, has_plus: bool, has_minus: bool },
    Summary,
    Plain,
}

impl View for StatLine {
    type V = StatLineView;

    open spec fn view(&self) -> StatLineView {
        match self {
            StatLine::FileEntry { file, stats, has_plus, has_minus } => StatLineView::FileEntry {
                file: file@,
                stats: stats@,
                has_plus: *has_plus,
                has_minus: *has_minus,
            },
            StatLine::Summary => StatLineView::Summary,
            StatLine::Plain => StatLineView::Plain,
        }
    }
}

/// The structure of a status-summary line: a `'|'` makes it a per-file
/// entry, the totals keywords make it the summary, anything else is
/// plain text.
pub open spec fn spec_classify_stat_line(l: Seq<char>) -> StatLineView {
    let parts = spec_split_at_char(l, '|');
    if parts.len() >= 2 {
        let stats = spec_trim(parts[1]);
        StatLineView::FileEntry {
            file: spec_trim(parts[0]),
            stats: stats,
            has_plus: spec_contains_char(stats, '+'),
            has_minus: spec_contains_char(stats, '-'),
        }
    } else if spec_contains_text(l, "changed"@) || spec_contains_text(l, "insertion"@)
        || spec_contains_text(l, "deletion"@) {
        StatLineView::Summary
    } else {
        StatLineView::Plain
    }
}

/// Categorizes one status-summary line, per `spec_classify_stat_line`.
pub fn classify_stat_line(line: &str) -> (r: StatLine)
    ensures
        r@ == spec_classify_stat_line(line@),
{
    let parts = split_at_char(line, '|');
    if parts.len() >= 2 {
        proof {
            assert(parts.deep_view()[0] == parts@[0]@);
            assert(parts.deep_view()[1] == parts@[1]@);
        }
        let file = trim_whitespace(parts[0].as_str());
        let stats = trim_whitespace(parts[1].as_str());
        let has_plus = contains_char(stats.as_str(), '+');
        let has_minus = contains_char(stats.as_str(), '-');
        StatLine::FileEntry { file, stats, has_plus, has_minus }
    } else if contains_text(line, "changed") || contains_text(line, "insertion") || contains_text(
        line,
        "deletion",
    ) {
        StatLine::Summary
    } else {
        StatLine::Plain
    }
}

} // verus!
