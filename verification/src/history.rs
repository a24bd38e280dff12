//! The diff history store: an append-only, size-bounded ledger of the
//! diff texts fetched during a session, keyed by file name. Appending
//! records the previous diff kept for the same file (for the scroll
//! resolver to compare against) and evicts the oldest entry once the
//! store would exceed `HISTORY_CAPACITY`. The store also renders the
//! accumulated view: every retained diff in chronological order, a
//! separator header before each entry but the first.

use vstd::prelude::*;

use crate::numfmt::{decimal_string, format_hms, spec_decimal, spec_hms};
use crate::text::{spec_lines, split_lines};
use crate::HISTORY_CAPACITY;

verus! {

/// One recorded fetch: when it happened, for which file, the diff text
/// fetched, and the diff text previously recorded for the same file.
pub struct DiffEntry {
    pub timestamp: u64,
    pub file_name: String,
    pub diff_text: String,
    pub previous_diff: Option<String>,
}

/// The mathematical shadow of a `DiffEntry`.
pub ghost struct DiffEntryView {
    pub timestamp: u64,
    pub file_name: Seq<char>,
    pub diff_text: Seq<char>,
    pub previous_diff: Option<Seq<char>>,
}

impl View for DiffEntry {
    type V = DiffEntryView;

    open spec fn view(&self) -> DiffEntryView {
        DiffEntryView {
            timestamp: self.timestamp,
            file_name: self.file_name@,
            diff_text: self.diff_text@,
            previous_diff: self.previous_diff.deep_view(),
        }
    }
}

impl DeepView for DiffEntry {
    type V = DiffEntryView;

    open spec fn deep_view(&self) -> DiffEntryView {
        self.view()
    }
}

/// The diff text most recently recorded for `name`, if any.
pub open spec fn prev_diff_for(h: Seq<DiffEntryView>, name: Seq<char>) -> Option<Seq<char>>
    decreases h.len(),
{
    if h.len() == 0 {
        None
    } else if h.last().file_name == name {
        Some(h.last().diff_text)
    } else {
        prev_diff_for(h.drop_last(), name)
    }
}

/// What appending does: the new entry carries the previous diff for its
/// file, and the oldest entry leaves once the store is over capacity.
pub open spec fn spec_append(
    h: Seq<DiffEntryView>,
    name: Seq<char>,
    diff: Seq<char>,
    t: u64,
) -> Seq<DiffEntryView> {
    let e = DiffEntryView {
        timestamp: t,
        file_name: name,
        diff_text: diff,
        previous_diff: prev_diff_for(h, name),
    };
    let h2 = h.push(e);
    if h2.len() > HISTORY_CAPACITY {
        h2.skip(1)
    } else {
        h2
    }
}

/// The separator header written before the entry numbered `n` of the
/// accumulated view (entries are numbered from one).
pub open spec fn spec_separator(n: int, e: DiffEntryView) -> Seq<char> {
    "\n\n=== Update "@ + spec_decimal(n) + " at "@ + spec_hms(e.timestamp as int) + " (File: "@
        + e.file_name + ") ===\n"@
}

/// The accumulated view of `h`: every diff in chronological order, a
/// separator header before each entry but the first.
pub open spec fn spec_accumulated(h: Seq<DiffEntryView>) -> Seq<char>
    decreases h.len(),
{
    if h.len() == 0 {
        Seq::empty()
    } else if h.len() == 1 {
        h[0].diff_text
    } else {
        spec_accumulated(h.drop_last()) + spec_separator(h.len() as int, h.last())
            + h.last().diff_text
    }
}

/// Addition on line counts, saturating at the machine's integer range.
pub open spec fn sat_add(a: int, b: int) -> int {
    if a + b > usize::MAX {
        usize::MAX as int
    } else {
        a + b
    }
}

/// Line count contributed to the accumulated view by the first `k`
/// entries of `h`: each diff's lines, plus the separator's fixed three
/// lines for every entry but the first.
pub open spec fn spec_offset_sum(h: Seq<DiffEntryView>, k: int) -> int
    decreases k,
{
    if k <= 0 {
        0
    } else {
        let part = spec_lines(h[k - 1].diff_text).len() + if k - 1 > 0 {
            3int
        } else {
            0int
        };
        sat_add(spec_offset_sum(h, k - 1), part)
    }
}

/// The offset that lands the accumulated view at the start of its
/// newest entry: the lines contributed by all entries before it.
pub open spec fn spec_accumulated_offset(h: Seq<DiffEntryView>) -> int {
    if h.len() <= 1 {
        0
    } else {
        spec_offset_sum(h, h.len() - 1)
    }
}

/// The append-only, size-bounded ledger of fetched diffs.
pub struct DiffHistory {
    entries: Vec<DiffEntry>,
}

impl View for DiffHistory {
    type V = Seq<DiffEntryView>;

    closed spec fn view(&self) -> Seq<DiffEntryView> {
        self.entries.deep_view()
    }
}

impl DiffHistory {
    /// At most `HISTORY_CAPACITY` entries are retained.
    pub open spec fn wf(&self) -> bool {
        self@.len() <= HISTORY_CAPACITY
    }

    /// An empty store.
    pub fn new() -> (r: DiffHistory)
        ensures
            r.wf(),
            r@ == Seq::<DiffEntryView>::empty(),
    {
        let r = DiffHistory { entries: Vec::new() };
        proof {
            assert(r@ =~= Seq::<DiffEntryView>::empty());
        }
        r
    }

    /// How many entries the store holds.
    pub fn len(&self) -> (r: usize)
        ensures
            r == self@.len(),
    {
        self.entries.len()
    }

    /// The entry at position `i`, oldest first.
    pub fn entry(&self, i: usize) -> (r: &DiffEntry)
        requires
            i < self@.len(),
        ensures
            r@ == self@[i as int],
    {
        &self.entries[i]
    }

    /// The diff text most recently recorded for `name`, cloned out.
    pub fn find_previous(&self, name: &String) -> (r: Option<String>)
        ensures
            r.deep_view() == prev_diff_for(self@, name@),
    {
        let ghost dv = self@;
        let n = self.entries.len();
        proof {
            assert(dv.len() == n);
            assert(dv.take(n as int) =~= dv);
        }
        let mut i = n;
        while i > 0
            invariant
                i <= n,
                n == self.entries.len(),
                dv == self@,
                dv.len() == n,
                prev_diff_for(dv, name@) == prev_diff_for(dv.take(i as int), name@),
            decreases i,
        {
            proof {
                assert(dv[i - 1] == self.entries@[i - 1]@);
                assert(dv.take(i as int).last() == dv[i - 1]);
                assert(dv.take(i as int).drop_last() =~= dv.take(i - 1));
            }
            if self.entries[i - 1].file_name == *name {
                return Some(self.entries[i - 1].diff_text.clone());
            }
            i -= 1;
        }
        proof {
            assert(dv.take(0) =~= Seq::<DiffEntryView>::empty());
        }
        None
    }

    /// Records a fetched diff: looks up the previous diff for the same
    /// file, appends the new entry carrying it, and evicts the oldest
    /// entry if the store would exceed its capacity. Returns the
    /// previous diff, for the scroll resolver to compare against.
    pub fn append(&mut self, file_name: String, diff_text: String, timestamp: u64) -> (prev: Option<
        String,
    >)
        requires
            old(self).wf(),
        ensures
            final(self).wf(),
            final(self)@ == spec_append(old(self)@, file_name@, diff_text@, timestamp),
            prev.deep_view() == prev_diff_for(old(self)@, file_name@),
    {
        let prev = self.find_previous(&file_name);
        let stored: Option<String> = match &prev {
            Some(s) => Some(s.clone()),
            None => None,
        };
        let entry = DiffEntry { timestamp, file_name, diff_text, previous_diff: stored };
        let ghost pushed = old(self)@.push(entry@);
        self.entries.push(entry);
        proof {
            assert(self@ =~= pushed);
        }
        if self.entries.len() > HISTORY_CAPACITY {
            self.entries.remove(0);
            proof {
                assert(self@ =~= pushed.skip(1));
            }
        }
        prev
    }

    /// Empties the store.
    pub fn clear(&mut self)
        ensures
            final(self).wf(),
            final(self)@ == Seq::<DiffEntryView>::empty(),
    {
        self.entries.clear();
        proof {
            assert(self@ =~= Seq::<DiffEntryView>::empty());
        }
    }

    /// Renders the accumulated view, per `spec_accumulated`.
    pub fn build_accumulated_view(&self) -> (r: String)
        ensures
            r@ == spec_accumulated(self@),
    {
        let ghost dv = self@;
        let n = self.entries.len();
        proof {
            assert(dv.len() == n);
        }
        let mut out = String::new();
        let mut i: usize = 0;
        while i < n
            invariant
                i <= n,
                n == self.entries.len(),
                dv == self@,
                dv.len() == n,
                out@ == spec_accumulated(dv.take(i as int)),
            decreases n - i,
        {
            proof {
                assert(dv[i as int] == self.entries@[i as int]@);
            }
            if i > 0 {
                out.append("\n\n=== Update ");
                let num = decimal_string((i + 1) as u64);
                out.append(num.as_str());
                out.append(" at ");
                let hms = format_hms(self.entries[i].timestamp);
                out.append(hms.as_str());
                out.append(" (File: ");
                out.append(self.entries[i].file_name.as_str());
                out.append(") ===\n");
            }
            out.append(self.entries[i].diff_text.as_str());
            proof {
                let t = dv.take(i + 1);
                assert(t.last() == dv[i as int]);
                assert(t.drop_last() =~= dv.take(i as int));
                if i == 0 {
                    assert(out@ =~= spec_accumulated(t));
                } else {
                    assert(out@ =~= spec_accumulated(t));
                }
            }
            i += 1;
        }
        proof {
            assert(dv.take(n as int) =~= dv);
        }
        out
    }

    /// The offset landing the accumulated view at its newest entry,
    /// per `spec_accumulated_offset`.
    pub fn accumulated_offset(&self) -> (r: usize)
        ensures
            r == spec_accumulated_offset(self@),
    {
        let ghost dv = self@;
        let n = self.entries.len();
        proof {
            assert(dv.len() == n);
        }
        if n <= 1 {
            return 0;
        }
        let mut acc: usize = 0;
        let mut i: usize = 0;
        while i < n - 1
            invariant
                i <= n - 1,
                1 <= n == self.entries.len(),
                dv == self@,
                dv.len() == n,
                acc == spec_offset_sum(dv, i as int),
            decreases n - i,
        {
            proof {
                assert(dv[i as int] == self.entries@[i as int]@);
            }
            let ls = split_lines(self.entries[i].diff_text.as_str());
            let count = ls.len();
            proof {
                assert(ls.deep_view().len() == count);
            }
            let extra: usize = if i > 0 {
                3
            } else {
                0
            };
            let wide: u128 = acc as u128 + count as u128 + extra as u128;
            if wide > usize::MAX as u128 {
                acc = usize::MAX;
            } else {
                acc = acc + count + extra;
            }
            i += 1;
        }
        acc
    }
}

/// One requested append, for stating laws about runs of appends.
pub ghost struct HistoryAppend {
    pub file_name: Seq<char>,
    pub diff_text: Seq<char>,
    pub timestamp: u64,
}

/// The store contents after performing each requested append in turn.
pub open spec fn spec_append_all(
    h: Seq<DiffEntryView>,
    reqs: Seq<HistoryAppend>,
) -> Seq<DiffEntryView>
    decreases reqs.len(),
{
    if reqs.len() == 0 {
        h
    } else {
        spec_append_all(
            spec_append(h, reqs[0].file_name, reqs[0].diff_text, reqs[0].timestamp),
            reqs.skip(1),
        )
    }
}

/// What an entry records, independent of the previous-diff link that
/// appending computes.
pub open spec fn entry_record(e: DiffEntryView) -> (u64, Seq<char>, Seq<char>) {
    (e.timestamp, e.file_name, e.diff_text)
}

/// What an append request records.
pub open spec fn request_record(r: HistoryAppend) -> (u64, Seq<char>, Seq<char>) {
    (r.timestamp, r.file_name, r.diff_text)
}

pub open spec fn records_of(h: Seq<DiffEntryView>) -> Seq<(u64, Seq<char>, Seq<char>)> {
    h.map_values(|e: DiffEntryView| entry_record(e))
}

pub open spec fn records_of_requests(rs: Seq<HistoryAppend>) -> Seq<(u64, Seq<char>, Seq<char>)> {
    rs.map_values(|r: HistoryAppend| request_record(r))
}

/// Law: a store within capacity, after any run of appends, holds every
/// appended record while they fit and otherwise exactly the
/// `HISTORY_CAPACITY` most recent ones, oldest first.
pub proof fn lemma_history_bound(h: Seq<DiffEntryView>, reqs: Seq<HistoryAppend>)
    requires
        h.len() <= HISTORY_CAPACITY,
    ensures
        ({
            let result = spec_append_all(h, reqs);
            let all = records_of(h) + records_of_requests(reqs);
            &&& result.len() == if h.len() + reqs.len() <= HISTORY_CAPACITY {
                (h.len() + reqs.len()) as int
            } else {
                HISTORY_CAPACITY as int
            }
            &&& records_of(result) == all.skip(all.len() - result.len())
        }),
    decreases reqs.len(),
{
    let result = spec_append_all(h, reqs);
    let all = records_of(h) + records_of_requests(reqs);
    if reqs.len() == 0 {
        assert(all =~= records_of(h));
        assert(records_of(result) =~= all.skip(0));
    } else {
        let r0 = reqs[0];
        let h1 = spec_append(h, r0.file_name, r0.diff_text, r0.timestamp);
        let rest = reqs.skip(1);
        assert(result == spec_append_all(h1, rest));
        lemma_history_bound(h1, rest);
        let all1 = records_of(h1) + records_of_requests(rest);
        assert(records_of_requests(rest) =~= records_of_requests(reqs).skip(1));
        if h.len() + 1 > HISTORY_CAPACITY {
            assert(h1 =~= h.push(
                DiffEntryView {
                    timestamp: r0.timestamp,
                    file_name: r0.file_name,
                    diff_text: r0.diff_text,
                    previous_diff: prev_diff_for(h, r0.file_name),
                },
            ).skip(1));
            assert(records_of(h1) =~= (records_of(h).push(request_record(r0))).skip(1));
            assert(all1 =~= all.skip(1));
            assert(records_of(result) =~= all.skip(all.len() - result.len())) by {
                assert(records_of(result) == all1.skip(all1.len() - result.len()));
                assert(all1.skip(all1.len() - result.len()) =~= all.skip(all.len() - result.len()));
            }
        } else {
            assert(records_of(h1) =~= records_of(h).push(request_record(r0)));
            assert(all1 =~= all);
        }
    }
}

} // verus!
