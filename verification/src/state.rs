//! The shared session state and its transitions: the single record the
//! rendering surface reads and every refresh task and user command
//! writes. Each transition is a total function of the old state and the
//! plain values the surrounding program fetched; failures never blank
//! good data, they only set the error overlay.

use vstd::prelude::*;

use crate::fetch::{spec_status_display, status_display_text};
use crate::numfmt::{decimal_string, spec_decimal};
use crate::history::{
    prev_diff_for, spec_accumulated, spec_accumulated_offset, spec_append, sat_add, DiffEntryView,
    DiffHistory,
};
use crate::path_times::PathTimes;
use crate::scroll::{
    clamp_sub, diff_against_previous, smart_scroll, spec_diff_scroll_text, spec_smart_scroll_text,
};
use crate::text::{file_name_of, spec_file_name};

verus! {

/// How long after its last modification a file counts as recently
/// touched in the summary pane, in seconds.
pub const RECENT_WINDOW_SECONDS: u64 = 60;

/// Lines scrolled by a fine scroll command.
pub const FINE_SCROLL_LINES: usize = 1;

/// Lines scrolled by a coarse scroll command.
pub const COARSE_SCROLL_LINES: usize = 5;

/// What the diff pane shows: the current file's diff alone, or the
/// accumulated history view.
#[derive(Clone, Copy, Debug, PartialEq, Eq, Structural)]
pub enum ViewMode {
    SingleFile,
    AccumulatedHistory,
}

/// The mathematical shadow of a `SessionState`.
pub ghost struct SessionStateView {
    pub status_summary: Seq<char>,
    pub current_diff: Seq<char>,
    pub changed_files: Seq<Seq<char>>,
    pub current_file_index: int,
    pub scroll_offset: int,
    pub last_update: Option<u64>,
    pub error_message: Option<Seq<char>>,
    pub file_times: Map<Seq<char>, u64>,
    pub view_mode: ViewMode,
    pub history: Seq<DiffEntryView>,
}

/// The session record: summary pane text, diff pane text, the changed
/// files with the one currently shown, the scroll offset, bookkeeping
/// for the status line and the error overlay, per-file modification
/// times, the display mode, and the diff history.
pub struct SessionState {
    pub status_summary: String,
    pub current_diff: String,
    pub changed_files: Vec<String>,
    pub current_file_index: usize,
    pub scroll_offset: usize,
    pub last_update: Option<u64>,
    pub error_message: Option<String>,
    pub file_times: PathTimes,
    pub view_mode: ViewMode,
    pub history: DiffHistory,
}

impl View for SessionState {
    type V = SessionStateView;

    open spec fn view(&self) -> SessionStateView {
        SessionStateView {
            status_summary: self.status_summary@,
            current_diff: self.current_diff@,
            changed_files: self.changed_files.deep_view(),
            current_file_index: self.current_file_index as int,
            scroll_offset: self.scroll_offset as int,
            last_update: self.last_update,
            error_message: self.error_message.deep_view(),
            file_times: self.file_times@,
            view_mode: self.view_mode,
            history: self.history@,
        }
    }
}

/// The index invariant: within bounds while files are listed, and zero
/// otherwise.
pub open spec fn index_ok(s: SessionStateView) -> bool {
    if s.changed_files.len() == 0 {
        s.current_file_index == 0
    } else {
        0 <= s.current_file_index < s.changed_files.len()
    }
}

/// A file counts as recently modified within `RECENT_WINDOW_SECONDS`
/// of `now`; a modification instant in the future does not.
pub open spec fn spec_recently_modified(modified: u64, now: u64) -> bool {
    modified <= now && now - modified < RECENT_WINDOW_SECONDS
}

/// Whether a file modified at `modified` counts as recently touched at
/// `now`, per `spec_recently_modified`.
pub fn is_recently_modified(modified: u64, now: u64) -> (r: bool)
    ensures
        r == spec_recently_modified(modified, now),
{
    modified <= now && now - modified < RECENT_WINDOW_SECONDS
}

/// First position `>= i` in `files` equal to `path`, if any.
pub open spec fn first_exact_match_from(files: Seq<Seq<char>>, path: Seq<char>, i: int) -> Option<
    int,
>
    decreases files.len() - i,
{
    if i < 0 || i >= files.len() {
        None
    } else if files[i] == path {
        Some(i)
    } else {
        first_exact_match_from(files, path, i + 1)
    }
}

/// First position `>= i` in `files` whose file-name component is
/// `name`, if any.
pub open spec fn first_name_match_from(files: Seq<Seq<char>>, name: Seq<char>, i: int) -> Option<
    int,
>
    decreases files.len() - i,
{
    if i < 0 || i >= files.len() {
        None
    } else if spec_file_name(files[i]) == name {
        Some(i)
    } else {
        first_name_match_from(files, name, i + 1)
    }
}

/// Where a changed path lands in a freshly fetched file list: its exact
/// match, else the first file sharing its file name (watchers report
/// absolute paths where the listing is relative), else the first file.
pub open spec fn spec_match_index(files: Seq<Seq<char>>, path: Seq<char>) -> int {
    match first_exact_match_from(files, path, 0) {
        Some(i) => i,
        None => match first_name_match_from(files, spec_file_name(path), 0) {
            Some(i) => i,
            None => 0,
        },
    }
}

fn strings_equal(a: &String, b: &String) -> (r: bool)
    ensures
        r == (a@ == b@),
{
    let ar: &String = a;
    let br: &String = b;
    *ar == *br
}

/// `spec_match_index` on a non-empty list, always in bounds.
fn match_index(files: &Vec<String>, path: &str) -> (r: usize)
    requires
        files.deep_view().len() > 0,
    ensures
        r == spec_match_index(files.deep_view(), path@),
        r < files.deep_view().len(),
{
    let ghost dv = files.deep_view();
    let n = files.len();
    proof {
        assert(dv.len() == n);
    }
    let wanted = String::from_str(path);
    let mut i: usize = 0;
    while i < n
        invariant
            i <= n,
            n == files.len(),
            dv == files.deep_view(),
            dv.len() == n,
            wanted@ == path@,
            first_exact_match_from(dv, path@, 0) == first_exact_match_from(dv, path@, i as int),
        decreases n - i,
    {
        proof {
            assert(dv[i as int] == files@[i as int]@);
        }
        if strings_equal(&files[i], &wanted) {
            return i;
        }
        i += 1;
    }
    let name = file_name_of(path);
    let mut j: usize = 0;
    while j < n
        invariant
            j <= n,
            n == files.len(),
            dv == files.deep_view(),
            dv.len() == n,
            name@ == spec_file_name(path@),
            first_exact_match_from(dv, path@, 0) is None,
            first_name_match_from(dv, spec_file_name(path@), 0) == first_name_match_from(
                dv,
                spec_file_name(path@),
                j as int,
            ),
        decreases n - j,
    {
        proof {
            assert(dv[j as int] == files@[j as int]@);
        }
        let candidate = file_name_of(files[j].as_str());
        if strings_equal(&candidate, &name) {
            return j;
        }
        j += 1;
    }
    0
}

pub open spec fn spec_initial_status() -> Seq<char> {
    "WatchHound\n\nStarting up..."@
}

pub open spec fn spec_initial_diff() -> Seq<char> {
    "Welcome to WatchHound.\n\nWatching the repository for uncommitted changes; diffs will appear here as files are edited."@
}

/// The state a session starts in.
pub open spec fn spec_initial_state() -> SessionStateView {
    SessionStateView {
        status_summary: spec_initial_status(),
        current_diff: spec_initial_diff(),
        changed_files: Seq::empty(),
        current_file_index: 0,
        scroll_offset: 0,
        last_update: None,
        error_message: None,
        file_times: Map::empty(),
        view_mode: ViewMode::SingleFile,
        history: Seq::empty(),
    }
}

pub open spec fn spec_loading_status() -> Seq<char> {
    "WatchHound starting up...\nLoading repository status..."@
}

pub open spec fn spec_loading_diff() -> Seq<char> {
    "Scanning the repository...\n\nChecking for changes..."@
}

/// The placeholder texts shown while the initial fetch runs.
pub open spec fn spec_mark_loading(s: SessionStateView) -> SessionStateView {
    SessionStateView { status_summary: spec_loading_status(), current_diff: spec_loading_diff(), ..s }
}

/// Every refresh begins by clearing the error overlay.
pub open spec fn spec_begin_refresh(s: SessionStateView) -> SessionStateView {
    SessionStateView { error_message: None, ..s }
}

/// A successful full refresh (startup and manual refresh): new summary
/// and file list, the first file selected, scroll reset, the update
/// time recorded and the error overlay cleared.
pub open spec fn spec_apply_refresh(
    s: SessionStateView,
    stat_output: Seq<char>,
    files: Seq<Seq<char>>,
    now: u64,
) -> SessionStateView {
    SessionStateView {
        status_summary: spec_status_display(stat_output),
        changed_files: files,
        current_file_index: 0,
        scroll_offset: 0,
        last_update: Some(now),
        error_message: None,
        ..s
    }
}

/// A failed fetch: the message lands in the error overlay and every
/// other field keeps its stale-but-valid value.
pub open spec fn spec_record_failure(s: SessionStateView, message: Seq<char>) -> SessionStateView {
    SessionStateView { error_message: Some(message), ..s }
}

/// A refresh triggered by a filesystem event for `path`: new summary
/// and file list, the current file re-resolved against the new list by
/// `spec_match_index`, and the update time recorded. The scroll offset
/// is left for the follow-up diff fetch to place.
pub open spec fn spec_apply_file_change(
    s: SessionStateView,
    path: Seq<char>,
    stat_output: Seq<char>,
    files: Seq<Seq<char>>,
    now: u64,
) -> SessionStateView {
    SessionStateView {
        status_summary: stat_output,
        changed_files: files,
        current_file_index: if files.len() == 0 {
            0
        } else {
            spec_match_index(files, path)
        },
        last_update: Some(now),
        ..s
    }
}

pub open spec fn spec_show_diff_loading(s: SessionStateView, file: Seq<char>) -> SessionStateView {
    SessionStateView { current_diff: crate::fetch::spec_loading_message(file), ..s }
}

/// Displaying a diff fetched without history recording (navigation):
/// only the diff pane changes.
pub open spec fn spec_show_fetched_diff(s: SessionStateView, diff: Seq<char>) -> SessionStateView {
    SessionStateView { current_diff: diff, ..s }
}

/// Recording a fetched diff into the history and placing the view on
/// it: the history gains the entry (oldest evicted over capacity); in
/// single-file mode the pane shows the diff scrolled to what changed
/// since the previous fetch for the file, and in accumulated mode the
/// pane shows the rebuilt accumulated view scrolled to its newest
/// entry.
pub open spec fn spec_record_fetched_diff(
    s: SessionStateView,
    file: Seq<char>,
    diff: Seq<char>,
    now: u64,
) -> SessionStateView {
    let prev = prev_diff_for(s.history, file);
    let h2 = spec_append(s.history, file, diff, now);
    if s.view_mode == ViewMode::AccumulatedHistory {
        SessionStateView {
            history: h2,
            current_diff: spec_accumulated(h2),
            scroll_offset: spec_accumulated_offset(h2),
            ..s
        }
    } else {
        let position = match prev {
            Some(p) => spec_diff_scroll_text(diff, p),
            None => spec_smart_scroll_text(diff),
        };
        SessionStateView { history: h2, current_diff: diff, scroll_offset: position, ..s }
    }
}

pub open spec fn spec_no_changes_message() -> Seq<char> {
    "No changes to display.\n\nEdit a tracked file and its diff will appear here automatically."@
}

/// A startup that found no changed files: a canned note goes on display
/// and is recorded once in the history under a placeholder name.
pub open spec fn spec_apply_no_changed_files(s: SessionStateView, now: u64) -> SessionStateView {
    SessionStateView {
        history: spec_append(s.history, "Initial State"@, spec_no_changes_message(), now),
        current_diff: spec_no_changes_message(),
        ..s
    }
}

pub open spec fn spec_no_history_message() -> Seq<char> {
    "No diff history available.\n\nEdit files to record diffs here."@
}

/// Rebuilding the diff pane from the stored history (the accumulated
/// side of the toggle command).
pub open spec fn spec_refresh_history_display(s: SessionStateView) -> SessionStateView {
    let acc = spec_accumulated(s.history);
    SessionStateView {
        current_diff: if acc.len() == 0 {
            spec_no_history_message()
        } else {
            acc
        },
        ..s
    }
}

pub open spec fn spec_navigate_previous(s: SessionStateView) -> SessionStateView {
    if s.changed_files.len() > 0 && s.current_file_index > 0 {
        SessionStateView { current_file_index: s.current_file_index - 1, scroll_offset: 0, ..s }
    } else {
        s
    }
}

pub open spec fn spec_navigate_next(s: SessionStateView) -> SessionStateView {
    if s.changed_files.len() > 0 && s.current_file_index < s.changed_files.len() - 1 {
        SessionStateView { current_file_index: s.current_file_index + 1, scroll_offset: 0, ..s }
    } else {
        s
    }
}

pub open spec fn spec_scroll_down_by(s: SessionStateView, amount: int) -> SessionStateView {
    SessionStateView { scroll_offset: sat_add(s.scroll_offset, amount), ..s }
}

pub open spec fn spec_scroll_up_by(s: SessionStateView, amount: int) -> SessionStateView {
    SessionStateView { scroll_offset: clamp_sub(s.scroll_offset, amount), ..s }
}

pub open spec fn spec_history_cleared_message() -> Seq<char> {
    "Diff history cleared.\n\nEdit files to record new diffs here."@
}

/// Clearing the history empties the store, resets the scroll and
/// replaces the diff pane with a canned note.
pub open spec fn spec_clear_history(s: SessionStateView) -> SessionStateView {
    SessionStateView {
        history: Seq::empty(),
        current_diff: spec_history_cleared_message(),
        scroll_offset: 0,
        ..s
    }
}

/// The diff pane's title: the current file with its position in the
/// list, a `[RECENT]` marker when the file was recently touched, and a
/// bare title while no files are listed.
pub open spec fn spec_diff_pane_title(s: SessionStateView, recent: bool) -> Seq<char> {
    if s.changed_files.len() == 0 {
        "Git Diff"@
    } else {
        "Git Diff - "@ + s.changed_files[s.current_file_index] + (if recent {
            " [RECENT]"@
        } else {
            Seq::empty()
        }) + " ("@ + spec_decimal(s.current_file_index + 1) + "/"@ + spec_decimal(
            s.changed_files.len() as int,
        ) + ")"@
    }
}

pub open spec fn spec_toggle_mode(m: ViewMode) -> ViewMode {
    match m {
        ViewMode::SingleFile => ViewMode::AccumulatedHistory,
        ViewMode::AccumulatedHistory => ViewMode::SingleFile,
    }
}

/// Toggling the history view flips the mode and resets the scroll; the
/// pane text is rebuilt by the follow-up display refresh.
pub open spec fn spec_toggle_view(s: SessionStateView) -> SessionStateView {
    SessionStateView { view_mode: spec_toggle_mode(s.view_mode), scroll_offset: 0, ..s }
}

impl SessionState {
    /// The session invariant: the current index stays inside the file
    /// list (zero when the list is empty) and the components are well
    /// formed.
    pub open spec fn wf(&self) -> bool {
        &&& index_ok(self@)
        &&& self.history.wf()
        &&& self.file_times.wf()
    }

    /// The state a session starts in: placeholder texts, nothing
    /// fetched yet.
    pub fn new() -> (r: SessionState)
        ensures
            r.wf(),
            r@ == spec_initial_state(),
    {
        let r = SessionState {
            status_summary: String::from_str("WatchHound\n\nStarting up..."),
            current_diff: String::from_str(
                "Welcome to WatchHound.\n\nWatching the repository for uncommitted changes; diffs will appear here as files are edited.",
            ),
            changed_files: Vec::new(),
            current_file_index: 0,
            scroll_offset: 0,
            last_update: None,
            error_message: None,
            file_times: PathTimes::new(),
            view_mode: ViewMode::SingleFile,
            history: DiffHistory::new(),
        };
        proof {
            assert(r.changed_files.deep_view() =~= Seq::<Seq<char>>::empty());
            assert(r@ == spec_initial_state());
        }
        r
    }

    /// Shows the loading placeholders while the initial fetch runs.
    pub fn mark_loading(&mut self)
        requires
            old(self).wf(),
        ensures
            final(self).wf(),
            final(self)@ == spec_mark_loading(old(self)@),
    {
        self.status_summary = String::from_str(
            "WatchHound starting up...\nLoading repository status...",
        );
        self.current_diff = String::from_str("Scanning the repository...\n\nChecking for changes...");
    }

    /// Clears the error overlay; every refresh starts here.
    pub fn begin_refresh(&mut self)
        requires
            old(self).wf(),
        ensures
            final(self).wf(),
            final(self)@ == spec_begin_refresh(old(self)@),
    {
        self.error_message = None;
    }

    /// Applies a successful full refresh, per `spec_apply_refresh`:
    /// blank status output is replaced by a canned note, the first file
    /// is selected and the scroll is reset.
    pub fn apply_refresh(&mut self, stat_output: String, files: Vec<String>, now: u64)
        requires
            old(self).wf(),
        ensures
            final(self).wf(),
            final(self)@ == spec_apply_refresh(old(self)@, stat_output@, files.deep_view(), now),
    {
        self.status_summary = status_display_text(stat_output);
        self.changed_files = files;
        self.current_file_index = 0;
        self.scroll_offset = 0;
        self.last_update = Some(now);
        self.error_message = None;
    }

    /// Records a failed fetch, per `spec_record_failure`: the message
    /// lands in the error overlay; the file list, the current index,
    /// the diff pane and all other fields keep their previous values.
    pub fn record_failure(&mut self, message: String)
        requires
            old(self).wf(),
        ensures
            final(self).wf(),
            final(self)@ == spec_record_failure(old(self)@, message@),
    {
        self.error_message = Some(message);
    }

    /// Applies the fetched results of a refresh triggered by a
    /// filesystem event, per `spec_apply_file_change`: the triggering
    /// path is re-resolved into the new file list, exactly first, then
    /// by file name, else the first file.
    pub fn apply_file_change(
        &mut self,
        path: &str,
        stat_output: String,
        files: Vec<String>,
        now: u64,
    )
        requires
            old(self).wf(),
        ensures
            final(self).wf(),
            final(self)@ == spec_apply_file_change(
                old(self)@,
                path@,
                stat_output@,
                files.deep_view(),
                now,
            ),
    {
        self.status_summary = stat_output;
        if files.len() == 0 {
            self.current_file_index = 0;
            proof {
                assert(files.deep_view().len() == 0);
            }
        } else {
            proof {
                assert(files.deep_view().len() == files@.len());
            }
            self.current_file_index = match_index(&files, path);
        }
        self.changed_files = files;
        self.last_update = Some(now);
    }

    /// Shows the placeholder for a per-file diff query in flight.
    pub fn show_diff_loading(&mut self, file: &str)
        requires
            old(self).wf(),
        ensures
            final(self).wf(),
            final(self)@ == spec_show_diff_loading(old(self)@, file@),
    {
        self.current_diff = crate::fetch::loading_message(file);
    }

    /// Shows a diff fetched without history recording (navigation),
    /// per `spec_show_fetched_diff`.
    pub fn show_fetched_diff(&mut self, diff_text: String)
        requires
            old(self).wf(),
        ensures
            final(self).wf(),
            final(self)@ == spec_show_fetched_diff(old(self)@, diff_text@),
    {
        self.current_diff = diff_text;
    }

    /// Records a fetched diff into the history and places the view on
    /// it, per `spec_record_fetched_diff`.
    pub fn record_fetched_diff(&mut self, file_name: String, diff_text: String, now: u64)
        requires
            old(self).wf(),
        ensures
            final(self).wf(),
            final(self)@ == spec_record_fetched_diff(old(self)@, file_name@, diff_text@, now),
    {
        let stored = diff_text.clone();
        let prev = self.history.append(file_name, stored, now);
        match self.view_mode {
            ViewMode::AccumulatedHistory => {
                self.current_diff = self.history.build_accumulated_view();
                self.scroll_offset = self.history.accumulated_offset();
            },
            ViewMode::SingleFile => {
                let position = match &prev {
                    Some(p) => diff_against_previous(diff_text.as_str(), p.as_str()),
                    None => smart_scroll(diff_text.as_str()),
                };
                self.current_diff = diff_text;
                self.scroll_offset = position;
            },
        }
    }

    /// Applies a startup or manual refresh that found no changed
    /// files, per `spec_apply_no_changed_files`: the canned note goes
    /// on display and is recorded once in the history.
    pub fn apply_no_changed_files(&mut self, now: u64)
        requires
            old(self).wf(),
        ensures
            final(self).wf(),
            final(self)@ == spec_apply_no_changed_files(old(self)@, now),
    {
        let message = String::from_str(
            "No changes to display.\n\nEdit a tracked file and its diff will appear here automatically.",
        );
        let _ = self.history.append(
            String::from_str("Initial State"),
            message.clone(),
            now,
        );
        self.current_diff = message;
    }

    /// Rebuilds the diff pane from the stored history, per
    /// `spec_refresh_history_display`.
    pub fn refresh_history_display(&mut self)
        requires
            old(self).wf(),
        ensures
            final(self).wf(),
            final(self)@ == spec_refresh_history_display(old(self)@),
    {
        let acc = self.history.build_accumulated_view();
        if acc.as_str().is_empty() {
            self.current_diff = String::from_str(
                "No diff history available.\n\nEdit files to record diffs here.",
            );
        } else {
            self.current_diff = acc;
        }
    }

    /// Selects the previous file, staying at the first one; the scroll
    /// resets when the selection moves. The index never leaves the
    /// bounds of the file list.
    pub fn navigate_to_previous_file(&mut self)
        requires
            old(self).wf(),
        ensures
            final(self).wf(),
            final(self)@ == spec_navigate_previous(old(self)@),
            index_ok(final(self)@),
    {
        if self.changed_files.len() > 0 && self.current_file_index > 0 {
            self.current_file_index = self.current_file_index - 1;
            self.scroll_offset = 0;
        }
    }

    /// Selects the next file, staying at the last one; the scroll
    /// resets when the selection moves. The index never leaves the
    /// bounds of the file list.
    pub fn navigate_to_next_file(&mut self)
        requires
            old(self).wf(),
        ensures
            final(self).wf(),
            final(self)@ == spec_navigate_next(old(self)@),
            index_ok(final(self)@),
    {
        if self.changed_files.len() > 0 && self.current_file_index < self.changed_files.len() - 1 {
            self.current_file_index = self.current_file_index + 1;
            self.scroll_offset = 0;
        }
    }

    /// Scrolls down one line (saturating at the integer's range; the
    /// rendering surface clips past the end of the text).
    pub fn scroll_down(&mut self)
        requires
            old(self).wf(),
        ensures
            final(self).wf(),
            final(self)@ == spec_scroll_down_by(old(self)@, FINE_SCROLL_LINES as int),
    {
        self.scroll_offset = saturating_add_usize(self.scroll_offset, FINE_SCROLL_LINES);
    }

    /// Scrolls up one line, saturating at the top.
    pub fn scroll_up(&mut self)
        requires
            old(self).wf(),
        ensures
            final(self).wf(),
            final(self)@ == spec_scroll_up_by(old(self)@, FINE_SCROLL_LINES as int),
    {
        if self.scroll_offset >= FINE_SCROLL_LINES {
            self.scroll_offset = self.scroll_offset - FINE_SCROLL_LINES;
        } else {
            self.scroll_offset = 0;
        }
    }

    /// Scrolls down five lines at once.
    pub fn scroll_down_fast(&mut self)
        requires
            old(self).wf(),
        ensures
            final(self).wf(),
            final(self)@ == spec_scroll_down_by(old(self)@, COARSE_SCROLL_LINES as int),
    {
        self.scroll_offset = saturating_add_usize(self.scroll_offset, COARSE_SCROLL_LINES);
    }

    /// Scrolls up five lines at once, saturating at the top.
    pub fn scroll_up_fast(&mut self)
        requires
            old(self).wf(),
        ensures
            final(self).wf(),
            final(self)@ == spec_scroll_up_by(old(self)@, COARSE_SCROLL_LINES as int),
    {
        if self.scroll_offset >= COARSE_SCROLL_LINES {
            self.scroll_offset = self.scroll_offset - COARSE_SCROLL_LINES;
        } else {
            self.scroll_offset = 0;
        }
    }

    /// Empties the history, per `spec_clear_history`.
    pub fn clear_diff_history(&mut self)
        requires
            old(self).wf(),
        ensures
            final(self).wf(),
            final(self)@ == spec_clear_history(old(self)@),
    {
        self.history.clear();
        self.current_diff = String::from_str(
            "Diff history cleared.\n\nEdit files to record new diffs here.",
        );
        self.scroll_offset = 0;
    }

    /// Flips the display mode and resets the scroll, per
    /// `spec_toggle_view`.
    pub fn toggle_history_view(&mut self)
        requires
            old(self).wf(),
        ensures
            final(self).wf(),
            final(self)@ == spec_toggle_view(old(self)@),
    {
        self.view_mode = match self.view_mode {
            ViewMode::SingleFile => ViewMode::AccumulatedHistory,
            ViewMode::AccumulatedHistory => ViewMode::SingleFile,
        };
        self.scroll_offset = 0;
    }

    /// The file the diff pane follows, cloned out; none while the file
    /// list is empty.
    pub fn current_file(&self) -> (r: Option<String>)
        requires
            self.wf(),
        ensures
            r.deep_view() == if self@.changed_files.len() > 0 {
                Some(self@.changed_files[self@.current_file_index])
            } else {
                None::<Seq<char>>
            },
    {
        if self.changed_files.len() == 0 {
            proof {
                assert(self@.changed_files.len() == 0);
            }
            None
        } else {
            proof {
                assert(self@.changed_files[self@.current_file_index] == self.changed_files@[
                    self.current_file_index as int
                ]@);
            }
            Some(self.changed_files[self.current_file_index].clone())
        }
    }

    /// The diff pane's title, per `spec_diff_pane_title`: the current
    /// file, a marker when it was recently touched, and its position in
    /// the file list.
    pub fn diff_pane_title(&self, recent: bool) -> (r: String)
        requires
            self.wf(),
        ensures
            r@ == spec_diff_pane_title(self@, recent),
    {
        if self.changed_files.len() == 0 {
            proof {
                assert(self@.changed_files.len() == 0);
            }
            return String::from_str("Git Diff");
        }
        proof {
            assert(self@.changed_files[self@.current_file_index] == self.changed_files@[
                self.current_file_index as int
            ]@);
        }
        let mut out = String::from_str("Git Diff - ");
        out.append(self.changed_files[self.current_file_index].as_str());
        if recent {
            out.append(" [RECENT]");
        }
        out.append(" (");
        let position = decimal_string((self.current_file_index + 1) as u64);
        out.append(position.as_str());
        out.append("/");
        let total = decimal_string(self.changed_files.len() as u64);
        out.append(total.as_str());
        out.append(")");
        proof {
            assert(out@ =~= spec_diff_pane_title(self@, recent));
        }
        out
    }

    /// Records the last-modified instant fetched for `path`; entries
    /// for other paths are left as they are.
    pub fn record_file_time(&mut self, path: String, modified: u64)
        requires
            old(self).wf(),
        ensures
            final(self).wf(),
            final(self)@ == (SessionStateView {
                file_times: old(self)@.file_times.insert(path@, modified),
                ..old(self)@
            }),
    {
        self.file_times.record(path, modified);
    }
}

fn saturating_add_usize(a: usize, b: usize) -> (r: usize)
    ensures
        r == sat_add(a as int, b as int),
{
    if a <= usize::MAX - b {
        a + b
    } else {
        usize::MAX
    }
}

/// Law: toggling to the history view, clearing the history, toggling
/// back and then showing a freshly fetched diff leaves exactly that
/// diff on display, in single-file mode, with no stale accumulated
/// text.
pub proof fn lemma_toggle_clear_toggle_shows_fresh_diff(s: SessionStateView, d: Seq<char>)
    requires
        s.view_mode == ViewMode::SingleFile,
    ensures
        ({
            let s1 = spec_refresh_history_display(spec_toggle_view(s));
            let s2 = spec_clear_history(s1);
            let s3 = spec_toggle_view(s2);
            let s4 = spec_show_fetched_diff(s3, d);
            &&& s4.view_mode == ViewMode::SingleFile
            &&& s4.current_diff == d
        }),
{
}

} // verus!
