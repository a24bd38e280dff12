//! The computing half of the change fetcher. The version-control
//! queries themselves run outside this crate and hand their text (or
//! their failure) in as plain values; here that output is parsed into
//! a file list and turned into the texts the session displays.

use vstd::prelude::*;

use crate::text::{is_blank, spec_is_blank, spec_lines, spec_trim, split_lines, trim_whitespace};

verus! {

/// The changed-file list denoted by a name-only listing: its lines,
/// once surrounding whitespace (trailing newlines included) is gone.
pub open spec fn spec_changed_files(s: Seq<char>) -> Seq<Seq<char>> {
    spec_lines(spec_trim(s))
}

/// Splits a name-only listing into the changed files it names, per
/// `spec_changed_files`. Empty output yields an empty list.
pub fn parse_changed_files(output: &str) -> (r: Vec<String>)
    ensures
        r.deep_view() == spec_changed_files(output@),
{
    let trimmed = trim_whitespace(output);
    split_lines(trimmed.as_str())
}

pub open spec fn spec_no_repo_changes_message() -> Seq<char> {
    "No changes detected in the repository.\n\nEdit a tracked file and its diff will appear here."@
}

/// The status-summary text to display: the fetched output, or a canned
/// note when that output is blank.
pub open spec fn spec_status_display(s: Seq<char>) -> Seq<char> {
    if spec_is_blank(s) {
        spec_no_repo_changes_message()
    } else {
        s
    }
}

/// Chooses the status-summary text to display, per `spec_status_display`.
pub fn status_display_text(output: String) -> (r: String)
    ensures
        r@ == spec_status_display(output@),
{
    if is_blank(output.as_str()) {
        String::from_str("No changes detected in the repository.\n\nEdit a tracked file and its diff will appear here.")
    } else {
        output
    }
}

pub open spec fn spec_no_file_changes_message(file: Seq<char>) -> Seq<char> {
    "No changes in "@ + file + "\n\nThe file may have been staged, or its changes may be minimal."@
}

/// The diff text to display for a successfully fetched diff: the diff
/// itself, or a canned note when it is blank. A failed diff query never
/// reaches the pane; it goes to the error overlay (`spec_diff_error_message`).
pub open spec fn spec_diff_display(file: Seq<char>, diff: Seq<char>) -> Seq<char> {
    if spec_is_blank(diff) {
        spec_no_file_changes_message(file)
    } else {
        diff
    }
}

/// Chooses the diff text to display for a successful per-file diff
/// query, per `spec_diff_display`. An empty (blank) diff is a valid
/// outcome, shown as a canned note rather than treated as an error.
pub fn diff_display_text(file: &str, diff: String) -> (r: String)
    ensures
        r@ == spec_diff_display(file@, diff@),
{
    if is_blank(diff.as_str()) {
        let mut out = String::from_str("No changes in ");
        out.append(file);
        out.append("\n\nThe file may have been staged, or its changes may be minimal.");
        proof {
            assert(out@ =~= spec_no_file_changes_message(file@));
        }
        out
    } else {
        diff
    }
}

pub open spec fn spec_diff_error_message(file: Seq<char>, error: Seq<char>) -> Seq<char> {
    "Error getting diff for "@ + file + ": "@ + error
        + "\n\nTry refreshing, or check whether the file still exists."@
}

/// Renders a failed per-file diff query for the error overlay. The
/// session keeps its diff pane, history and scroll as they were; only
/// the error overlay takes this text (`SessionState::record_failure`).
pub fn diff_error_message(file: &str, error: &str) -> (r: String)
    ensures
        r@ == spec_diff_error_message(file@, error@),
{
    let mut out = String::from_str("Error getting diff for ");
    out.append(file);
    out.append(": ");
    out.append(error);
    out.append("\n\nTry refreshing, or check whether the file still exists.");
    proof {
        assert(out@ =~= spec_diff_error_message(file@, error@));
    }
    out
}

pub open spec fn spec_loading_message(file: Seq<char>) -> Seq<char> {
    "Loading diff for "@ + file + "..."@
}

/// The placeholder shown while a per-file diff query is in flight.
pub fn loading_message(file: &str) -> (r: String)
    ensures
        r@ == spec_loading_message(file@),
{
    let mut out = String::from_str("Loading diff for ");
    out.append(file);
    out.append("...");
    proof {
        assert(out@ =~= spec_loading_message(file@));
    }
    out
}

pub open spec fn spec_status_error_message(error: Seq<char>) -> Seq<char> {
    "Status query failed: "@ + error
}

/// Renders a failed status-summary query for the error overlay.
pub fn status_error_message(error: &str) -> (r: String)
    ensures
        r@ == spec_status_error_message(error@),
{
    let mut out = String::from_str("Status query failed: ");
    out.append(error);
    out
}

pub open spec fn spec_file_list_error_message(error: Seq<char>) -> Seq<char> {
    "Could not list changed files: "@ + error
}

/// Renders a failed changed-file listing for the error overlay.
pub fn file_list_error_message(error: &str) -> (r: String)
    ensures
        r@ == spec_file_list_error_message(error@),
{
    let mut out = String::from_str("Could not list changed files: ");
    out.append(error);
    out
}

} // verus!
