//! Wording of what the loop reports: status lines, and the failure of a run.

use crate::watch::Notice;
use vstd::prelude::*;
use vstd::string::*;

verus! {

/// `text` without any leading repetitions of `prefix`.
pub open spec fn stripped(text: Seq<char>, prefix: Seq<char>) -> Seq<char>
    decreases text.len(),
{
    if prefix.len() > 0 && prefix.is_prefix_of(text) {
        stripped(text.skip(prefix.len() as int), prefix)
    } else {
        text
    }
}

/// The prefix that an error text may already carry. The line that reports a failure
/// supplies it itself, so it is taken off the text first.
pub open spec fn error_prefix() -> Seq<char> {
    seq!['e', 'r', 'r', 'o', 'r', ':', ' ']
}

/// Whether `prefix` stands in `text` at position `from`.
fn stands_at(text: &str, from: usize, prefix: &str) -> (found: bool)
    requires
        from <= text@.len(),
    ensures
        found == prefix@.is_prefix_of(text@.skip(from as int)),
{
    let text_len = text.unicode_len();
    let prefix_len = prefix.unicode_len();
    if prefix_len > text_len - from {
        return false;
    }
    let mut k: usize = 0;
    while k < prefix_len
        invariant
            k <= prefix_len,
            prefix_len == prefix@.len(),
            text_len == text@.len(),
            from + prefix_len <= text_len,
            forall|i: int| 0 <= i < k ==> text@[from + i] == prefix@[i],
        decreases prefix_len - k,
    {
        if text.get_char(from + k) != prefix.get_char(k) {
            assert(text@.skip(from as int)[k as int] != prefix@[k as int]);
            return false;
        }
        k += 1;
    }
    assert(prefix@ =~= text@.skip(from as int).subrange(0, prefix@.len() as int));
    true
}

/// The text of a failure as the report line shows it: without the `error: ` that
/// it may begin with, however often that is repeated.
pub fn strip_error_prefix(text: &str) -> (rest: String)
    ensures
        rest@ == stripped(text@, error_prefix()),
{
    let prefix = "error: ";
    proof {
        reveal_strlit("error: ");
        assert(prefix@ =~= error_prefix());
    }
    let text_len = text.unicode_len();
    let prefix_len = prefix.unicode_len();
    let mut from: usize = 0;
    assert(text@.skip(0) =~= text@);
    while stands_at(text, from, prefix)
        invariant
            from <= text_len,
            text_len == text@.len(),
            prefix_len == prefix@.len(),
            prefix@ == error_prefix(),
            stripped(text@, error_prefix()) == stripped(text@.skip(from as int), error_prefix()),
        decreases text_len - from,
    {
        assert(text@.skip(from as int).skip(prefix_len as int) =~= text@.skip(
            from + prefix_len,
        ));
        from += prefix_len;
    }
    let rest = text.substring_char(from, text_len);
    assert(rest@ =~= text@.skip(from as int));
    String::from_str(rest)
}

/// How a run ended, as the loop reports it.
#[derive(Debug, PartialEq, Eq)]
pub struct RunReport {
    /// Whether the run succeeded.
    pub success: bool,
    /// What to show after `error: ` if it failed.
    pub error: Option<String>,
}

/// Judges the outcome of a run. A failure, given as the text that describes it, is
/// reported and not passed on: it never ends the loop.
pub fn error_handler(outcome: Result<(), String>) -> (report: RunReport)
    ensures
        report.success == outcome is Ok,
        match outcome {
            Ok(_) => report.error is None,
            Err(text) => report.error is Some && report.error->0@ == stripped(
                text@,
                error_prefix(),
            ),
        },
{
    match outcome {
        Ok(_) => RunReport { success: true, error: None },
        Err(text) => RunReport { success: false, error: Some(strip_error_prefix(text.as_str())) },
    }
}

/// The text of a status line for the job `job_name`, as it follows the watcher's
/// label.
pub open spec fn notice_text(notice: Notice, job_name: Seq<char>) -> Seq<char> {
    match notice {
        Notice::Started => job_name + " started."@,
        Notice::ChangeDetected => "File change detected! Restarting!"@,
        Notice::Finished => job_name + " finished. Restarting on file change..."@,
        Notice::Failed => job_name + " failed. Restarting on file change..."@,
    }
}

/// Words a status line.
pub fn notice_line(notice: Notice, job_name: &str) -> (line: String)
    ensures
        line@ == notice_text(notice, job_name@),
{
    match notice {
        Notice::Started => String::from_str(job_name).concat(" started."),
        Notice::ChangeDetected => String::from_str("File change detected! Restarting!"),
        Notice::Finished => String::from_str(job_name).concat(
            " finished. Restarting on file change...",
        ),
        Notice::Failed => String::from_str(job_name).concat(
            " failed. Restarting on file change...",
        ),
    }
}

/// The escape sequence that clears the screen and puts the cursor at its top left.
pub fn clear_screen_sequence() -> (sequence: &'static str)
    ensures
        sequence@ == "\x1B[2J\x1B[1;1H"@,
{
    "\x1B[2J\x1B[1;1H"
}

} // verus!
