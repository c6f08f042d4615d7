//! The text of the per-job log.
//!
//! The log is a file that only grows. This module says what is written to
//! it: the opening lines at submission, and one stamped entry for every
//! event of the job. Writing the file is left to the caller.

use vstd::prelude::*;
use vstd::string::*;
use crate::job::{is_success, JobEvent};
use crate::models::SyncRequest;
use crate::strings::{i32_to_text, join2, join3, signed_text};

verus! {

/// The pattern of the stamp with the date: year, month, day, hour, minute
/// and second in UTC.
pub open spec fn date_pattern() -> Seq<char> {
    "%Y-%m-%d %H:%M:%S UTC"@
}

/// The pattern of the stamp without the date.
pub open spec fn time_pattern() -> Seq<char> {
    "%H:%M:%S"@
}

/// What `chrono` writes for the time `secs` seconds after the Unix epoch in
/// UTC under `pattern`; `None` where `chrono` has no such time.
pub uninterp spec fn utc_text(secs: i64, pattern: Seq<char>) -> Option<Seq<char>>;

/// Calls `chrono::Utc::now` and `chrono::DateTime::timestamp`: the seconds
/// since the Unix epoch by the clock of the machine. Nothing is claimed of
/// the result.
#[verifier::external_body]
pub(crate) fn unix_now() -> i64 {
    chrono::Utc::now().timestamp()
}

/// Calls `chrono::DateTime::from_timestamp` and `chrono::DateTime::format`
/// with one of the two patterns of this module. The contract gives the
/// outcome a name and claims only that it depends on the seconds and the
/// pattern alone; it is `None` exactly where `from_timestamp` gives `None`.
#[verifier::external_body]
pub(crate) fn format_utc(secs: i64, pattern: &str) -> (r: Option<String>)
    requires
        pattern@ == date_pattern() || pattern@ == time_pattern(),
    ensures
        match r {
            Some(s) => utc_text(secs, pattern@) == Some(s@),
            None => utc_text(secs, pattern@) is None,
        },
{
    chrono::DateTime::from_timestamp(secs, 0).map(|t| t.format(pattern).to_string())
}

/// The stamp that stands for `moment`: its text, or a question mark where
/// there is none.
pub open spec fn stamp_text(moment: Option<Seq<char>>) -> Seq<char> {
    match moment {
        Some(s) => s,
        None => "?"@,
    }
}

/// The stamp of the time `secs` with the date.
pub fn date_stamp(secs: i64) -> (r: String)
    ensures
        r@ == stamp_text(utc_text(secs, date_pattern())),
{
    match format_utc(secs, "%Y-%m-%d %H:%M:%S UTC") {
        Some(s) => s,
        None => String::from_str("?"),
    }
}

/// The stamp of the time `secs` without the date.
pub fn time_stamp(secs: i64) -> (r: String)
    ensures
        r@ == stamp_text(utc_text(secs, time_pattern())),
{
    match format_utc(secs, "%H:%M:%S") {
        Some(s) => s,
        None => String::from_str("?"),
    }
}

/// One line of the log.
pub open spec fn entry_text(stamp: Seq<char>, message: Seq<char>) -> Seq<char> {
    "["@ + stamp + "] "@ + message + "\n"@
}

/// One line of the log.
pub fn entry(stamp: &str, message: &str) -> (r: String)
    ensures
        r@ == entry_text(stamp@, message@),
{
    let mut s = join3("[", stamp, "] ");
    s.append(message);
    s.append("\n");
    s
}

/// The opening lines of the log of a job.
pub open spec fn initial_log_text(
    stamp: Seq<char>,
    job_id: Seq<char>,
    source: Seq<char>,
    remote_name: Seq<char>,
    remote_path: Seq<char>,
) -> Seq<char> {
    entry_text(stamp, "Job "@ + job_id + " started"@) + entry_text(stamp, "Source: "@ + source)
        + entry_text(stamp, "Remote: "@ + remote_name) + entry_text(
        stamp,
        "Target: "@ + remote_name + ":"@ + remote_path,
    ) + entry_text(stamp, "Starting rclone operation..."@) + "\n"@
}

/// The opening lines of the log of the job `job_id`, stamped with `stamp`.
pub fn initial_log(stamp: &str, job_id: &str, request: &SyncRequest) -> (r: String)
    ensures
        r@ == initial_log_text(
            stamp@,
            job_id@,
            request.source_path@,
            request.remote_name@,
            request.remote_path@,
        ),
{
    let started = join3("Job ", job_id, " started");
    let mut text = entry(stamp, started.as_str());
    let source = join2("Source: ", request.source_path.as_str());
    text.append(entry(stamp, source.as_str()).as_str());
    let remote = join2("Remote: ", request.remote_name.as_str());
    text.append(entry(stamp, remote.as_str()).as_str());
    let mut target = join3("Target: ", request.remote_name.as_str(), ":");
    target.append(request.remote_path.as_str());
    text.append(entry(stamp, target.as_str()).as_str());
    text.append(entry(stamp, "Starting rclone operation...").as_str());
    text.append("\n");
    text
}

/// The opening lines of the log of the job `job_id`, submitted at `now`.
pub fn create_initial_log(job_id: &str, request: &SyncRequest, now: i64) -> (r: String)
    ensures
        r@ == initial_log_text(
            stamp_text(utc_text(now, date_pattern())),
            job_id@,
            request.source_path@,
            request.remote_name@,
            request.remote_path@,
        ),
{
    let stamp = date_stamp(now);
    initial_log(stamp.as_str(), job_id, request)
}

/// The texts of `parts`, each after a space.
pub open spec fn spaced(parts: Seq<String>) -> Seq<char>
    decreases parts.len(),
{
    if parts.len() == 0 {
        Seq::empty()
    } else {
        spaced(parts.drop_last()) + " "@ + parts.last()@
    }
}

/// The command that starts the transfer tool with `args`.
pub open spec fn command_text(args: Seq<String>) -> Seq<char> {
    "rclone"@ + spaced(args)
}

/// The command that starts the transfer tool with `args`.
pub fn command_line(args: &Vec<String>) -> (r: String)
    ensures
        r@ == command_text(args@),
{
    let mut text = String::from_str("rclone");
    let mut i: usize = 0;
    assert(spaced(args@.take(0)) =~= Seq::<char>::empty());
    assert("rclone"@ + Seq::<char>::empty() =~= "rclone"@);
    while i < args.len()
        invariant
            i <= args@.len(),
            text@ == "rclone"@ + spaced(args@.take(i as int)),
        decreases args@.len() - i,
    {
        proof {
            let t = args@.take(i + 1);
            assert(t.last() == args@[i as int]);
            assert(t.drop_last() =~= args@.take(i as int));
            assert(("rclone"@ + spaced(args@.take(i as int))) + " "@ + args@[i as int]@ =~= "rclone"@
                + spaced(t));
        }
        text.append(" ");
        text.append(args[i].as_str());
        i = i + 1;
    }
    proof {
        assert(args@.take(i as int) =~= args@);
    }
    text
}

/// How the end of the transfer tool is put into words. The exit code is
/// written as `Some(1)`, and as `None` where the tool ended without one.
pub open spec fn exit_text(code: Option<i32>) -> Seq<char> {
    if is_success(code) {
        "Completed successfully"@
    } else {
        match code {
            Some(c) => "Failed with exit code: Some("@ + signed_text(c as int) + ")"@,
            None => "Failed with exit code: None"@,
        }
    }
}

/// What is written to the log of the job `job_id` for `event`, where `date`
/// and `time` are the stamps of the moment with and without the date.
pub open spec fn event_entry_text(
    job_id: Seq<char>,
    event: JobEvent,
    date: Seq<char>,
    time: Seq<char>,
) -> Seq<char> {
    match event {
        JobEvent::Started(args) => entry_text(date, "Executing command: "@ + command_text(args@))
            + "\n"@,
        JobEvent::SpawnFailed(detail) => entry_text(date, "ERROR: "@ + detail@),
        JobEvent::Output(line) => entry_text(time, line@),
        JobEvent::Exited(code) => "\n"@ + entry_text(
            date,
            "Job "@ + job_id + " finished: "@ + exit_text(code),
        ),
        JobEvent::WaitFailed(detail) => "\n"@ + entry_text(
            date,
            "Job "@ + job_id + " finished: Error: "@ + detail@,
        ),
    }
}

/// How the end of the transfer tool is put into words.
pub fn exit_message(code: Option<i32>) -> (r: String)
    ensures
        r@ == exit_text(code),
{
    match code {
        Some(c) => {
            if c == 0 {
                String::from_str("Completed successfully")
            } else {
                let digits = i32_to_text(c);
                join3("Failed with exit code: Some(", digits.as_str(), ")")
            }
        },
        None => String::from_str("Failed with exit code: None"),
    }
}

/// What is written to the log of the job `job_id` for `event`, with the
/// stamps `date` and `time`.
pub fn event_entry(job_id: &str, event: &JobEvent, date: &str, time: &str) -> (r: String)
    ensures
        r@ == event_entry_text(job_id@, *event, date@, time@),
{
    match event {
        JobEvent::Started(args) => {
            let command = command_line(args);
            let message = join2("Executing command: ", command.as_str());
            let mut text = entry(date, message.as_str());
            text.append("\n");
            text
        },
        JobEvent::SpawnFailed(detail) => {
            let message = join2("ERROR: ", detail.as_str());
            entry(date, message.as_str())
        },
        JobEvent::Output(line) => entry(time, line.as_str()),
        JobEvent::Exited(code) => {
            let outcome = exit_message(*code);
            let mut message = join3("Job ", job_id, " finished: ");
            message.append(outcome.as_str());
            let line = entry(date, message.as_str());
            join2("\n", line.as_str())
        },
        JobEvent::WaitFailed(detail) => {
            let mut message = join3("Job ", job_id, " finished: Error: ");
            message.append(detail.as_str());
            let line = entry(date, message.as_str());
            join2("\n", line.as_str())
        },
    }
}

/// What is written to the log of the job `job_id` for `event` at the time
/// `now`.
pub fn log_entry(job_id: &str, event: &JobEvent, now: i64) -> (r: String)
    ensures
        r@ == event_entry_text(
            job_id@,
            *event,
            stamp_text(utc_text(now, date_pattern())),
            stamp_text(utc_text(now, time_pattern())),
        ),
{
    let date = date_stamp(now);
    let time = time_stamp(now);
    event_entry(job_id, event, date.as_str(), time.as_str())
}

} // verus!
