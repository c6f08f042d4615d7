//! One job and its life.
//!
//! A job is pending from its submission, runs while the transfer tool runs,
//! and ends completed, failed or in error. What has ended stays as it is.

use vstd::prelude::*;
use vstd::string::*;
use crate::extractor::{line_progress, parse_rclone_progress};
use crate::json::json_text_value;
use crate::models::SyncRequest;
use crate::progress::{Percent, ProgressInfo, FULL};
use crate::strings::{chars_of, join2, join3, str_eq};

verus! {

/// Where a job stands.
#[derive(Debug)]
pub enum JobStatus {
    /// Registered; the transfer tool has not been started.
    Pending,
    /// The transfer tool is being started or runs.
    Running,
    /// The transfer tool ended with success.
    Completed,
    /// The transfer tool ended without success.
    Failed,
    /// The transfer tool could not be started or waited for.
    Error(String),
}

/// What the supervisor of a job has seen.
#[derive(Debug)]
pub enum JobEvent {
    /// The transfer tool is about to be started with these arguments.
    Started(Vec<String>),
    /// The transfer tool could not be started; the text says why.
    SpawnFailed(String),
    /// The transfer tool has written one unit of output.
    Output(String),
    /// The transfer tool has ended, with this exit code if it has one.
    Exited(Option<i32>),
    /// Waiting for the transfer tool failed; the text says why.
    WaitFailed(String),
}

/// The state of one job.
#[derive(Debug)]
pub struct SyncProgress {
    pub id: String,
    pub progress: Percent,
    pub status: JobStatus,
    pub transferred: u64,
    pub total: u64,
    /// The last component of the source path.
    pub source_name: String,
    /// Seconds since the Unix epoch at submission.
    pub start_time: i64,
    /// Seconds since the Unix epoch at the end; unset while the job has not
    /// ended.
    pub end_time: Option<i64>,
    /// Where the log of the job is kept.
    pub log_path: String,
}

/// The path of the log of the job `id`.
pub open spec fn log_path_text(id: Seq<char>) -> Seq<char> {
    "data/log/"@ + id + ".log"@
}

/// The number of slashes at the end of `path`.
pub open spec fn trailing_slashes(path: Seq<char>) -> nat
    decreases path.len(),
{
    if path.len() > 0 && path.last() == '/' {
        1 + trailing_slashes(path.drop_last())
    } else {
        0
    }
}

/// `path` without the slashes at its end.
pub open spec fn without_trailing_slashes(path: Seq<char>) -> Seq<char> {
    path.take(path.len() - trailing_slashes(path))
}

/// The length of what follows the last slash of `path`; the length of
/// `path` where it holds no slash.
pub open spec fn tail_len(path: Seq<char>) -> nat
    decreases path.len(),
{
    if path.len() > 0 && path.last() != '/' {
        1 + tail_len(path.drop_last())
    } else {
        0
    }
}

/// The last component of `path`: what follows its last slash, after the
/// slashes at its end have been taken off.
pub open spec fn last_component(path: Seq<char>) -> Seq<char> {
    let stem = without_trailing_slashes(path);
    stem.skip(stem.len() - tail_len(stem))
}

/// The exit code of success.
pub open spec fn is_success(code: Option<i32>) -> bool {
    code == Some(0i32)
}

impl JobStatus {
    /// The job has ended.
    pub open spec fn is_terminal(self) -> bool {
        self is Completed || self is Failed || self is Error
    }

    /// How far the job has come: 0 pending, 1 running, 2 ended.
    pub open spec fn rank(self) -> nat {
        match self {
            JobStatus::Pending => 0,
            JobStatus::Running => 1,
            _ => 2,
        }
    }

    /// The name of the status, with the detail of an error.
    pub open spec fn label_text(self) -> Seq<char> {
        match self {
            JobStatus::Pending => "Pending"@,
            JobStatus::Running => "Running"@,
            JobStatus::Completed => "Completed"@,
            JobStatus::Failed => "Failed"@,
            JobStatus::Error(detail) => "Error: "@ + detail@,
        }
    }

    /// Whether the job has ended.
    pub fn terminal(&self) -> (r: bool)
        ensures
            r == self.is_terminal(),
    {
        match self {
            JobStatus::Pending => false,
            JobStatus::Running => false,
            _ => true,
        }
    }

    /// A copy of the status.
    pub fn snapshot(&self) -> (r: JobStatus)
        ensures
            r == *self,
    {
        match self {
            JobStatus::Pending => JobStatus::Pending,
            JobStatus::Running => JobStatus::Running,
            JobStatus::Completed => JobStatus::Completed,
            JobStatus::Failed => JobStatus::Failed,
            JobStatus::Error(detail) => JobStatus::Error(detail.clone()),
        }
    }

    /// The name of the status, with the detail of an error.
    pub fn label(&self) -> (r: String)
        ensures
            r@ == self.label_text(),
    {
        match self {
            JobStatus::Pending => String::from_str("Pending"),
            JobStatus::Running => String::from_str("Running"),
            JobStatus::Completed => String::from_str("Completed"),
            JobStatus::Failed => String::from_str("Failed"),
            JobStatus::Error(detail) => join2("Error: ", detail.as_str()),
        }
    }
}

/// What the unit of output of an event says; nothing for the other events.
pub open spec fn event_info(event: JobEvent) -> Option<ProgressInfo> {
    match event {
        JobEvent::Output(line) => line_progress(json_text_value(line@), line@),
        _ => None,
    }
}

/// The job after an event, where `info` is what the event's output says and
/// `now` the time of the event. A job that has ended stays as it is. A job
/// that ends gets its end time; one that ends with success is complete.
/// Output that says something makes the job run and sets its counters, the
/// percentage cut down to a hundred.
pub open spec fn advanced(job: SyncProgress, event: JobEvent, info: Option<ProgressInfo>, now: i64)
    -> SyncProgress {
    if job.status.is_terminal() {
        job
    } else {
        match event {
            JobEvent::Started(_) => SyncProgress { status: JobStatus::Running, ..job },
            JobEvent::SpawnFailed(detail) => SyncProgress {
                status: JobStatus::Error(detail),
                end_time: Some(now),
                ..job
            },
            JobEvent::Output(_) => match info {
                Some(i) => SyncProgress {
                    status: JobStatus::Running,
                    progress: Percent {
                        thousandths: if i.percent.thousandths > FULL {
                            FULL
                        } else {
                            i.percent.thousandths
                        },
                    },
                    transferred: i.transferred,
                    total: i.total,
                    ..job
                },
                None => job,
            },
            JobEvent::Exited(code) => if is_success(code) {
                SyncProgress {
                    status: JobStatus::Completed,
                    progress: Percent { thousandths: FULL },
                    end_time: Some(now),
                    ..job
                }
            } else {
                SyncProgress { status: JobStatus::Failed, end_time: Some(now), ..job }
            },
            JobEvent::WaitFailed(detail) => SyncProgress {
                status: JobStatus::Error(detail),
                end_time: Some(now),
                ..job
            },
        }
    }
}

/// The path of the log of the job `id`.
pub fn log_path(id: &str) -> (r: String)
    ensures
        r@ == log_path_text(id@),
{
    join3("data/log/", id, ".log")
}

/// `path` without the slashes at its end.
pub fn strip_trailing_slashes(path: &str) -> (r: &str)
    ensures
        r@ == without_trailing_slashes(path@),
{
    let chars = chars_of(path);
    let mut end: usize = chars.len();
    assert(chars@.take(end as int) =~= chars@);
    while end > 0 && chars[end - 1] == '/'
        invariant
            end <= chars@.len(),
            trailing_slashes(chars@) == (chars@.len() - end) + trailing_slashes(
                chars@.take(end as int),
            ),
        decreases end,
    {
        proof {
            let t = chars@.take(end as int);
            assert(t.last() == chars@[end - 1]);
            assert(t.drop_last() =~= chars@.take(end - 1));
        }
        end = end - 1;
    }
    proof {
        let t = chars@.take(end as int);
        if end > 0 {
            assert(t.last() == chars@[end - 1]);
        }
        assert(path@.subrange(0, end as int) =~= path@.take(end as int));
    }
    path.substring_char(0, end)
}

/// The last component of `path`.
pub fn source_label(path: &str) -> (r: String)
    ensures
        r@ == last_component(path@),
{
    let stem = strip_trailing_slashes(path);
    let chars = chars_of(stem);
    let end: usize = chars.len();
    let mut start: usize = end;
    assert(chars@.take(start as int) =~= chars@);
    while start > 0 && chars[start - 1] != '/'
        invariant
            start <= end,
            end == chars@.len(),
            tail_len(chars@) == (end - start) + tail_len(chars@.take(start as int)),
        decreases start,
    {
        proof {
            let t = chars@.take(start as int);
            assert(t.last() == chars@[start - 1]);
            assert(t.drop_last() =~= chars@.take(start - 1));
        }
        start = start - 1;
    }
    proof {
        let t = chars@.take(start as int);
        if start > 0 {
            assert(t.last() == chars@[start - 1]);
        }
        assert(stem@.subrange(start as int, end as int) =~= stem@.skip(
            stem@.len() - tail_len(stem@),
        ));
    }
    String::from_str(stem.substring_char(start, end))
}

impl SyncProgress {
    /// What holds of every job: the percentage is at most a hundred, the end
    /// time is set exactly where the job has ended, a completed job stands at
    /// a hundred percent, and the log is where the identifier says.
    pub open spec fn wf(self) -> bool {
        &&& self.progress.thousandths <= FULL
        &&& self.end_time is Some <==> self.status.is_terminal()
        &&& self.status is Completed ==> self.progress.thousandths == FULL
        &&& self.log_path@ == log_path_text(self.id@)
    }

    /// The job as it is registered: pending, with nothing transferred.
    pub open spec fn submitted(id: String, source_path: Seq<char>, now: i64, job: SyncProgress)
        -> bool {
        &&& job.id == id
        &&& job.status is Pending
        &&& job.progress.thousandths == 0
        &&& job.transferred == 0
        &&& job.total == 0
        &&& job.source_name@ == last_component(source_path)
        &&& job.start_time == now
        &&& job.end_time is None
        &&& job.log_path@ == log_path_text(id@)
    }

    /// The job `id` for `request`, submitted at `now`.
    pub fn new(id: String, request: &SyncRequest, now: i64) -> (job: SyncProgress)
        ensures
            SyncProgress::submitted(id, request.source_path@, now, job),
            job.wf(),
    {
        let source_name = source_label(request.source_path.as_str());
        let path = log_path(id.as_str());
        SyncProgress {
            id,
            progress: Percent { thousandths: 0 },
            status: JobStatus::Pending,
            transferred: 0,
            total: 0,
            source_name,
            start_time: now,
            end_time: None,
            log_path: path,
        }
    }

    /// Whether the job is well formed.
    pub fn is_well_formed(&self) -> (r: bool)
        ensures
            r == self.wf(),
    {
        let ended = self.status.terminal();
        let complete: bool = match &self.status {
            JobStatus::Completed => self.progress.thousandths == FULL,
            _ => true,
        };
        let expected = log_path(self.id.as_str());
        self.progress.thousandths <= FULL && self.end_time.is_some() == ended && complete
            && str_eq(self.log_path.as_str(), expected.as_str())
    }

    /// A copy of the job.
    pub fn snapshot(&self) -> (r: SyncProgress)
        ensures
            r == *self,
    {
        SyncProgress {
            id: self.id.clone(),
            progress: self.progress,
            status: self.status.snapshot(),
            transferred: self.transferred,
            total: self.total,
            source_name: self.source_name.clone(),
            start_time: self.start_time,
            end_time: self.end_time,
            log_path: self.log_path.clone(),
        }
    }

    /// Applies an event of which `info` is what its output says.
    pub fn advance_with(&mut self, event: &JobEvent, info: Option<ProgressInfo>, now: i64)
        ensures
            *final(self) == advanced(*old(self), *event, info, now),
    {
        if self.status.terminal() {
            return ;
        }
        match event {
            JobEvent::Started(_) => {
                self.status = JobStatus::Running;
            },
            JobEvent::SpawnFailed(detail) => {
                self.status = JobStatus::Error(detail.clone());
                self.end_time = Some(now);
            },
            JobEvent::Output(_) => match info {
                Some(i) => {
                    self.status = JobStatus::Running;
                    self.progress = i.percent.capped();
                    self.transferred = i.transferred;
                    self.total = i.total;
                },
                None => {},
            },
            JobEvent::Exited(code) => {
                let success: bool = match code {
                    Some(c) => *c == 0,
                    None => false,
                };
                if success {
                    self.status = JobStatus::Completed;
                    self.progress = Percent { thousandths: FULL };
                } else {
                    self.status = JobStatus::Failed;
                }
                self.end_time = Some(now);
            },
            JobEvent::WaitFailed(detail) => {
                self.status = JobStatus::Error(detail.clone());
                self.end_time = Some(now);
            },
        }
    }

    /// Applies an event at the time `now`. The output of an `Output` event is
    /// handed to the progress extractor.
    pub fn advance(&mut self, event: &JobEvent, now: i64)
        ensures
            *final(self) == advanced(*old(self), *event, event_info(*event), now),
    {
        let info = match event {
            JobEvent::Output(line) => parse_rclone_progress(line.as_str()),
            _ => None,
        };
        self.advance_with(event, info, now);
    }
}

/// An event never takes a job back: its rank does not fall, and a job that
/// has ended is not changed at all.
pub proof fn lemma_advance_monotonic(
    job: SyncProgress,
    event: JobEvent,
    info: Option<ProgressInfo>,
    now: i64,
)
    ensures
        job.status.rank() <= advanced(job, event, info, now).status.rank(),
        job.status.is_terminal() ==> advanced(job, event, info, now) == job,
{
}

/// An event keeps a job well formed, and leaves its identity, its source, its
/// start time and the place of its log alone.
pub proof fn lemma_advance_keeps(
    job: SyncProgress,
    event: JobEvent,
    info: Option<ProgressInfo>,
    now: i64,
)
    requires
        job.wf(),
    ensures
        advanced(job, event, info, now).wf(),
        advanced(job, event, info, now).id == job.id,
        advanced(job, event, info, now).source_name == job.source_name,
        advanced(job, event, info, now).start_time == job.start_time,
        advanced(job, event, info, now).log_path == job.log_path,
{
}

} // verus!
