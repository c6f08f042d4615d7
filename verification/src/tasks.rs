//! Stored tasks: the rules for their names, and what is made of a request.

use vstd::prelude::*;
use vstd::string::*;
use vstd::utf8::*;
use crate::joblog::unix_now;
use crate::models::{ApiResponse, SyncRequest, Task, TaskRequest};
use crate::job::SyncProgress;
use crate::registry::{is_issued_id, is_job_id, lookup, new_job_id, SyncJobs};
use crate::strings::chars_of;

verus! {

/// The greatest length of a task name, in bytes.
pub const MAX_TASK_NAME_LEN: usize = 50;

/// Whether `c` is a letter or a digit, as `char::is_alphanumeric` says.
pub uninterp spec fn is_alphanumeric_char(c: char) -> bool;

/// `char::is_alphanumeric` of std: the contract gives its answer a name and
/// claims only that it depends on the character alone.
pub assume_specification[ char::is_alphanumeric ](c: char) -> (r: bool)
    ensures
        r == is_alphanumeric_char(c),
;

/// `c` may stand in a task name: a letter, a digit, an underscore or a
/// hyphen.
pub open spec fn name_char_ok(c: char) -> bool {
    is_alphanumeric_char(c) || c == '_' || c == '-'
}

/// Every character of `name` may stand in a task name.
pub open spec fn name_chars_ok(name: Seq<char>) -> bool {
    forall|i: int| 0 <= i < name.len() ==> name_char_ok(#[trigger] name[i])
}

/// What is wrong with `name` as the name of a task, if anything: the first
/// of its faults, in the order empty, too long, bad character. The length is
/// that of the name in UTF-8, in bytes.
pub open spec fn name_fault(name: Seq<char>) -> Option<Seq<char>> {
    if name.len() == 0 {
        Some("Task name cannot be empty"@)
    } else if encode_utf8(name).len() > MAX_TASK_NAME_LEN {
        Some("Task name cannot be longer than 50 characters"@)
    } else if !name_chars_ok(name) {
        Some("Task name can only contain alphanumeric characters, underscores, and hyphens"@)
    } else {
        None
    }
}

/// The text of an error, where there is one.
pub open spec fn error_text(r: Result<(), String>) -> Option<Seq<char>> {
    match r {
        Ok(_) => None,
        Err(e) => Some(e@),
    }
}

/// Whether every character of `name` may stand in a task name.
pub fn chars_allowed(name: &str) -> (r: bool)
    ensures
        r == name_chars_ok(name@),
{
    let chars = chars_of(name);
    let mut i: usize = 0;
    while i < chars.len()
        invariant
            i <= chars@.len(),
            chars@ == name@,
            forall|k: int| 0 <= k < i ==> name_char_ok(#[trigger] name@[k]),
        decreases chars@.len() - i,
    {
        let c: char = chars[i];
        if !(c.is_alphanumeric() || c == '_' || c == '-') {
            return false;
        }
        i = i + 1;
    }
    true
}

/// Checks the name of a task: it is not empty, at most fifty bytes long, and
/// made of letters, digits, underscores and hyphens.
pub fn validate_task_name(name: &str) -> (r: Result<(), String>)
    ensures
        error_text(r) == name_fault(name@),
{
    if name.is_empty() {
        return Err(String::from_str("Task name cannot be empty"));
    }
    if name.as_bytes().len() > MAX_TASK_NAME_LEN {
        return Err(String::from_str("Task name cannot be longer than 50 characters"));
    }
    if !chars_allowed(name) {
        return Err(
            String::from_str(
                "Task name can only contain alphanumeric characters, underscores, and hyphens",
            ),
        );
    }
    Ok(())
}

impl Task {
    /// The task `id` that `request` asks for, created at `now`. A request
    /// that does not say whether to chunk asks for none.
    pub fn new(id: String, request: TaskRequest, now: i64) -> (task: Task)
        ensures
            task.id == id,
            task.name == request.name,
            task.source_path == request.source_path,
            task.remote_name == request.remote_name,
            task.remote_path == request.remote_path,
            task.chunk_size == request.chunk_size,
            task.use_chunking == (request.use_chunking == Some(true)),
            task.created_at == now,
    {
        let use_chunking: bool = match request.use_chunking {
            Some(b) => b,
            None => false,
        };
        Task {
            id,
            name: request.name,
            source_path: request.source_path,
            remote_name: request.remote_name,
            remote_path: request.remote_path,
            chunk_size: request.chunk_size,
            use_chunking,
            created_at: now,
        }
    }

    /// The transfer request that a start of the stored task makes.
    pub fn sync_request(&self) -> (request: SyncRequest)
        ensures
            request.source_path == self.source_path,
            request.remote_name == self.remote_name,
            request.remote_path == self.remote_path,
            request.chunk_size == self.chunk_size,
            request.use_chunking == Some(self.use_chunking),
    {
        SyncRequest {
            source_path: self.source_path.clone(),
            remote_name: self.remote_name.clone(),
            remote_path: self.remote_path.clone(),
            chunk_size: match &self.chunk_size {
                Some(c) => Some(c.clone()),
                None => None,
            },
            use_chunking: Some(self.use_chunking),
        }
    }
}

/// What is wrong with a request for a task, if anything: a fault of its
/// name, or a name that is taken.
pub open spec fn request_fault(name: Seq<char>, name_exists: bool) -> Option<Seq<char>> {
    match name_fault(name) {
        Some(fault) => Some(fault),
        None => if name_exists {
            Some("Task name already exists"@)
        } else {
            None
        },
    }
}

/// Makes the task that `request` asks for, under a fresh identifier and with
/// the time of the clock. `name_exists` says whether a task of that name is
/// stored already. The request is refused where its name has a fault or is
/// taken.
pub fn create_task(request: TaskRequest, name_exists: bool) -> (r: Result<Task, String>)
    ensures
        match r {
            Ok(task) => {
                &&& request_fault(request.name@, name_exists) is None
                &&& is_job_id(task.id@)
                &&& task.name == request.name
                &&& task.source_path == request.source_path
                &&& task.remote_name == request.remote_name
                &&& task.remote_path == request.remote_path
                &&& task.chunk_size == request.chunk_size
                &&& task.use_chunking == (request.use_chunking == Some(true))
            },
            Err(e) => request_fault(request.name@, name_exists) == Some(e@),
        },
{
    match validate_task_name(request.name.as_str()) {
        Err(e) => Err(e),
        Ok(_) => {
            if name_exists {
                Err(String::from_str("Task name already exists"))
            } else {
                let id = new_job_id();
                let now = unix_now();
                Ok(Task::new(id, request, now))
            }
        },
    }
}

/// Starts the stored task `task` as a job, and answers with the identifier of
/// the job; without a task, answers with the error `Task not found` and
/// changes nothing.
pub fn start_task(jobs: &mut SyncJobs, task: Option<&Task>) -> (r: ApiResponse<String>)
    requires
        old(jobs).wf(),
    ensures
        final(jobs).wf(),
        r.success == (task is Some),
        match task {
            Some(_) => {
                &&& r.data is Some
                &&& r.error is None
                &&& is_issued_id(r.data->0@)
                &&& !old(jobs).knows(r.data->0@)
                &&& lookup(final(jobs)@, r.data->0@) is Some
                &&& SyncProgress::submitted(
                    r.data->0,
                    task->0.source_path@,
                    lookup(final(jobs)@, r.data->0@)->0.start_time,
                    lookup(final(jobs)@, r.data->0@)->0,
                )
                &&& final(jobs)@ == old(jobs)@.push(lookup(final(jobs)@, r.data->0@)->0)
            },
            None => {
                &&& r.data is None
                &&& r.error is Some
                &&& r.error->0@ == "Task not found"@
                &&& final(jobs)@ == old(jobs)@
            },
        },
{
    match task {
        Some(t) => {
            let request = t.sync_request();
            let id = jobs.start_sync(&request);
            ApiResponse::success(id)
        },
        None => ApiResponse::error("Task not found"),
    }
}

} // verus!
