//! Small decisions of the program around the engine: which files of the log
//! directory are logs and which of them are left over, how an answer is
//! classed in the request log, and where the default path was taken from.

use vstd::prelude::*;
use vstd::string::*;
use crate::registry::{lookup, SyncJobs};
use crate::strings::{chars_of, str_eq};

verus! {

/// The path that is listed where none is configured.
pub open spec fn fallback_path() -> Seq<char> {
    "/mnt/home"@
}

/// The ending of the name of a log.
pub open spec fn log_ending() -> Seq<char> {
    ".log"@
}

/// `name` is the name of a log: it ends in `.log`, and something stands
/// before that.
pub open spec fn is_log_name(name: Seq<char>) -> bool {
    name.len() > 4 && name.skip(name.len() - 4) == log_ending()
}

/// The identifier of the job whose log is named `name`.
pub open spec fn log_stem(name: Seq<char>) -> Seq<char> {
    name.take(name.len() - 4)
}

/// How an answer is classed by its status code.
#[derive(Debug, Clone, Copy, PartialEq, Eq, Structural)]
pub enum StatusClass {
    /// 200 to 299.
    Success,
    /// 300 to 399.
    Redirect,
    /// 400 to 499.
    ClientError,
    /// 500 to 599.
    ServerError,
    /// Every other code.
    Other,
}

/// Where the default path in use was taken from.
#[derive(Debug, Clone, Copy, PartialEq, Eq, Structural)]
pub enum PathSource {
    /// The local settings file, which comes before the general one.
    LocalFile,
    /// The general settings file.
    GeneralFile,
    /// Neither: the path is the fallback.
    Fallback,
}

/// The class of the status code `code`.
pub open spec fn class_of(code: u16) -> StatusClass {
    if 200 <= code && code <= 299 {
        StatusClass::Success
    } else if 300 <= code && code <= 399 {
        StatusClass::Redirect
    } else if 400 <= code && code <= 499 {
        StatusClass::ClientError
    } else if 500 <= code && code <= 599 {
        StatusClass::ServerError
    } else {
        StatusClass::Other
    }
}

/// Where the default path `path` was taken from, given which of the two
/// settings files were found: a path that is the fallback counts as taken
/// from neither.
pub open spec fn source_of(local_found: bool, general_found: bool, path: Seq<char>) -> PathSource {
    if local_found && path != fallback_path() {
        PathSource::LocalFile
    } else if general_found && path != fallback_path() {
        PathSource::GeneralFile
    } else {
        PathSource::Fallback
    }
}

/// Whether `name` is the name of a log.
pub fn is_log_file(name: &str) -> (r: bool)
    ensures
        r == is_log_name(name@),
{
    let chars = chars_of(name);
    let n: usize = chars.len();
    if n <= 4 {
        return false;
    }
    proof {
        reveal_strlit(".log");
        let tail = name@.skip(n - 4);
        assert(tail.len() == 4);
        assert(tail[0] == name@[n - 4] && tail[1] == name@[n - 3] && tail[2] == name@[n - 2]
            && tail[3] == name@[n - 1]);
        if name@[n - 4] == '.' && name@[n - 3] == 'l' && name@[n - 2] == 'o' && name@[n - 1]
            == 'g' {
            assert(tail =~= log_ending());
        }
    }
    chars[n - 4] == '.' && chars[n - 3] == 'l' && chars[n - 2] == 'o' && chars[n - 1] == 'g'
}

/// The class of the status code `code`.
pub fn status_class(code: u16) -> (r: StatusClass)
    ensures
        r == class_of(code),
{
    if 200 <= code && code <= 299 {
        StatusClass::Success
    } else if 300 <= code && code <= 399 {
        StatusClass::Redirect
    } else if 400 <= code && code <= 499 {
        StatusClass::ClientError
    } else if 500 <= code && code <= 599 {
        StatusClass::ServerError
    } else {
        StatusClass::Other
    }
}

/// Where the default path `path` was taken from.
pub fn path_source(local_found: bool, general_found: bool, path: &str) -> (r: PathSource)
    ensures
        r == source_of(local_found, general_found, path@),
{
    let is_fallback: bool = str_eq(path, "/mnt/home");
    if local_found && !is_fallback {
        PathSource::LocalFile
    } else if general_found && !is_fallback {
        PathSource::GeneralFile
    } else {
        PathSource::Fallback
    }
}

/// Whether the file `name` of the log directory is left over: it is a log,
/// and `jobs` holds no job of its identifier.
pub fn is_orphaned_log(jobs: &SyncJobs, name: &str) -> (r: bool)
    ensures
        r == (is_log_name(name@) && lookup(jobs@, log_stem(name@)) is None),
{
    if !is_log_file(name) {
        return false;
    }
    let n: usize = name.unicode_len();
    proof {
        assert(name@.subrange(0, n - 4) =~= log_stem(name@));
    }
    let stem = name.substring_char(0, n - 4);
    jobs.get(stem).is_none()
}

} // verus!
