//! The progress extractor: one entry for every unit of output.
//!
//! A unit is read as a structured record first. Where it is no JSON text, or
//! the record says nothing, it is read as a line of text. A unit that says
//! nothing either way carries no new information.

use vstd::prelude::*;
use vstd::string::*;
use crate::json::{json_text_value, parse_json, Json};
use crate::progress::{text_progress, text_progress_of, ProgressInfo};
use crate::stats::{record_progress, record_progress_of};
use crate::strings::chars_of;

verus! {

/// What a unit of output says, given the JSON value that was read from it,
/// if any, and its characters.
pub open spec fn line_progress(parsed: Option<Json>, line: Seq<char>) -> Option<ProgressInfo> {
    match parsed {
        Some(record) => match record_progress(record) {
            Some(info) => Some(info),
            None => text_progress(line),
        },
        None => text_progress(line),
    }
}

/// What the unit `line` says, where `parsed` is the JSON value read from it.
pub fn progress_from(parsed: &Option<Json>, line: &[char]) -> (r: Option<ProgressInfo>)
    ensures
        r == line_progress(*parsed, line@),
{
    match parsed {
        Some(record) => match record_progress_of(record) {
            Some(info) => Some(info),
            None => text_progress_of(line),
        },
        None => text_progress_of(line),
    }
}

/// Extracts the progress that one unit of output reports: the percentage,
/// the bytes transferred and the total bytes. `None` where the unit reports
/// none.
pub fn parse_rclone_progress(line: &str) -> (r: Option<ProgressInfo>)
    ensures
        r == line_progress(json_text_value(line@), line@),
{
    let parsed = parse_json(line);
    let chars = chars_of(line);
    progress_from(&parsed, chars.as_slice())
}

} // verus!
