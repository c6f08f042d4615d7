//! The progress extractor for the structured records of the transfer tool.
//!
//! A record is one JSON object. Its counters are looked for in this order:
//! `bytes` and `totalBytes` in the nested object `stats`; the same two at the
//! top level; `transferred` and `total` in `stats`; those two at the top
//! level. The first place that holds both counters as whole numbers decides.
//!
//! A record without counters still says something where it reports that one
//! file was copied: its `level` is `info`, its `msg` holds `Copied`, and
//! `size` gives the size of the file. That file then counts as complete.

use vstd::prelude::*;
use vstd::string::*;
use crate::decimal::saturate;
use crate::json::Json;
use crate::progress::{Percent, ProgressInfo, FULL};
use crate::strings::{chars_of, str_eq};
use crate::text::{find, first_index};

verus! {

/// The whole number that the member `key` of `scope` holds.
pub open spec fn field_natural(scope: Json, key: Seq<char>) -> Option<u64> {
    match scope.member(key) {
        Some(v) => v.natural(),
        None => None,
    }
}

/// The text that the member `key` of `scope` holds.
pub open spec fn field_text(scope: Json, key: Seq<char>) -> Option<Seq<char>> {
    match scope.member(key) {
        Some(v) => v.text(),
        None => None,
    }
}

/// A transfer is under way: `transferring` is an array that is not empty.
pub open spec fn in_flight(scope: Json) -> bool {
    match scope.member("transferring"@) {
        Some(v) => v.item_count() is Some && v.item_count()->0 > 0,
        None => false,
    }
}

/// At least one transfer has completed and none is under way.
pub open spec fn settled(scope: Json) -> bool {
    field_natural(scope, "transfers"@) is Some && field_natural(scope, "transfers"@)->0 >= 1
        && !in_flight(scope)
}

/// `transferred` as a percentage of `total`, rounded down to thousandths;
/// zero where `total` is zero.
pub open spec fn ratio(transferred: u64, total: u64) -> Percent {
    if total == 0 {
        Percent { thousandths: 0 }
    } else {
        Percent {
            thousandths: saturate(((transferred as nat) * (FULL as nat)) / (total as nat)),
        }
    }
}

/// The percentage of a record with these counters: a hundred where all bytes
/// are there and the transfers are settled, else the ratio of the counters.
pub open spec fn stats_percent(transferred: u64, total: u64, settled: bool) -> Percent {
    if transferred == total && settled {
        Percent { thousandths: FULL }
    } else {
        ratio(transferred, total)
    }
}

/// What `scope` says, where it holds both counters under these names.
pub open spec fn scope_progress(scope: Json, sent_key: Seq<char>, total_key: Seq<char>) -> Option<
    ProgressInfo,
> {
    match (field_natural(scope, sent_key), field_natural(scope, total_key)) {
        (Some(transferred), Some(total)) => Some(
            ProgressInfo {
                percent: stats_percent(transferred, total, settled(scope)),
                transferred,
                total,
            },
        ),
        _ => None,
    }
}

/// What the member `stats` of `record` says under these names.
pub open spec fn nested_progress(record: Json, sent_key: Seq<char>, total_key: Seq<char>) -> Option<
    ProgressInfo,
> {
    match record.member("stats"@) {
        Some(stats) => scope_progress(stats, sent_key, total_key),
        None => None,
    }
}

/// What the counters of `record` say, by the order of places and names.
pub open spec fn stats_progress(record: Json) -> Option<ProgressInfo> {
    if nested_progress(record, "bytes"@, "totalBytes"@) is Some {
        nested_progress(record, "bytes"@, "totalBytes"@)
    } else if scope_progress(record, "bytes"@, "totalBytes"@) is Some {
        scope_progress(record, "bytes"@, "totalBytes"@)
    } else if nested_progress(record, "transferred"@, "total"@) is Some {
        nested_progress(record, "transferred"@, "total"@)
    } else {
        scope_progress(record, "transferred"@, "total"@)
    }
}

/// `record` reports that one file was copied.
pub open spec fn is_completion(record: Json) -> bool {
    &&& field_text(record, "level"@) == Some("info"@)
    &&& field_text(record, "msg"@) is Some
    &&& first_index(field_text(record, "msg"@)->0, "Copied"@) is Some
    &&& field_natural(record, "size"@) is Some
}

/// What a report of one copied file says: all of its size is there.
pub open spec fn completion_progress(record: Json) -> Option<ProgressInfo> {
    if is_completion(record) {
        let size = field_natural(record, "size"@)->0;
        Some(ProgressInfo { percent: Percent { thousandths: FULL }, transferred: size, total: size })
    } else {
        None
    }
}

/// What a structured record says: its counters where it has them, else what
/// it reports of one copied file.
pub open spec fn record_progress(record: Json) -> Option<ProgressInfo> {
    match stats_progress(record) {
        Some(info) => Some(info),
        None => completion_progress(record),
    }
}

/// A record whose total is zero stands at zero percent, whatever it has
/// transferred; only where nothing was to be transferred and the transfers
/// are settled does it stand at a hundred.
pub proof fn lemma_zero_total(transferred: u64, settled: bool)
    ensures
        ratio(transferred, 0).thousandths == 0,
        stats_percent(transferred, 0, settled).thousandths == if transferred == 0 && settled {
            FULL
        } else {
            0
        },
{
}

/// Where no more is transferred than the total, the percentage is at most a
/// hundred; it is a hundred where all of a total that is not zero is there.
pub proof fn lemma_percent_bounded(transferred: u64, total: u64, settled: bool)
    requires
        transferred <= total,
    ensures
        stats_percent(transferred, total, settled).thousandths <= FULL,
        transferred == total && total > 0 ==> stats_percent(transferred, total, settled).thousandths
            == FULL,
{
    if total > 0 {
        let t = transferred as int;
        let n = total as int;
        assert(t * 100000 <= n * 100000) by (nonlinear_arith)
            requires
                t <= n,
        ;
        vstd::arithmetic::div_mod::lemma_div_is_ordered(t * 100000, n * 100000, n);
        vstd::arithmetic::div_mod::lemma_div_multiples_vanish(100000, n);
        assert(n * 100000 == 100000 * n) by (nonlinear_arith);
        assert((t * 100000) / n <= 100000);
        assert(0 <= (t * 100000) / n) by {
            vstd::arithmetic::div_mod::lemma_div_pos_is_pos(t * 100000, n);
        }
    }
}

fn natural_field(scope: &Json, key: &str) -> (r: Option<u64>)
    ensures
        r == field_natural(*scope, key@),
{
    match scope.get(key) {
        Some(v) => v.as_natural(),
        None => None,
    }
}

fn is_in_flight(scope: &Json) -> (r: bool)
    ensures
        r == in_flight(*scope),
{
    match scope.get("transferring") {
        Some(v) => match v.len_of_array() {
            Some(n) => n > 0,
            None => false,
        },
        None => false,
    }
}

fn is_settled(scope: &Json) -> (r: bool)
    ensures
        r == settled(*scope),
{
    match natural_field(scope, "transfers") {
        Some(n) => n >= 1 && !is_in_flight(scope),
        None => false,
    }
}

/// `transferred` as a percentage of `total`, rounded down to thousandths.
pub fn ratio_of(transferred: u64, total: u64) -> (r: Percent)
    ensures
        r == ratio(transferred, total),
{
    if total == 0 {
        return Percent { thousandths: 0 };
    }
    assert(transferred * FULL <= 0xffff_ffff_ffff_ffff * 100000) by (nonlinear_arith)
        requires
            transferred <= 0xffff_ffff_ffff_ffff,
            FULL == 100000,
    ;
    let scaled: u128 = (transferred as u128) * (FULL as u128) / (total as u128);
    if scaled > u64::MAX as u128 {
        Percent { thousandths: u64::MAX }
    } else {
        Percent { thousandths: scaled as u64 }
    }
}

/// The percentage of a record with these counters.
pub fn stats_percent_of(transferred: u64, total: u64, settled: bool) -> (r: Percent)
    ensures
        r == stats_percent(transferred, total, settled),
{
    if transferred == total && settled {
        Percent { thousandths: FULL }
    } else {
        ratio_of(transferred, total)
    }
}

fn scope_progress_of(scope: &Json, sent_key: &str, total_key: &str) -> (r: Option<ProgressInfo>)
    ensures
        r == scope_progress(*scope, sent_key@, total_key@),
{
    match natural_field(scope, sent_key) {
        Some(transferred) => match natural_field(scope, total_key) {
            Some(total) => Some(
                ProgressInfo {
                    percent: stats_percent_of(transferred, total, is_settled(scope)),
                    transferred,
                    total,
                },
            ),
            None => None,
        },
        None => None,
    }
}

fn nested_progress_of(record: &Json, sent_key: &str, total_key: &str) -> (r: Option<ProgressInfo>)
    ensures
        r == nested_progress(*record, sent_key@, total_key@),
{
    match record.get("stats") {
        Some(stats) => scope_progress_of(&stats, sent_key, total_key),
        None => None,
    }
}

/// Reads the counters of a record.
pub fn stats_progress_of(record: &Json) -> (r: Option<ProgressInfo>)
    ensures
        r == stats_progress(*record),
{
    let first = nested_progress_of(record, "bytes", "totalBytes");
    if first.is_some() {
        return first;
    }
    let second = scope_progress_of(record, "bytes", "totalBytes");
    if second.is_some() {
        return second;
    }
    let third = nested_progress_of(record, "transferred", "total");
    if third.is_some() {
        return third;
    }
    scope_progress_of(record, "transferred", "total")
}

fn text_field(scope: &Json, key: &str) -> (r: Option<String>)
    ensures
        match r {
            Some(s) => field_text(*scope, key@) == Some(s@),
            None => field_text(*scope, key@) is None,
        },
{
    match scope.get(key) {
        Some(v) => match v.as_str() {
            Some(s) => Some(String::from_str(s)),
            None => None,
        },
        None => None,
    }
}

/// Reads a report of one copied file.
pub fn completion_progress_of(record: &Json) -> (r: Option<ProgressInfo>)
    ensures
        r == completion_progress(*record),
{
    let level_ok: bool = match text_field(record, "level") {
        Some(level) => str_eq(level.as_str(), "info"),
        None => false,
    };
    if !level_ok {
        return None;
    }
    let copied: bool = match text_field(record, "msg") {
        Some(msg) => {
            let text = chars_of(msg.as_str());
            let word = chars_of("Copied");
            find(text.as_slice(), word.as_slice()).is_some()
        },
        None => false,
    };
    if !copied {
        return None;
    }
    match natural_field(record, "size") {
        Some(size) => Some(
            ProgressInfo { percent: Percent { thousandths: FULL }, transferred: size, total: size },
        ),
        None => None,
    }
}

/// Reads a structured record.
pub fn record_progress_of(record: &Json) -> (r: Option<ProgressInfo>)
    ensures
        r == record_progress(*record),
{
    match stats_progress_of(record) {
        Some(info) => Some(info),
        None => completion_progress_of(record),
    }
}

} // verus!
