//! The progress extractor for the text that the transfer tool prints.
//!
//! Two shapes of line carry progress. The summary line holds the marker
//! `Transferred:` and a percent sign:
//!
//! ```text
//! Transferred:      1.234 MByte / 5.678 MByte, 21%, 345.67 kByte/s, ETA 12s
//! ```
//!
//! The per-file line gives a name, a percentage and the file's size:
//!
//! ```text
//!  * file.txt: 100% /1.23 MB, 456kB/s, 2s
//! ```
//!
//! The summary shape is tried first. A line of neither shape carries no new
//! information, which is no error.

use vstd::prelude::*;
use vstd::string::*;
use crate::decimal::{is_number, parse_scaled, saturate, scaled_value, MAX_SCALE};
use crate::strings::{chars_of, lowercase_text, str_eq, text_of};
use crate::text::{
    after, after_first_word, before, find, first_index, first_word, last_index_of_any, rfind_any,
    split_first_word, trim, trim_chars,
};

verus! {

/// A percentage, held in thousandths of a percent: `21%` is `21_000`.
#[derive(Debug, Clone, Copy, PartialEq, Eq, Structural)]
pub struct Percent {
    pub thousandths: u64,
}

/// One percent, in the unit of `Percent`.
pub const ONE_PERCENT: u64 = 1000;

/// A hundred percent, in the unit of `Percent`.
pub const FULL: u64 = 100000;

/// What one unit of output says about a transfer.
#[derive(Debug, Clone, Copy, PartialEq, Eq, Structural)]
pub struct ProgressInfo {
    pub percent: Percent,
    pub transferred: u64,
    pub total: u64,
}

impl Percent {
    /// The whole percents, rounded down.
    pub fn whole(&self) -> (r: u64)
        ensures
            r == self.thousandths / ONE_PERCENT,
    {
        self.thousandths / ONE_PERCENT
    }

    /// This percentage, or a hundred percent where it is more.
    pub fn capped(&self) -> (r: Percent)
        ensures
            r.thousandths == if self.thousandths > FULL {
                FULL
            } else {
                self.thousandths
            },
    {
        if self.thousandths > FULL {
            Percent { thousandths: FULL }
        } else {
            *self
        }
    }
}

/// The marker of the summary line.
pub open spec fn marker() -> Seq<char> {
    "Transferred:"@
}

/// The percent sign.
pub open spec fn percent_sign() -> Seq<char> {
    "%"@
}

/// The characters that may stand before the percentage of a summary line.
pub open spec fn comma_or_space() -> Seq<char> {
    ", "@
}

/// What parts the transferred size from the total size.
pub open spec fn size_separator() -> Seq<char> {
    " / "@
}

/// The comma.
pub open spec fn comma() -> Seq<char> {
    ","@
}

/// The space.
pub open spec fn space() -> Seq<char> {
    " "@
}

/// What parts the name from the percentage of a per-file line.
pub open spec fn name_separator() -> Seq<char> {
    ": "@
}

/// What parts the percentage from the size of a per-file line.
pub open spec fn percent_slash() -> Seq<char> {
    "% /"@
}

/// The number of bytes that one of `unit` stands for, where `unit` is read
/// in lower case: `k`, `kb` and `kbyte` are 1024; `m`, `g` and `t` with the
/// same endings are its second, third and fourth power. Every other word is
/// 1, `b`, `byte` and `bytes` among them.
pub open spec fn unit_multiplier(unit: Seq<char>) -> nat {
    let u = lowercase_text(unit);
    if u == "kbyte"@ || u == "kb"@ || u == "k"@ {
        1024
    } else if u == "mbyte"@ || u == "mb"@ || u == "m"@ {
        1024 * 1024
    } else if u == "gbyte"@ || u == "gb"@ || u == "g"@ {
        1024 * 1024 * 1024
    } else if u == "tbyte"@ || u == "tb"@ || u == "t"@ {
        1024 * 1024 * 1024 * 1024
    } else {
        1
    }
}

/// The size that `s` writes, in bytes: the first word is the number, the
/// second, if there is one, the unit; further words do not count. A text
/// whose first word is no number writes 0.
pub open spec fn byte_value(s: Seq<char>) -> u64 {
    let number = first_word(s);
    let unit = first_word(after_first_word(s));
    if is_number(number) {
        scaled_value(number, unit_multiplier(unit))
    } else {
        0
    }
}

/// A word that is none of the units counts as bytes: the size is what the
/// number comes to by itself.
pub proof fn lemma_unknown_unit(s: Seq<char>)
    requires
        is_number(first_word(s)),
        unit_multiplier(first_word(after_first_word(s))) == 1,
    ensures
        byte_value(s) == scaled_value(first_word(s), 1),
{
}

/// A word is none of the units where its lower-case form is none of their
/// twelve names.
pub proof fn lemma_not_a_unit(unit: Seq<char>)
    requires
        ({
            let u = lowercase_text(unit);
            &&& u != "kbyte"@ && u != "kb"@ && u != "k"@
            &&& u != "mbyte"@ && u != "mb"@ && u != "m"@
            &&& u != "gbyte"@ && u != "gb"@ && u != "g"@
            &&& u != "tbyte"@ && u != "tb"@ && u != "t"@
        }),
    ensures
        unit_multiplier(unit) == 1,
{
}

/// The number of bytes that one of `unit` stands for.
pub fn multiplier_of(unit: &[char]) -> (m: u64)
    ensures
        m == unit_multiplier(unit@),
        1 <= m <= MAX_SCALE,
{
    let word = text_of(unit);
    let lowered = word.as_str().to_lowercase();
    let u = lowered.as_str();
    if str_eq(u, "kbyte") || str_eq(u, "kb") || str_eq(u, "k") {
        1024
    } else if str_eq(u, "mbyte") || str_eq(u, "mb") || str_eq(u, "m") {
        1024 * 1024
    } else if str_eq(u, "gbyte") || str_eq(u, "gb") || str_eq(u, "g") {
        1024 * 1024 * 1024
    } else if str_eq(u, "tbyte") || str_eq(u, "tb") || str_eq(u, "t") {
        1024 * 1024 * 1024 * 1024
    } else {
        1
    }
}

/// Reads a size such as `1.234 MByte` or `123` and gives it in bytes.
pub fn parse_byte_value(value_str: &str) -> (bytes: u64)
    ensures
        bytes == byte_value(value_str@),
{
    let chars = chars_of(value_str);
    byte_value_of(chars.as_slice())
}

/// Reads a size such as `1.234 MByte` or `123` and gives it in bytes.
pub fn byte_value_of(s: &[char]) -> (bytes: u64)
    ensures
        bytes == byte_value(s@),
{
    let (number, rest) = split_first_word(s);
    let (unit, _) = split_first_word(rest);
    let m: u64 = multiplier_of(unit);
    match parse_scaled(number, m) {
        Some(v) => v,
        None => 0,
    }
}

/// The text of the total size, in what follows the separator of the sizes:
/// it ends before the first comma; without a comma, before the last space
/// that stands before the first percent sign; else it is all of `rest`.
pub open spec fn total_part(rest: Seq<char>) -> Seq<char> {
    match first_index(rest, comma()) {
        Some(c) => rest.take(c),
        None => match first_index(rest, percent_sign()) {
            Some(p) => match last_index_of_any(rest.take(p), space()) {
                Some(sp) => rest.take(sp),
                None => rest,
            },
            None => rest,
        },
    }
}

/// The transferred and the total size of a summary line, in bytes: the two
/// sizes around the first ` / ` behind the first marker. Both are 0 where
/// the marker or the separator is missing.
pub open spec fn transferred_pair(line: Seq<char>) -> (u64, u64) {
    match first_index(line, marker()) {
        Some(i) => {
            let tail = trim(line.skip(i + marker().len()));
            match first_index(tail, size_separator()) {
                Some(j) => (
                    byte_value(tail.take(j)),
                    byte_value(total_part(tail.skip(j + size_separator().len()))),
                ),
                None => (0u64, 0u64),
            }
        },
        None => (0u64, 0u64),
    }
}

/// The percentage that `token` writes, in thousandths and rounded down: zero
/// for a negative number and for `nan`, the greatest `u64` where it does not
/// fit.
pub open spec fn percent_of(token: Seq<char>) -> Option<Percent> {
    if is_number(token) {
        Some(Percent { thousandths: scaled_value(token, ONE_PERCENT as nat) })
    } else {
        None
    }
}

/// What a summary line says: the percentage is the number between the first
/// percent sign and the last comma or space before it.
pub open spec fn summary_progress(line: Seq<char>) -> Option<ProgressInfo> {
    if first_index(line, marker()) is Some {
        match first_index(line, percent_sign()) {
            Some(p) => match last_index_of_any(line.take(p), comma_or_space()) {
                Some(q) => match percent_of(trim(line.take(p).skip(q + 1))) {
                    Some(percent) => Some(
                        ProgressInfo {
                            percent,
                            transferred: transferred_pair(line).0,
                            total: transferred_pair(line).1,
                        },
                    ),
                    None => None,
                },
                None => None,
            },
            None => None,
        }
    } else {
        None
    }
}

/// The part `percent` of `total`, rounded down.
pub open spec fn share(percent: Percent, total: u64) -> u64 {
    saturate(((percent.thousandths as nat) * (total as nat)) / (FULL as nat))
}

/// What a per-file line says: the percentage stands between the first `: `
/// and the first `% /` behind it, the size of the file between that and the
/// next comma. The transferred size is that share of the file's size.
pub open spec fn file_progress(line: Seq<char>) -> Option<ProgressInfo> {
    match first_index(line, name_separator()) {
        Some(c) => {
            let tail = line.skip(c + name_separator().len());
            match first_index(tail, percent_slash()) {
                Some(e) => match percent_of(trim(tail.take(e))) {
                    Some(percent) => {
                        let rest = tail.skip(e + percent_slash().len());
                        match first_index(rest, comma()) {
                            Some(k) => {
                                let total = byte_value(rest.take(k));
                                Some(
                                    ProgressInfo {
                                        percent,
                                        transferred: share(percent, total),
                                        total,
                                    },
                                )
                            },
                            None => None,
                        }
                    },
                    None => None,
                },
                None => None,
            }
        },
        None => None,
    }
}

/// What a line of text says about the transfer: as a summary line if it is
/// one, else as a per-file line.
pub open spec fn text_progress(line: Seq<char>) -> Option<ProgressInfo> {
    match summary_progress(line) {
        Some(info) => Some(info),
        None => file_progress(line),
    }
}

/// The text of the total size, in what follows the separator of the sizes.
fn total_part_of(rest: &[char]) -> (r: &[char])
    ensures
        r@ == total_part(rest@),
{
    let comma = chars_of(",");
    let percent = chars_of("%");
    let space = chars_of(" ");
    match find(rest, comma.as_slice()) {
        Some(c) => before(rest, c),
        None => match find(rest, percent.as_slice()) {
            Some(p) => match rfind_any(before(rest, p), space.as_slice()) {
                Some(sp) => before(rest, sp),
                None => rest,
            },
            None => rest,
        },
    }
}

/// Reads the transferred and the total size of a summary line, in bytes.
pub fn parse_transferred_bytes(line: &str) -> (pair: (u64, u64))
    ensures
        pair == transferred_pair(line@),
{
    let chars = chars_of(line);
    transferred_pair_of(chars.as_slice())
}

/// Reads the transferred and the total size of a summary line, in bytes.
pub fn transferred_pair_of(line: &[char]) -> (pair: (u64, u64))
    ensures
        pair == transferred_pair(line@),
{
    let marker = chars_of("Transferred:");
    let separator = chars_of(" / ");
    match find(line, marker.as_slice()) {
        Some(i) => {
            let tail = trim_chars(after(line, i + marker.len()));
            match find(tail, separator.as_slice()) {
                Some(j) => {
                    let left = byte_value_of(before(tail, j));
                    let right = byte_value_of(total_part_of(after(tail, j + separator.len())));
                    (left, right)
                },
                None => (0, 0),
            }
        },
        None => (0, 0),
    }
}

/// Reads a percentage, rounded down to thousandths.
fn percent_of_token(token: &[char]) -> (r: Option<Percent>)
    ensures
        r == percent_of(token@),
{
    match parse_scaled(token, ONE_PERCENT) {
        Some(v) => Some(Percent { thousandths: v }),
        None => None,
    }
}

/// The part `percent` of `total`, rounded down.
pub fn share_of(percent: Percent, total: u64) -> (r: u64)
    ensures
        r == share(percent, total),
{
    assert(percent.thousandths * total <= 0xffff_ffff_ffff_ffff * 0xffff_ffff_ffff_ffff)
        by (nonlinear_arith)
        requires
            percent.thousandths <= 0xffff_ffff_ffff_ffff,
            total <= 0xffff_ffff_ffff_ffff,
    ;
    let part: u128 = (percent.thousandths as u128) * (total as u128) / (FULL as u128);
    if part > u64::MAX as u128 {
        u64::MAX
    } else {
        part as u64
    }
}

/// Reads a summary line.
fn summary_progress_of(line: &[char]) -> (r: Option<ProgressInfo>)
    ensures
        r == summary_progress(line@),
{
    let marker = chars_of("Transferred:");
    let percent = chars_of("%");
    let breaks = chars_of(", ");
    if find(line, marker.as_slice()).is_none() {
        return None;
    }
    match find(line, percent.as_slice()) {
        Some(p) => {
            let head = before(line, p);
            match rfind_any(head, breaks.as_slice()) {
                Some(q) => match percent_of_token(trim_chars(after(head, q + 1))) {
                    Some(percent) => {
                        let pair = transferred_pair_of(line);
                        Some(ProgressInfo { percent, transferred: pair.0, total: pair.1 })
                    },
                    None => None,
                },
                None => None,
            }
        },
        None => None,
    }
}

/// Reads a per-file line.
fn file_progress_of(line: &[char]) -> (r: Option<ProgressInfo>)
    ensures
        r == file_progress(line@),
{
    let colon = chars_of(": ");
    let slash = chars_of("% /");
    let comma = chars_of(",");
    match find(line, colon.as_slice()) {
        Some(c) => {
            let tail = after(line, c + colon.len());
            match find(tail, slash.as_slice()) {
                Some(e) => match percent_of_token(trim_chars(before(tail, e))) {
                    Some(percent) => {
                        let rest = after(tail, e + slash.len());
                        match find(rest, comma.as_slice()) {
                            Some(k) => {
                                let total = byte_value_of(before(rest, k));
                                Some(
                                    ProgressInfo {
                                        percent,
                                        transferred: share_of(percent, total),
                                        total,
                                    },
                                )
                            },
                            None => None,
                        }
                    },
                    None => None,
                },
                None => None,
            }
        },
        None => None,
    }
}

/// Reads a line of text: as a summary line if it is one, else as a per-file
/// line.
pub fn text_progress_of(line: &[char]) -> (r: Option<ProgressInfo>)
    ensures
        r == text_progress(line@),
{
    match summary_progress_of(line) {
        Some(info) => Some(info),
        None => file_progress_of(line),
    }
}

} // verus!
