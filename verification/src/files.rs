//! Directory listings: the order of the entries of a local directory, and
//! the entries that a remote listing names.

use vstd::prelude::*;
use vstd::multiset::*;
use vstd::seq_lib::*;
use vstd::string::*;
use vstd::utf8::*;
use crate::job::{strip_trailing_slashes, without_trailing_slashes};
use crate::json::{json_text_value, parse_json, Json};
use crate::models::FileEntry;
use crate::stats::{field_natural, field_text};
use crate::strings::join3;

verus! {

/// `a` stands before `b` in the order of a dictionary, byte by byte.
pub open spec fn lex_less(a: Seq<u8>, b: Seq<u8>) -> bool
    decreases a.len(),
{
    if b.len() == 0 {
        false
    } else if a.len() == 0 {
        true
    } else if a[0] != b[0] {
        a[0] < b[0]
    } else {
        lex_less(a.drop_first(), b.drop_first())
    }
}

/// `a` has its place before `b` in a listing: directories before files, and
/// among each the names in the order of a dictionary.
pub open spec fn comes_before(a: FileEntry, b: FileEntry) -> bool {
    if a.is_dir != b.is_dir {
        a.is_dir
    } else {
        lex_less(encode_utf8(a.name@), encode_utf8(b.name@))
    }
}

/// No entry of `s` has its place before an earlier one.
pub open spec fn in_order(s: Seq<FileEntry>) -> bool {
    forall|i: int, j: int| 0 <= i < j < s.len() ==> !comes_before(s[j], s[i])
}

/// The ordered listing `sorted` with `e` put in: behind the entries that have
/// their place before it, and before all others.
pub open spec fn placed(e: FileEntry, sorted: Seq<FileEntry>) -> Seq<FileEntry>
    decreases sorted.len(),
{
    if sorted.len() > 0 && comes_before(sorted[0], e) {
        seq![sorted[0]] + placed(e, sorted.drop_first())
    } else {
        seq![e] + sorted
    }
}

/// The entries in order. Entries of which none has its place before the
/// other stay in the order in which they came.
pub open spec fn arranged(entries: Seq<FileEntry>) -> Seq<FileEntry>
    decreases entries.len(),
{
    if entries.len() == 0 {
        Seq::empty()
    } else {
        placed(entries[0], arranged(entries.drop_first()))
    }
}

/// Of two byte texts, at most one stands before the other.
pub proof fn lemma_lex_asymmetric(a: Seq<u8>, b: Seq<u8>)
    requires
        lex_less(a, b),
    ensures
        !lex_less(b, a),
    decreases a.len(),
{
    if a.len() > 0 && b.len() > 0 && a[0] == b[0] {
        lemma_lex_asymmetric(a.drop_first(), b.drop_first());
    }
}

/// Where `a` does not stand before `b`, nor `b` before `c`, `a` does not
/// stand before `c`.
pub proof fn lemma_lex_not_before(a: Seq<u8>, b: Seq<u8>, c: Seq<u8>)
    requires
        !lex_less(a, b),
        !lex_less(b, c),
    ensures
        !lex_less(a, c),
    decreases a.len(),
{
    if a.len() > 0 && b.len() > 0 && c.len() > 0 && a[0] == b[0] && b[0] == c[0] {
        lemma_lex_not_before(a.drop_first(), b.drop_first(), c.drop_first());
    }
}

/// Of two entries, at most one has its place before the other.
pub proof fn lemma_before_asymmetric(a: FileEntry, b: FileEntry)
    requires
        comes_before(a, b),
    ensures
        !comes_before(b, a),
{
    if a.is_dir == b.is_dir {
        lemma_lex_asymmetric(encode_utf8(a.name@), encode_utf8(b.name@));
    }
}

/// Where `a` has not its place before `b`, nor `b` before `c`, `a` has not
/// its place before `c`.
pub proof fn lemma_not_before(a: FileEntry, b: FileEntry, c: FileEntry)
    requires
        !comes_before(a, b),
        !comes_before(b, c),
    ensures
        !comes_before(a, c),
{
    if a.is_dir == b.is_dir && b.is_dir == c.is_dir {
        lemma_lex_not_before(encode_utf8(a.name@), encode_utf8(b.name@), encode_utf8(c.name@));
    }
}

/// A listing of one entry holds that entry once and nothing else.
pub proof fn lemma_single(e: FileEntry)
    ensures
        seq![e].to_multiset() =~= Multiset::<FileEntry>::empty().insert(e),
{
    broadcast use vstd::multiset::group_multiset_axioms;

    let none = Seq::<FileEntry>::empty();
    assert(none.to_multiset() =~= Multiset::<FileEntry>::empty()) by {
        to_multiset_len(none);
        assert(none.to_multiset().len() == 0);
    }
    assert(seq![e] =~= none.push(e));
    to_multiset_build(none, e);
}

/// Putting an entry into an ordered listing gives an ordered listing that
/// holds the entry and what the listing held, each as often as before.
pub proof fn lemma_placed(e: FileEntry, sorted: Seq<FileEntry>)
    requires
        in_order(sorted),
    ensures
        in_order(placed(e, sorted)),
        placed(e, sorted).len() == sorted.len() + 1,
        placed(e, sorted).to_multiset() =~= sorted.to_multiset().insert(e),
    decreases sorted.len(),
{
    broadcast use vstd::multiset::group_multiset_axioms;

    let out = placed(e, sorted);
    if sorted.len() > 0 && comes_before(sorted[0], e) {
        let rest = sorted.drop_first();
        assert forall|i: int, j: int| 0 <= i < j < rest.len() implies !comes_before(
            rest[j],
            rest[i],
        ) by {
            assert(rest[i] == sorted[i + 1] && rest[j] == sorted[j + 1]);
        }
        lemma_placed(e, rest);
        let tail = placed(e, rest);
        assert(out =~= seq![sorted[0]] + tail);
        lemma_multiset_commutative(seq![sorted[0]], tail);
        lemma_multiset_commutative(seq![sorted[0]], rest);
        assert(sorted =~= seq![sorted[0]] + rest);
        assert forall|i: int, j: int| 0 <= i < j < out.len() implies !comes_before(
            out[j],
            out[i],
        ) by {
            if i == 0 {
                let y = out[j];
                assert(y == tail[j - 1]);
                assert(tail.contains(y));
                to_multiset_contains(tail, y);
                if y == e {
                    lemma_before_asymmetric(sorted[0], e);
                } else {
                    assert(rest.to_multiset().count(y) > 0);
                    to_multiset_contains(rest, y);
                    let k = choose|k: int| 0 <= k < rest.len() && rest[k] == y;
                    assert(sorted[k + 1] == y);
                }
            } else {
                assert(out[i] == tail[i - 1] && out[j] == tail[j - 1]);
            }
        }
    } else {
        assert(out =~= seq![e] + sorted);
        lemma_multiset_commutative(seq![e], sorted);
        lemma_single(e);
        assert forall|i: int, j: int| 0 <= i < j < out.len() implies !comes_before(
            out[j],
            out[i],
        ) by {
            if i == 0 {
                assert(out[j] == sorted[j - 1]);
                if j > 1 {
                    lemma_not_before(sorted[j - 1], sorted[0], e);
                }
            } else {
                assert(out[i] == sorted[i - 1] && out[j] == sorted[j - 1]);
            }
        }
    }
}

/// The arranged entries are in order, and they are the entries that were
/// given, each as often as it was given.
pub proof fn lemma_arranged(entries: Seq<FileEntry>)
    ensures
        in_order(arranged(entries)),
        arranged(entries).len() == entries.len(),
        arranged(entries).to_multiset() =~= entries.to_multiset(),
    decreases entries.len(),
{
    broadcast use vstd::multiset::group_multiset_axioms;

    if entries.len() == 0 {
        assert(arranged(entries) =~= entries);
    } else {
        let rest = entries.drop_first();
        lemma_arranged(rest);
        lemma_placed(entries[0], arranged(rest));
        assert(entries =~= seq![entries[0]] + rest);
        lemma_multiset_commutative(seq![entries[0]], rest);
        lemma_single(entries[0]);
    }
}

/// Whether `a` stands before `b` in the order of a dictionary.
pub fn bytes_before(a: &[u8], b: &[u8]) -> (r: bool)
    ensures
        r == lex_less(a@, b@),
{
    let mut i: usize = 0;
    assert(a@.skip(0) =~= a@ && b@.skip(0) =~= b@);
    while i < a.len() && i < b.len() && a[i] == b[i]
        invariant
            i <= a@.len(),
            i <= b@.len(),
            lex_less(a@, b@) == lex_less(a@.skip(i as int), b@.skip(i as int)),
        decreases a@.len() - i,
    {
        proof {
            let x = a@.skip(i as int);
            let y = b@.skip(i as int);
            assert(x[0] == a@[i as int] && y[0] == b@[i as int]);
            assert(x.drop_first() =~= a@.skip(i + 1));
            assert(y.drop_first() =~= b@.skip(i + 1));
        }
        i = i + 1;
    }
    proof {
        let x = a@.skip(i as int);
        let y = b@.skip(i as int);
        if i < a@.len() {
            assert(x[0] == a@[i as int]);
        }
        if i < b@.len() {
            assert(y[0] == b@[i as int]);
        }
    }
    if i >= b.len() {
        false
    } else if i >= a.len() {
        true
    } else {
        a[i] < b[i]
    }
}

/// Whether `a` has its place before `b` in a listing.
pub fn entry_before(a: &FileEntry, b: &FileEntry) -> (r: bool)
    ensures
        r == comes_before(*a, *b),
{
    if a.is_dir != b.is_dir {
        a.is_dir
    } else {
        bytes_before(a.name.as_str().as_bytes(), b.name.as_str().as_bytes())
    }
}

/// Puts the entries of a directory in order: directories first, then files,
/// each by name.
pub fn sort_entries(entries: Vec<FileEntry>) -> (r: Vec<FileEntry>)
    ensures
        r@ == arranged(entries@),
        in_order(r@),
        r@.to_multiset() =~= entries@.to_multiset(),
{
    let ghost given = entries@;
    let mut entries = entries;
    let mut out: Vec<FileEntry> = Vec::new();
    assert(given.skip(given.len() as int) =~= Seq::<FileEntry>::empty());
    while entries.len() > 0
        invariant
            entries@ == given.take(entries@.len() as int),
            entries@.len() <= given.len(),
            out@ == arranged(given.skip(entries@.len() as int)),
        decreases entries@.len(),
    {
        let ghost n = entries@.len() as int;
        let e = entries.pop().unwrap();
        proof {
            let tail = given.skip(n - 1);
            assert(tail[0] == e);
            assert(tail.drop_first() =~= given.skip(n));
            assert(entries@ =~= given.take(n - 1));
        }
        let ghost sorted = out@;
        let mut k: usize = 0;
        assert(sorted.skip(0) =~= sorted);
        assert(sorted.take(0) + placed(e, sorted.skip(0)) =~= placed(e, sorted));
        while k < out.len() && entry_before(&out[k], &e)
            invariant
                k <= out@.len(),
                out@ == sorted,
                placed(e, sorted) == sorted.take(k as int) + placed(e, sorted.skip(k as int)),
            decreases out@.len() - k,
        {
            proof {
                let t = sorted.skip(k as int);
                assert(t[0] == sorted[k as int]);
                assert(t.drop_first() =~= sorted.skip(k + 1));
                assert(sorted.take(k as int) + (seq![t[0]] + placed(e, t.drop_first()))
                    =~= sorted.take(k + 1) + placed(e, sorted.skip(k + 1)));
            }
            k = k + 1;
        }
        proof {
            let t = sorted.skip(k as int);
            if k < sorted.len() {
                assert(t[0] == sorted[k as int]);
            }
            assert(sorted.take(k as int) + (seq![e] + t) =~= sorted.insert(k as int, e));
        }
        out.insert(k, e);
    }
    proof {
        assert(given.skip(0) =~= given);
        lemma_arranged(given);
    }
    out
}

/// The text of `value`, where it is one.
pub open spec fn text_of(value: Option<String>) -> Option<Seq<char>> {
    match value {
        Some(s) => Some(s@),
        None => None,
    }
}

/// The truth value that the member `key` of `scope` holds.
pub open spec fn field_truth(scope: Json, key: Seq<char>) -> Option<bool> {
    match scope.member(key) {
        Some(v) => v.truth(),
        None => None,
    }
}

/// `entry` is the entry that the item `item` of a remote listing of
/// `remote_path` names: `Name`, `IsDir`, `Size` and `ModTime` are read; a
/// missing name is empty, a missing `IsDir` is no directory, and the path is
/// the listed path, without the slashes at its end, a slash and the name.
pub open spec fn is_remote_entry(remote_path: Seq<char>, item: Json, entry: FileEntry) -> bool {
    &&& entry.name@ == match field_text(item, "Name"@) {
        Some(name) => name,
        None => Seq::empty(),
    }
    &&& entry.path@ == without_trailing_slashes(remote_path) + "/"@ + entry.name@
    &&& entry.is_dir == (field_truth(item, "IsDir"@) == Some(true))
    &&& entry.size == field_natural(item, "Size"@)
    &&& text_of(entry.modified) == field_text(item, "ModTime"@)
}

/// `entries` are the entries that the remote listing `listing` of
/// `remote_path` names, one for each item and in their order.
pub open spec fn are_remote_entries(
    remote_path: Seq<char>,
    listing: Json,
    entries: Seq<FileEntry>,
) -> bool {
    &&& listing.items() is Some
    &&& entries.len() == listing.items()->0.len()
    &&& forall|i: int|
        0 <= i < entries.len() ==> is_remote_entry(
            remote_path,
            listing.items()->0[i],
            #[trigger] entries[i],
        )
}

/// Why a remote listing could not be read.
#[derive(Debug, Clone, Copy, PartialEq, Eq, Structural)]
pub enum ListingError {
    /// The output of the transfer tool is no JSON text.
    NotJson,
    /// The output of the transfer tool is JSON, but no array.
    NotAList,
}

/// The entry that one item of a remote listing names.
pub fn remote_entry(prefix: &str, item: &Json) -> (entry: FileEntry)
    ensures
        entry.name@ == match field_text(*item, "Name"@) {
            Some(name) => name,
            None => Seq::empty(),
        },
        entry.path@ == prefix@ + "/"@ + entry.name@,
        entry.is_dir == (field_truth(*item, "IsDir"@) == Some(true)),
        entry.size == field_natural(*item, "Size"@),
        text_of(entry.modified) == field_text(*item, "ModTime"@),
{
    let name: String = match item.get("Name") {
        Some(v) => match v.as_str() {
            Some(s) => String::from_str(s),
            None => String::new(),
        },
        None => String::new(),
    };
    let is_dir: bool = match item.get("IsDir") {
        Some(v) => match v.as_bool() {
            Some(b) => b,
            None => false,
        },
        None => false,
    };
    let size: Option<u64> = match item.get("Size") {
        Some(v) => v.as_natural(),
        None => None,
    };
    let modified: Option<String> = match item.get("ModTime") {
        Some(v) => match v.as_str() {
            Some(s) => Some(String::from_str(s)),
            None => None,
        },
        None => None,
    };
    let path = join3(prefix, "/", name.as_str());
    FileEntry { name, path, is_dir, size, modified }
}

/// The entries that the remote listing `listing` of `remote_path` names;
/// `None` where the listing is no array.
pub fn remote_entries(remote_path: &str, listing: &Json) -> (r: Option<Vec<FileEntry>>)
    ensures
        r is Some <==> *listing is Array,
        r is Some ==> are_remote_entries(remote_path@, *listing, r->0@),
{
    match listing.to_items() {
        Some(items) => {
            let prefix = strip_trailing_slashes(remote_path);
            let mut out: Vec<FileEntry> = Vec::new();
            let mut i: usize = 0;
            while i < items.len()
                invariant
                    i <= items@.len(),
                    out@.len() == i,
                    prefix@ == without_trailing_slashes(remote_path@),
                    forall|k: int|
                        0 <= k < i ==> is_remote_entry(remote_path@, items@[k], #[trigger] out@[k]),
                decreases items@.len() - i,
            {
                out.push(remote_entry(prefix, &items[i]));
                i = i + 1;
            }
            Some(out)
        },
        None => None,
    }
}

/// What is made of the value `parsed` that was read from the output of a
/// remote listing of `remote_path`.
pub fn entries_from(remote_path: &str, parsed: &Option<Json>) -> (r: Result<
    Vec<FileEntry>,
    ListingError,
>)
    ensures
        match r {
            Ok(entries) => parsed is Some && are_remote_entries(remote_path@, parsed->0, entries@),
            Err(e) => match *parsed {
                None => e == ListingError::NotJson,
                Some(listing) => e == ListingError::NotAList && !(listing is Array),
            },
        },
{
    match parsed {
        None => Err(ListingError::NotJson),
        Some(listing) => match remote_entries(remote_path, listing) {
            Some(entries) => Ok(entries),
            None => Err(ListingError::NotAList),
        },
    }
}

/// Reads the output of a remote listing of `remote_path`: the JSON array that
/// the transfer tool prints, one object for each entry.
pub fn list_remote_directory(remote_path: &str, output: &str) -> (r: Result<
    Vec<FileEntry>,
    ListingError,
>)
    ensures
        match r {
            Ok(entries) => json_text_value(output@) is Some && are_remote_entries(
                remote_path@,
                json_text_value(output@)->0,
                entries@,
            ),
            Err(e) => match json_text_value(output@) {
                None => e == ListingError::NotJson,
                Some(listing) => e == ListingError::NotAList && !(listing is Array),
            },
        },
{
    let parsed = parse_json(output);
    entries_from(remote_path, &parsed)
}

} // verus!
