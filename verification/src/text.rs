//! Searching, trimming and splitting of text.
//!
//! The transfer tool writes its output as text. Every rule of this crate that
//! reads such text is stated over the characters of the line; whitespace is
//! what `char::is_whitespace` calls so.

use vstd::prelude::*;
use vstd::slice::*;
use vstd::string::*;

verus! {

/// Whether `c` is whitespace, as `char::is_whitespace` says.
pub uninterp spec fn is_whitespace_char(c: char) -> bool;

/// `char::is_whitespace` of std: the contract gives its answer a name and
/// claims only that it depends on the character alone.
pub assume_specification[ char::is_whitespace ](c: char) -> (r: bool)
    ensures
        r == is_whitespace_char(c),
;

/// `needle` stands in `hay` at index `i`.
pub open spec fn occurs_at(hay: Seq<char>, needle: Seq<char>, i: int) -> bool {
    0 <= i && i + needle.len() <= hay.len() && hay.subrange(i, i + needle.len()) =~= needle
}

/// The least index at or after `from` at which `needle` stands in `hay`.
pub open spec fn first_index_from(hay: Seq<char>, needle: Seq<char>, from: int) -> Option<int>
    decreases hay.len() - from,
{
    if from < 0 || from + needle.len() > hay.len() {
        None
    } else if occurs_at(hay, needle, from) {
        Some(from)
    } else {
        first_index_from(hay, needle, from + 1)
    }
}

/// The index of the first occurrence of `needle` in `hay`.
pub open spec fn first_index(hay: Seq<char>, needle: Seq<char>) -> Option<int> {
    first_index_from(hay, needle, 0)
}

/// What `first_index_from` finds is an occurrence, and no occurrence lies
/// between `from` and it; where it finds none, there is none from `from` on.
pub proof fn lemma_first_index_from(hay: Seq<char>, needle: Seq<char>, from: int)
    requires
        0 <= from,
    ensures
        match first_index_from(hay, needle, from) {
            Some(i) => from <= i && occurs_at(hay, needle, i) && forall|j: int|
                from <= j < i ==> !occurs_at(hay, needle, j),
            None => forall|j: int| from <= j ==> !occurs_at(hay, needle, j),
        },
    decreases hay.len() - from,
{
    if from + needle.len() > hay.len() {
    } else if occurs_at(hay, needle, from) {
    } else {
        lemma_first_index_from(hay, needle, from + 1);
    }
}

/// Whether `needle` stands in `hay` at index `i`.
pub(crate) fn matches_at(hay: &[char], needle: &[char], i: usize) -> (r: bool)
    requires
        i + needle@.len() <= hay@.len(),
    ensures
        r == occurs_at(hay@, needle@, i as int),
{
    let n: usize = needle.len();
    let len: usize = hay.len();
    let mut k: usize = 0;
    while k < n
        invariant
            n == needle@.len(),
            len == hay@.len(),
            i + n <= len,
            k <= n,
            forall|j: int| 0 <= j < k ==> hay@[i + j] == needle@[j],
        decreases n - k,
    {
        if hay[i + k] != needle[k] {
            proof {
                let sub = hay@.subrange(i as int, i + n);
                assert(sub[k as int] == hay@[i + k]);
            }
            return false;
        }
        k = k + 1;
    }
    proof {
        assert(hay@.subrange(i as int, i + n) =~= needle@);
    }
    true
}

/// The index of the first occurrence of `needle` in `hay`.
pub fn find(hay: &[char], needle: &[char]) -> (r: Option<usize>)
    ensures
        match r {
            Some(i) => first_index(hay@, needle@) == Some(i as int) && i + needle@.len()
                <= hay@.len() <= usize::MAX,
            None => first_index(hay@, needle@) is None,
        },
{
    let n: usize = needle.len();
    let len: usize = hay.len();
    if n > len {
        return None;
    }
    let last: usize = len - n;
    let mut i: usize = 0;
    while i <= last
        invariant
            n == needle@.len(),
            len == hay@.len(),
            last == len - n,
            i <= last,
            first_index(hay@, needle@) == first_index_from(hay@, needle@, i as int),
        decreases last - i,
    {
        if matches_at(hay, needle, i) {
            return Some(i);
        }
        if i == last {
            assert(first_index_from(hay@, needle@, i + 1) is None);
            return None;
        }
        i = i + 1;
    }
    None
}

/// The character `b` is one of `set`.
pub open spec fn in_set(set: Seq<char>, b: char) -> bool {
    exists|k: int| 0 <= k < set.len() && set[k] == b
}

/// The greatest index of `hay` that holds a character of `set`.
pub open spec fn last_index_of_any(hay: Seq<char>, set: Seq<char>) -> Option<int>
    decreases hay.len(),
{
    if hay.len() == 0 {
        None
    } else if in_set(set, hay.last()) {
        Some(hay.len() - 1)
    } else {
        last_index_of_any(hay.drop_last(), set)
    }
}

/// What `last_index_of_any` finds holds a character of `set`, and no later index
/// does; where it finds none, no character of `hay` is in `set`.
pub proof fn lemma_last_index_of_any(hay: Seq<char>, set: Seq<char>)
    ensures
        match last_index_of_any(hay, set) {
            Some(i) => 0 <= i < hay.len() && in_set(set, hay[i]) && forall|j: int|
                i < j < hay.len() ==> !in_set(set, hay[j]),
            None => forall|j: int| 0 <= j < hay.len() ==> !in_set(set, hay[j]),
        },
    decreases hay.len(),
{
    if hay.len() == 0 {
    } else if in_set(set, hay.last()) {
    } else {
        lemma_last_index_of_any(hay.drop_last(), set);
        assert forall|j: int| 0 <= j < hay.len() - 1 implies hay.drop_last()[j] == hay[j] by {}
    }
}

/// Whether `b` is one of `set`.
pub fn char_in(set: &[char], b: char) -> (r: bool)
    ensures
        r == in_set(set@, b),
{
    let mut k: usize = 0;
    while k < set.len()
        invariant
            k <= set@.len(),
            forall|j: int| 0 <= j < k ==> set@[j] != b,
        decreases set@.len() - k,
    {
        if set[k] == b {
            return true;
        }
        k = k + 1;
    }
    false
}

/// The greatest index of `hay` that holds a character of `set`.
pub fn rfind_any(hay: &[char], set: &[char]) -> (r: Option<usize>)
    ensures
        match r {
            Some(i) => last_index_of_any(hay@, set@) == Some(i as int) && i < hay@.len(),
            None => last_index_of_any(hay@, set@) is None,
        },
{
    let mut i: usize = hay.len();
    assert(hay@.take(i as int) =~= hay@);
    while i > 0
        invariant
            i <= hay@.len(),
            last_index_of_any(hay@, set@) == last_index_of_any(hay@.take(i as int), set@),
        decreases i,
    {
        proof {
            let h = hay@.take(i as int);
            assert(h.last() == hay@[i - 1]);
            assert(h.drop_last() =~= hay@.take(i - 1));
        }
        if char_in(set, hay[i - 1]) {
            return Some(i - 1);
        }
        i = i - 1;
    }
    proof {
        assert(hay@.take(0).len() == 0);
    }
    None
}

/// `c` is whitespace.
pub open spec fn is_space(c: char) -> bool {
    is_whitespace_char(c)
}

/// The number of leading characters of `s` that are whitespace (`spaces`), or that
/// are not (`!spaces`).
pub open spec fn leading_run(s: Seq<char>, spaces: bool) -> nat
    decreases s.len(),
{
    if s.len() > 0 && is_space(s[0]) == spaces {
        1 + leading_run(s.drop_first(), spaces)
    } else {
        0
    }
}

/// The number of trailing characters of `s` that are whitespace.
pub open spec fn trailing_spaces(s: Seq<char>) -> nat
    decreases s.len(),
{
    if s.len() > 0 && is_space(s.last()) {
        1 + trailing_spaces(s.drop_last())
    } else {
        0
    }
}

/// `s` without its leading whitespace.
pub open spec fn trim_start(s: Seq<char>) -> Seq<char> {
    s.skip(leading_run(s, true) as int)
}

/// `s` without its trailing whitespace.
pub open spec fn trim_end(s: Seq<char>) -> Seq<char> {
    s.take(s.len() - trailing_spaces(s))
}

/// `s` without its leading and trailing whitespace.
pub open spec fn trim(s: Seq<char>) -> Seq<char> {
    trim_end(trim_start(s))
}

/// The first whitespace-separated word of `s`; empty where `s` holds none.
pub open spec fn first_word(s: Seq<char>) -> Seq<char> {
    trim_start(s).take(leading_run(trim_start(s), false) as int)
}

/// What follows the first whitespace-separated word of `s`.
pub open spec fn after_first_word(s: Seq<char>) -> Seq<char> {
    trim_start(s).skip(leading_run(trim_start(s), false) as int)
}

/// The number of leading characters of `s` that are whitespace (`spaces`), or that
/// are not (`!spaces`).
pub fn count_leading(s: &[char], spaces: bool) -> (n: usize)
    ensures
        n == leading_run(s@, spaces),
        n <= s@.len(),
{
    let mut i: usize = 0;
    assert(s@.skip(0) =~= s@);
    while i < s.len() && s[i].is_whitespace() == spaces
        invariant
            i <= s@.len(),
            leading_run(s@, spaces) == i + leading_run(s@.skip(i as int), spaces),
        decreases s@.len() - i,
    {
        proof {
            let t = s@.skip(i as int);
            assert(t[0] == s@[i as int]);
            assert(t.drop_first() =~= s@.skip(i + 1));
        }
        i = i + 1;
    }
    proof {
        let t = s@.skip(i as int);
        if i < s@.len() {
            assert(t[0] == s@[i as int]);
        }
    }
    i
}

/// `s` without its leading whitespace.
pub fn trim_start_chars(s: &[char]) -> (r: &[char])
    ensures
        r@ == trim_start(s@),
{
    let n: usize = count_leading(s, true);
    slice_subrange(s, n, s.len())
}

/// `s` without its trailing whitespace.
pub fn trim_end_chars(s: &[char]) -> (r: &[char])
    ensures
        r@ == trim_end(s@),
{
    let mut i: usize = s.len();
    assert(s@.take(i as int) =~= s@);
    while i > 0 && s[i - 1].is_whitespace()
        invariant
            i <= s@.len(),
            trailing_spaces(s@) == (s@.len() - i) + trailing_spaces(s@.take(i as int)),
        decreases i,
    {
        proof {
            let t = s@.take(i as int);
            assert(t.last() == s@[i - 1]);
            assert(t.drop_last() =~= s@.take(i - 1));
        }
        i = i - 1;
    }
    proof {
        let t = s@.take(i as int);
        if i > 0 {
            assert(t.last() == s@[i - 1]);
        }
    }
    slice_subrange(s, 0, i)
}

/// `s` without its leading and trailing whitespace.
pub fn trim_chars(s: &[char]) -> (r: &[char])
    ensures
        r@ == trim(s@),
{
    trim_end_chars(trim_start_chars(s))
}

/// Splits `s` into its first whitespace-separated word and what follows it.
pub fn split_first_word(s: &[char]) -> (r: (&[char], &[char]))
    ensures
        r.0@ == first_word(s@),
        r.1@ == after_first_word(s@),
{
    let t = trim_start_chars(s);
    let n: usize = count_leading(t, false);
    (slice_subrange(t, 0, n), slice_subrange(t, n, t.len()))
}

/// The part of `s` before index `i`.
pub(crate) fn before(s: &[char], i: usize) -> (r: &[char])
    requires
        i <= s@.len(),
    ensures
        r@ == s@.take(i as int),
{
    slice_subrange(s, 0, i)
}

/// The part of `s` from index `i` on.
pub(crate) fn after(s: &[char], i: usize) -> (r: &[char])
    requires
        i <= s@.len(),
    ensures
        r@ == s@.skip(i as int),
{
    slice_subrange(s, i, s.len())
}

/// Whether two byte texts are the same.
pub fn bytes_eq(a: &[u8], b: &[u8]) -> (r: bool)
    ensures
        r == (a@ == b@),
{
    if a.len() != b.len() {
        return false;
    }
    let mut i: usize = 0;
    while i < a.len()
        invariant
            a@.len() == b@.len(),
            i <= a@.len(),
            forall|j: int| 0 <= j < i ==> a@[j] == b@[j],
        decreases a@.len() - i,
    {
        if a[i] != b[i] {
            return false;
        }
        i = i + 1;
    }
    proof {
        assert(a@ =~= b@);
    }
    true
}

} // verus!
