//! Searching and slicing of character sequences.
//!
//! Each executable function works on `&str` and is specified over the
//! sequence of characters that the string holds.

use vstd::prelude::*;
use vstd::string::*;

verus! {

/// `needle` occurs in `hay` starting at index `i`.
pub open spec fn occurs_at(hay: Seq<char>, needle: Seq<char>, i: int) -> bool {
    &&& 0 <= i
    &&& i + needle.len() <= hay.len()
    &&& hay.subrange(i, i + needle.len()) == needle
}

/// Index of the first occurrence of `needle` in `hay` at or after `from`.
pub open spec fn find_from(hay: Seq<char>, needle: Seq<char>, from: int) -> Option<int>
    decreases hay.len() - needle.len() - from + 1,
{
    if from < 0 || from + needle.len() > hay.len() {
        None
    } else if occurs_at(hay, needle, from) {
        Some(from)
    } else {
        find_from(hay, needle, from + 1)
    }
}

/// Index of the first occurrence of `needle` in `hay`.
pub open spec fn find(hay: Seq<char>, needle: Seq<char>) -> Option<int> {
    find_from(hay, needle, 0)
}

/// Index of the first `c` in `s` at or after `from`, or `s.len()` if there is
/// none.
pub open spec fn index_of_from(s: Seq<char>, c: char, from: int) -> int
    decreases s.len() - from,
{
    if from < 0 || from >= s.len() {
        s.len() as int
    } else if s[from] == c {
        from
    } else {
        index_of_from(s, c, from + 1)
    }
}

/// The part of `s` before the first `c`; all of `s` if it holds no `c`.
pub open spec fn before_first(s: Seq<char>, c: char) -> Seq<char> {
    s.take(index_of_from(s, c, 0))
}

/// Start of the last `c`-separated segment of `s.take(upto)`.
pub open spec fn last_segment_start(s: Seq<char>, c: char, upto: int) -> int
    decreases upto,
{
    if upto <= 0 || upto > s.len() {
        0
    } else if s[upto - 1] == c {
        upto
    } else {
        last_segment_start(s, c, upto - 1)
    }
}

/// The part of `s` after the last `c`; all of `s` if it holds no `c`.
pub open spec fn after_last(s: Seq<char>, c: char) -> Seq<char> {
    s.skip(last_segment_start(s, c, s.len() as int))
}

/// Index of the first character of `s` at or after `from` that is not `c`, or
/// `s.len()` if there is none.
pub open spec fn leading_end(s: Seq<char>, c: char, from: int) -> int
    decreases s.len() - from,
{
    if from < 0 || from >= s.len() {
        s.len() as int
    } else if s[from] != c {
        from
    } else {
        leading_end(s, c, from + 1)
    }
}

/// One past the index of the last character of `s.take(upto)` that is not
/// `c`, or `0` if there is none.
pub open spec fn trailing_start(s: Seq<char>, c: char, upto: int) -> int
    decreases upto,
{
    if upto <= 0 || upto > s.len() {
        0
    } else if s[upto - 1] != c {
        upto
    } else {
        trailing_start(s, c, upto - 1)
    }
}

/// `s` without its leading and trailing run of `c`.
pub open spec fn trim_matches(s: Seq<char>, c: char) -> Seq<char> {
    let from = leading_end(s, c, 0);
    let to = trailing_start(s, c, s.len() as int);
    if from <= to {
        s.subrange(from, to)
    } else {
        Seq::empty()
    }
}

/// `find_from` returns the least index at or after `from` at which `needle`
/// occurs, and `None` exactly when there is no such index.
pub proof fn lemma_find_from(hay: Seq<char>, needle: Seq<char>, from: int)
    requires
        0 <= from,
    ensures
        match find_from(hay, needle, from) {
            Some(i) => {
                &&& from <= i
                &&& occurs_at(hay, needle, i)
                &&& forall|j: int| from <= j < i ==> !occurs_at(hay, needle, j)
            },
            None => forall|j: int| from <= j ==> !occurs_at(hay, needle, j),
        },
    decreases hay.len() - needle.len() - from + 1,
{
    if from + needle.len() > hay.len() {
    } else if occurs_at(hay, needle, from) {
    } else {
        lemma_find_from(hay, needle, from + 1);
    }
}

/// `index_of_from` returns the least index at or after `from` that holds `c`.
pub proof fn lemma_index_of_from(s: Seq<char>, c: char, from: int)
    requires
        0 <= from <= s.len(),
    ensures
        from <= index_of_from(s, c, from) <= s.len(),
        index_of_from(s, c, from) < s.len() ==> s[index_of_from(s, c, from)] == c,
        forall|j: int| from <= j < index_of_from(s, c, from) ==> s[j] != c,
    decreases s.len() - from,
{
    if from < s.len() && s[from] != c {
        lemma_index_of_from(s, c, from + 1);
    }
}

/// `last_segment_start` lies just behind the last `c` below `upto`.
pub proof fn lemma_last_segment_start(s: Seq<char>, c: char, upto: int)
    requires
        0 <= upto <= s.len(),
    ensures
        0 <= last_segment_start(s, c, upto) <= upto,
        last_segment_start(s, c, upto) > 0 ==> s[last_segment_start(s, c, upto) - 1] == c,
        forall|j: int| last_segment_start(s, c, upto) <= j < upto ==> s[j] != c,
    decreases upto,
{
    if upto > 0 && s[upto - 1] != c {
        lemma_last_segment_start(s, c, upto - 1);
    }
}

/// `leading_end` is the length of the leading run of `c` from `from` on.
pub proof fn lemma_leading_end(s: Seq<char>, c: char, from: int)
    requires
        0 <= from <= s.len(),
    ensures
        from <= leading_end(s, c, from) <= s.len(),
        leading_end(s, c, from) < s.len() ==> s[leading_end(s, c, from)] != c,
        forall|j: int| from <= j < leading_end(s, c, from) ==> s[j] == c,
    decreases s.len() - from,
{
    if from < s.len() && s[from] == c {
        lemma_leading_end(s, c, from + 1);
    }
}

/// `trailing_start` cuts exactly the trailing run of `c` below `upto`.
pub proof fn lemma_trailing_start(s: Seq<char>, c: char, upto: int)
    requires
        0 <= upto <= s.len(),
    ensures
        0 <= trailing_start(s, c, upto) <= upto,
        trailing_start(s, c, upto) > 0 ==> s[trailing_start(s, c, upto) - 1] != c,
        forall|j: int| trailing_start(s, c, upto) <= j < upto ==> s[j] == c,
    decreases upto,
{
    if upto > 0 && s[upto - 1] == c {
        lemma_trailing_start(s, c, upto - 1);
    }
}

/// Whether `needle` occurs in `hay` at character index `at`.
pub fn matches_at(hay: &str, needle: &str, at: usize) -> (found: bool)
    requires
        at + needle@.len() <= hay@.len(),
    ensures
        found == occurs_at(hay@, needle@, at as int),
{
    let h = hay.unicode_len();
    let n = needle.unicode_len();
    let mut k: usize = 0;
    while k < n
        invariant
            h == hay@.len(),
            n == needle@.len(),
            at + n <= hay@.len(),
            k <= n,
            forall|j: int| 0 <= j < k ==> hay@[at + j] == needle@[j],
        decreases n - k,
    {
        if hay.get_char(at + k) != needle.get_char(k) {
            proof {
                let window = hay@.subrange(at as int, at + n);
                assert(window[k as int] == hay@[at + k]);
            }
            return false;
        }
        k = k + 1;
    }
    assert(hay@.subrange(at as int, at + n) =~= needle@);
    true
}

/// Character index of the first occurrence of `needle` in `hay`.
pub fn find_str(hay: &str, needle: &str) -> (found: Option<usize>)
    ensures
        match found {
            Some(i) => find(hay@, needle@) == Some(i as int) && i + needle@.len() <= hay@.len()
                <= usize::MAX,
            None => find(hay@, needle@) is None,
        },
{
    let h = hay.unicode_len();
    let n = needle.unicode_len();
    if n > h {
        return None;
    }
    let last = h - n;
    let mut i: usize = 0;
    loop
        invariant
            h == hay@.len(),
            n == needle@.len(),
            last == h - n,
            i <= last,
            find(hay@, needle@) == find_from(hay@, needle@, i as int),
        decreases last - i,
    {
        if matches_at(hay, needle, i) {
            return Some(i);
        }
        if i == last {
            assert(find_from(hay@, needle@, i + 1) is None);
            return None;
        }
        i = i + 1;
    }
}

/// Character index of the first `c` in `s`, or the length of `s`.
pub fn index_of_char(s: &str, c: char) -> (at: usize)
    ensures
        at == index_of_from(s@, c, 0),
        at <= s@.len(),
{
    let n = s.unicode_len();
    let mut i: usize = 0;
    while i < n && s.get_char(i) != c
        invariant
            n == s@.len(),
            i <= n,
            index_of_from(s@, c, 0) == index_of_from(s@, c, i as int),
        decreases n - i,
    {
        i = i + 1;
    }
    i
}

/// Character index at which the last `c`-separated segment of `s` starts.
pub fn last_segment_index(s: &str, c: char) -> (at: usize)
    ensures
        at == last_segment_start(s@, c, s@.len() as int),
        at <= s@.len(),
{
    let n = s.unicode_len();
    let mut j: usize = n;
    while j > 0 && s.get_char(j - 1) != c
        invariant
            n == s@.len(),
            j <= n,
            last_segment_start(s@, c, n as int) == last_segment_start(s@, c, j as int),
        decreases j,
    {
        j = j - 1;
    }
    j
}

/// `s` without its leading and trailing run of `c`.
pub fn trim_char<'a>(s: &'a str, c: char) -> (trimmed: &'a str)
    ensures
        trimmed@ == trim_matches(s@, c),
{
    let n = s.unicode_len();
    let mut from: usize = 0;
    while from < n && s.get_char(from) == c
        invariant
            n == s@.len(),
            from <= n,
            leading_end(s@, c, 0) == leading_end(s@, c, from as int),
        decreases n - from,
    {
        from = from + 1;
    }
    let mut to: usize = n;
    while to > 0 && s.get_char(to - 1) == c
        invariant
            n == s@.len(),
            to <= n,
            trailing_start(s@, c, n as int) == trailing_start(s@, c, to as int),
        decreases to,
    {
        to = to - 1;
    }
    if from <= to {
        s.substring_char(from, to)
    } else {
        let empty = s.substring_char(0, 0);
        assert(empty@ =~= Seq::<char>::empty());
        empty
    }
}

/// Whether two strings hold the same characters.
pub fn same_text(a: &str, b: &str) -> (same: bool)
    ensures
        same == (a@ == b@),
{
    let n = a.unicode_len();
    if n != b.unicode_len() {
        return false;
    }
    let same = matches_at(a, b, 0);
    assert(a@.subrange(0, n as int) =~= a@);
    same
}

/// The characters of `s` from index `from` on.
pub fn suffix<'a>(s: &'a str, from: usize) -> (rest: &'a str)
    requires
        from <= s@.len(),
    ensures
        rest@ == s@.skip(from as int),
{
    let n = s.unicode_len();
    let rest = s.substring_char(from, n);
    assert(rest@ =~= s@.skip(from as int));
    rest
}

/// The first `to` characters of `s`.
pub fn prefix<'a>(s: &'a str, to: usize) -> (head: &'a str)
    requires
        to <= s@.len(),
    ensures
        head@ == s@.take(to as int),
{
    let head = s.substring_char(0, to);
    assert(head@ =~= s@.take(to as int));
    head
}

} // verus!
