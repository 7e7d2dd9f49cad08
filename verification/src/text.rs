use crate::unicode::{is_whitespace, white_space};
use vstd::prelude::*;
use vstd::std_specs::iter::IteratorSpec;

verus! {

/// The characters of a borrowed text that may be absent.
pub open spec fn text_of(text: Option<&str>) -> Option<Seq<char>> {
    match text {
        Some(present) => Some(present@),
        None => None,
    }
}

/// The characters of an owned text that may be absent.
pub open spec fn chars_of(text: Option<String>) -> Option<Seq<char>> {
    match text {
        Some(present) => Some(present@),
        None => None,
    }
}

/// The position of the first `c` in `s`, or the length of `s` where it holds none.
pub open spec fn first_index(s: Seq<char>, c: char) -> int
    decreases s.len(),
{
    if s.len() == 0 || s[0] == c {
        0
    } else {
        1 + first_index(s.drop_first(), c)
    }
}

/// `first_index` lies within the text or at its end, points at `c` when it
/// lies within, and nothing before it is `c`.
pub proof fn lemma_first_index(s: Seq<char>, c: char)
    ensures
        0 <= first_index(s, c) <= s.len(),
        first_index(s, c) < s.len() ==> s[first_index(s, c)] == c,
        forall|j: int| 0 <= j < first_index(s, c) ==> s[j] != c,
    decreases s.len(),
{
    if s.len() != 0 && s[0] != c {
        let rest = s.drop_first();
        lemma_first_index(rest, c);
        assert forall|j: int| 0 <= j < first_index(s, c) implies s[j] != c by {
            if j > 0 {
                assert(s[j] == rest[j - 1]);
            }
        }
    }
}

/// Any position that points at `c` with no `c` before it is `first_index`.
pub proof fn lemma_first_index_is(s: Seq<char>, c: char, i: int)
    requires
        0 <= i <= s.len(),
        i < s.len() ==> s[i] == c,
        forall|j: int| 0 <= j < i ==> s[j] != c,
    ensures
        first_index(s, c) == i,
{
    lemma_first_index(s, c);
    let k = first_index(s, c);
    if k < i {
        assert(s[k] == c);
    }
}

/// Finds the first `c` in `s`, counting characters; gives the number of
/// characters of `s` where there is none.
pub fn find_char(s: &str, c: char) -> (at: usize)
    ensures
        at == first_index(s@, c),
{
    let total = s.unicode_len();
    let mut chars = s.chars();
    let mut at: usize = 0;
    loop
        invariant
            total == s@.len(),
            at <= total,
            chars.remaining() == s@.skip(at as int),
            forall|j: int| 0 <= j < at ==> s@[j] != c,
        decreases total - at,
    {
        match chars.next() {
            Some(found) => {
                if found == c {
                    proof {
                        lemma_first_index_is(s@, c, at as int);
                    }
                    return at;
                }
                at = at + 1;
            },
            None => {
                proof {
                    lemma_first_index_is(s@, c, at as int);
                }
                return at;
            },
        }
    }
}

/// The position of the last `c` in `s`, or -1 where it holds none.
pub open spec fn last_index(s: Seq<char>, c: char) -> int
    decreases s.len(),
{
    if s.len() == 0 {
        -1
    } else if s.last() == c {
        s.len() - 1
    } else {
        last_index(s.drop_last(), c)
    }
}

/// `last_index` is -1 or lies within the text; it points at `c` when it lies
/// within, and nothing behind it is `c`.
pub proof fn lemma_last_index(s: Seq<char>, c: char)
    ensures
        -1 <= last_index(s, c) < s.len(),
        last_index(s, c) >= 0 ==> s[last_index(s, c)] == c,
        forall|j: int| last_index(s, c) < j < s.len() ==> s[j] != c,
    decreases s.len(),
{
    if s.len() != 0 && s.last() != c {
        let front = s.drop_last();
        lemma_last_index(front, c);
        assert forall|j: int| last_index(s, c) < j < s.len() implies s[j] != c by {
            if j < front.len() {
                assert(s[j] == front[j]);
            }
        }
    }
}

/// Finds the last `c` in `s`, counting characters.
pub fn find_last_char(s: &str, c: char) -> (at: Option<usize>)
    ensures
        match at {
            Some(i) => i == last_index(s@, c),
            None => last_index(s@, c) == -1,
        },
{
    let total = s.unicode_len();
    let mut chars = s.chars();
    let mut seen: usize = 0;
    let mut last: Option<usize> = None;
    loop
        invariant
            total == s@.len(),
            seen <= total,
            chars.remaining() == s@.skip(seen as int),
            match last {
                Some(i) => i == last_index(s@.take(seen as int), c),
                None => last_index(s@.take(seen as int), c) == -1,
            },
        decreases total - seen,
    {
        match chars.next() {
            Some(found) => {
                proof {
                    let longer = s@.take(seen + 1);
                    assert(longer.drop_last() == s@.take(seen as int));
                    assert(longer.last() == found);
                }
                if found == c {
                    last = Some(seen);
                }
                seen = seen + 1;
            },
            None => {
                assert(s@.take(seen as int) == s@);
                return last;
            },
        }
    }
}

/// Tells whether two texts hold the same characters.
pub fn same_text(a: &str, b: &str) -> (same: bool)
    ensures
        same == (a@ == b@),
{
    let total = a.unicode_len();
    if b.unicode_len() != total {
        return false;
    }
    let mut left = a.chars();
    let mut right = b.chars();
    let mut seen: usize = 0;
    loop
        invariant
            total == a@.len(),
            total == b@.len(),
            seen <= total,
            left.remaining() == a@.skip(seen as int),
            right.remaining() == b@.skip(seen as int),
            forall|j: int| 0 <= j < seen ==> a@[j] == b@[j],
        decreases total - seen,
    {
        match (left.next(), right.next()) {
            (Some(x), Some(y)) => {
                if x != y {
                    assert(a@[seen as int] != b@[seen as int]);
                    return false;
                }
                seen = seen + 1;
            },
            _ => {
                assert(a@ =~= b@);
                return true;
            },
        }
    }
}

/// A text without the white space at its beginning.
pub open spec fn trim_start_of(text: Seq<char>) -> Seq<char>
    decreases text.len(),
{
    if text.len() > 0 && white_space(text[0]) {
        trim_start_of(text.drop_first())
    } else {
        text
    }
}

/// A text without the white space at its end.
pub open spec fn trim_end_of(text: Seq<char>) -> Seq<char>
    decreases text.len(),
{
    if text.len() > 0 && white_space(text.last()) {
        trim_end_of(text.drop_last())
    } else {
        text
    }
}

/// A text without the white space at its beginning and at its end.
pub open spec fn trim_of(text: Seq<char>) -> Seq<char> {
    trim_end_of(trim_start_of(text))
}

/// Where white space fills the first `k` places of a text and the next
/// place holds something else, or nothing, the text without the white space
/// at its beginning starts at `k`.
pub proof fn lemma_trim_start(text: Seq<char>, k: int)
    requires
        0 <= k <= text.len(),
        forall|j: int| 0 <= j < k ==> white_space(text[j]),
        k < text.len() ==> !white_space(text[k]),
    ensures
        trim_start_of(text) == text.skip(k),
    decreases k,
{
    if k == 0 {
        assert(text.skip(0) == text);
    } else {
        let rest = text.drop_first();
        assert forall|j: int| 0 <= j < k - 1 implies white_space(rest[j]) by {
            assert(rest[j] == text[j + 1]);
        }
        lemma_trim_start(rest, k - 1);
        assert(rest.skip(k - 1) == text.skip(k));
    }
}

/// Where white space fills a text from place `k` on and the place before
/// holds something else, or nothing, the text without the white space at
/// its end stops before `k`.
pub proof fn lemma_trim_end(text: Seq<char>, k: int)
    requires
        0 <= k <= text.len(),
        forall|j: int| k <= j < text.len() ==> white_space(text[j]),
        k > 0 ==> !white_space(text[k - 1]),
    ensures
        trim_end_of(text) == text.take(k),
    decreases text.len() - k,
{
    if k == text.len() {
        assert(text.take(k) == text);
    } else {
        let front = text.drop_last();
        lemma_trim_end(front, k);
        assert(front.take(k) == text.take(k));
    }
}

/// Gives the part of a text between the white space at its beginning and
/// the white space at its end.
pub fn trim(text: &str) -> (inner: &str)
    ensures
        inner@ == trim_of(text@),
{
    let total = text.unicode_len();
    let mut chars = text.chars();
    let mut seen: usize = 0;
    let mut start: usize = 0;
    let mut end: usize = 0;
    loop
        invariant
            total == text@.len(),
            seen <= total,
            end == 0 ==> start == seen,
            end > 0 ==> start < end <= seen,
            chars.remaining() == text@.skip(seen as int),
            forall|j: int| 0 <= j < start ==> white_space(text@[j]),
            forall|j: int| end <= j < seen ==> white_space(text@[j]),
            end > 0 ==> !white_space(text@[start as int]) && !white_space(text@[end - 1]),
        decreases total - seen,
    {
        match chars.next() {
            Some(c) => {
                if is_whitespace(c) {
                    if end == 0 {
                        start = seen + 1;
                    }
                } else {
                    end = seen + 1;
                }
                seen = seen + 1;
            },
            None => {
                if end == 0 {
                    proof {
                        lemma_trim_start(text@, total as int);
                        assert(text@.skip(total as int) == Seq::<char>::empty());
                    }
                    return text.substring_char(0, 0);
                }
                proof {
                    lemma_trim_start(text@, start as int);
                    let tail = text@.skip(start as int);
                    lemma_trim_end(tail, end - start);
                    assert(tail.take(end - start) == text@.subrange(start as int, end as int));
                }
                return text.substring_char(start, end);
            },
        }
    }
}

} // verus!
