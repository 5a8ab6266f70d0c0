//! Small operations on text, stated over sequences of characters.

use vstd::prelude::*;
use vstd::string::StringExecFns;
use vstd::string::StrSliceExecFns;

verus! {

/// `String::push` appends one character.
pub assume_specification[ String::push ](s: &mut String, ch: char)
    ensures
        final(s)@ == old(s)@.push(ch),
;

/// `text` without `prefix` at its start, where it starts with it.
pub open spec fn without_prefix(text: Seq<char>, prefix: Seq<char>) -> Option<Seq<char>> {
    if prefix.is_prefix_of(text) {
        Some(text.skip(prefix.len() as int))
    } else {
        None
    }
}

/// Whether `part` occurs in `text` starting at place `at`.
pub open spec fn occurs_at(text: Seq<char>, part: Seq<char>, at: int) -> bool {
    0 <= at && at + part.len() <= text.len() && text.subrange(at, at + part.len()) == part
}

/// Whether `part` occurs somewhere in `text`.
pub open spec fn occurs_in(text: Seq<char>, part: Seq<char>) -> bool {
    exists|at: int| occurs_at(text, part, at)
}

/// The place just behind the last `mark` in `text`, or zero where there is none.
pub open spec fn after_last(text: Seq<char>, mark: char) -> int
    decreases text.len(),
{
    if text.len() == 0 {
        0
    } else if text.last() == mark {
        text.len() as int
    } else {
        after_last(text.drop_last(), mark)
    }
}

/// What follows the last `mark` in `text`: all of `text` where there is none.
pub open spec fn last_segment(text: Seq<char>, mark: char) -> Seq<char> {
    text.skip(after_last(text, mark))
}

/// The upper case form of an ASCII lower case letter; any other character as it is.
pub open spec fn ascii_upper(c: char) -> char {
    if 'a' <= c && c <= 'z' {
        ((c as u8 - 32) as u8) as char
    } else {
        c
    }
}

/// `text` with its first character in upper case.
pub open spec fn capitalized(text: Seq<char>) -> Seq<char> {
    if text.len() == 0 {
        text
    } else {
        seq![ascii_upper(text[0])] + text.skip(1)
    }
}

/// The place behind the last mark is within the text, nothing behind it is a
/// mark, and the character before it is one.
pub proof fn lemma_after_last(text: Seq<char>, mark: char)
    ensures
        0 <= after_last(text, mark) <= text.len(),
        forall|i: int| after_last(text, mark) <= i < text.len() ==> text[i] != mark,
        after_last(text, mark) > 0 ==> text[after_last(text, mark) - 1] == mark,
    decreases text.len(),
{
    if text.len() > 0 && text.last() != mark {
        let front = text.drop_last();
        lemma_after_last(front, mark);
        assert forall|i: int| after_last(text, mark) <= i < text.len() implies text[i] != mark by {
            if i < front.len() {
                assert(front[i] == text[i]);
            }
        }
        if after_last(text, mark) > 0 {
            assert(front[after_last(text, mark) - 1] == text[after_last(text, mark) - 1]);
        }
    }
}

/// Whether `text` starts with `prefix`.
pub fn starts_with(text: &str, prefix: &str) -> (r: bool)
    ensures
        r == prefix@.is_prefix_of(text@),
{
    let n: usize = text.unicode_len();
    let p: usize = prefix.unicode_len();
    if p > n {
        return false;
    }
    let mut i: usize = 0;
    while i < p
        invariant
            i <= p <= n,
            n == text@.len(),
            p == prefix@.len(),
            forall|j: int| 0 <= j < i ==> text@[j] == prefix@[j],
        decreases p - i,
    {
        if text.get_char(i) != prefix.get_char(i) {
            assert(text@.subrange(0, p as int)[i as int] != prefix@[i as int]);
            return false;
        }
        i += 1;
    }
    assert(prefix@ =~= text@.subrange(0, p as int));
    true
}

/// `text` without `prefix` at its start, where it starts with it.
pub fn strip_prefix(text: &str, prefix: &str) -> (r: Option<String>)
    ensures
        match r {
            Some(rest) => without_prefix(text@, prefix@) == Some(rest@),
            None => without_prefix(text@, prefix@) is None,
        },
{
    if starts_with(text, prefix) {
        let n: usize = text.unicode_len();
        let p: usize = prefix.unicode_len();
        let rest = text.substring_char(p, n);
        assert(rest@ =~= text@.skip(p as int));
        Some(rest.to_owned())
    } else {
        None
    }
}

/// Whether `part` occurs somewhere in `text`.
pub fn contains(text: &str, part: &str) -> (r: bool)
    ensures
        r == occurs_in(text@, part@),
{
    let n: usize = text.unicode_len();
    let p: usize = part.unicode_len();
    if p > n {
        assert forall|at: int| !occurs_at(text@, part@, at) by {}
        return false;
    }
    let mut at: usize = 0;
    while at <= n - p
        invariant
            p <= n,
            at <= n - p + 1,
            n == text@.len(),
            p == part@.len(),
            forall|k: int| 0 <= k < at ==> !occurs_at(text@, part@, k),
        decreases n - p + 1 - at,
    {
        let here = text.substring_char(at, at + p);
        if starts_with(here, part) {
            assert(here@ =~= part@);
            assert(occurs_at(text@, part@, at as int));
            return true;
        }
        assert(!occurs_at(text@, part@, at as int));
        at += 1;
    }
    assert forall|k: int| !occurs_at(text@, part@, k) by {}
    false
}

/// What follows the last `mark` in `text`.
pub fn segment_after_last(text: &str, mark: char) -> (r: String)
    ensures
        r@ == last_segment(text@, mark),
{
    let n: usize = text.unicode_len();
    let mut i: usize = n;
    proof {
        lemma_after_last(text@, mark);
    }
    while i > 0 && text.get_char(i - 1) != mark
        invariant
            i <= n,
            n == text@.len(),
            after_last(text@, mark) <= i,
            0 <= after_last(text@, mark) <= text@.len(),
            forall|j: int| after_last(text@, mark) <= j < text@.len() ==> text@[j] != mark,
            after_last(text@, mark) > 0 ==> text@[after_last(text@, mark) - 1] == mark,
        decreases i,
    {
        i -= 1;
    }
    let rest = text.substring_char(i, n);
    assert(rest@ =~= text@.skip(i as int));
    rest.to_owned()
}

/// An ASCII lower case letter in upper case; any other character as it is.
pub fn upper(c: char) -> (r: char)
    ensures
        r == ascii_upper(c),
{
    if 'a' <= c && c <= 'z' {
        let b: u8 = c as u8;
        (b - 32) as char
    } else {
        c
    }
}

/// `text` with its first character in upper case.
pub fn capitalize(text: &str) -> (r: String)
    ensures
        r@ == capitalized(text@),
{
    let n: usize = text.unicode_len();
    if n == 0 {
        return text.to_owned();
    }
    let mut out = String::new();
    out.push(upper(text.get_char(0)));
    let rest = text.substring_char(1, n);
    out.append(rest);
    assert(out@ =~= capitalized(text@));
    out
}

} // verus!
