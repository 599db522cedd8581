//! Path expressions: how a template names a place in a document.
//!
//! A path is `$`, followed by any number of steps: `.key` goes into an
//! object, `[7]` into an array. A key is one or more characters other than
//! `.`, `[` and `]`; an index is written in decimal and is at most
//! 999999999.

use crate::json::{step_views, Step, StepValue};
use crate::text::{chars_of, slice_of, text_of};
use vstd::prelude::*;

verus! {

/// Whether `c` ends a key.
pub open spec fn ends_key(c: char) -> bool {
    c == '.' || c == '[' || c == ']'
}

/// Whether `c` is a decimal digit.
pub open spec fn is_digit(c: char) -> bool {
    '0' <= c && c <= '9'
}

/// The number that the digit `c` stands for.
pub open spec fn digit_value(c: char) -> nat {
    (c as nat - '0' as nat) as nat
}

/// Where the key that begins at `pos` ends.
pub open spec fn key_end(e: Seq<char>, pos: int) -> int
    decreases e.len() - pos,
{
    if pos < 0 || pos >= e.len() || ends_key(e[pos]) {
        pos
    } else {
        key_end(e, pos + 1)
    }
}

/// Where the digits that begin at `pos` end.
pub open spec fn digits_end(e: Seq<char>, pos: int) -> int
    decreases e.len() - pos,
{
    if pos < 0 || pos >= e.len() || !is_digit(e[pos]) {
        pos
    } else {
        digits_end(e, pos + 1)
    }
}

/// The number that the digits from `from` up to `to` write, where it is at
/// most 999999999.
pub open spec fn index_value(e: Seq<char>, from: int, to: int) -> Option<nat>
    decreases to - from,
{
    if to <= from {
        Some(0)
    } else {
        match index_value(e, from, to - 1) {
            Some(v) => if v > 99_999_999 {
                None
            } else {
                Some(v * 10 + digit_value(e[to - 1]))
            },
            None => None,
        }
    }
}

/// `first`, then the steps of `rest`, where there are any.
pub open spec fn prefixed(first: Seq<StepValue>, rest: Option<Seq<StepValue>>) -> Option<
    Seq<StepValue>,
> {
    match rest {
        Some(steps) => Some(first + steps),
        None => None,
    }
}

/// The step that begins at `pos`, and where it ends; nothing where no step
/// begins there.
pub open spec fn step_at(e: Seq<char>, pos: int) -> Option<(StepValue, int)> {
    if pos < 0 || pos >= e.len() {
        None
    } else if e[pos] == '.' {
        let end = key_end(e, pos + 1);
        if end == pos + 1 {
            None
        } else {
            Some((StepValue::Key(e.subrange(pos + 1, end)), end))
        }
    } else if e[pos] == '[' {
        let end = digits_end(e, pos + 1);
        if end == pos + 1 || end >= e.len() || e[end] != ']' {
            None
        } else {
            match index_value(e, pos + 1, end) {
                Some(v) => Some((StepValue::Index(v as int), end + 1)),
                None => None,
            }
        }
    } else {
        None
    }
}

/// The steps that `e` writes from `pos` on.
pub open spec fn steps_from(e: Seq<char>, pos: int) -> Option<Seq<StepValue>>
    decreases e.len() - pos,
{
    if pos < 0 || pos >= e.len() {
        Some(Seq::empty())
    } else {
        match step_at(e, pos) {
            Some((step, end)) => if pos < end <= e.len() {
                prefixed(seq![step], steps_from(e, end))
            } else {
                None
            },
            None => None,
        }
    }
}

/// The steps that the path expression `e` writes; nothing where `e` is no
/// path expression.
pub open spec fn path_of(e: Seq<char>) -> Option<Seq<StepValue>> {
    if e.len() > 0 && e[0] == '$' {
        steps_from(e, 1)
    } else {
        None
    }
}

/// Whether `e` is written as a reference to a path: it begins with `$`.
pub open spec fn is_reference(e: Seq<char>) -> bool {
    e.len() > 0 && e[0] == '$'
}

/// A key ends at or after the place where it begins, and inside the text.
pub proof fn lemma_key_end_bounds(e: Seq<char>, pos: int)
    requires
        0 <= pos <= e.len(),
    ensures
        pos <= key_end(e, pos) <= e.len(),
    decreases e.len() - pos,
{
    if pos < e.len() && !ends_key(e[pos]) {
        lemma_key_end_bounds(e, pos + 1);
    }
}

/// Digits end at or after the place where they begin, and inside the text.
pub proof fn lemma_digits_end_bounds(e: Seq<char>, pos: int)
    requires
        0 <= pos <= e.len(),
    ensures
        pos <= digits_end(e, pos) <= e.len(),
    decreases e.len() - pos,
{
    if pos < e.len() && is_digit(e[pos]) {
        lemma_digits_end_bounds(e, pos + 1);
    }
}

/// Where the key that begins at `pos` ends.
fn scan_key(e: &Vec<char>, pos: usize) -> (end: usize)
    requires
        pos <= e.len(),
    ensures
        end == key_end(e@, pos as int),
        pos <= end <= e.len(),
{
    let mut i: usize = pos;
    while i < e.len() && !(e[i] == '.' || e[i] == '[' || e[i] == ']')
        invariant
            pos <= i <= e.len(),
            key_end(e@, pos as int) == key_end(e@, i as int),
        decreases e.len() - i,
    {
        i = i + 1;
    }
    i
}

/// Where the digits that begin at `pos` end.
fn scan_digits(e: &Vec<char>, pos: usize) -> (end: usize)
    requires
        pos <= e.len(),
    ensures
        end == digits_end(e@, pos as int),
        pos <= end <= e.len(),
{
    let mut i: usize = pos;
    while i < e.len() && ('0' <= e[i] && e[i] <= '9')
        invariant
            pos <= i <= e.len(),
            digits_end(e@, pos as int) == digits_end(e@, i as int),
        decreases e.len() - i,
    {
        i = i + 1;
    }
    i
}

/// The number that the digits from `from` up to `to` write.
fn read_index(e: &Vec<char>, from: usize, to: usize) -> (r: Option<usize>)
    requires
        from <= to <= e.len(),
        forall|i: int| from <= i < to ==> is_digit(e@[i]),
    ensures
        match r {
            Some(v) => index_value(e@, from as int, to as int) == Some(v as nat),
            None => index_value(e@, from as int, to as int) is None,
        },
{
    let mut value: u32 = 0;
    let mut i: usize = from;
    while i < to
        invariant
            from <= i <= to,
            to <= e.len(),
            forall|j: int| from <= j < to ==> is_digit(e@[j]),
            index_value(e@, from as int, i as int) == Some(value as nat),
            value <= 999_999_999,
        decreases to - i,
    {
        if value > 99_999_999 {
            proof {
                lemma_index_value_fails(e@, from as int, i as int, to as int);
            }
            return None;
        }
        let d: u32 = (e[i] as u32) - ('0' as u32);
        value = value * 10 + d;
        i = i + 1;
    }
    Some(value as usize)
}

/// Once the digits read so far write too large a number, no longer run of
/// digits writes an index.
proof fn lemma_index_value_fails(e: Seq<char>, from: int, mid: int, to: int)
    requires
        from <= mid < to,
        match index_value(e, from, mid) {
            Some(v) => v > 99_999_999,
            None => true,
        },
    ensures
        index_value(e, from, to) is None,
    decreases to - mid,
{
    if mid + 1 < to {
        lemma_index_value_fails(e, from, mid + 1, to);
    }
}

/// The steps that the path expression `expr` writes.
pub fn parse_path(expr: &str) -> (r: Option<Vec<Step>>)
    ensures
        match r {
            Some(steps) => path_of(expr@) == Some(step_views(steps@)),
            None => path_of(expr@) is None,
        },
{
    let e: Vec<char> = chars_of(expr);
    if e.len() == 0 || e[0] != '$' {
        return None;
    }
    let mut steps: Vec<Step> = Vec::new();
    let mut pos: usize = 1;
    assert(prefixed(step_views(steps@), steps_from(e@, 1)) =~= steps_from(e@, 1)) by {
        if steps_from(e@, 1) is Some {
            assert(step_views(steps@) + steps_from(e@, 1).unwrap() =~= steps_from(e@, 1).unwrap());
        }
    }
    while pos < e.len()
        invariant
            1 <= pos <= e.len(),
            e@ == expr@,
            path_of(e@) == prefixed(step_views(steps@), steps_from(e@, pos as int)),
        decreases e.len() - pos,
    {
        let ghost before = step_views(steps@);
        let ghost start = pos as int;
        if e[pos] == '.' {
            let end: usize = scan_key(&e, pos + 1);
            if end == pos + 1 {
                return None;
            }
            let key: Vec<char> = slice_of(&e, pos + 1, end);
            steps.push(Step::Key(text_of(&key)));
            pos = end;
        } else if e[pos] == '[' {
            let end: usize = scan_digits(&e, pos + 1);
            if end == pos + 1 || end >= e.len() || e[end] != ']' {
                return None;
            }
            proof {
                lemma_digits_run(e@, start + 1, end as int);
            }
            match read_index(&e, pos + 1, end) {
                Some(index) => {
                    steps.push(Step::Index(index));
                },
                None => {
                    return None;
                },
            }
            pos = end + 1;
        } else {
            return None;
        }
        proof {
            let (step, next) = step_at(e@, start).unwrap();
            assert(next == pos);
            assert(step_views(steps@) =~= before.push(step));
            let tail = steps_from(e@, pos as int);
            if tail is Some {
                assert(before + (seq![step] + tail.unwrap()) =~= before.push(step) + tail.unwrap());
            }
        }
    }
    assert(step_views(steps@) + Seq::<StepValue>::empty() =~= step_views(steps@));
    Some(steps)
}

/// Every character before the end of a run of digits is a digit.
proof fn lemma_digits_run(e: Seq<char>, pos: int, end: int)
    requires
        0 <= pos <= e.len(),
        end == digits_end(e, pos),
    ensures
        forall|i: int| pos <= i < end ==> is_digit(e[i]),
    decreases e.len() - pos,
{
    if pos < e.len() && is_digit(e[pos]) {
        lemma_digits_run(e, pos + 1, end);
    }
}

} // verus!
