//! Text as sequences of characters.
//!
//! Contracts speak of a string through its view, a `Seq<char>`. The functions
//! here move between `str` and `Vec<char>` and answer the questions the rest
//! of the crate asks of text: where a piece occurs, what is left after
//! trimming, how a number reads in decimal.

use vstd::prelude::*;

verus! {

/// Appends one character, through `String::push`: the string afterwards is
/// the string before with `c` at its end.
#[verifier::external_body]
pub(crate) fn push_char(s: &mut String, c: char)
    ensures
        final(s)@ == old(s)@.push(c),
{
    s.push(c)
}

/// The view of a string that may be absent.
pub open spec fn view_of(found: Option<String>) -> Option<Seq<char>> {
    match found {
        Some(s) => Some(s@),
        None => None,
    }
}

/// The characters of `s`, in order.
pub fn chars_of(s: &str) -> (v: Vec<char>)
    ensures
        v@ == s@,
{
    let mut v: Vec<char> = Vec::new();
    for c in it: s.chars()
        invariant
            it.seq() == s@,
            v@ == s@.take(it.index() as int),
    {
        v.push(c);
        assert(s@.take(it.index() + 1) =~= s@.take(it.index() as int).push(c));
    }
    assert(s@.take(s@.len() as int) =~= s@);
    v
}

/// Whether `a` and `b` hold the same characters.
pub fn str_eq(a: &str, b: &str) -> (r: bool)
    ensures
        r == (a@ == b@),
{
    let x: Vec<char> = chars_of(a);
    let y: Vec<char> = chars_of(b);
    if x.len() != y.len() {
        return false;
    }
    let mut i: usize = 0;
    while i < x.len()
        invariant
            i <= x.len(),
            x.len() == y.len(),
            x@ == a@,
            y@ == b@,
            forall|j: int| 0 <= j < i ==> x@[j] == y@[j],
        decreases x.len() - i,
    {
        if x[i] != y[i] {
            return false;
        }
        i = i + 1;
    }
    assert(x@ =~= y@);
    true
}

/// The string that holds the characters of `v`, in order.
pub fn text_of(v: &Vec<char>) -> (s: String)
    ensures
        s@ == v@,
{
    let mut s: String = String::new();
    let mut i: usize = 0;
    while i < v.len()
        invariant
            i <= v.len(),
            s@ == v@.take(i as int),
        decreases v.len() - i,
    {
        push_char(&mut s, v[i]);
        assert(v@.take(i + 1) =~= v@.take(i as int).push(v@[i as int]));
        i = i + 1;
    }
    assert(v@.take(v.len() as int) =~= v@);
    s
}

/// `needle` stands in `hay` at position `i`.
pub open spec fn has_at(hay: Seq<char>, needle: Seq<char>, i: int) -> bool {
    0 <= i && i + needle.len() <= hay.len() && hay.subrange(i, i + needle.len()) == needle
}

/// `needle` stands somewhere in `hay`.
pub open spec fn occurs(hay: Seq<char>, needle: Seq<char>) -> bool {
    exists|i: int| has_at(hay, needle, i)
}

/// `hay` begins with `needle`.
pub open spec fn begins_with(hay: Seq<char>, needle: Seq<char>) -> bool {
    has_at(hay, needle, 0)
}

/// Whether `needle` stands in `hay` at position `i`.
pub fn matches_at(hay: &Vec<char>, needle: &Vec<char>, i: usize) -> (r: bool)
    ensures
        r == has_at(hay@, needle@, i as int),
{
    if needle.len() > hay.len() || i > hay.len() - needle.len() {
        return false;
    }
    let mut k: usize = 0;
    while k < needle.len()
        invariant
            k <= needle.len(),
            i + needle.len() <= hay.len(),
            forall|j: int| 0 <= j < k ==> hay@[i + j] == needle@[j],
        decreases needle.len() - k,
    {
        if hay[i + k] != needle[k] {
            proof {
                let sub = hay@.subrange(i as int, i + needle.len());
                assert(sub[k as int] == hay@[i + k]);
            }
            return false;
        }
        k = k + 1;
    }
    assert(hay@.subrange(i as int, i + needle.len()) =~= needle@);
    true
}

/// The first position at or after `from` where `needle` stands in `hay`.
pub fn find_from(hay: &Vec<char>, needle: &Vec<char>, from: usize) -> (r: Option<usize>)
    ensures
        match r {
            Some(k) => from <= k && has_at(hay@, needle@, k as int) && forall|j: int|
                from <= j < k ==> !has_at(hay@, needle@, j),
            None => forall|j: int| from <= j ==> !has_at(hay@, needle@, j),
        },
{
    if from > hay.len() {
        return None;
    }
    let mut i: usize = from;
    while i < hay.len()
        invariant
            from <= i <= hay.len(),
            forall|j: int| from <= j < i ==> !has_at(hay@, needle@, j),
        decreases hay.len() - i,
    {
        if matches_at(hay, needle, i) {
            return Some(i);
        }
        i = i + 1;
    }
    if matches_at(hay, needle, i) {
        Some(i)
    } else {
        None
    }
}

/// Whether `needle` stands somewhere in `hay`.
pub fn contains_chars(hay: &Vec<char>, needle: &Vec<char>) -> (r: bool)
    ensures
        r == occurs(hay@, needle@),
{
    match find_from(hay, needle, 0) {
        Some(k) => true,
        None => false,
    }
}

/// Whether `needle` stands somewhere in `hay`.
pub fn contains(hay: &str, needle: &str) -> (r: bool)
    ensures
        r == occurs(hay@, needle@),
{
    let h: Vec<char> = chars_of(hay);
    let n: Vec<char> = chars_of(needle);
    contains_chars(&h, &n)
}

/// Whether `hay` begins with `needle`.
pub fn starts_with(hay: &str, needle: &str) -> (r: bool)
    ensures
        r == begins_with(hay@, needle@),
{
    let h: Vec<char> = chars_of(hay);
    let n: Vec<char> = chars_of(needle);
    matches_at(&h, &n, 0)
}

/// The characters that count as white space: the code points with the
/// Unicode property `White_Space`.
pub open spec fn is_space(c: char) -> bool {
    let n = c as u32;
    (0x09 <= n <= 0x0D) || n == 0x20 || n == 0x85 || n == 0xA0 || n == 0x1680 || (0x2000 <= n
        <= 0x200A) || n == 0x2028 || n == 0x2029 || n == 0x202F || n == 0x205F || n == 0x3000
}

/// Whether `c` is white space.
pub fn space(c: char) -> (r: bool)
    ensures
        r == is_space(c),
{
    let n: u32 = c as u32;
    (0x09 <= n && n <= 0x0D) || n == 0x20 || n == 0x85 || n == 0xA0 || n == 0x1680 || (0x2000 <= n
        && n <= 0x200A) || n == 0x2028 || n == 0x2029 || n == 0x202F || n == 0x205F || n == 0x3000
}

/// `s` without the white space at its start.
pub open spec fn trim_start(s: Seq<char>) -> Seq<char>
    decreases s.len(),
{
    if s.len() > 0 && is_space(s[0]) {
        trim_start(s.skip(1))
    } else {
        s
    }
}

/// `s` without the white space at its end.
pub open spec fn trim_end(s: Seq<char>) -> Seq<char>
    decreases s.len(),
{
    if s.len() > 0 && is_space(s.last()) {
        trim_end(s.drop_last())
    } else {
        s
    }
}

/// `s` without the white space at either end.
pub open spec fn trimmed(s: Seq<char>) -> Seq<char> {
    trim_end(trim_start(s))
}

/// `s` without the characters of `set` at its end.
pub open spec fn strip_end(s: Seq<char>, set: Seq<char>) -> Seq<char>
    decreases s.len(),
{
    if s.len() > 0 && set.contains(s.last()) {
        strip_end(s.drop_last(), set)
    } else {
        s
    }
}

/// Whether `c` is one of `set`.
pub fn one_of(set: &Vec<char>, c: char) -> (r: bool)
    ensures
        r == set@.contains(c),
{
    let mut i: usize = 0;
    while i < set.len()
        invariant
            i <= set.len(),
            forall|j: int| 0 <= j < i ==> set@[j] != c,
        decreases set.len() - i,
    {
        if set[i] == c {
            return true;
        }
        i = i + 1;
    }
    false
}

/// The characters of `v` from `from` up to `to`.
pub(crate) fn slice_of(v: &Vec<char>, from: usize, to: usize) -> (r: Vec<char>)
    requires
        from <= to <= v.len(),
    ensures
        r@ == v@.subrange(from as int, to as int),
{
    let mut r: Vec<char> = Vec::new();
    let mut i: usize = from;
    while i < to
        invariant
            from <= i <= to,
            to <= v.len(),
            r@ == v@.subrange(from as int, i as int),
        decreases to - i,
    {
        r.push(v[i]);
        assert(v@.subrange(from as int, i + 1) =~= v@.subrange(from as int, i as int).push(
            v@[i as int],
        ));
        i = i + 1;
    }
    r
}

/// `v` without the white space at either end.
pub fn trim_chars(v: &Vec<char>) -> (r: Vec<char>)
    ensures
        r@ == trimmed(v@),
{
    let mut a: usize = 0;
    assert(v@.skip(0) =~= v@);
    while a < v.len() && space(v[a])
        invariant
            a <= v.len(),
            trim_start(v@) == trim_start(v@.skip(a as int)),
        decreases v.len() - a,
    {
        assert(v@.skip(a as int).skip(1) =~= v@.skip(a + 1));
        a = a + 1;
    }
    assert(v@.skip(a as int) =~= v@.subrange(a as int, v.len() as int));
    let mut b: usize = v.len();
    while b > a && space(v[b - 1])
        invariant
            a <= b <= v.len(),
            trimmed(v@) == trim_end(v@.subrange(a as int, b as int)),
        decreases b,
    {
        assert(v@.subrange(a as int, b as int).drop_last() =~= v@.subrange(a as int, b - 1));
        b = b - 1;
    }
    slice_of(v, a, b)
}

/// `v` without the characters of `set` at its end.
pub fn strip_end_chars(v: &Vec<char>, set: &Vec<char>) -> (r: Vec<char>)
    ensures
        r@ == strip_end(v@, set@),
{
    let mut b: usize = v.len();
    assert(v@.subrange(0, b as int) =~= v@);
    while b > 0 && one_of(set, v[b - 1])
        invariant
            b <= v.len(),
            strip_end(v@, set@) == strip_end(v@.subrange(0, b as int), set@),
        decreases b,
    {
        assert(v@.subrange(0, b as int).drop_last() =~= v@.subrange(0, b - 1));
        b = b - 1;
    }
    slice_of(v, 0, b)
}

/// The decimal digit that stands for `d`.
pub open spec fn digit(d: int) -> char {
    if d == 0 {
        '0'
    } else if d == 1 {
        '1'
    } else if d == 2 {
        '2'
    } else if d == 3 {
        '3'
    } else if d == 4 {
        '4'
    } else if d == 5 {
        '5'
    } else if d == 6 {
        '6'
    } else if d == 7 {
        '7'
    } else if d == 8 {
        '8'
    } else {
        '9'
    }
}

/// `n` written in decimal, without leading zeros.
pub open spec fn decimal(n: nat) -> Seq<char>
    decreases n,
{
    if n < 10 {
        seq![digit(n as int)]
    } else {
        decimal(n / 10).push(digit((n % 10) as int))
    }
}

fn digit_char(d: u64) -> (c: char)
    requires
        d < 10,
    ensures
        c == digit(d as int),
{
    if d == 0 {
        '0'
    } else if d == 1 {
        '1'
    } else if d == 2 {
        '2'
    } else if d == 3 {
        '3'
    } else if d == 4 {
        '4'
    } else if d == 5 {
        '5'
    } else if d == 6 {
        '6'
    } else if d == 7 {
        '7'
    } else if d == 8 {
        '8'
    } else {
        '9'
    }
}

/// Appends `n` in decimal to `out`.
pub fn push_decimal(out: &mut Vec<char>, n: u64)
    ensures
        final(out)@ == old(out)@ + decimal(n as nat),
    decreases n,
{
    if n < 10 {
        out.push(digit_char(n));
        assert(old(out)@.push(digit(n as int)) =~= old(out)@ + decimal(n as nat));
    } else {
        push_decimal(out, n / 10);
        out.push(digit_char(n % 10));
        assert((old(out)@ + decimal((n / 10) as nat)).push(digit((n % 10) as int)) =~= old(out)@
            + decimal(n as nat));
    }
}

/// Appends the characters of `s` to `out`.
pub fn push_str(out: &mut Vec<char>, s: &str)
    ensures
        final(out)@ == old(out)@ + s@,
{
    for c in it: s.chars()
        invariant
            it.seq() == s@,
            out@ == old(out)@ + s@.take(it.index() as int),
    {
        out.push(c);
        assert(s@.take(it.index() + 1) =~= s@.take(it.index() as int).push(c));
    }
    assert(s@.take(s@.len() as int) =~= s@);
}

/// `s` with `to` in place of each `from`, found from left to right without
/// overlap. An empty `from` is found nowhere.
pub open spec fn replaced(s: Seq<char>, from: Seq<char>, to: Seq<char>) -> Seq<char>
    decreases s.len(),
{
    if from.len() == 0 || s.len() < from.len() {
        s
    } else if has_at(s, from, 0) {
        to + replaced(s.skip(from.len() as int), from, to)
    } else {
        seq![s[0]] + replaced(s.skip(1), from, to)
    }
}

/// `needle` stands in `hay` at `i` exactly when it stands at the start of
/// what is left of `hay` from `i` on.
proof fn lemma_has_at_skip(hay: Seq<char>, needle: Seq<char>, i: int)
    requires
        0 <= i <= hay.len(),
    ensures
        has_at(hay, needle, i) == has_at(hay.skip(i), needle, 0),
{
    if i + needle.len() <= hay.len() {
        assert(hay.skip(i).subrange(0, needle.len() as int) =~= hay.subrange(
            i,
            i + needle.len(),
        ));
    }
}

/// `s` with `to` in place of each `from`.
pub fn replace_all(s: &Vec<char>, from: &Vec<char>, to: &Vec<char>) -> (r: Vec<char>)
    ensures
        r@ == replaced(s@, from@, to@),
{
    let mut out: Vec<char> = Vec::new();
    let mut i: usize = 0;
    assert(s@.skip(0) =~= s@);
    while i < s.len()
        invariant
            i <= s.len(),
            replaced(s@, from@, to@) == out@ + replaced(s@.skip(i as int), from@, to@),
        decreases s.len() - i,
    {
        let ghost rest = s@.skip(i as int);
        proof {
            lemma_has_at_skip(s@, from@, i as int);
        }
        if from.len() > 0 && matches_at(s, from, i) {
            let ghost before = out@;
            let mut k: usize = 0;
            while k < to.len()
                invariant
                    k <= to.len(),
                    out@ == before + to@.take(k as int),
                decreases to.len() - k,
            {
                out.push(to[k]);
                assert(to@.take(k + 1) =~= to@.take(k as int).push(to@[k as int]));
                assert(out@ =~= before + to@.take(k + 1));
                k = k + 1;
            }
            assert(to@.take(to.len() as int) =~= to@);
            assert(rest.skip(from.len() as int) =~= s@.skip(i + from.len()));
            assert(before + (to@ + replaced(rest.skip(from.len() as int), from@, to@)) =~= (before
                + to@) + replaced(rest.skip(from.len() as int), from@, to@));
            i = i + from.len();
        } else {
            let ghost before = out@;
            out.push(s[i]);
            assert(rest.skip(1) =~= s@.skip(i + 1));
            proof {
                if from@.len() == 0 || rest.len() < from@.len() {
                    assert(rest =~= seq![rest[0]] + rest.skip(1));
                    assert(replaced(rest.skip(1), from@, to@) == rest.skip(1));
                }
            }
            assert(before + (seq![rest[0]] + replaced(rest.skip(1), from@, to@)) =~= before.push(
                s@[i as int],
            ) + replaced(rest.skip(1), from@, to@));
            i = i + 1;
        }
    }
    assert(out@ + replaced(s@.skip(s.len() as int), from@, to@) =~= out@);
    out
}

} // verus!
