//! Splitting text into pieces, lines and words, and reading values from it.

use std::str::FromStr;
use vstd::prelude::*;
use vstd::std_specs::iter::IteratorSpec;

use crate::errors::GeometryError;

verus! {

/// Characters that separate the words of a line.
pub open spec fn is_blank(c: char) -> bool {
    c == ' ' || c == '\t' || c == '\r' || c == '\x0B' || c == '\x0C'
}

/// The pieces of `s[..i]` cut at `sep`: those already closed, and the open one.
pub open spec fn split_prefix(s: Seq<char>, sep: char, i: nat) -> (Seq<Seq<char>>, Seq<char>)
    decreases i,
{
    if i == 0 || i > s.len() {
        (Seq::empty(), Seq::empty())
    } else {
        let (closed, open) = split_prefix(s, sep, (i - 1) as nat);
        if s[i - 1] == sep {
            (closed.push(open), Seq::empty())
        } else {
            (closed, open.push(s[i - 1]))
        }
    }
}

/// The pieces of `s` cut at every `sep`; `n` separators give `n + 1` pieces.
pub open spec fn split_on(s: Seq<char>, sep: char) -> Seq<Seq<char>> {
    let (closed, open) = split_prefix(s, sep, s.len());
    closed.push(open)
}

/// A line without the carriage return that may end it.
pub open spec fn strip_cr(l: Seq<char>) -> Seq<char> {
    if l.len() > 0 && l.last() == '\r' {
        l.drop_last()
    } else {
        l
    }
}

/// The lines of `s`: cut at every line feed, with no empty line after a final
/// line feed, and without carriage returns at their ends.
pub open spec fn lines_of(s: Seq<char>) -> Seq<Seq<char>> {
    let (closed, open) = split_prefix(s, '\n', s.len());
    let pieces = if open.len() == 0 {
        closed
    } else {
        closed.push(open)
    };
    stripped(pieces)
}

/// Each piece without the carriage return that may end it.
pub open spec fn stripped(pieces: Seq<Seq<char>>) -> Seq<Seq<char>> {
    pieces.map_values(|l: Seq<char>| strip_cr(l))
}

/// The words of `s[..i]`: those already closed, and the one being read.
pub open spec fn words_prefix(s: Seq<char>, i: nat) -> (Seq<Seq<char>>, Seq<char>)
    decreases i,
{
    if i == 0 || i > s.len() {
        (Seq::empty(), Seq::empty())
    } else {
        let (closed, open) = words_prefix(s, (i - 1) as nat);
        if is_blank(s[i - 1]) {
            if open.len() > 0 {
                (closed.push(open), Seq::empty())
            } else {
                (closed, Seq::empty())
            }
        } else {
            (closed, open.push(s[i - 1]))
        }
    }
}

/// The maximal runs of non-blank characters of `s`, in order.
pub open spec fn words_of(s: Seq<char>) -> Seq<Seq<char>> {
    let (closed, open) = words_prefix(s, s.len());
    if open.len() > 0 {
        closed.push(open)
    } else {
        closed
    }
}

/// The character sequences that a list of character vectors holds.
pub open spec fn views(v: Seq<Vec<char>>) -> Seq<Seq<char>> {
    v.map_values(|p: Vec<char>| p@)
}

/// The characters of a string, in order.
pub fn chars_of(s: &str) -> (r: Vec<char>)
    ensures
        r@ == s@,
{
    let mut it = s.chars();
    let mut out: Vec<char> = Vec::new();
    loop
        invariant
            out@ + it.remaining() == s@,
            it.decrease() is Some,
        ensures
            out@ == s@,
        decreases it.decrease()->0,
    {
        match it.next() {
            Some(c) => {
                out.push(c);
            },
            None => {
                assert(out@ + it.remaining() =~= out@);
                break ;
            },
        }
    }
    out
}

/// The pieces of `s` cut at every `sep`, as `str::split` gives them.
pub fn split_chars(s: &Vec<char>, sep: char) -> (r: Vec<Vec<char>>)
    ensures
        views(r@) == split_on(s@, sep),
{
    let mut closed: Vec<Vec<char>> = Vec::new();
    let mut open: Vec<char> = Vec::new();
    let mut i: usize = 0;
    while i < s.len()
        invariant
            i <= s@.len(),
            (views(closed@), open@) == split_prefix(s@, sep, i as nat),
        decreases s@.len() - i,
    {
        let c = s[i];
        if c == sep {
            let ghost prev = closed@;
            let done = open;
            closed.push(done);
            open = Vec::new();
            assert(views(closed@) =~= views(prev).push(done@));
        } else {
            open.push(c);
        }
        i = i + 1;
    }
    let ghost prev = closed@;
    let ghost last = open@;
    closed.push(open);
    assert(views(closed@) =~= views(prev).push(last));
    closed
}

fn strip_cr_chars(l: Vec<char>) -> (r: Vec<char>)
    ensures
        r@ == strip_cr(l@),
{
    let mut l = l;
    let n = l.len();
    if n > 0 && l[n - 1] == '\r' {
        l.pop();
    }
    l
}

/// The lines of `s`, as `lines_of` describes them.
pub fn split_lines(s: &Vec<char>) -> (r: Vec<Vec<char>>)
    ensures
        views(r@) == lines_of(s@),
{
    let mut closed: Vec<Vec<char>> = Vec::new();
    let mut open: Vec<char> = Vec::new();
    let mut i: usize = 0;
    while i < s.len()
        invariant
            i <= s@.len(),
            views(closed@) == stripped(split_prefix(s@, '\n', i as nat).0),
            open@ == split_prefix(s@, '\n', i as nat).1,
        decreases s@.len() - i,
    {
        let c = s[i];
        if c == '\n' {
            let ghost prev = closed@;
            let ghost pieces = split_prefix(s@, '\n', i as nat).0;
            let done = strip_cr_chars(open);
            closed.push(done);
            open = Vec::new();
            let ghost o = split_prefix(s@, '\n', i as nat).1;
            assert(views(closed@) =~= views(prev).push(done@));
            assert(stripped(pieces.push(o)) =~= stripped(pieces).push(strip_cr(o)));
        } else {
            open.push(c);
        }
        i = i + 1;
    }
    if open.len() > 0 {
        let ghost prev = closed@;
        let ghost pieces = split_prefix(s@, '\n', i as nat).0;
        let ghost last = open@;
        let done = strip_cr_chars(open);
        closed.push(done);
        assert(views(closed@) =~= views(prev).push(done@));
        assert(stripped(pieces.push(last)) =~= stripped(pieces).push(strip_cr(last)));
    }
    closed
}

/// The words of `s`, as `words_of` describes them.
pub fn split_words(s: &Vec<char>) -> (r: Vec<Vec<char>>)
    ensures
        views(r@) == words_of(s@),
{
    let mut closed: Vec<Vec<char>> = Vec::new();
    let mut open: Vec<char> = Vec::new();
    let mut i: usize = 0;
    while i < s.len()
        invariant
            i <= s@.len(),
            (views(closed@), open@) == words_prefix(s@, i as nat),
        decreases s@.len() - i,
    {
        let c = s[i];
        if c == ' ' || c == '\t' || c == '\r' || c == '\x0B' || c == '\x0C' {
            if open.len() > 0 {
                let ghost prev = closed@;
                let done = open;
                closed.push(done);
                assert(views(closed@) =~= views(prev).push(done@));
            }
            open = Vec::new();
        } else {
            open.push(c);
        }
        i = i + 1;
    }
    if open.len() > 0 {
        let ghost prev = closed@;
        let ghost last = open@;
        closed.push(open);
        assert(views(closed@) =~= views(prev).push(last));
    }
    closed
}

pub open spec fn is_digit(c: char) -> bool {
    '0' <= c && c <= '9'
}

pub open spec fn digit_value(c: char) -> int {
    (c as u32) as int - 48
}

/// The number that the decimal digits `d` write.
pub open spec fn digits_value(d: Seq<char>) -> int
    decreases d.len(),
{
    if d.len() == 0 {
        0
    } else {
        digits_value(d.drop_last()) * 10 + digit_value(d.last())
    }
}

pub open spec fn all_digits(d: Seq<char>) -> bool {
    forall|i: int| 0 <= i < d.len() ==> is_digit(#[trigger] d[i])
}

/// The digits of an index token, without the plus sign that may lead them.
pub open spec fn unsigned_digits(t: Seq<char>) -> Seq<char> {
    if t.len() > 0 && t[0] == '+' {
        t.drop_first()
    } else {
        t
    }
}

/// The unsigned number that a token writes in decimal, with an optional
/// leading plus sign, when it fits in a `usize`.
pub open spec fn index_value(t: Seq<char>) -> Option<usize> {
    let d = unsigned_digits(t);
    if d.len() > 0 && all_digits(d) && digits_value(d) <= usize::MAX {
        Some(digits_value(d) as usize)
    } else {
        None
    }
}

proof fn lemma_digits_grow(d: Seq<char>, i: int)
    requires
        all_digits(d),
        0 <= i <= d.len(),
    ensures
        0 <= digits_value(d.subrange(0, i)) <= digits_value(d),
    decreases d.len() - i,
{
    if i < d.len() {
        lemma_digits_grow(d, i + 1);
        let next = d.subrange(0, i + 1);
        assert(next.drop_last() =~= d.subrange(0, i));
    } else {
        assert(d.subrange(0, i) =~= d);
    }
    lemma_digits_nonneg(d.subrange(0, i));
}

proof fn lemma_digits_nonneg(d: Seq<char>)
    requires
        all_digits(d),
    ensures
        digits_value(d) >= 0,
    decreases d.len(),
{
    if d.len() > 0 {
        lemma_digits_nonneg(d.drop_last());
    }
}

/// Reads a decimal index, as `usize`'s `from_str` does.
pub fn parse_index(t: &Vec<char>) -> (r: Option<usize>)
    ensures
        r == index_value(t@),
{
    let start: usize = if t.len() > 0 && t[0] == '+' {
        1
    } else {
        0
    };
    let ghost d = unsigned_digits(t@);
    assert(d =~= t@.subrange(start as int, t@.len() as int));
    if start >= t.len() {
        return None;
    }
    let mut value: usize = 0;
    let mut i: usize = start;
    while i < t.len()
        invariant
            start <= i <= t@.len(),
            d == unsigned_digits(t@),
            d =~= t@.subrange(start as int, t@.len() as int),
            all_digits(d.subrange(0, i - start)),
            value as int == digits_value(d.subrange(0, i - start)),
        decreases t@.len() - i,
    {
        let c = t[i];
        if c < '0' || c > '9' {
            assert(!is_digit(d[i - start]));
            assert(!all_digits(d));
            return None;
        }
        let digit = (c as u32 - 48) as usize;
        let ghost next = d.subrange(0, i + 1 - start);
        assert(next.drop_last() =~= d.subrange(0, i - start));
        assert(all_digits(next));
        if value > (usize::MAX - digit) / 10 {
            assert(digits_value(next) > usize::MAX) by (nonlinear_arith)
                requires
                    digits_value(next) == value * 10 + digit,
                    value > (usize::MAX - digit) / 10,
                    digit <= 9,
            ;
            proof {
                if all_digits(d) {
                    lemma_digits_grow(d, i + 1 - start);
                    assert(digits_value(d) > usize::MAX);
                }
            }
            return None;
        }
        value = value * 10 + digit;
        i = i + 1;
    }
    assert(d.subrange(0, i - start) =~= d);
    Some(value)
}

/// Relies on `FromIterator<char>` for `String`: the string holds the given
/// characters, in order.
#[verifier::external_body]
pub(crate) fn string_of(chars: &Vec<char>) -> (r: String)
    ensures
        r@ == chars@,
{
    chars.iter().collect()
}

/// Relies on `str::parse`: the value that `T`'s `FromStr` reads from `s`, if
/// it reads one. What it reads depends on `T`'s implementation alone.
#[verifier::external_body]
pub(crate) fn parse_str<T: FromStr>(s: &str) -> (r: Option<T>) {
    s.parse::<T>().ok()
}

/// The value read from a token, or the error that names the line it stands on.
pub fn checked_value<T>(parsed: Option<T>, line: &str) -> (r: Result<T, GeometryError>)
    ensures
        parsed matches Some(v) ==> r == Ok::<T, GeometryError>(v),
        parsed is None ==> (r matches Err(GeometryError::WrongNumber(l)) && l@ == line@),
{
    match parsed {
        Some(v) => Ok(v),
        None => Err(GeometryError::WrongNumber(line.to_owned())),
    }
}

/// Reads the next value of a line: `MissingValue` when there is none,
/// `WrongNumber` when it is not a valid `T`.
pub fn parse_next<T: FromStr>(slice: Option<&str>, line: &str) -> (r: Result<T, GeometryError>)
    ensures
        slice is None ==> (r matches Err(GeometryError::MissingValue(l)) && l@ == line@),
        slice is Some ==> r is Ok || (r matches Err(GeometryError::WrongNumber(l)) && l@ == line@),
{
    match slice {
        None => Err(GeometryError::MissingValue(line.to_owned())),
        Some(s) => checked_value(parse_str::<T>(s), line),
    }
}

} // verus!
