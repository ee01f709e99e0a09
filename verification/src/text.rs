//! Character sequences: digits, decimal numbers, searching and splitting.
//!
//! Every specification here is stated over `Seq<char>`, the view of a string;
//! the executable functions work on slices of characters.

use vstd::prelude::*;
use vstd::slice::slice_subrange;

verus! {

/// An ASCII decimal digit.
pub open spec fn is_digit(c: char) -> bool {
    '0' <= c <= '9'
}

/// The number a decimal digit stands for.
pub open spec fn digit_value(c: char) -> nat {
    (c as int - '0' as int) as nat
}

/// An ASCII hexadecimal digit, in either case.
pub open spec fn is_hex_digit(c: char) -> bool {
    is_digit(c) || ('a' <= c <= 'f') || ('A' <= c <= 'F')
}

/// Every character of `s` is a decimal digit.
pub open spec fn all_digits(s: Seq<char>) -> bool {
    forall|i: int| 0 <= i < s.len() ==> is_digit(#[trigger] s[i])
}

/// The number that a run of decimal digits denotes; leading zeros count for nothing.
pub open spec fn decimal_value(s: Seq<char>) -> nat
    decreases s.len(),
{
    if s.len() == 0 {
        0
    } else {
        decimal_value(s.drop_last()) * 10 + digit_value(s.last())
    }
}

/// The position of the first `c` in `s`, or `s.len()` when `s` holds none.
pub open spec fn first_index(s: Seq<char>, c: char) -> int
    decreases s.len(),
{
    if s.len() == 0 || s[0] == c {
        0
    } else {
        1 + first_index(s.skip(1), c)
    }
}

/// `c` occurs in `s` exactly once.
pub open spec fn occurs_once(s: Seq<char>, c: char) -> bool {
    let i = first_index(s, c);
    0 <= i < s.len() && !s.skip(i + 1).contains(c)
}

/// The pieces of `s` between occurrences of `sep`. There is always at least one
/// piece, and a piece is empty where two separators touch or one stands at an end.
pub open spec fn split(s: Seq<char>, sep: char) -> Seq<Seq<char>>
    decreases s.len(),
{
    let i = first_index(s, sep);
    if 0 <= i < s.len() {
        seq![s.take(i)] + split(s.skip(i + 1), sep)
    } else {
        seq![s]
    }
}

/// `first_index` is in range, points at `c` if it points at anything, and
/// passes over no `c`.
pub proof fn lemma_first_index(s: Seq<char>, c: char)
    ensures
        0 <= first_index(s, c) <= s.len(),
        first_index(s, c) < s.len() ==> s[first_index(s, c)] == c,
        forall|j: int| 0 <= j < first_index(s, c) ==> s[j] != c,
        first_index(s, c) < s.len() <==> s.contains(c),
    decreases s.len(),
{
    if s.len() == 0 || s[0] == c {
    } else {
        let t = s.skip(1);
        lemma_first_index(t, c);
        let f = first_index(t, c);
        assert forall|j: int| 0 <= j < 1 + f implies s[j] != c by {
            if j > 0 {
                assert(t[j - 1] == s[j]);
            }
        }
    }
}

/// The only position that passes over no `c` and stops at one, or at the end,
/// is `first_index`.
pub proof fn lemma_first_index_is(s: Seq<char>, c: char, i: int)
    requires
        0 <= i <= s.len(),
        forall|j: int| 0 <= j < i ==> s[j] != c,
        i < s.len() ==> s[i] == c,
    ensures
        first_index(s, c) == i,
{
    lemma_first_index(s, c);
}

/// A prefix of a digit run denotes no more than the whole run.
pub proof fn lemma_decimal_value_prefix(s: Seq<char>, k: int)
    requires
        0 <= k <= s.len(),
    ensures
        decimal_value(s.take(k)) <= decimal_value(s),
    decreases s.len() - k,
{
    if k == s.len() {
        assert(s.take(k) =~= s);
    } else {
        lemma_decimal_value_prefix(s.drop_last(), k);
        assert(s.drop_last().take(k) =~= s.take(k));
    }
}

/// A run of at most `n` digits denotes less than ten to the `n`, here for the
/// lengths the address checks use.
pub proof fn lemma_decimal_value_short(s: Seq<char>)
    requires
        all_digits(s),
        s.len() <= 3,
    ensures
        decimal_value(s) <= 999,
        s.len() <= 2 ==> decimal_value(s) <= 99,
        s.len() <= 1 ==> decimal_value(s) <= 9,
    decreases s.len(),
{
    if s.len() > 0 {
        let t = s.drop_last();
        assert forall|i: int| 0 <= i < t.len() implies is_digit(#[trigger] t[i]) by {}
        lemma_decimal_value_short(t);
    }
}

/// The pieces and the last piece together are no longer than the text and one more.
pub proof fn lemma_split_len(s: Seq<char>, sep: char)
    ensures
        split(s, sep).len() >= 1,
        split(s, sep).len() + split(s, sep).last().len() <= s.len() + 1,
    decreases s.len(),
{
    let i = first_index(s, sep);
    if 0 <= i < s.len() {
        lemma_split_len(s.skip(i + 1), sep);
    }
}

/// The first piece of a split is what stands before the first separator.
pub proof fn lemma_split_first(s: Seq<char>, sep: char)
    ensures
        split(s, sep).len() >= 1,
        split(s, sep)[0] == s.take(first_index(s, sep)),
{
    lemma_first_index(s, sep);
}

/// What holds of every character of every piece holds of every character of
/// the text that is no separator.
pub proof fn lemma_split_covers(s: Seq<char>, sep: char, ok: spec_fn(char) -> bool)
    requires
        forall|k: int, j: int|
            0 <= k < split(s, sep).len() && 0 <= j < split(s, sep)[k].len() ==> ok(
                #[trigger] split(s, sep)[k][j],
            ),
    ensures
        forall|i: int| 0 <= i < s.len() ==> #[trigger] s[i] == sep || ok(s[i]),
    decreases s.len(),
{
    lemma_first_index(s, sep);
    let f = first_index(s, sep);
    if 0 <= f < s.len() {
        let rest = s.skip(f + 1);
        let tail = split(rest, sep);
        let all = split(s, sep);
        assert forall|k: int, j: int| 0 <= k < tail.len() && 0 <= j < tail[k].len() implies ok(
            #[trigger] tail[k][j],
        ) by {
            assert(all[k + 1] == tail[k]);
        }
        lemma_split_covers(rest, sep, ok);
        assert forall|i: int| 0 <= i < s.len() implies #[trigger] s[i] == sep || ok(s[i]) by {
            if i < f {
                assert(all[0][i] == s[i]);
            } else if i > f {
                assert(rest[i - f - 1] == s[i]);
            }
        }
    } else {
        assert forall|i: int| 0 <= i < s.len() implies #[trigger] s[i] == sep || ok(s[i]) by {
            assert(split(s, sep)[0] == s);
        }
    }
}

/// Decides `is_digit`.
pub fn check_digit(c: char) -> (r: bool)
    ensures
        r == is_digit(c),
{
    '0' <= c && c <= '9'
}

/// Decides `is_hex_digit`.
pub fn check_hex_digit(c: char) -> (r: bool)
    ensures
        r == is_hex_digit(c),
{
    ('0' <= c && c <= '9') || ('a' <= c && c <= 'f') || ('A' <= c && c <= 'F')
}

/// The characters of a string, one element each.
pub fn to_chars(s: &str) -> (v: Vec<char>)
    ensures
        v@ == s@,
{
    let mut v: Vec<char> = Vec::new();
    for c in it: s.chars()
        invariant
            it.seq() == s@,
            v@ == it.seq().take(it.index() as int),
    {
        v.push(c);
    }
    v
}

/// Whether `s` begins with `prefix`.
pub fn starts_with(s: &[char], prefix: &[char]) -> (r: bool)
    ensures
        r == prefix@.is_prefix_of(s@),
{
    if prefix.len() > s.len() {
        return false;
    }
    let mut i: usize = 0;
    while i < prefix.len()
        invariant
            i <= prefix@.len() <= s@.len(),
            forall|j: int| 0 <= j < i ==> s@[j] == prefix@[j],
        decreases prefix@.len() - i,
    {
        if s[i] != prefix[i] {
            return false;
        }
        i += 1;
    }
    true
}

/// Finds the first `c`: the result is `first_index`.
pub fn find_char(s: &[char], c: char) -> (r: usize)
    ensures
        r == first_index(s@, c),
        r <= s@.len(),
{
    let mut i: usize = 0;
    while i < s.len()
        invariant
            i <= s@.len(),
            forall|j: int| 0 <= j < i ==> s@[j] != c,
        decreases s@.len() - i,
    {
        if s[i] == c {
            proof {
                lemma_first_index_is(s@, c, i as int);
            }
            return i;
        }
        i += 1;
    }
    proof {
        lemma_first_index_is(s@, c, i as int);
    }
    i
}

/// Whether every character is a decimal digit.
pub fn check_all_digits(s: &[char]) -> (r: bool)
    ensures
        r == all_digits(s@),
{
    let mut i: usize = 0;
    while i < s.len()
        invariant
            i <= s@.len(),
            forall|j: int| 0 <= j < i ==> is_digit(#[trigger] s@[j]),
        decreases s@.len() - i,
    {
        if !check_digit(s[i]) {
            return false;
        }
        i += 1;
    }
    true
}

/// Reads a non-empty run of decimal digits whose value is at most `limit`.
/// Anything else, a longer text with a larger value too, gives `None`.
pub fn parse_decimal(s: &[char], limit: u32) -> (r: Option<u32>)
    ensures
        r is Some <==> s@.len() >= 1 && all_digits(s@) && decimal_value(s@) <= limit,
        r matches Some(v) ==> v == decimal_value(s@),
{
    if s.len() == 0 {
        return None;
    }
    let mut acc: u32 = 0;
    let mut i: usize = 0;
    while i < s.len()
        invariant
            i <= s@.len(),
            acc <= limit,
            acc == decimal_value(s@.take(i as int)),
            forall|j: int| 0 <= j < i ==> is_digit(#[trigger] s@[j]),
        decreases s@.len() - i,
    {
        let c = s[i];
        if !check_digit(c) {
            return None;
        }
        proof {
            let t = s@.take(i as int + 1);
            assert(t.drop_last() =~= s@.take(i as int));
        }
        let d: u64 = (c as u32 - '0' as u32) as u64;
        let next: u64 = acc as u64 * 10 + d;
        if next > limit as u64 {
            proof {
                lemma_decimal_value_prefix(s@, i as int + 1);
            }
            return None;
        }
        acc = next as u32;
        i += 1;
    }
    assert(s@.take(i as int) =~= s@);
    Some(acc)
}

/// The views of the pieces that a list of ranges cuts out of `s`.
pub open spec fn pieces_at(s: Seq<char>, ranges: Seq<(usize, usize)>) -> Seq<Seq<char>> {
    Seq::new(ranges.len(), |k: int| s.subrange(ranges[k].0 as int, ranges[k].1 as int))
}

/// Every range lies inside a text of length `len`.
pub open spec fn ranges_within(ranges: Seq<(usize, usize)>, len: nat) -> bool {
    forall|k: int| 0 <= k < ranges.len() ==> (#[trigger] ranges[k]).0 <= ranges[k].1 <= len
}

/// Splits `s` at every `sep` and returns where each piece begins and ends.
pub fn split_ranges(s: &[char], sep: char) -> (r: Vec<(usize, usize)>)
    ensures
        ranges_within(r@, s@.len()),
        pieces_at(s@, r@) == split(s@, sep),
{
    let mut out: Vec<(usize, usize)> = Vec::new();
    let mut start: usize = 0;
    let mut i: usize = 0;
    proof {
        assert(s@.skip(0) =~= s@);
    }
    while i < s.len()
        invariant
            start <= i <= s@.len(),
            ranges_within(out@, s@.len()),
            forall|j: int| start <= j < i ==> s@[j] != sep,
            split(s@, sep) == pieces_at(s@, out@) + split(s@.skip(start as int), sep),
        decreases s@.len() - i,
    {
        if s[i] == sep {
            proof {
                let rest = s@.skip(start as int);
                lemma_first_index_is(rest, sep, i - start);
                assert(rest.take(i - start) =~= s@.subrange(start as int, i as int));
                assert(rest.skip(i - start + 1) =~= s@.skip(i as int + 1));
                let before = pieces_at(s@, out@);
                let after = pieces_at(s@, out@.push((start, i)));
                assert(split(rest, sep) == seq![rest.take(i - start)] + split(
                    rest.skip(i - start + 1),
                    sep,
                ));
                assert(before + (seq![rest.take(i - start)] + split(s@.skip(i as int + 1), sep))
                    =~= after + split(s@.skip(i as int + 1), sep));
            }
            out.push((start, i));
            start = i + 1;
        }
        i += 1;
    }
    proof {
        let rest = s@.skip(start as int);
        lemma_first_index_is(rest, sep, rest.len() as int);
    }
    out.push((start, s.len()));
    out
}

/// The piece of `s` that a range names.
pub fn piece<'a>(s: &'a [char], range: (usize, usize)) -> (r: &'a [char])
    requires
        range.0 <= range.1 <= s@.len(),
    ensures
        r@ == s@.subrange(range.0 as int, range.1 as int),
{
    slice_subrange(s, range.0, range.1)
}

/// The character that writes a digit.
pub open spec fn digit_char(d: nat) -> char {
    if d == 0 {
        '0'
    } else if d == 1 {
        '1'
    } else if d == 2 {
        '2'
    } else if d == 3 {
        '3'
    } else if d == 4 {
        '4'
    } else if d == 5 {
        '5'
    } else if d == 6 {
        '6'
    } else if d == 7 {
        '7'
    } else if d == 8 {
        '8'
    } else {
        '9'
    }
}

/// A number written in decimal, without leading zeros.
pub open spec fn decimal_text(n: nat) -> Seq<char>
    decreases n,
{
    if n < 10 {
        seq![digit_char(n)]
    } else {
        decimal_text(n / 10).push(digit_char(n % 10))
    }
}

/// Writing a number and reading it back gives the number; what is written is
/// all digits, and starts with a zero only for zero itself.
pub proof fn lemma_decimal_text_reads_back(n: nat)
    ensures
        decimal_value(decimal_text(n)) == n,
        all_digits(decimal_text(n)),
        decimal_text(n).len() >= 1,
        decimal_text(n)[0] == '0' ==> n == 0,
    decreases n,
{
    let t = decimal_text(n);
    if n < 10 {
        assert(decimal_value(t.drop_last()) == 0);
    } else {
        lemma_decimal_text_reads_back(n / 10);
        let init = decimal_text(n / 10);
        assert(t.drop_last() =~= init);
        assert forall|i: int| 0 <= i < t.len() implies is_digit(#[trigger] t[i]) by {}
    }
}

/// The one-character text of a digit.
fn digit_str(d: u16) -> (r: &'static str)
    requires
        d < 10,
    ensures
        r@ == seq![digit_char(d as nat)],
{
    proof {
        reveal_strlit("0");
        reveal_strlit("1");
        reveal_strlit("2");
        reveal_strlit("3");
        reveal_strlit("4");
        reveal_strlit("5");
        reveal_strlit("6");
        reveal_strlit("7");
        reveal_strlit("8");
        reveal_strlit("9");
    }
    let r = if d == 0 {
        "0"
    } else if d == 1 {
        "1"
    } else if d == 2 {
        "2"
    } else if d == 3 {
        "3"
    } else if d == 4 {
        "4"
    } else if d == 5 {
        "5"
    } else if d == 6 {
        "6"
    } else if d == 7 {
        "7"
    } else if d == 8 {
        "8"
    } else {
        "9"
    };
    r
}

/// Writes a number in decimal.
pub fn decimal_string(n: u16) -> (r: String)
    ensures
        r@ == decimal_text(n as nat),
    decreases n,
{
    if n < 10 {
        digit_str(n).to_owned()
    } else {
        let mut s = decimal_string(n / 10);
        s.append(digit_str(n % 10));
        s
    }
}

/// Joins two texts.
pub fn join_text(a: &str, b: &str) -> (r: String)
    ensures
        r@ == a@ + b@,
{
    let mut r = a.to_owned();
    r.append(b);
    r
}

/// The text of `s` from one character position up to another.
pub fn substring(s: &str, from: usize, to: usize) -> (r: String)
    requires
        from <= to <= s@.len(),
    ensures
        r@ == s@.subrange(from as int, to as int),
{
    s.substring_char(from, to).to_owned()
}

} // verus!
