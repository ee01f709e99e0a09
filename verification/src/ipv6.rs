//! IPv6 address text, as it stands between the brackets of a URL host.
//!
//! An address is written as groups of one to four hexadecimal digits separated
//! by colons. It stands for eight groups. One run of zero groups may be left out
//! and written `::`, and the last two groups may be written as a canonical
//! dotted quad. A zone id may follow the address after a `%`.

use vstd::prelude::*;
use crate::ipv4::{check_quad, is_dotted_quad, OctetRule};
use crate::text::{
    check_hex_digit, find_char, first_index, is_digit, is_hex_digit, lemma_split_len, piece,
    pieces_at, ranges_within, split, split_ranges,
};
use vstd::slice::slice_subrange;

verus! {

/// One group: one to four hexadecimal digits.
pub open spec fn is_h16(s: Seq<char>) -> bool {
    1 <= s.len() <= 4 && forall|i: int| 0 <= i < s.len() ==> is_hex_digit(#[trigger] s[i])
}

/// Two colons stand side by side at position `i`.
pub open spec fn colons_at(s: Seq<char>, i: int) -> bool {
    0 <= i && i + 1 < s.len() && s[i] == ':' && s[i + 1] == ':'
}

/// The position of the first `::` in `s`, or `s.len()` when there is none.
pub open spec fn double_colon_at(s: Seq<char>) -> int
    decreases s.len(),
{
    if s.len() < 2 {
        s.len() as int
    } else if s[0] == ':' && s[1] == ':' {
        0
    } else {
        1 + double_colon_at(s.skip(1))
    }
}

/// How many 16-bit groups a colon-separated list writes down, if it is well
/// formed: every part is a group, except that the last part may be a dotted
/// quad where `quad_last` allows it, and then counts for two. The empty text
/// is the empty list.
pub open spec fn group_total(s: Seq<char>, quad_last: bool) -> Option<nat> {
    if s.len() == 0 {
        Some(0nat)
    } else {
        let parts = split(s, ':');
        if !(forall|k: int| 0 <= k < parts.len() - 1 ==> is_h16(#[trigger] parts[k])) {
            None
        } else if is_h16(parts.last()) {
            Some(parts.len())
        } else if quad_last && is_dotted_quad(parts.last()) {
            Some(parts.len() + 1)
        } else {
            None
        }
    }
}

/// A syntactically valid IPv6 address, without a zone id.
///
/// Without `::` the text must write down all eight groups. With `::`, what
/// stands before it and what stands after it are lists of groups that leave at
/// least one group for the `::` to stand for; only the list after it may end in
/// a dotted quad.
pub open spec fn is_ipv6_address(s: Seq<char>) -> bool {
    let i = double_colon_at(s);
    if 0 <= i < s.len() {
        match (group_total(s.take(i), false), group_total(s.skip(i + 2), true)) {
            (Some(head), Some(tail)) => head + tail <= 7,
            _ => false,
        }
    } else {
        group_total(s, true) == Some(8nat)
    }
}

/// A character that may stand in a zone id: an ASCII letter, a digit, or one of
/// `-`, `.`, `_` and `~`.
pub open spec fn is_zone_char(c: char) -> bool {
    is_digit(c) || ('a' <= c <= 'z') || ('A' <= c <= 'Z') || c == '-' || c == '.' || c == '_' || c
        == '~'
}

/// A zone id: one or more zone characters.
pub open spec fn is_zone_id(z: Seq<char>) -> bool {
    z.len() >= 1 && forall|i: int| 0 <= i < z.len() ==> is_zone_char(#[trigger] z[i])
}

/// An IPv6 address with or without a zone id. The zone id, if there is one,
/// is what follows the first `%`.
pub open spec fn is_ipv6_literal(s: Seq<char>) -> bool {
    let p = first_index(s, '%');
    is_ipv6_address(s.take(p)) && (p < s.len() ==> is_zone_id(s.skip(p + 1)))
}

/// `double_colon_at` is in range, points at `::` if it points at anything, and
/// passes over none.
pub proof fn lemma_double_colon(s: Seq<char>)
    ensures
        0 <= double_colon_at(s) <= s.len(),
        double_colon_at(s) < s.len() ==> colons_at(s, double_colon_at(s)),
        forall|j: int| 0 <= j < double_colon_at(s) ==> !colons_at(s, j),
    decreases s.len(),
{
    if s.len() < 2 {
    } else if s[0] == ':' && s[1] == ':' {
    } else {
        let t = s.skip(1);
        lemma_double_colon(t);
        let d = double_colon_at(t);
        assert forall|j: int| 0 <= j < 1 + d implies !colons_at(s, j) by {
            if j > 0 {
                assert(!colons_at(t, j - 1));
            }
        }
    }
}

/// The only position that passes over no `::` and stops at one, or at the end,
/// is `double_colon_at`.
pub proof fn lemma_double_colon_is(s: Seq<char>, i: int)
    requires
        0 <= i <= s.len(),
        forall|j: int| 0 <= j < i ==> !colons_at(s, j),
        i < s.len() ==> colons_at(s, i),
    ensures
        double_colon_at(s) == i,
{
    lemma_double_colon(s);
}

/// A dotted quad is at least three characters long.
proof fn lemma_quad_len(s: Seq<char>)
    requires
        is_dotted_quad(s),
    ensures
        s.len() >= 3,
{
    lemma_split_len(s, '.');
}

/// Decides `is_h16`.
pub fn check_h16(s: &[char]) -> (r: bool)
    ensures
        r == is_h16(s@),
{
    if s.len() < 1 || s.len() > 4 {
        return false;
    }
    let mut i: usize = 0;
    while i < s.len()
        invariant
            i <= s@.len(),
            forall|j: int| 0 <= j < i ==> is_hex_digit(#[trigger] s@[j]),
        decreases s@.len() - i,
    {
        if !check_hex_digit(s[i]) {
            return false;
        }
        i += 1;
    }
    true
}

/// Finds the first `::`: the result is `double_colon_at`.
pub fn find_double_colon(s: &[char]) -> (r: usize)
    ensures
        r == double_colon_at(s@),
        r <= s@.len(),
        r < s@.len() ==> r + 2 <= s@.len(),
{
    let mut i: usize = 0;
    while i < s.len() && i + 1 < s.len()
        invariant
            i <= s@.len(),
            forall|j: int| 0 <= j < i ==> !colons_at(s@, j),
        decreases s@.len() - i,
    {
        if s[i] == ':' && s[i + 1] == ':' {
            proof {
                lemma_double_colon_is(s@, i as int);
            }
            return i;
        }
        i += 1;
    }
    proof {
        lemma_double_colon_is(s@, s@.len() as int);
    }
    s.len()
}

/// The count that `group_total` gives, as the executable function reports it.
pub open spec fn count_view(r: Option<usize>) -> Option<nat> {
    match r {
        Some(n) => Some(n as nat),
        None => None,
    }
}

/// Computes `group_total`.
pub fn count_groups(s: &[char], quad_last: bool) -> (r: Option<usize>)
    ensures
        count_view(r) == group_total(s@, quad_last),
{
    if s.len() == 0 {
        return Some(0);
    }
    let ranges = split_ranges(s, ':');
    let ghost parts = split(s@, ':');
    proof {
        lemma_split_len(s@, ':');
    }
    let n = ranges.len();
    let mut k: usize = 0;
    while k + 1 < n
        invariant
            1 <= n == ranges@.len(),
            n == parts.len(),
            k + 1 <= n,
            parts == split(s@, ':'),
            pieces_at(s@, ranges@) == parts,
            ranges_within(ranges@, s@.len()),
            forall|j: int| 0 <= j < k ==> is_h16(#[trigger] parts[j]),
        decreases n - k,
    {
        let part = piece(s, ranges[k]);
        assert(part@ == pieces_at(s@, ranges@)[k as int]);
        if !check_h16(part) {
            return None;
        }
        k += 1;
    }
    let last = piece(s, ranges[n - 1]);
    if check_h16(last) {
        Some(n)
    } else if quad_last && check_quad(last, OctetRule::Canonical) {
        proof {
            lemma_quad_len(last@);
        }
        Some(n + 1)
    } else {
        None
    }
}

/// Decides `is_ipv6_address`.
pub fn check_ipv6_address(s: &[char]) -> (r: bool)
    ensures
        r == is_ipv6_address(s@),
{
    let i = find_double_colon(s);
    if i < s.len() {
        let head = count_groups(slice_subrange(s, 0, i), false);
        let tail = count_groups(slice_subrange(s, i + 2, s.len()), true);
        match (head, tail) {
            (Some(h), Some(t)) => h <= 7 && t <= 7 - h,
            _ => false,
        }
    } else {
        match count_groups(s, true) {
            Some(n) => n == 8,
            None => false,
        }
    }
}

/// Decides `is_zone_char`.
pub fn check_zone_char(c: char) -> (r: bool)
    ensures
        r == is_zone_char(c),
{
    ('0' <= c && c <= '9') || ('a' <= c && c <= 'z') || ('A' <= c && c <= 'Z') || c == '-' || c
        == '.' || c == '_' || c == '~'
}

/// Decides `is_zone_id`.
pub fn check_zone_id(z: &[char]) -> (r: bool)
    ensures
        r == is_zone_id(z@),
{
    if z.len() == 0 {
        return false;
    }
    let mut i: usize = 0;
    while i < z.len()
        invariant
            i <= z@.len(),
            forall|j: int| 0 <= j < i ==> is_zone_char(#[trigger] z@[j]),
        decreases z@.len() - i,
    {
        if !check_zone_char(z[i]) {
            return false;
        }
        i += 1;
    }
    true
}

/// Decides `is_ipv6_literal`.
pub fn check_ipv6_literal(s: &[char]) -> (r: bool)
    ensures
        r == is_ipv6_literal(s@),
{
    let p = find_char(s, '%');
    if !check_ipv6_address(slice_subrange(s, 0, p)) {
        return false;
    }
    if p < s.len() {
        check_zone_id(slice_subrange(s, p + 1, s.len()))
    } else {
        true
    }
}

} // verus!
