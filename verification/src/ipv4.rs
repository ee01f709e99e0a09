//! Dotted IPv4 text: four runs of digits separated by dots.

use vstd::prelude::*;
use crate::text::{
    all_digits, check_all_digits, decimal_value, lemma_decimal_value_short, parse_decimal, piece,
    pieces_at, ranges_within, split, split_ranges,
};

verus! {

/// How much is asked of each of the four parts of a dotted address.
#[derive(Clone, Copy, Debug, PartialEq, Eq, Structural)]
pub enum OctetRule {
    /// One to three decimal digits: the part merely looks like an octet.
    Digits,
    /// One to three decimal digits that denote a number from 0 to 255.
    Value,
    /// As `Value`, and written without a leading zero unless it is `0` itself.
    Canonical,
}

/// One to three decimal digits.
pub open spec fn is_octet_text(s: Seq<char>) -> bool {
    1 <= s.len() <= 3 && all_digits(s)
}

/// Whether one part of a dotted address meets `rule`.
pub open spec fn octet_ok(s: Seq<char>, rule: OctetRule) -> bool {
    match rule {
        OctetRule::Digits => is_octet_text(s),
        OctetRule::Value => is_octet_text(s) && decimal_value(s) <= 255,
        OctetRule::Canonical => is_octet_text(s) && decimal_value(s) <= 255 && (s.len() > 1
            ==> s[0] != '0'),
    }
}

/// `s` is exactly four dot-separated parts, each meeting `rule`.
pub open spec fn is_quad(s: Seq<char>, rule: OctetRule) -> bool {
    let parts = split(s, '.');
    parts.len() == 4 && forall|k: int| 0 <= k < 4 ==> octet_ok(#[trigger] parts[k], rule)
}

/// The host has the look of an IPv4 address, whatever its numbers are.
pub open spec fn has_ipv4_shape(host: Seq<char>) -> bool {
    is_quad(host, OctetRule::Digits)
}

/// The host has the look of an IPv4 address and each number is at most 255.
pub open spec fn is_ipv4_address(host: Seq<char>) -> bool {
    is_quad(host, OctetRule::Value)
}

/// A canonical dotted quad, the form that may end an IPv6 address.
pub open spec fn is_dotted_quad(s: Seq<char>) -> bool {
    is_quad(s, OctetRule::Canonical)
}

/// The number that part `k` of a dotted text denotes.
pub open spec fn octet_value(host: Seq<char>, k: int) -> nat {
    decimal_value(split(host, '.')[k])
}

/// A text of IPv4 shape is an address exactly when none of its four numbers
/// exceeds 255; and none can exceed 999.
pub proof fn lemma_ipv4_by_octets(host: Seq<char>)
    requires
        has_ipv4_shape(host),
    ensures
        is_ipv4_address(host) <==> (forall|k: int| 0 <= k < 4 ==> octet_value(host, k) <= 255),
        forall|k: int| 0 <= k < 4 ==> octet_value(host, k) <= 999,
{
    let parts = split(host, '.');
    assert forall|k: int| 0 <= k < 4 implies octet_value(host, k) <= 999 by {
        lemma_decimal_value_short(parts[k]);
    }
    if is_ipv4_address(host) {
        assert forall|k: int| 0 <= k < 4 implies octet_value(host, k) <= 255 by {}
    }
    if forall|k: int| 0 <= k < 4 ==> octet_value(host, k) <= 255 {
        assert forall|k: int| 0 <= k < 4 implies octet_ok(#[trigger] parts[k], OctetRule::Value) by {
            assert(octet_value(host, k) <= 255);
        }
    }
}

/// Decides `octet_ok`.
pub fn check_octet(s: &[char], rule: OctetRule) -> (r: bool)
    ensures
        r == octet_ok(s@, rule),
{
    if s.len() < 1 || s.len() > 3 {
        return false;
    }
    match rule {
        OctetRule::Digits => check_all_digits(s),
        OctetRule::Value => parse_decimal(s, 255).is_some(),
        OctetRule::Canonical => {
            if s.len() > 1 && s[0] == '0' {
                false
            } else {
                parse_decimal(s, 255).is_some()
            }
        },
    }
}

/// Decides `is_quad`.
pub fn check_quad(s: &[char], rule: OctetRule) -> (r: bool)
    ensures
        r == is_quad(s@, rule),
{
    let ranges = split_ranges(s, '.');
    if ranges.len() != 4 {
        return false;
    }
    let ghost parts = split(s@, '.');
    let mut k: usize = 0;
    while k < 4
        invariant
            k <= 4,
            ranges@.len() == 4,
            parts == split(s@, '.'),
            pieces_at(s@, ranges@) == parts,
            ranges_within(ranges@, s@.len()),
            forall|j: int| 0 <= j < k ==> octet_ok(#[trigger] parts[j], rule),
        decreases 4 - k,
    {
        let part = piece(s, ranges[k]);
        assert(part@ == pieces_at(s@, ranges@)[k as int]);
        if !check_octet(part, rule) {
            return false;
        }
        k += 1;
    }
    true
}

} // verus!
