//! Validation of a URL before any request is made.
//!
//! The checks run in a fixed order and the first one that fails decides:
//! the scheme, then the host (a bracketed host must be an IPv6 literal, a host
//! that looks like a dotted IPv4 address must be one), then the port, and last
//! a full parse of the URL.

use vstd::prelude::*;
use crate::ipv4::{check_quad, has_ipv4_shape, is_ipv4_address, OctetRule};
use crate::ipv6::{check_ipv6_literal, is_ipv6_literal};
use crate::text::{
    all_digits, decimal_value, find_char, first_index, lemma_first_index, occurs_once,
    parse_decimal, starts_with, to_chars,
};
use vstd::slice::slice_subrange;

verus! {

/// Why a URL was refused.
#[derive(Clone, Copy, Debug, PartialEq, Eq, Structural)]
pub enum ValidationError {
    /// The URL starts with neither `http://` nor `https://`.
    InvalidProtocol,
    /// The host looks like a dotted IPv4 address but one of its numbers exceeds 255.
    InvalidIPv4,
    /// The host is bracketed but what the brackets hold is no IPv6 address.
    InvalidIPv6,
    /// The port is not a decimal number from 0 to 65535.
    InvalidPort,
    /// The URL passed the checks above but the URL parser refused it.
    UnparsableURL,
}

impl ValidationError {
    /// The sentence that tells the user about this error.
    pub open spec fn message_text(self) -> Seq<char> {
        match self {
            ValidationError::InvalidProtocol => "The URL does not have a valid base protocol."@,
            ValidationError::InvalidIPv4 => "The URL contains an invalid IPv4 address."@,
            ValidationError::InvalidIPv6 => "The URL contains an invalid IPv6 address."@,
            ValidationError::InvalidPort => "The URL contains an invalid port number."@,
            ValidationError::UnparsableURL => "The URL could not be parsed."@,
        }
    }

    /// Writes `message_text`.
    pub fn message(&self) -> (r: String)
        ensures
            r@ == self.message_text(),
    {
        match self {
            ValidationError::InvalidProtocol => {
                "The URL does not have a valid base protocol.".to_owned()
            },
            ValidationError::InvalidIPv4 => "The URL contains an invalid IPv4 address.".to_owned(),
            ValidationError::InvalidIPv6 => "The URL contains an invalid IPv6 address.".to_owned(),
            ValidationError::InvalidPort => "The URL contains an invalid port number.".to_owned(),
            ValidationError::UnparsableURL => "The URL could not be parsed.".to_owned(),
        }
    }
}

/// The characters of `http://`.
pub open spec fn http_scheme() -> Seq<char> {
    seq!['h', 't', 't', 'p', ':', '/', '/']
}

/// The characters of `https://`.
pub open spec fn https_scheme() -> Seq<char> {
    seq!['h', 't', 't', 'p', 's', ':', '/', '/']
}

/// The URL begins, letter for letter, with `http://` or `https://`.
pub open spec fn has_valid_protocol(url: Seq<char>) -> bool {
    http_scheme().is_prefix_of(url) || https_scheme().is_prefix_of(url)
}

/// What follows the scheme.
pub open spec fn after_scheme(url: Seq<char>) -> Seq<char> {
    if https_scheme().is_prefix_of(url) {
        url.skip(8)
    } else {
        url.skip(7)
    }
}

/// The authority: what stands between the scheme and the first `/`, or the
/// end of the URL.
pub open spec fn authority(url: Seq<char>) -> Seq<char> {
    let rest = after_scheme(url);
    rest.take(first_index(rest, '/'))
}

/// The authority opens with `[` and holds a `]`.
pub open spec fn is_bracketed(a: Seq<char>) -> bool {
    a.len() > 0 && a[0] == '[' && a.contains(']')
}

/// What a bracketed authority holds between `[` and the first `]`.
pub open spec fn bracket_interior(a: Seq<char>) -> Seq<char> {
    a.subrange(1, first_index(a, ']'))
}

/// The host of an authority without brackets: what stands before the colon if
/// there is exactly one colon, else the whole authority.
pub open spec fn plain_host(a: Seq<char>) -> Seq<char> {
    if occurs_once(a, ':') {
        a.take(first_index(a, ':'))
    } else {
        a
    }
}

/// The port text of an authority, if it has one. After a bracketed host it is
/// what follows a colon that stands right behind the `]`. Without brackets it
/// is what follows the colon if there is exactly one; an authority with
/// several colons is all host.
pub open spec fn port_suffix(a: Seq<char>) -> Option<Seq<char>> {
    if is_bracketed(a) {
        let tail = a.skip(first_index(a, ']') + 1);
        if tail.len() > 0 && tail[0] == ':' {
            Some(tail.skip(1))
        } else {
            None
        }
    } else if occurs_once(a, ':') {
        Some(a.skip(first_index(a, ':') + 1))
    } else {
        None
    }
}

/// A port: at least one decimal digit, denoting a number from 0 to 65535.
pub open spec fn is_port_number(p: Seq<char>) -> bool {
    p.len() >= 1 && all_digits(p) && decimal_value(p) <= 65535
}

/// The host check of an authority: a bracketed host must hold an IPv6 literal,
/// and a host of IPv4 shape must be an IPv4 address. Any other host passes.
pub open spec fn host_verdict(a: Seq<char>) -> Result<(), ValidationError> {
    if is_bracketed(a) {
        if is_ipv6_literal(bracket_interior(a)) {
            Ok(())
        } else {
            Err(ValidationError::InvalidIPv6)
        }
    } else if has_ipv4_shape(plain_host(a)) && !is_ipv4_address(plain_host(a)) {
        Err(ValidationError::InvalidIPv4)
    } else {
        Ok(())
    }
}

/// The port check of an authority: a port text, where there is one, must be a
/// port number.
pub open spec fn port_verdict(a: Seq<char>) -> Result<(), ValidationError> {
    match port_suffix(a) {
        Some(p) => if is_port_number(p) {
            Ok(())
        } else {
            Err(ValidationError::InvalidPort)
        },
        None => Ok(()),
    }
}

/// Host check, then port check.
pub open spec fn authority_verdict(a: Seq<char>) -> Result<(), ValidationError> {
    if host_verdict(a) is Err {
        host_verdict(a)
    } else {
        port_verdict(a)
    }
}

/// Every check that needs no URL parser: the scheme, then host and port.
pub open spec fn syntax_verdict(url: Seq<char>) -> Result<(), ValidationError> {
    if has_valid_protocol(url) {
        authority_verdict(authority(url))
    } else {
        Err(ValidationError::InvalidProtocol)
    }
}

/// The whole validation, given what the URL parser made of the URL: the
/// normalized URL on success.
pub open spec fn verdict_with(url: Seq<char>, parsed: Option<Seq<char>>) -> Result<
    Seq<char>,
    ValidationError,
> {
    match syntax_verdict(url) {
        Err(e) => Err(e),
        Ok(_) => match parsed {
            Some(text) => Ok(text),
            None => Err(ValidationError::UnparsableURL),
        },
    }
}

/// What the URL parser of the `url` crate gives for `input`: the serialization
/// of the parsed URL, or `None` where it refuses the input.
pub uninterp spec fn normalized_url(input: Seq<char>) -> Option<Seq<char>>;

/// The view of an optional string.
pub open spec fn text_view(s: Option<String>) -> Option<Seq<char>> {
    match s {
        Some(t) => Some(t@),
        None => None,
    }
}

/// The view of a validation result that carries the normalized URL.
pub open spec fn resolved_view(r: Result<String, ValidationError>) -> Result<
    Seq<char>,
    ValidationError,
> {
    match r {
        Ok(t) => Ok(t@),
        Err(e) => Err(e),
    }
}

/// Calls `url::Url::parse` and hands back the URL's serialization, or `None`
/// where the parser returns an error. Nothing is claimed about which inputs
/// parse or what the serialization looks like, only that both depend on the
/// input text alone.
#[verifier::external_body]
fn parse_url(input: &str) -> (r: Option<String>)
    ensures
        text_view(r) == normalized_url(input@),
{
    url::Url::parse(input).ok().map(String::from)
}

/// The length of the scheme that `s` begins with.
fn scheme_len(s: &[char]) -> (r: Option<usize>)
    ensures
        r is Some <==> has_valid_protocol(s@),
        r matches Some(n) ==> n <= s@.len() && s@.skip(n as int) == after_scheme(s@),
{
    let http: [char; 7] = ['h', 't', 't', 'p', ':', '/', '/'];
    let https: [char; 8] = ['h', 't', 't', 'p', 's', ':', '/', '/'];
    if starts_with(s, https.as_slice()) {
        Some(8)
    } else if starts_with(s, http.as_slice()) {
        Some(7)
    } else {
        None
    }
}

/// Decides `port_verdict` for a port text that has been cut out already.
fn check_port(port: Option<&[char]>) -> (r: Result<(), ValidationError>)
    ensures
        r == match port {
            Some(p) => if is_port_number(p@) {
                Ok::<(), ValidationError>(())
            } else {
                Err(ValidationError::InvalidPort)
            },
            None => Ok(()),
        },
{
    match port {
        Some(p) => {
            if parse_decimal(p, 65535).is_some() {
                Ok(())
            } else {
                Err(ValidationError::InvalidPort)
            }
        },
        None => Ok(()),
    }
}

/// Decides `authority_verdict`.
pub fn check_authority(a: &[char]) -> (r: Result<(), ValidationError>)
    ensures
        r == authority_verdict(a@),
{
    proof {
        lemma_first_index(a@, ']');
    }
    if a.len() > 0 && a[0] == '[' {
        let close = find_char(a, ']');
        if close < a.len() {
            if !check_ipv6_literal(slice_subrange(a, 1, close)) {
                return Err(ValidationError::InvalidIPv6);
            }
            let tail = slice_subrange(a, close + 1, a.len());
            if tail.len() > 0 && tail[0] == ':' {
                return check_port(Some(slice_subrange(tail, 1, tail.len())));
            }
            return Ok(());
        }
    }
    let colon = find_char(a, ':');
    let mut single = false;
    if colon < a.len() {
        let rest = slice_subrange(a, colon + 1, a.len());
        proof {
            lemma_first_index(rest@, ':');
        }
        single = find_char(rest, ':') == rest.len();
    }
    if single {
        let host = slice_subrange(a, 0, colon);
        if check_quad(host, OctetRule::Digits) && !check_quad(host, OctetRule::Value) {
            return Err(ValidationError::InvalidIPv4);
        }
        check_port(Some(slice_subrange(a, colon + 1, a.len())))
    } else {
        if check_quad(a, OctetRule::Digits) && !check_quad(a, OctetRule::Value) {
            return Err(ValidationError::InvalidIPv4);
        }
        Ok(())
    }
}

/// Checks the scheme, the host and the port of a URL, in this order, without
/// parsing the URL as a whole. A URL that starts with neither `http://` nor
/// `https://` is refused for its protocol, whatever else it holds. Behind a
/// valid scheme, a literal IPv4 or IPv6 host must be a valid address, and a
/// port must lie in range.
pub fn validate_ip_and_port(url: &str) -> (r: Result<(), ValidationError>)
    ensures
        r == syntax_verdict(url@),
{
    let chars = to_chars(url);
    let s = chars.as_slice();
    match scheme_len(s) {
        None => Err(ValidationError::InvalidProtocol),
        Some(n) => {
            let rest = slice_subrange(s, n, s.len());
            let slash = find_char(rest, '/');
            check_authority(slice_subrange(rest, 0, slash))
        },
    }
}

/// The last step of validation, on what the URL parser returned: a URL that
/// does not parse is refused, one that parses is handed on in normalized form.
pub fn finish_validation(parsed: Option<String>) -> (r: Result<String, ValidationError>)
    ensures
        resolved_view(r) == match text_view(parsed) {
            Some(text) => Ok::<Seq<char>, ValidationError>(text),
            None => Err(ValidationError::UnparsableURL),
        },
{
    match parsed {
        Some(text) => Ok(text),
        None => Err(ValidationError::UnparsableURL),
    }
}

/// Validates a URL and returns it in the URL parser's normalized form. The
/// parser is asked only about a URL that passed every check before it.
pub fn resolve(url: &str) -> (r: Result<String, ValidationError>)
    ensures
        resolved_view(r) == verdict_with(url@, normalized_url(url@)),
{
    match validate_ip_and_port(url) {
        Err(e) => Err(e),
        Ok(_) => finish_validation(parse_url(url)),
    }
}

/// Validates a URL: `Ok` exactly when the scheme, host and port checks pass
/// and the URL parser accepts the URL; else the error of the first check that
/// failed.
pub fn validate(url: &str) -> (r: Result<(), ValidationError>)
    ensures
        r is Ok <==> verdict_with(url@, normalized_url(url@)) is Ok,
        r matches Err(e) ==> verdict_with(url@, normalized_url(url@)) == Err::<
            Seq<char>,
            ValidationError,
        >(e),
{
    match resolve(url) {
        Ok(_) => Ok(()),
        Err(e) => Err(e),
    }
}

} // verus!
