//! What validation does, stated for every URL.
//!
//! The first group of theorems speaks of a URL through its authority, host and
//! port text as validation cuts them out. The second group builds the URL from
//! its parts and says how validation ends.

use vstd::prelude::*;
use crate::ipv4::{has_ipv4_shape, is_ipv4_address, lemma_ipv4_by_octets, octet_value};
use crate::ipv6::is_ipv6_literal;
use crate::text::{
    all_digits, decimal_value, first_index, is_digit, lemma_first_index, lemma_first_index_is,
    lemma_split_covers, lemma_split_first, split,
};
use crate::validators::{
    authority, bracket_interior, has_valid_protocol, host_verdict, http_scheme, https_scheme,
    is_bracketed, plain_host, port_suffix, syntax_verdict, verdict_with, ValidationError,
};

verus! {

/// Some number of a dotted host exceeds 255.
pub open spec fn some_octet_too_large(host: Seq<char>) -> bool {
    exists|k: int| 0 <= k < 4 && octet_value(host, k) > 255
}

/// A URL is refused for its protocol exactly when it starts with neither
/// `http://` nor `https://`, whatever else it holds and whatever the URL
/// parser makes of it. This holds of the checks before the parser and of the
/// whole validation alike.
pub proof fn theorem_protocol_required(url: Seq<char>, parsed: Option<Seq<char>>)
    ensures
        !has_valid_protocol(url) <==> syntax_verdict(url) == Err::<(), ValidationError>(
            ValidationError::InvalidProtocol,
        ),
        !has_valid_protocol(url) <==> verdict_with(url, parsed) == Err::<
            Seq<char>,
            ValidationError,
        >(ValidationError::InvalidProtocol),
{
}

/// A host of IPv4 shape stands in no brackets, begins with a digit, and holds
/// digits and dots only.
pub proof fn lemma_ipv4_shape_chars(host: Seq<char>)
    requires
        has_ipv4_shape(host),
    ensures
        host.len() >= 1,
        is_digit(host[0]),
        forall|i: int| 0 <= i < host.len() ==> #[trigger] host[i] == '.' || is_digit(host[i]),
{
    let parts = split(host, '.');
    lemma_split_first(host, '.');
    assert forall|k: int, j: int| 0 <= k < parts.len() && 0 <= j < parts[k].len() implies is_digit(
        #[trigger] split(host, '.')[k][j],
    ) by {}
    lemma_split_covers(host, '.', |c: char| is_digit(c));
}

/// Where the host of a URL has IPv4 shape: if one of its four numbers
/// exceeds 255 the URL is refused as an invalid IPv4 address; if none does,
/// the host check passes, and the port and the URL parser decide.
pub proof fn theorem_ipv4_octets(url: Seq<char>, parsed: Option<Seq<char>>)
    requires
        has_valid_protocol(url),
        has_ipv4_shape(plain_host(authority(url))),
    ensures
        !is_bracketed(authority(url)),
        some_octet_too_large(plain_host(authority(url))) ==> verdict_with(url, parsed) == Err::<
            Seq<char>,
            ValidationError,
        >(ValidationError::InvalidIPv4),
        !some_octet_too_large(plain_host(authority(url))) ==> host_verdict(authority(url)) is Ok
            && verdict_with(url, parsed) != Err::<Seq<char>, ValidationError>(
            ValidationError::InvalidIPv4,
        ),
{
    let a = authority(url);
    let host = plain_host(a);
    lemma_ipv4_shape_chars(host);
    lemma_ipv4_by_octets(host);
}

/// Where the host of a URL is bracketed, the URL is refused as an invalid
/// IPv6 address exactly when what the brackets hold is no IPv6 address with or
/// without a zone id.
pub proof fn theorem_bracketed_host(url: Seq<char>, parsed: Option<Seq<char>>)
    requires
        has_valid_protocol(url),
        is_bracketed(authority(url)),
    ensures
        !is_ipv6_literal(bracket_interior(authority(url))) <==> verdict_with(url, parsed) == Err::<
            Seq<char>,
            ValidationError,
        >(ValidationError::InvalidIPv6),
{
}

/// No URL without a bracketed host is refused as an invalid IPv6 address, and
/// no URL whose host lacks IPv4 shape is refused as an invalid IPv4 address.
pub proof fn theorem_literal_errors_need_literals(url: Seq<char>, parsed: Option<Seq<char>>)
    ensures
        verdict_with(url, parsed) == Err::<Seq<char>, ValidationError>(
            ValidationError::InvalidIPv6,
        ) ==> has_valid_protocol(url) && is_bracketed(authority(url)),
        verdict_with(url, parsed) == Err::<Seq<char>, ValidationError>(
            ValidationError::InvalidIPv4,
        ) ==> has_valid_protocol(url) && !is_bracketed(authority(url)) && has_ipv4_shape(
            plain_host(authority(url)),
        ),
{
}

/// Where a URL passes the host check and has a port written in digits, it is
/// refused as an invalid port exactly when the port exceeds 65535.
pub proof fn theorem_port_range(url: Seq<char>, parsed: Option<Seq<char>>, port: Seq<char>)
    requires
        has_valid_protocol(url),
        host_verdict(authority(url)) is Ok,
        port_suffix(authority(url)) == Some(port),
        port.len() >= 1,
        all_digits(port),
    ensures
        decimal_value(port) > 65535 <==> verdict_with(url, parsed) == Err::<
            Seq<char>,
            ValidationError,
        >(ValidationError::InvalidPort),
{
}

/// A port text that is empty or holds anything but digits is refused too.
pub proof fn theorem_port_digits(url: Seq<char>, parsed: Option<Seq<char>>, port: Seq<char>)
    requires
        has_valid_protocol(url),
        host_verdict(authority(url)) is Ok,
        port_suffix(authority(url)) == Some(port),
        port.len() == 0 || !all_digits(port),
    ensures
        verdict_with(url, parsed) == Err::<Seq<char>, ValidationError>(
            ValidationError::InvalidPort,
        ),
{
}

/// The URL parser is the last to speak: a URL is refused as unparsable
/// exactly when every check before passed and the parser gave nothing, and
/// it is accepted, in the parser's form, exactly when every check passed and
/// the parser gave that form.
pub proof fn theorem_parser_last(url: Seq<char>, parsed: Option<Seq<char>>)
    ensures
        verdict_with(url, parsed) == Err::<Seq<char>, ValidationError>(
            ValidationError::UnparsableURL,
        ) <==> syntax_verdict(url) is Ok && parsed is None,
        forall|text: Seq<char>|
            verdict_with(url, parsed) == Ok::<Seq<char>, ValidationError>(text) <==> syntax_verdict(
                url,
            ) is Ok && parsed == Some(text),
{
}

/// The URL made of a scheme, an authority and what follows it.
pub open spec fn url_of(secure: bool, authority: Seq<char>, path: Seq<char>) -> Seq<char> {
    if secure {
        https_scheme() + authority + path
    } else {
        http_scheme() + authority + path
    }
}

/// What follows an authority: nothing, or a text that begins with `/`.
pub open spec fn is_path(path: Seq<char>) -> bool {
    path.len() == 0 || path[0] == '/'
}

/// A URL built from a scheme, an authority without `/` and a path has a
/// valid protocol, and that authority.
pub proof fn lemma_url_parts(secure: bool, a: Seq<char>, path: Seq<char>)
    requires
        !a.contains('/'),
        is_path(path),
    ensures
        has_valid_protocol(url_of(secure, a, path)),
        authority(url_of(secure, a, path)) == a,
{
    let url = url_of(secure, a, path);
    let rest = a + path;
    if secure {
        assert(url.skip(8) =~= rest);
    } else {
        assert(url.skip(7) =~= rest);
    }
    assert forall|j: int| 0 <= j < a.len() implies rest[j] != '/' by {}
    lemma_first_index_is(rest, '/', a.len() as int);
}

/// An authority without a colon and without an opening bracket is all host.
pub proof fn lemma_host_alone(host: Seq<char>)
    requires
        !host.contains(':'),
        host.len() == 0 || host[0] != '[',
    ensures
        !is_bracketed(host),
        plain_host(host) == host,
        port_suffix(host) is None,
{
    lemma_first_index(host, ':');
}

/// An authority made of a host, a colon and a port, where neither holds a
/// colon and the host opens no bracket, is cut into that host and that port.
pub proof fn lemma_host_and_port(host: Seq<char>, port: Seq<char>)
    requires
        !host.contains(':'),
        !port.contains(':'),
        host.len() == 0 || host[0] != '[',
    ensures
        !is_bracketed(host + seq![':'] + port),
        plain_host(host + seq![':'] + port) == host,
        port_suffix(host + seq![':'] + port) == Some(port),
{
    let a = host + seq![':'] + port;
    assert forall|j: int| 0 <= j < host.len() implies a[j] != ':' by {}
    lemma_first_index_is(a, ':', host.len() as int);
}

/// An authority made of a bracketed text without `]` and what follows the
/// closing bracket is bracketed and holds that text.
pub proof fn lemma_bracketed(interior: Seq<char>, tail: Seq<char>)
    requires
        !interior.contains(']'),
    ensures
        is_bracketed(seq!['['] + interior + seq![']'] + tail),
        bracket_interior(seq!['['] + interior + seq![']'] + tail) == interior,
        (seq!['['] + interior + seq![']'] + tail).skip(
            first_index(seq!['['] + interior + seq![']'] + tail, ']') + 1,
        ) == tail,
{
    let a = seq!['['] + interior + seq![']'] + tail;
    let close = interior.len() as int + 1;
    assert forall|j: int| 0 <= j < close implies a[j] != ']' by {}
    lemma_first_index_is(a, ']', close);
    lemma_first_index(a, ']');
}

/// For every host of IPv4 shape, alone between the scheme and the path: the
/// URL passes the checks if each of the four numbers is at most 255, and is
/// refused as an invalid IPv4 address if one is not.
pub proof fn theorem_ipv4_host(secure: bool, host: Seq<char>, path: Seq<char>)
    requires
        has_ipv4_shape(host),
        is_path(path),
    ensures
        syntax_verdict(url_of(secure, host, path)) == if some_octet_too_large(host) {
            Err::<(), ValidationError>(ValidationError::InvalidIPv4)
        } else {
            Ok(())
        },
{
    lemma_ipv4_shape_chars(host);
    assert forall|c: char| c == '/' || c == ':' implies !host.contains(c) by {}
    lemma_url_parts(secure, host, path);
    lemma_host_alone(host);
    lemma_ipv4_by_octets(host);
}

/// For every bracketed host, alone between the scheme and the path: the URL
/// passes the checks if the brackets hold an IPv6 address with or without a
/// zone id, and is refused as an invalid IPv6 address if they do not.
pub proof fn theorem_ipv6_host(secure: bool, interior: Seq<char>, path: Seq<char>)
    requires
        !interior.contains(']'),
        !interior.contains('/'),
        is_path(path),
    ensures
        syntax_verdict(url_of(secure, seq!['['] + interior + seq![']'], path)) == if is_ipv6_literal(
            interior,
        ) {
            Ok::<(), ValidationError>(())
        } else {
            Err(ValidationError::InvalidIPv6)
        },
{
    let a = seq!['['] + interior + seq![']'];
    let none = Seq::<char>::empty();
    lemma_bracketed(interior, none);
    assert forall|j: int| 0 <= j < a.len() implies a[j] != '/' by {}
    lemma_url_parts(secure, a, path);
}

/// For every port written in digits behind a host that passes the host
/// check: the URL passes the checks if the port is at most 65535, and is
/// refused as an invalid port if it is larger.
pub proof fn theorem_port_of_host(secure: bool, host: Seq<char>, port: Seq<char>, path: Seq<char>)
    requires
        !host.contains(':'),
        !host.contains('/'),
        host.len() == 0 || host[0] != '[',
        has_ipv4_shape(host) ==> is_ipv4_address(host),
        port.len() >= 1,
        all_digits(port),
        is_path(path),
    ensures
        syntax_verdict(url_of(secure, host + seq![':'] + port, path)) == if decimal_value(port)
            <= 65535 {
            Ok::<(), ValidationError>(())
        } else {
            Err(ValidationError::InvalidPort)
        },
{
    let a = host + seq![':'] + port;
    assert forall|c: char| c == '/' || c == ':' implies !port.contains(c) by {}
    assert forall|j: int| 0 <= j < a.len() implies a[j] != '/' by {}
    lemma_url_parts(secure, a, path);
    lemma_host_and_port(host, port);
}

} // verus!
