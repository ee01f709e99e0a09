use http_cli::validators::{
    finish_validation, resolve, validate, validate_ip_and_port, ValidationError,
};

#[test]
fn missing_scheme_is_invalid_protocol() {
    for url in ["example.com", "ftp://example.com", "", "http:/example.com", "htp://x", "//x"] {
        assert_eq!(validate(url), Err(ValidationError::InvalidProtocol), "{}", url);
        assert_eq!(validate_ip_and_port(url), Err(ValidationError::InvalidProtocol), "{}", url);
    }
}

#[test]
fn scheme_match_is_case_sensitive() {
    assert_eq!(validate("HTTP://example.com"), Err(ValidationError::InvalidProtocol));
    assert_eq!(validate("Https://example.com"), Err(ValidationError::InvalidProtocol));
}

#[test]
fn scheme_must_stand_at_the_start() {
    assert_eq!(validate(" http://example.com"), Err(ValidationError::InvalidProtocol));
    assert_eq!(validate("xhttp://999.9.9.9"), Err(ValidationError::InvalidProtocol));
}

#[test]
fn both_schemes_are_accepted() {
    assert_eq!(validate("http://example.com"), Ok(()));
    assert_eq!(validate("https://example.com"), Ok(()));
}

#[test]
fn protocol_is_checked_before_the_host() {
    assert_eq!(validate("ftp://999.999.999.999"), Err(ValidationError::InvalidProtocol));
    assert_eq!(validate("ftp://[zz]:99999"), Err(ValidationError::InvalidProtocol));
}

#[test]
fn validate_ip_and_port_refuses_a_url_without_scheme() {
    assert_eq!(validate_ip_and_port("999.999.999.999"), Err(ValidationError::InvalidProtocol));
    assert_eq!(
        validate_ip_and_port("ftp://999.999.999.999:99999"),
        Err(ValidationError::InvalidProtocol)
    );
    assert_eq!(validate_ip_and_port("ftp://[zz]"), Err(ValidationError::InvalidProtocol));
    assert_eq!(validate_ip_and_port(""), Err(ValidationError::InvalidProtocol));
}

#[test]
fn octet_above_255_is_invalid_ipv4() {
    for url in [
        "http://999.999.999.999",
        "http://256.0.0.1",
        "http://1.256.0.1",
        "http://1.2.256.1",
        "http://1.2.3.256",
        "https://1.2.3.300/path",
        "http://1.2.3.999:80",
    ] {
        assert_eq!(validate(url), Err(ValidationError::InvalidIPv4), "{}", url);
        assert_eq!(validate_ip_and_port(url), Err(ValidationError::InvalidIPv4), "{}", url);
    }
}

#[test]
fn octets_up_to_255_pass_the_ipv4_stage() {
    for url in [
        "http://0.0.0.0",
        "http://1.2.3.4",
        "http://255.255.255.255",
        "http://127.0.0.1:8080/index.html",
        "https://10.0.0.1/",
    ] {
        assert_eq!(validate_ip_and_port(url), Ok(()), "{}", url);
        assert_eq!(validate(url), Ok(()), "{}", url);
    }
}

#[test]
fn leading_zeros_do_not_fail_the_ipv4_stage() {
    assert_eq!(validate_ip_and_port("http://001.002.003.004"), Ok(()));
    assert_eq!(validate_ip_and_port("http://000.000.000.255"), Ok(()));
}

#[test]
fn partial_dotted_host_is_a_domain_name() {
    assert_eq!(validate_ip_and_port("http://1.2.3"), Ok(()));
    assert_eq!(validate_ip_and_port("http://1.2.3.4.5"), Ok(()));
    assert_eq!(validate_ip_and_port("http://1234.1.1.1"), Ok(()));
    assert_eq!(validate_ip_and_port("http://999.999.999.example"), Ok(()));
    assert_eq!(validate_ip_and_port("http://1..2.3"), Ok(()));
}

#[test]
fn ipv4_is_checked_before_the_port() {
    assert_eq!(validate("http://999.1.1.1:99999"), Err(ValidationError::InvalidIPv4));
}

#[test]
fn bracketed_host_must_be_ipv6() {
    for url in [
        "http://[::1]",
        "http://[::]",
        "http://[1:2:3:4:5:6:7:8]",
        "http://[2001:db8::ff00:42:8329]/path",
        "http://[::ffff:192.168.0.1]",
        "http://[1:2:3:4:5:6:1.2.3.4]",
        "http://[1:2:3:4:5:6:7::]",
        "http://[::2:3:4:5:6:7:8]",
        "http://[ABCD:ef01::]",
        "https://[::1]:8443/",
    ] {
        assert_eq!(validate_ip_and_port(url), Ok(()), "{}", url);
    }
}

#[test]
fn invalid_bracketed_host_is_invalid_ipv6() {
    for url in [
        "http://[]",
        "http://[xyz]",
        "http://[1.2.3.4]",
        "http://[:]",
        "http://[:::]",
        "http://[1::2::3]",
        "http://[1:2:3:4:5:6:7]",
        "http://[1:2:3:4:5:6:7:8:9]",
        "http://[1::2:3:4:5:6:7:8]",
        "http://[12345::]",
        "http://[::g]",
        "http://[:1::2]",
        "http://[1:2:3:4:5:6:7:1.2.3.4]",
        "http://[1.2.3.4::1]",
        "http://[::1.2.3.256]",
        "http://[::1.2.3.04]",
        "http://[::1.2.3]",
        "http://[1:2:3:4:5:6::1.2.3.4]",
        "http://[example.com]",
        "http://[::1 ]",
    ] {
        assert_eq!(validate(url), Err(ValidationError::InvalidIPv6), "{}", url);
    }
}

#[test]
fn zone_id_is_part_of_an_ipv6_host() {
    assert_eq!(validate_ip_and_port("http://[fe80::1%eth0]"), Ok(()));
    assert_eq!(validate_ip_and_port("http://[fe80::1%25eth0]:80/"), Ok(()));
    assert_eq!(validate_ip_and_port("http://[fe80::1%]"), Err(ValidationError::InvalidIPv6));
    assert_eq!(validate_ip_and_port("http://[fe80::1%a b]"), Err(ValidationError::InvalidIPv6));
    assert_eq!(validate_ip_and_port("http://[fe80::1%a%b]"), Err(ValidationError::InvalidIPv6));
    assert_eq!(validate_ip_and_port("http://[%eth0]"), Err(ValidationError::InvalidIPv6));
    assert_eq!(validate_ip_and_port("http://[zz%eth0]"), Err(ValidationError::InvalidIPv6));
}

#[test]
fn ipv6_is_checked_before_the_port() {
    assert_eq!(validate("http://[zz]:99999"), Err(ValidationError::InvalidIPv6));
}

#[test]
fn port_range_is_zero_to_65535() {
    assert_eq!(validate("http://example.com:65535"), Ok(()));
    assert_eq!(validate("http://example.com:65536"), Err(ValidationError::InvalidPort));
    assert_eq!(validate("http://example.com:0"), Ok(()));
    assert_eq!(validate("http://example.com:80/path"), Ok(()));
    assert_eq!(validate("http://example.com:99999"), Err(ValidationError::InvalidPort));
    assert_eq!(
        validate("http://example.com:99999999999999999999999999"),
        Err(ValidationError::InvalidPort)
    );
    assert_eq!(validate_ip_and_port("http://example.com:00080"), Ok(()));
    assert_eq!(validate_ip_and_port("http://1.2.3.4:65536"), Err(ValidationError::InvalidPort));
    assert_eq!(validate_ip_and_port("http://[::1]:65535"), Ok(()));
    assert_eq!(validate_ip_and_port("http://[::1]:65536"), Err(ValidationError::InvalidPort));
}

#[test]
fn port_must_be_digits() {
    assert_eq!(validate("http://example.com:abc"), Err(ValidationError::InvalidPort));
    assert_eq!(validate("http://example.com:"), Err(ValidationError::InvalidPort));
    assert_eq!(validate("http://example.com:+80"), Err(ValidationError::InvalidPort));
    assert_eq!(validate("http://example.com:8o"), Err(ValidationError::InvalidPort));
    assert_eq!(validate("http://[::1]:x"), Err(ValidationError::InvalidPort));
    assert_eq!(validate("http://[::1]:"), Err(ValidationError::InvalidPort));
}

#[test]
fn several_colons_without_brackets_are_all_host() {
    assert_eq!(validate_ip_and_port("http://::1"), Ok(()));
    assert_eq!(validate_ip_and_port("http://a:b:c"), Ok(()));
    assert_eq!(validate_ip_and_port("http://1:2:99999"), Ok(()));
    assert_eq!(validate_ip_and_port("http://[::1"), Ok(()));
}

#[test]
fn authority_ends_at_the_first_slash() {
    assert_eq!(validate_ip_and_port("http://example.com/a:b"), Ok(()));
    assert_eq!(validate_ip_and_port("http://example.com/999.999.999.999"), Ok(()));
    assert_eq!(validate_ip_and_port("http://1.2.3.4/:99999"), Ok(()));
    assert_eq!(validate_ip_and_port("http://[::1/]"), Ok(()));
}

#[test]
fn what_follows_a_bracketed_host_is_a_port_only_behind_a_colon() {
    assert_eq!(validate_ip_and_port("http://[::1]x"), Ok(()));
    assert_eq!(validate("http://[::1]x"), Err(ValidationError::UnparsableURL));
}

#[test]
fn url_parser_has_the_last_word() {
    assert_eq!(validate_ip_and_port("http://"), Ok(()));
    assert_eq!(validate("http://"), Err(ValidationError::UnparsableURL));
    assert_eq!(validate("http://exa mple.com"), Err(ValidationError::UnparsableURL));
    assert_eq!(validate("http://::1"), Err(ValidationError::UnparsableURL));
}

#[test]
fn resolve_gives_the_normalized_url() {
    assert_eq!(resolve("http://example.com"), Ok("http://example.com/".to_string()));
    assert_eq!(resolve("http://EXAMPLE.com:80/a b"), Ok("http://example.com/a%20b".to_string()));
    assert_eq!(resolve("https://[::1]:8443"), Ok("https://[::1]:8443/".to_string()));
    assert_eq!(resolve("http://1.2.3.4.5x:1"), Ok("http://1.2.3.4.5x:1/".to_string()));
    assert_eq!(resolve("http://999.1.1.1"), Err(ValidationError::InvalidIPv4));
    assert_eq!(resolve("http://"), Err(ValidationError::UnparsableURL));
}

#[test]
fn finish_validation_maps_a_failed_parse() {
    assert_eq!(finish_validation(None), Err(ValidationError::UnparsableURL));
    assert_eq!(finish_validation(Some("http://a/".to_string())), Ok("http://a/".to_string()));
}

#[test]
fn error_messages() {
    assert_eq!(
        ValidationError::InvalidProtocol.message(),
        "The URL does not have a valid base protocol."
    );
    assert_eq!(ValidationError::InvalidIPv4.message(), "The URL contains an invalid IPv4 address.");
    assert_eq!(ValidationError::InvalidIPv6.message(), "The URL contains an invalid IPv6 address.");
    assert_eq!(ValidationError::InvalidPort.message(), "The URL contains an invalid port number.");
    assert_eq!(ValidationError::UnparsableURL.message(), "The URL could not be parsed.");
}

#[test]
fn non_ascii_text_is_handled_by_characters() {
    assert_eq!(validate_ip_and_port("http://b\u{fc}cher.example:80/\u{e9}"), Ok(()));
    assert_eq!(validate_ip_and_port("http://b\u{fc}cher.example:8\u{661}"), Err(ValidationError::InvalidPort));
    assert_eq!(validate_ip_and_port("http://\u{661}.2.3.999"), Ok(()));
}
