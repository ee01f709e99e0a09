use http_cli::handlers::{
    handle_get, handle_post_data, handle_post_json, handle_request_error, post_json_from,
    print_error, print_response, render_response, status_is_success, Body, Method,
};

fn form(list: &[(&str, &str)]) -> Vec<(String, String)> {
    list.iter().map(|(k, v)| (k.to_string(), v.to_string())).collect()
}

#[test]
fn get_has_two_trace_lines_and_no_body() {
    let p = handle_get("http://example.com/");
    assert_eq!(p.trace, vec!["Requesting URL: http://example.com/", "Method: GET"]);
    let request = p.outcome.unwrap();
    assert_eq!(request.url, "http://example.com/");
    assert_eq!(request.method, Method::Get);
    assert!(matches!(request.body, Body::Empty));
    assert_eq!(request.content_type(), None);
}

#[test]
fn post_data_builds_form_pairs() {
    let p = handle_post_data("http://example.com/", "a=1&b=2");
    assert_eq!(
        p.trace,
        vec!["Requesting URL: http://example.com/", "Method: POST", "Data: a=1&b=2"]
    );
    let request = p.outcome.unwrap();
    assert_eq!(request.url, "http://example.com/");
    assert_eq!(request.method, Method::Post);
    match &request.body {
        Body::Form(pairs) => assert_eq!(pairs, &form(&[("a", "1"), ("b", "2")])),
        other => panic!("{:?}", other),
    }
    assert_eq!(request.content_type(), None);
}

#[test]
fn post_data_without_equals_gives_an_empty_value() {
    let request = handle_post_data("http://example.com/", "a&b=2").outcome.unwrap();
    match &request.body {
        Body::Form(pairs) => assert_eq!(pairs, &form(&[("a", ""), ("b", "2")])),
        other => panic!("{:?}", other),
    }
}

#[test]
fn post_json_sends_the_value_in_compact_form() {
    let raw = "{ \"name\" : \"x\",\n  \"list\" : [ 1 , 2 ] }";
    let p = handle_post_json("http://example.com/api", raw);
    assert_eq!(
        p.trace,
        vec![
            "Requesting URL: http://example.com/api".to_string(),
            "Method: POST".to_string(),
            format!("JSON: {}", raw),
        ]
    );
    let request = p.outcome.unwrap();
    assert_eq!(request.method, Method::Post);
    assert_eq!(request.url, "http://example.com/api");
    match &request.body {
        Body::Json(text) => assert_eq!(text, "{\"name\":\"x\",\"list\":[1,2]}"),
        other => panic!("{:?}", other),
    }
    assert_eq!(request.content_type(), Some("application/json".to_string()));
}

#[test]
fn post_json_with_invalid_json_sends_nothing() {
    let p = handle_post_json("http://example.com/", "{invalid");
    assert_eq!(
        p.trace,
        vec!["Requesting URL: http://example.com/", "Method: POST", "JSON: {invalid"]
    );
    let report = p.outcome.unwrap_err();
    assert_eq!(report.exit_code, 1);
    assert_eq!(report.message, "Error: Invalid JSON.");
}

#[test]
fn post_json_from_takes_the_parsers_answer() {
    let sent = post_json_from("http://h/", "[ 1 ]", Some("[1]".to_string()));
    match sent.outcome.unwrap().body {
        Body::Json(text) => assert_eq!(text, "[1]"),
        other => panic!("{:?}", other),
    }
    let failed = post_json_from("http://h/", "[ 1", None);
    assert_eq!(failed.trace, vec!["Requesting URL: http://h/", "Method: POST", "JSON: [ 1"]);
    assert_eq!(failed.outcome.unwrap_err().exit_code, 1);
}

#[test]
fn print_error_traces_a_get_and_reports_the_message() {
    let p = print_error("http://999.1.1.1", "The URL contains an invalid IPv4 address.");
    assert_eq!(p.trace, vec!["Requesting URL: http://999.1.1.1", "Method: GET"]);
    let report = p.outcome.unwrap_err();
    assert_eq!(report.message, "Error: The URL contains an invalid IPv4 address.");
    assert_eq!(report.exit_code, 1);
}

#[test]
fn success_is_the_2xx_class() {
    assert!(!status_is_success(0));
    assert!(!status_is_success(199));
    assert!(status_is_success(200));
    assert!(status_is_success(201));
    assert!(status_is_success(204));
    assert!(status_is_success(299));
    assert!(!status_is_success(300));
    assert!(!status_is_success(404));
    assert!(!status_is_success(500));
    assert!(!status_is_success(65535));
}

#[test]
fn json_object_body_is_rendered_with_sorted_keys() {
    let report = print_response(200, "{\"b\":1,\"a\":2}");
    assert_eq!(report.exit_code, 0);
    assert_eq!(
        report.message,
        "Response body (JSON with sorted keys):\n{\n  \"a\": 2,\n  \"b\": 1\n}"
    );
}

#[test]
fn json_array_body_is_rendered_raw() {
    let report = print_response(200, "[3,1,2]");
    assert_eq!(report.exit_code, 0);
    assert_eq!(report.message, "Response body:\n[3,1,2]");
}

#[test]
fn json_scalar_body_is_rendered_raw() {
    for body in ["42", "\"text\"", "true", "null"] {
        let report = print_response(200, body);
        assert_eq!(report.exit_code, 0);
        assert_eq!(report.message, format!("Response body:\n{}", body));
    }
}

#[test]
fn body_that_is_no_json_is_rendered_raw() {
    let report = print_response(201, "<html>hello</html>");
    assert_eq!(report.exit_code, 0);
    assert_eq!(report.message, "Response body:\n<html>hello</html>");
    let empty = print_response(204, "");
    assert_eq!(empty.exit_code, 0);
    assert_eq!(empty.message, "Response body:\n");
}

#[test]
fn failed_status_is_reported_without_the_body() {
    let report = print_response(404, "{\"secret\":1}");
    assert_eq!(report.exit_code, 1);
    assert_eq!(report.message, "Error: Request failed with status code: 404.");
    assert!(!report.message.contains("secret"));
}

#[test]
fn status_codes_are_written_in_decimal() {
    assert_eq!(print_response(500, "").message, "Error: Request failed with status code: 500.");
    assert_eq!(print_response(199, "").message, "Error: Request failed with status code: 199.");
    assert_eq!(print_response(300, "").message, "Error: Request failed with status code: 300.");
    assert_eq!(print_response(0, "").message, "Error: Request failed with status code: 0.");
    assert_eq!(print_response(7, "").message, "Error: Request failed with status code: 7.");
    assert_eq!(
        print_response(65535, "").message,
        "Error: Request failed with status code: 65535."
    );
}

#[test]
fn render_response_takes_the_pretty_text() {
    let pretty = render_response(200, "{\"a\":1}", Some("{\n  \"a\": 1\n}".to_string()));
    assert_eq!(pretty.message, "Response body (JSON with sorted keys):\n{\n  \"a\": 1\n}");
    assert_eq!(pretty.exit_code, 0);
    let raw = render_response(200, "plain", None);
    assert_eq!(raw.message, "Response body:\nplain");
    assert_eq!(raw.exit_code, 0);
    let failed = render_response(503, "plain", Some("x".to_string()));
    assert_eq!(failed.message, "Error: Request failed with status code: 503.");
    assert_eq!(failed.exit_code, 1);
}

#[test]
fn only_a_rendered_response_is_no_failure() {
    assert!(!print_response(200, "ok").is_failure());
    assert!(print_response(404, "ok").is_failure());
    assert!(handle_request_error(true, "").is_failure());
    assert!(handle_request_error(false, "").is_failure());
}

#[test]
fn connection_failure_has_its_own_sentence() {
    let report = handle_request_error(true, "dns error");
    assert_eq!(
        report.message,
        "Error: Unable to connect to the server. Perhaps the network is offline or the server hostname cannot be resolved."
    );
    assert_eq!(report.exit_code, 1);
}

#[test]
fn other_transport_failure_carries_the_detail() {
    let report = handle_request_error(false, "operation timed out");
    assert_eq!(report.message, "Error: Request failed. operation timed out");
    assert_eq!(report.exit_code, 1);
}
