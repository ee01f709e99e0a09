//! Building the request, rendering the response, and naming what went wrong.
//!
//! Nothing here sends or prints. A handler says which lines trace the request
//! and what is to be sent; the renderer and the error classifier say what the
//! run reports at its end and with which exit code.

use vstd::prelude::*;
use crate::form::{form_pairs, pairs_view, parse_form_data, PairView};
use crate::json::{
    compact_json, parse_json, parsed_json, pretty_object, print_pretty, sorted_members,
    sorted_object,
};
use crate::text::{decimal_string, decimal_text, join_text};
use crate::validators::text_view;

verus! {

/// The HTTP method of a request.
#[derive(Clone, Copy, Debug, PartialEq, Eq, Structural)]
pub enum Method {
    Get,
    Post,
}

/// What a request carries.
#[derive(Debug)]
pub enum Body {
    /// Nothing.
    Empty,
    /// Form pairs, for the transport to encode.
    Form(Vec<(String, String)>),
    /// The compact text of a parsed JSON value, to be sent as
    /// `application/json`.
    Json(String),
}

/// A request that is ready to be sent.
#[derive(Debug)]
pub struct RequestSpec {
    pub url: String,
    pub method: Method,
    pub body: Body,
}

/// How a run ends: what it says, and its exit code. The code is 0 where a
/// response was rendered and 1 for every failure.
#[derive(Debug)]
pub struct ExitReport {
    pub message: String,
    pub exit_code: i32,
}

/// What a handler hands back: the lines that trace the request, and either the
/// request to send or the report of why none is sent.
#[derive(Debug)]
pub struct Prepared {
    pub trace: Vec<String>,
    pub outcome: Result<RequestSpec, ExitReport>,
}

pub enum BodyView {
    Empty,
    Form(Seq<PairView>),
    Json(Seq<char>),
}

pub struct RequestView {
    pub url: Seq<char>,
    pub method: Method,
    pub body: BodyView,
}

pub struct ReportView {
    pub message: Seq<char>,
    pub exit_code: int,
}

pub struct PreparedView {
    pub trace: Seq<Seq<char>>,
    pub outcome: Result<RequestView, ReportView>,
}

impl View for Body {
    type V = BodyView;

    open spec fn view(&self) -> BodyView {
        match self {
            Body::Empty => BodyView::Empty,
            Body::Form(pairs) => BodyView::Form(pairs_view(pairs@)),
            Body::Json(text) => BodyView::Json(text@),
        }
    }
}

impl View for RequestSpec {
    type V = RequestView;

    open spec fn view(&self) -> RequestView {
        RequestView { url: self.url@, method: self.method, body: self.body@ }
    }
}

impl View for ExitReport {
    type V = ReportView;

    open spec fn view(&self) -> ReportView {
        ReportView { message: self.message@, exit_code: self.exit_code as int }
    }
}

impl View for Prepared {
    type V = PreparedView;

    open spec fn view(&self) -> PreparedView {
        PreparedView {
            trace: lines_view(self.trace@),
            outcome: match self.outcome {
                Ok(request) => Ok(request@),
                Err(report) => Err(report@),
            },
        }
    }
}

/// The views of a list of lines, in order.
pub open spec fn lines_view(lines: Seq<String>) -> Seq<Seq<char>> {
    lines.map_values(|line: String| line@)
}

impl RequestView {
    /// Only a POST carries a body.
    pub open spec fn well_formed(self) -> bool {
        self.body is Empty || self.method == Method::Post
    }

    /// The content type that the request itself names: `application/json` for
    /// a JSON body. That of a form is left to the transport's form encoding.
    pub open spec fn content_type(self) -> Option<Seq<char>> {
        if self.body is Json {
            Some("application/json"@)
        } else {
            None
        }
    }
}

impl ExitReport {
    /// Whether the run failed. The message of a failure belongs on standard
    /// error, that of a rendered response on standard output.
    pub fn is_failure(&self) -> (r: bool)
        ensures
            r == (self@.exit_code != 0),
    {
        self.exit_code != 0
    }
}

impl RequestSpec {
    /// The value of the `Content-Type` header to set, if any.
    pub fn content_type(&self) -> (r: Option<String>)
        ensures
            text_view(r) == self@.content_type(),
    {
        match &self.body {
            Body::Json(_) => Some("application/json".to_owned()),
            _ => None,
        }
    }
}

/// A failure report: the message, and exit code 1.
pub open spec fn failure(message: Seq<char>) -> ReportView {
    ReportView { message, exit_code: 1 }
}

/// The first trace line of every request.
pub open spec fn url_line(url: Seq<char>) -> Seq<char> {
    "Requesting URL: "@ + url
}

/// A GET request: two trace lines, no body.
pub open spec fn get_prepared(url: Seq<char>) -> PreparedView {
    PreparedView {
        trace: seq![url_line(url), "Method: GET"@],
        outcome: Ok(RequestView { url, method: Method::Get, body: BodyView::Empty }),
    }
}

/// A POST request with form data: the pairs of the data are its body, and
/// the raw data is traced.
pub open spec fn post_data_prepared(url: Seq<char>, data: Seq<char>) -> PreparedView {
    PreparedView {
        trace: seq![url_line(url), "Method: POST"@, "Data: "@ + data],
        outcome: Ok(
            RequestView { url, method: Method::Post, body: BodyView::Form(form_pairs(data)) },
        ),
    }
}

/// A POST request with JSON data, given what the JSON parser made of the data:
/// the compact text of the parsed value is the body. Data that does not parse
/// ends the run, and nothing is sent. The raw data is traced either way.
pub open spec fn post_json_prepared(
    url: Seq<char>,
    json_data: Seq<char>,
    parsed: Option<Seq<char>>,
) -> PreparedView {
    PreparedView {
        trace: seq![url_line(url), "Method: POST"@, "JSON: "@ + json_data],
        outcome: match parsed {
            Some(text) => Ok(
                RequestView { url, method: Method::Post, body: BodyView::Json(text) },
            ),
            None => Err(failure("Error: Invalid JSON."@)),
        },
    }
}

/// A POST request without anything to post: the request is traced, and the
/// run ends with a failure report in place of a request.
pub open spec fn missing_data_prepared(url: Seq<char>) -> PreparedView {
    PreparedView {
        trace: seq![url_line(url), "Method: POST"@],
        outcome: Err(failure("Error: POST method requires data."@)),
    }
}

/// The report of an input error found before any request was built: the trace
/// lines of a GET request to the URL as it was given, and the message as an
/// error line.
pub open spec fn error_prepared(url: Seq<char>, message: Seq<char>) -> PreparedView {
    PreparedView {
        trace: seq![url_line(url), "Method: GET"@],
        outcome: Err(failure("Error: "@ + message)),
    }
}

/// Whether an HTTP status code is in the success class, 200 to 299.
pub open spec fn is_success(status: u16) -> bool {
    200 <= status <= 299
}

/// What is reported for a response that is no success.
pub open spec fn status_failure_text(status: u16) -> Seq<char> {
    "Error: Request failed with status code: "@ + decimal_text(status as nat) + "."@
}

/// The report for a response, given the pretty text of its body with sorted
/// keys where the body is a JSON object. A status outside the success class
/// is a failure, and the body is left out of it. Else the body is shown: the
/// pretty text where there is one, the raw body where there is none.
pub open spec fn rendered(status: u16, body: Seq<char>, pretty: Option<Seq<char>>) -> ReportView {
    if !is_success(status) {
        failure(status_failure_text(status))
    } else {
        match pretty {
            Some(text) => ReportView {
                message: "Response body (JSON with sorted keys):\n"@ + text,
                exit_code: 0,
            },
            None => ReportView { message: "Response body:\n"@ + body, exit_code: 0 },
        }
    }
}

/// The pretty text of a body that parses as a JSON object: its members
/// ordered by key, only those of the object itself, and printed with
/// indentation. `None` for a body that is no JSON or no object.
pub open spec fn sorted_pretty(body: Seq<char>) -> Option<Seq<char>> {
    match sorted_members(body) {
        Some(members) => Some(pretty_object(members)),
        None => None,
    }
}

/// The report for a request that the transport could not complete.
pub open spec fn transport_failure(is_connect: bool, detail: Seq<char>) -> ReportView {
    if is_connect {
        failure(
            "Error: Unable to connect to the server. Perhaps the network is offline or the server hostname cannot be resolved."@,
        )
    } else {
        failure("Error: Request failed. "@ + detail)
    }
}

/// Decides `is_success`.
pub fn status_is_success(status: u16) -> (r: bool)
    ensures
        r == is_success(status),
{
    200 <= status && status <= 299
}

/// Makes a failure report.
fn fail(message: String) -> (r: ExitReport)
    ensures
        r@ == failure(message@),
{
    ExitReport { message, exit_code: 1 }
}

/// The first two trace lines.
fn trace_head(url: &str, method_line: &str) -> (r: Vec<String>)
    ensures
        lines_view(r@) == seq![url_line(url@), method_line@],
{
    let mut trace: Vec<String> = Vec::new();
    trace.push(join_text("Requesting URL: ", url));
    trace.push(method_line.to_owned());
    trace
}

/// Prepares a GET request to `url`.
pub fn handle_get(url: &str) -> (r: Prepared)
    ensures
        r@ == get_prepared(url@),
{
    Prepared {
        trace: trace_head(url, "Method: GET"),
        outcome: Ok(RequestSpec { url: url.to_owned(), method: Method::Get, body: Body::Empty }),
    }
}

/// Prepares a POST request to `url` whose body is the form pairs of `data`.
pub fn handle_post_data(url: &str, data: &str) -> (r: Prepared)
    ensures
        r@ == post_data_prepared(url@, data@),
{
    let mut trace = trace_head(url, "Method: POST");
    let ghost head = lines_view(trace@);
    trace.push(join_text("Data: ", data));
    assert(lines_view(trace@) =~= head.push("Data: "@ + data@));
    assert(head.push("Data: "@ + data@) =~= seq![
        url_line(url@),
        "Method: POST"@,
        "Data: "@ + data@,
    ]);
    let pairs = parse_form_data(data);
    Prepared {
        trace,
        outcome: Ok(
            RequestSpec { url: url.to_owned(), method: Method::Post, body: Body::Form(pairs) },
        ),
    }
}

/// Prepares a POST request with JSON data from what the JSON parser made of
/// the data: `parsed` is the compact text of the parsed value, or `None`
/// where the data did not parse.
pub fn post_json_from(url: &str, json_data: &str, parsed: Option<String>) -> (r: Prepared)
    ensures
        r@ == post_json_prepared(url@, json_data@, text_view(parsed)),
{
    let mut trace = trace_head(url, "Method: POST");
    let ghost head = lines_view(trace@);
    trace.push(join_text("JSON: ", json_data));
    assert(lines_view(trace@) =~= head.push("JSON: "@ + json_data@));
    assert(head.push("JSON: "@ + json_data@) =~= seq![
        url_line(url@),
        "Method: POST"@,
        "JSON: "@ + json_data@,
    ]);
    let outcome = match parsed {
        Some(text) => Ok(
            RequestSpec { url: url.to_owned(), method: Method::Post, body: Body::Json(text) },
        ),
        None => Err(fail("Error: Invalid JSON.".to_owned())),
    };
    Prepared { trace, outcome }
}

/// Parses a text as JSON and writes the value back in compact form.
pub fn normalize_json(text: &str) -> (r: Option<String>)
    ensures
        text_view(r) == parsed_json(text@),
{
    match parse_json(text) {
        Some(value) => Some(compact_json(&value)),
        None => None,
    }
}

/// Prepares a POST request to `url` whose body is `json_data`, parsed and
/// written back in compact form. Data that is no JSON gives a failure report
/// in place of a request.
pub fn handle_post_json(url: &str, json_data: &str) -> (r: Prepared)
    ensures
        r@ == post_json_prepared(url@, json_data@, parsed_json(json_data@)),
{
    post_json_from(url, json_data, normalize_json(json_data))
}

/// Reports a POST request to `url` that has nothing to post.
pub fn handle_missing_data(url: &str) -> (r: Prepared)
    ensures
        r@ == missing_data_prepared(url@),
{
    Prepared {
        trace: trace_head(url, "Method: POST"),
        outcome: Err(fail("Error: POST method requires data.".to_owned())),
    }
}

/// Reports an input error about `url`.
pub fn print_error(url: &str, message: &str) -> (r: Prepared)
    ensures
        r@ == error_prepared(url@, message@),
{
    Prepared {
        trace: trace_head(url, "Method: GET"),
        outcome: Err(fail(join_text("Error: ", message))),
    }
}

/// The pretty text of `body` with the keys of the object sorted, if `body`
/// is a JSON object.
pub fn pretty_sorted(body: &str) -> (r: Option<String>)
    ensures
        text_view(r) == sorted_pretty(body@),
{
    match sorted_object(body) {
        Some(members) => Some(print_pretty(&members)),
        None => None,
    }
}

/// Renders a response from its status, its body and the pretty text of the
/// body.
pub fn render_response(status: u16, body: &str, pretty: Option<String>) -> (r: ExitReport)
    ensures
        r@ == rendered(status, body@, text_view(pretty)),
{
    if !status_is_success(status) {
        let code = decimal_string(status);
        let mut message = join_text("Error: Request failed with status code: ", code.as_str());
        message.append(".");
        return fail(message);
    }
    match pretty {
        Some(text) => ExitReport {
            message: join_text("Response body (JSON with sorted keys):\n", text.as_str()),
            exit_code: 0,
        },
        None => ExitReport { message: join_text("Response body:\n", body), exit_code: 0 },
    }
}

/// Renders a response: a failure report for a status outside 200 to 299;
/// else the body, pretty and with sorted keys if it is a JSON object, raw if
/// it is anything else.
pub fn print_response(status: u16, body: &str) -> (r: ExitReport)
    ensures
        r@ == rendered(status, body@, sorted_pretty(body@)),
{
    if !status_is_success(status) {
        render_response(status, body, None)
    } else {
        render_response(status, body, pretty_sorted(body))
    }
}

/// Reports a request that the transport could not complete: a sentence of its
/// own where no connection was made, the transport's detail otherwise.
pub fn handle_request_error(is_connect: bool, detail: &str) -> (r: ExitReport)
    ensures
        r@ == transport_failure(is_connect, detail@),
{
    if is_connect {
        fail(
            "Error: Unable to connect to the server. Perhaps the network is offline or the server hostname cannot be resolved.".to_owned(),
        )
    } else {
        fail(join_text("Error: Request failed. ", detail))
    }
}

} // verus!
