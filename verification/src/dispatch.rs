//! From the arguments of a run to the request, and from what the transport
//! brought back to the report that ends the run.

use vstd::prelude::*;
use crate::cli::Cli;
use crate::handlers::{
    error_prepared, get_prepared, handle_get, handle_missing_data, handle_post_data,
    handle_post_json, handle_request_error, is_success, missing_data_prepared,
    post_data_prepared, post_json_prepared, print_error, print_response, rendered,
    sorted_pretty, transport_failure, ExitReport, Prepared, PreparedView, ReportView,
};
use crate::json::parsed_json;
use crate::text::to_chars;
use crate::validators::{
    normalized_url, resolve, resolved_view, text_view, verdict_with, ValidationError,
};

verus! {

/// What the arguments ask for, once the URL is known to be valid.
#[derive(Clone, Copy, Debug, PartialEq, Eq, Structural)]
pub enum Action {
    /// A GET request.
    Get,
    /// A POST request with form data.
    PostForm,
    /// A POST request with JSON data.
    PostJson,
    /// A POST request was asked for, and nothing to post was given.
    MissingData,
}

/// What came of sending the request.
#[derive(Debug)]
pub enum Exchange {
    /// A response arrived.
    Response { status: u16, body: String },
    /// The transport failed; `is_connect` says that no connection was made.
    Failure { is_connect: bool, detail: String },
}

/// The method is given and is `POST`, letter for letter.
pub open spec fn is_post(method: Option<Seq<char>>) -> bool {
    method == Some(seq!['P', 'O', 'S', 'T'])
}

/// JSON data asks for a POST, whatever method is named. Without it, the
/// method `POST` asks for a POST with form data, which must be there.
/// Anything else is a GET, and form data given with it is not sent.
pub open spec fn action_for(cli: Cli) -> Action {
    if cli.json_data is Some {
        Action::PostJson
    } else if is_post(text_view(cli.method)) {
        if cli.data is Some {
            Action::PostForm
        } else {
            Action::MissingData
        }
    } else {
        Action::Get
    }
}

/// What the JSON parser makes of the JSON data, if any was given.
pub open spec fn json_of(cli: Cli) -> Option<Seq<char>> {
    match cli.json_data {
        Some(data) => parsed_json(data@),
        None => None,
    }
}

/// What is prepared for a valid URL, given in normalized form, and what the
/// JSON parser made of the JSON data.
pub open spec fn planned(cli: Cli, url: Seq<char>, json: Option<Seq<char>>) -> PreparedView {
    match action_for(cli) {
        Action::PostJson => post_json_prepared(url, cli.json_data->0@, json),
        Action::PostForm => post_data_prepared(url, cli.data->0@),
        Action::MissingData => missing_data_prepared(url),
        Action::Get => get_prepared(url),
    }
}

/// What is prepared for the arguments of a run, given the validation of the
/// URL: for a URL that is refused, the report of the error, traced with the
/// URL as it was given; for a valid one, the request to its normalized form.
pub open spec fn prepared_with(
    cli: Cli,
    resolved: Result<Seq<char>, ValidationError>,
    json: Option<Seq<char>>,
) -> PreparedView {
    match resolved {
        Err(e) => error_prepared(cli.url@, e.message_text()),
        Ok(url) => planned(cli, url, json),
    }
}

/// The report that ends a run, for what the transport brought back.
pub open spec fn concluded(exchange: Exchange) -> ReportView {
    match exchange {
        Exchange::Response { status, body } => rendered(status, body@, sorted_pretty(body@)),
        Exchange::Failure { is_connect, detail } => transport_failure(is_connect, detail@),
    }
}

/// Every request that is prepared is well formed: it has a body only if it is
/// a POST.
pub proof fn lemma_planned_well_formed(cli: Cli, url: Seq<char>, json: Option<Seq<char>>)
    ensures
        planned(cli, url, json).outcome matches Ok(request) ==> request.well_formed()
            && request.url == url,
{
}

/// A run that ends on a response ends with code 0 exactly when the status is
/// in the success class. Every other end has code 1.
pub proof fn lemma_exit_codes(exchange: Exchange)
    ensures
        concluded(exchange).exit_code == 0 || concluded(exchange).exit_code == 1,
        concluded(exchange).exit_code == 0 <==> (exchange matches Exchange::Response {
            status,
            ..
        } && is_success(status)),
{
}

/// The body of a response without success has no part in the report.
pub proof fn lemma_failed_status_hides_body(
    status: u16,
    body1: Seq<char>,
    pretty1: Option<Seq<char>>,
    body2: Seq<char>,
    pretty2: Option<Seq<char>>,
)
    requires
        !is_success(status),
    ensures
        rendered(status, body1, pretty1) == rendered(status, body2, pretty2),
{
}

/// Whether a method is `POST`.
fn method_is_post(method: &Option<String>) -> (r: bool)
    ensures
        r == is_post(text_view(*method)),
{
    match method {
        Some(name) => {
            let chars = to_chars(name.as_str());
            let r = chars.len() == 4 && chars[0] == 'P' && chars[1] == 'O' && chars[2] == 'S'
                && chars[3] == 'T';
            proof {
                if r {
                    assert(name@ =~= seq!['P', 'O', 'S', 'T']);
                }
            }
            r
        },
        None => false,
    }
}

/// Decides `action_for`.
pub fn select_action(cli: &Cli) -> (r: Action)
    ensures
        r == action_for(*cli),
{
    if cli.json_data.is_some() {
        Action::PostJson
    } else if method_is_post(&cli.method) {
        if cli.data.is_some() {
            Action::PostForm
        } else {
            Action::MissingData
        }
    } else {
        Action::Get
    }
}

/// Prepares the request that the arguments ask for, to a URL that has been
/// validated and is given in normalized form.
pub fn plan(cli: &Cli, url: &str) -> (r: Prepared)
    ensures
        r@ == planned(*cli, url@, json_of(*cli)),
{
    match select_action(cli) {
        Action::PostJson => handle_post_json(url, cli.json_data.as_ref().unwrap().as_str()),
        Action::PostForm => handle_post_data(url, cli.data.as_ref().unwrap().as_str()),
        Action::MissingData => handle_missing_data(url),
        Action::Get => handle_get(url),
    }
}

/// Prepares a run from the validation of its URL.
pub fn prepare_from(cli: &Cli, resolved: Result<String, ValidationError>) -> (r: Prepared)
    ensures
        r@ == prepared_with(*cli, resolved_view(resolved), json_of(*cli)),
{
    match resolved {
        Err(e) => {
            let message = e.message();
            print_error(cli.url.as_str(), message.as_str())
        },
        Ok(url) => plan(cli, url.as_str()),
    }
}

/// Prepares a run: validates the URL, and builds the request that the
/// arguments ask for, or the report of why there is none.
pub fn prepare(cli: &Cli) -> (r: Prepared)
    requires
        cli.exclusive(),
    ensures
        r@ == prepared_with(
            *cli,
            verdict_with(cli.url@, normalized_url(cli.url@)),
            json_of(*cli),
        ),
{
    prepare_from(cli, resolve(cli.url.as_str()))
}

/// Ends a run: renders the response, or reports the failure of the transport.
pub fn conclude(exchange: &Exchange) -> (r: ExitReport)
    ensures
        r@ == concluded(*exchange),
{
    match exchange {
        Exchange::Response { status, body } => print_response(*status, body.as_str()),
        Exchange::Failure { is_connect, detail } => handle_request_error(
            *is_connect,
            detail.as_str(),
        ),
    }
}

} // verus!
