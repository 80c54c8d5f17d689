//! Fetching a shortcode's content on the server: which request to send, and
//! which text stands for what came back.
//!
//! The request itself is sent by the caller; this module decides before and
//! after it.

use vstd::prelude::*;
use crate::script::{DEFAULT_JSON_BODY, DEFAULT_METHOD, METHOD_GET, METHOD_POST};
use crate::text::{lowercase, str_eq, text_or};

verus! {

/// The header that announces the type of a request body.
pub const CONTENT_TYPE: &'static str = "Content-Type";

/// The content type of a JSON body.
pub const JSON_CONTENT_TYPE: &'static str = "application/json";

/// The start of the text for an unsupported method; the method follows.
pub const INVALID_METHOD: &'static str = "Invalid method: ";

/// The text for a response whose body could not be read.
pub const UNREADABLE_BODY: &'static str = "Failed to read response body";

/// The start of the text for a response with a status other than success;
/// the status follows.
pub const REQUEST_REFUSED: &'static str = "Request failed with status: ";

/// The start of the text for a request that got no response; the error
/// follows.
pub const REQUEST_ERROR: &'static str = "Request error: ";

/// A request to send.
#[derive(Debug, PartialEq, Eq)]
pub enum FetchRequest {
    /// A `GET` request to `url`.
    Get { url: String },
    /// A `POST` request to `url` with the JSON text `body`.
    Post { url: String, body: String },
}

/// A request as plain values.
pub enum RequestView {
    /// A `GET` request to `url`.
    Get { url: Seq<char> },
    /// A `POST` request to `url` with the JSON text `body`.
    Post { url: Seq<char>, body: Seq<char> },
}

impl View for FetchRequest {
    type V = RequestView;

    open spec fn view(&self) -> RequestView {
        match self {
            FetchRequest::Get { url } => RequestView::Get { url: url@ },
            FetchRequest::Post { url, body } => RequestView::Post { url: url@, body: body@ },
        }
    }
}

/// What came back from a request.
#[derive(Debug, PartialEq, Eq)]
pub enum FetchOutcome {
    /// A response with a success status and the body `text`.
    Body { text: String },
    /// A response with a success status whose body could not be read.
    UnreadableBody,
    /// A response with the status `status`, which is not a success.
    Refused { status: String },
    /// No response: the request failed with `error`.
    Failed { error: String },
}

/// What came back from a request, as plain values.
pub enum OutcomeView {
    /// A success status and the body `text`.
    Body { text: Seq<char> },
    /// A success status and a body that could not be read.
    UnreadableBody,
    /// The status `status`, which is not a success.
    Refused { status: Seq<char> },
    /// No response, but the error `error`.
    Failed { error: Seq<char> },
}

impl View for FetchOutcome {
    type V = OutcomeView;

    open spec fn view(&self) -> OutcomeView {
        match self {
            FetchOutcome::Body { text } => OutcomeView::Body { text: text@ },
            FetchOutcome::UnreadableBody => OutcomeView::UnreadableBody,
            FetchOutcome::Refused { status } => OutcomeView::Refused { status: status@ },
            FetchOutcome::Failed { error } => OutcomeView::Failed { error: error@ },
        }
    }
}

/// The request to send for `url`, where `lowered` is the lowercase form of
/// `method`: a `GET`, a `POST` that carries `json_body`, or, for any other
/// method, the text that says so.
pub open spec fn planned(
    url: Seq<char>,
    method: Seq<char>,
    lowered: Seq<char>,
    json_body: Seq<char>,
) -> Result<RequestView, Seq<char>> {
    if lowered == METHOD_GET@ {
        Ok(RequestView::Get { url })
    } else if lowered == METHOD_POST@ {
        Ok(RequestView::Post { url, body: json_body })
    } else {
        Err(INVALID_METHOD@ + method)
    }
}

/// A plan as plain values.
pub open spec fn plain_plan(plan: Result<FetchRequest, String>) -> Result<RequestView, Seq<char>> {
    match plan {
        Ok(request) => Ok(request@),
        Err(text) => Err(text@),
    }
}

/// The text that stands for `outcome`: the body of a successful response, or
/// a sentence that says what went wrong.
pub open spec fn outcome_text(outcome: OutcomeView) -> Seq<char> {
    match outcome {
        OutcomeView::Body { text } => text,
        OutcomeView::UnreadableBody => UNREADABLE_BODY@,
        OutcomeView::Refused { status } => REQUEST_REFUSED@ + status,
        OutcomeView::Failed { error } => REQUEST_ERROR@ + error,
    }
}

/// Plans the request for `url` from a method and its lowercase form.
pub fn plan_fetch_with(url: &str, method: &str, lowered: &str, json_body: &str) -> (plan: Result<
    FetchRequest,
    String,
>)
    ensures
        plain_plan(plan) == planned(url@, method@, lowered@, json_body@),
{
    if str_eq(lowered, METHOD_GET) {
        Ok(FetchRequest::Get { url: url.to_owned() })
    } else if str_eq(lowered, METHOD_POST) {
        Ok(FetchRequest::Post { url: url.to_owned(), body: json_body.to_owned() })
    } else {
        let mut text = String::from_str(INVALID_METHOD);
        text.append(method);
        Err(text)
    }
}

/// Plans the request for `url`. `method` defaults to `GET` and is matched
/// without regard to case; `json_body` defaults to `{}` and is sent with
/// `POST` only. For any other method the plan is the text that says so.
pub fn plan_fetch(url: &str, method: Option<&str>, json_body: Option<&str>) -> (plan: Result<
    FetchRequest,
    String,
>)
    ensures
        plain_plan(plan) == planned(
            url@,
            text_or(method, DEFAULT_METHOD),
            lowercase(text_or(method, DEFAULT_METHOD)),
            text_or(json_body, DEFAULT_JSON_BODY),
        ),
{
    let method = match method {
        Some(m) => m,
        None => DEFAULT_METHOD,
    };
    let json_body = match json_body {
        Some(b) => b,
        None => DEFAULT_JSON_BODY,
    };
    let lowered = method.to_lowercase();
    plan_fetch_with(url, method, lowered.as_str(), json_body)
}

/// Turns what came back from a request into the text of the fragment.
pub fn fetch_text(outcome: FetchOutcome) -> (text: String)
    ensures
        text@ == outcome_text(outcome@),
{
    match outcome {
        FetchOutcome::Body { text } => text,
        FetchOutcome::UnreadableBody => String::from_str(UNREADABLE_BODY),
        FetchOutcome::Refused { status } => {
            let mut text = String::from_str(REQUEST_REFUSED);
            text.append(status.as_str());
            text
        },
        FetchOutcome::Failed { error } => {
            let mut text = String::from_str(REQUEST_ERROR);
            text.append(error.as_str());
            text
        },
    }
}

} // verus!
