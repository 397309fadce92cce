//! Responses of the protocol router and the diagnostics they carry.

use vstd::prelude::*;

verus! {

/// The status of a response.
#[derive(Clone, Copy, Debug, PartialEq, Eq, Structural)]
pub enum Status {
    Success,
    BadRequest,
    InternalServerError,
}

impl Status {
    pub open spec fn spec_code(self) -> u16 {
        match self {
            Status::Success => 200,
            Status::BadRequest => 400,
            Status::InternalServerError => 500,
        }
    }

    /// The HTTP status code of this status.
    pub fn code(&self) -> (r: u16)
        ensures
            r == self.spec_code(),
    {
        match self {
            Status::Success => 200,
            Status::BadRequest => 400,
            Status::InternalServerError => 500,
        }
    }
}

/// What a response carries: an encoded value, or a short text that says
/// what went wrong.
#[derive(Debug)]
pub enum Body {
    Encoded(Vec<u8>),
    Diagnostic(String),
}

pub enum BodyView {
    Encoded(Seq<u8>),
    Diagnostic(Seq<char>),
}

impl View for Body {
    type V = BodyView;

    open spec fn view(&self) -> BodyView {
        match self {
            Body::Encoded(b) => BodyView::Encoded(b@),
            Body::Diagnostic(s) => BodyView::Diagnostic(s@),
        }
    }
}

/// A response to one request. Every response carries the cross-origin header
/// with the value in `allow_origin`.
#[derive(Debug)]
pub struct Response {
    pub status: Status,
    pub allow_origin: String,
    pub body: Body,
}

pub struct ResponseView {
    pub status: Status,
    pub allow_origin: Seq<char>,
    pub body: BodyView,
}

impl View for Response {
    type V = ResponseView;

    open spec fn view(&self) -> ResponseView {
        ResponseView { status: self.status, allow_origin: self.allow_origin@, body: self.body@ }
    }
}

/// The cross-origin header value that admits every origin.
pub open spec fn allow_all() -> Seq<char> {
    "*"@
}

pub open spec fn unknown_command_text(cmd_name: Seq<char>) -> Seq<char> {
    "Unknown `tauriless` command: command not found: `"@ + cmd_name + "`."@
}

pub open spec fn bad_args_text(cmd_name: Seq<char>) -> Seq<char> {
    "Bad request: failed to deserialize `"@ + cmd_name + "::Args`."@
}

pub open spec fn bad_result_text(cmd_name: Seq<char>) -> Seq<char> {
    "Internal server error: failed to serialize the response of `"@ + cmd_name + "`."@
}

pub open spec fn ok_response(body: Seq<u8>) -> ResponseView {
    ResponseView { status: Status::Success, allow_origin: allow_all(), body: BodyView::Encoded(body) }
}

pub open spec fn unknown_command_response(cmd_name: Seq<char>) -> ResponseView {
    ResponseView {
        status: Status::BadRequest,
        allow_origin: allow_all(),
        body: BodyView::Diagnostic(unknown_command_text(cmd_name)),
    }
}

pub open spec fn bad_args_response(cmd_name: Seq<char>) -> ResponseView {
    ResponseView {
        status: Status::BadRequest,
        allow_origin: allow_all(),
        body: BodyView::Diagnostic(bad_args_text(cmd_name)),
    }
}

pub open spec fn bad_result_response(cmd_name: Seq<char>) -> ResponseView {
    ResponseView {
        status: Status::InternalServerError,
        allow_origin: allow_all(),
        body: BodyView::Diagnostic(bad_result_text(cmd_name)),
    }
}

fn diagnostic(status: Status, prefix: &str, cmd_name: &str, suffix: &str) -> (r: Response)
    ensures
        r@ == (ResponseView {
            status,
            allow_origin: allow_all(),
            body: BodyView::Diagnostic(prefix@ + cmd_name@ + suffix@),
        }),
{
    let mut text = String::from_str(prefix);
    text.append(cmd_name);
    text.append(suffix);
    Response { status, allow_origin: String::from_str("*"), body: Body::Diagnostic(text) }
}

/// A successful response carrying the encoded result.
pub fn respond_ok(encoded: Vec<u8>) -> (r: Response)
    ensures
        r@ == ok_response(encoded@),
{
    Response { status: Status::Success, allow_origin: String::from_str("*"), body: Body::Encoded(encoded) }
}

/// The response to a request whose url-name names no registered command.
pub fn handle_unknown_command(cmd_name: &str) -> (r: Response)
    ensures
        r@ == unknown_command_response(cmd_name@),
{
    diagnostic(
        Status::BadRequest,
        "Unknown `tauriless` command: command not found: `",
        cmd_name,
        "`.",
    )
}

/// The response to a request whose body does not decode to the arguments of
/// the command `cmd_name`.
pub fn handle_deserialization_error(cmd_name: &str) -> (r: Response)
    ensures
        r@ == bad_args_response(cmd_name@),
{
    diagnostic(Status::BadRequest, "Bad request: failed to deserialize `", cmd_name, "::Args`.")
}

/// The response to a request whose command returned a value that could not be
/// encoded.
pub fn handle_serialization_error(cmd_name: &str) -> (r: Response)
    ensures
        r@ == bad_result_response(cmd_name@),
{
    diagnostic(
        Status::InternalServerError,
        "Internal server error: failed to serialize the response of `",
        cmd_name,
        "`.",
    )
}

} // verus!
