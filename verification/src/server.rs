//! The server's decisions for one request: how the query is read, where the
//! request goes, what status and body answer it, and when a streamed body
//! ends.

use vstd::prelude::*;
use vstd::string::{StringExecFns, StringSliceAdditionalSpecFns};
use crate::config::{has_name, position, Catalog};
use crate::dispatcher::{Command, CommandModel};
use crate::framer::{encode, encode_frame, FrameModel};
use crate::result::{CommandParams, CommandResult, Gauges};
use crate::text::{split, split_text, views};

verus! {

/// The status of an answer that went well.
pub const STATUS_OK: u16 = 200;

/// The status of an answer to a request that cannot be served.
pub const STATUS_BAD_REQUEST: u16 = 400;

/// The status of an answer to a request whose execution failed.
pub const STATUS_SERVER_ERROR: u16 = 500;

/// The format of a buffered answer.
#[derive(Clone, Copy, Debug, PartialEq, Eq, Structural)]
pub enum Format {
    Json,
    Prometheus,
}

/// The format that a query asks for: Prometheus where it says so, JSON for
/// any other value and for none.
pub open spec fn format_of(format: Option<String>) -> Format {
    match format {
        Some(f) => if f@ == "prometheus"@ {
            Format::Prometheus
        } else {
            Format::Json
        },
        None => Format::Json,
    }
}

/// Whether a query asks for a streamed answer: it does where `chunked` is
/// set and not 0.
pub open spec fn chunked_of(chunked: Option<u8>) -> bool {
    match chunked {
        Some(c) => c != 0,
        None => false,
    }
}

/// The arguments of a query: the value of `argument` cut at every single
/// space; none where the value is empty or absent.
pub open spec fn arguments_of(argument: Option<String>) -> Seq<Seq<char>> {
    match argument {
        Some(a) => if a@.len() == 0 {
            Seq::<Seq<char>>::empty()
        } else {
            split(a@, ' ')
        },
        None => Seq::<Seq<char>>::empty(),
    }
}

/// Reads the format of a query.
pub fn parse_format(format: &Option<String>) -> (r: Format)
    ensures
        r == format_of(*format),
{
    match format {
        Some(f) => if crate::text::same_text(f.as_str(), "prometheus") {
            Format::Prometheus
        } else {
            Format::Json
        },
        None => Format::Json,
    }
}

/// Reads whether a query asks for a streamed answer.
pub fn parse_chunked(chunked: Option<u8>) -> (r: bool)
    ensures
        r == chunked_of(chunked),
{
    match chunked {
        Some(c) => c != 0,
        None => false,
    }
}

/// Reads the arguments of a query.
pub fn parse_arguments(argument: &Option<String>) -> (r: Vec<String>)
    ensures
        views(r@) == arguments_of(*argument),
{
    match argument {
        Some(a) => if a.as_str().is_empty() {
            let r: Vec<String> = Vec::new();
            r
        } else {
            split_text(a.as_str(), ' ')
        },
        None => {
            let r: Vec<String> = Vec::new();
            r
        },
    }
}

/// The payload that refuses a streamed answer in another format than JSON.
pub open spec fn only_json_payload() -> Seq<u8> {
    "chunked only support json format".spec_bytes()
}

/// The failure that answers a request for a command that is not listed.
pub open spec fn unknown_text(name: Seq<char>) -> Seq<char> {
    "Unknown Command: "@ + name
}

/// Where a request goes.
#[derive(Debug)]
pub enum Route<'a> {
    /// A streamed answer was asked for in another format than JSON. The
    /// answer is the status and these bytes.
    Reject { status: u16, body: Vec<u8> },
    /// No command is listed under the name. The answer is the status and the
    /// result, as one frame where a streamed answer was asked for.
    Unknown { status: u16, result: CommandResult, framed: bool },
    /// Run the command and answer with its result.
    Buffered { command: &'a Command, arguments: Vec<String>, format: Format },
    /// Run the command and stream its output.
    Streamed { command: &'a Command, arguments: Vec<String> },
}

/// A route over views.
pub enum RouteModel {
    Reject { status: u16, body: Seq<u8> },
    Unknown { status: u16, error: Seq<char>, framed: bool },
    Buffered { command: CommandModel, arguments: Seq<Seq<char>>, format: Format },
    Streamed { command: CommandModel, arguments: Seq<Seq<char>> },
}

/// Whether `route` is the route that `model` describes.
pub open spec fn is_route(route: Route, model: RouteModel) -> bool {
    match model {
        RouteModel::Reject { status, body } => route matches Route::Reject {
            status: s,
            body: b,
        } && s == status && b@ == body,
        RouteModel::Unknown { status, error, framed } => route matches Route::Unknown {
            status: s,
            result,
            framed: f,
        } && s == status && f == framed && result.is_err_shape() && result.error->0@ == error,
        RouteModel::Buffered { command, arguments, format } => route matches Route::Buffered {
            command: c,
            arguments: a,
            format: f,
        } && c.model() == command && views(a@) == arguments && f == format,
        RouteModel::Streamed { command, arguments } => route matches Route::Streamed {
            command: c,
            arguments: a,
        } && c.model() == command && views(a@) == arguments,
    }
}

/// The route of a request for the command `name`. A streamed answer in
/// another format than JSON is refused before the name is looked at; a name
/// that is not listed is refused next; a listed command is run, streamed or
/// buffered as the query asks.
pub open spec fn route_of(name: Seq<char>, params: CommandParams, catalog: Seq<CommandModel>)
    -> RouteModel {
    let chunked = chunked_of(params.chunked);
    let format = format_of(params.format);
    if chunked && format != Format::Json {
        RouteModel::Reject {
            status: STATUS_BAD_REQUEST,
            body: encode(FrameModel { fd: 0, payload: only_json_payload() }),
        }
    } else if !has_name(catalog, name) {
        RouteModel::Unknown { status: STATUS_BAD_REQUEST, error: unknown_text(name), framed: chunked }
    } else if chunked {
        RouteModel::Streamed {
            command: catalog[position(catalog, name)],
            arguments: arguments_of(params.argument),
        }
    } else {
        RouteModel::Buffered {
            command: catalog[position(catalog, name)],
            arguments: arguments_of(params.argument),
            format,
        }
    }
}

/// Decides where a request goes.
pub fn route<'a>(name: &str, params: &CommandParams, catalog: &'a Catalog) -> (r: Route<'a>)
    ensures
        is_route(r, route_of(name@, *params, catalog@)),
{
    let chunked = parse_chunked(params.chunked);
    let format = parse_format(&params.format);
    if chunked && format != Format::Json {
        let text = "chunked only support json format";
        return Route::Reject { status: STATUS_BAD_REQUEST, body: encode_frame(0, text.as_bytes()) };
    }
    match catalog.get(name) {
        None => {
            let mut error = String::from_str("Unknown Command: ");
            error.append(name);
            Route::Unknown {
                status: STATUS_BAD_REQUEST,
                result: CommandResult::err(error),
                framed: chunked,
            }
        },
        Some(command) => {
            let arguments = parse_arguments(&params.argument);
            if chunked {
                Route::Streamed { command, arguments }
            } else {
                Route::Buffered { command, arguments, format }
            }
        },
    }
}

/// The body of a buffered answer.
#[derive(Debug)]
pub enum Body {
    /// The result as JSON.
    Json(CommandResult),
    /// The gauges of the result, as plain text in the Prometheus format.
    Metrics(Gauges),
}

/// A buffered answer.
#[derive(Debug)]
pub struct Reply {
    pub status: u16,
    pub body: Body,
}

/// The answer to a buffered request. An execution that failed is answered
/// with status 500 and the failure as JSON, whatever the format. A result is
/// answered with status 200: as gauges where Prometheus was asked for, as
/// JSON otherwise. A result that reports a refusal is a result.
pub fn buffered_reply(outcome: Result<CommandResult, String>, format: Format) -> (reply: Reply)
    ensures
        match outcome {
            Err(e) => reply.status == STATUS_SERVER_ERROR && (reply.body matches Body::Json(res)
                && res.is_err_shape() && res.error == Some(e)),
            Ok(result) => reply.status == STATUS_OK && match format {
                Format::Prometheus => reply.body == Body::Metrics(result.spec_gauges()),
                Format::Json => reply.body == Body::Json(result),
            },
        },
{
    match outcome {
        Err(e) => Reply { status: STATUS_SERVER_ERROR, body: Body::Json(CommandResult::err(e)) },
        Ok(result) => match format {
            Format::Prometheus => Reply { status: STATUS_OK, body: Body::Metrics(result.to_prometheus()) },
            Format::Json => Reply { status: STATUS_OK, body: Body::Json(result) },
        },
    }
}

/// The result that ends a streamed answer: the result of the run, or the
/// failure of the execution as a result.
pub fn stream_envelope(outcome: Result<CommandResult, String>) -> (result: CommandResult)
    ensures
        match outcome {
            Ok(res) => result == res,
            Err(e) => result.is_err_shape() && result.error == Some(e),
        },
{
    match outcome {
        Ok(res) => res,
        Err(e) => CommandResult::err(e),
    }
}

/// The item that ends a streamed body. It is never sent to the client.
pub open spec fn flush_sentinel() -> Seq<u8> {
    seq![0u8, 0u8]
}

/// What follows the last line of output in the queue of a streamed body: the
/// result as the frame of descriptor 0, and the sentinel that ends the body.
pub fn closing_items(envelope: &[u8]) -> (items: Vec<Vec<u8>>)
    ensures
        items@.len() == 2,
        items@[0]@ == encode(FrameModel { fd: 0, payload: envelope@ }),
        items@[1]@ == flush_sentinel(),
{
    let mut items: Vec<Vec<u8>> = Vec::new();
    items.push(encode_frame(0, envelope));
    let mut sentinel: Vec<u8> = Vec::new();
    sentinel.push(0);
    sentinel.push(0);
    items.push(sentinel);
    items
}

/// What the body of a streamed answer does when it is polled.
#[derive(Debug)]
pub enum PollStep {
    /// Nothing is queued: leave the waker and report that the body is
    /// pending.
    Pending,
    /// Send these bytes.
    Emit(Vec<u8>),
    /// The body is over.
    End,
}

/// One poll of a streamed body, given what the queue handed out.
pub fn poll_step(received: Option<Vec<u8>>) -> (step: PollStep)
    ensures
        match received {
            None => step is Pending,
            Some(item) => if item@ == flush_sentinel() {
                step is End
            } else {
                step == PollStep::Emit(item)
            },
        },
{
    match received {
        None => PollStep::Pending,
        Some(item) => {
            if item.len() == 2 && item[0] == 0 && item[1] == 0 {
                assert(item@ == flush_sentinel());
                PollStep::End
            } else {
                PollStep::Emit(item)
            }
        },
    }
}

/// No frame is taken for the sentinel: whatever is framed reaches the client.
pub proof fn lemma_frame_is_sent(frame: FrameModel)
    ensures
        encode(frame) != flush_sentinel(),
{
}

} // verus!
