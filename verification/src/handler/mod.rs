//! What the proxy decides around the conversions: what a request is answered, when a stream is
//! refused, and how a stream is carried on and ended.

use vstd::prelude::*;
use vstd::string::*;
use vstd::utf8::*;

use crate::config;
use crate::config::{Config, UpstreamConfig};
use crate::converter::request;
use crate::converter::request::convert_request;
use crate::converter::response;
use crate::converter::response::{convert_chat_response, parse_chat_response};
use crate::converter::stream;
use crate::converter::stream::completion;
use crate::converter::stream::completion::generate_completed_events_at;
use crate::converter::stream::conversion;
use crate::converter::stream::conversion::{convert_chat_stream_line_at, random_id, unix_time};
use crate::converter::stream::{StepV, StreamState, StreamV};
use crate::converter::{Entries, ReasoningStore};
use crate::json;
use crate::json::{Json, JsonV};
use crate::text;
use crate::text::{
    byte_count, chars_of, concat_all, contains, decimal_u64, same, split_lines, text_of,
    to_ascii_lower, trim,
};
use crate::utf8_stream;
use crate::utf8_stream::Utf8StreamBuffer;

pub mod cuts;
pub mod laws;
pub mod replies;

verus! {

/// What a health check is answered.
pub fn health() -> (r: &'static str)
    ensures
        r@ == "OK"@,
{
    "OK"
}

// ---------------------------------------------------------------------------------------------
// Errors
// ---------------------------------------------------------------------------------------------

/// An error that the client is told of.
pub struct AppError {
    pub status: u16,
    pub message: String,
}

/// The document that tells the client of an error.
pub open spec fn error_json(message: Seq<char>) -> JsonV {
    JsonV::object().with(
        "error"@,
        JsonV::object().with("type"@, JsonV::Text("api_error"@)).with(
            "message"@,
            JsonV::Text(message),
        ),
    )
}

impl AppError {
    /// The request was not in order.
    pub fn bad_request(msg: String) -> (r: AppError)
        ensures
            r.status == 400,
            r.message == msg,
    {
        AppError { status: 400, message: msg }
    }

    /// The upstream API could not be used.
    pub fn upstream_error(msg: String) -> (r: AppError)
        ensures
            r.status == 502,
            r.message == msg,
    {
        AppError { status: 502, message: msg }
    }

    /// Something went wrong in the proxy.
    pub fn internal(msg: String) -> (r: AppError)
        ensures
            r.status == 500,
            r.message == msg,
    {
        AppError { status: 500, message: msg }
    }

    /// The body of the answer.
    pub fn body(&self) -> (r: Vec<u8>)
        ensures
            r@ == encode_utf8(json::json_text(error_json(self.message@))),
    {
        let v = Json::object().with(
            "error",
            Json::object().with("type", Json::text("api_error")).with(
                "message",
                Json::text(self.message.as_str()),
            ),
        );
        v.print().as_str().as_bytes_vec()
    }
}

// ---------------------------------------------------------------------------------------------
// Requests
// ---------------------------------------------------------------------------------------------

/// A request, ready for the upstream API.
pub struct PreparedRequest {
    /// What the client sent.
    pub original: Json,
    pub is_stream: bool,
    pub mapped_model: String,
    /// What the upstream API gets.
    pub body: Vec<u8>,
}

/// Whether the client asks for a stream.
pub open spec fn asks_stream(request: JsonV) -> bool {
    match request.get("stream"@) {
        Some(v) => v.as_bool() == Some(true),
        None => false,
    }
}

/// The name that the upstream API has for the model that the client asks for.
pub open spec fn asked_model(request: JsonV, mapping: Map<Seq<char>, Seq<char>>) -> Seq<char> {
    config::mapped(mapping, text::or_text(request.text_at("model"@), Seq::empty()))
}

/// A request is ready for the upstream API as it should be.
pub open spec fn prepared(
    p: PreparedRequest,
    root: JsonV,
    mapping: Map<Seq<char>, Seq<char>>,
    store: Entries,
    now: u128,
) -> bool {
    &&& p.original@ == root
    &&& p.is_stream == asks_stream(root)
    &&& p.mapped_model@ == asked_model(root, mapping)
    &&& p.body@ == request::chat_body(root, p.mapped_model@, p.is_stream, store, now)
}

/// What is said of a request that is refused.
pub open spec fn refusal(body: Seq<u8>) -> Seq<char> {
    if body.len() == 0 {
        "Request body cannot be empty"@
    } else {
        "Invalid request JSON: "@ + json::parse_complaint(body)
    }
}

/// Reads a request and converts it for the upstream API. A body that is empty or holds no document
/// is refused. The reasoning texts of its function calls come from the store, at the time `now`.
pub fn prepare_request_at(
    body: &[u8],
    config: &Config,
    store: &mut ReasoningStore,
    now: u128,
) -> (r: Result<PreparedRequest, AppError>)
    ensures
        match r {
            Ok(p) => {
                &&& body@.len() > 0
                &&& json::parsed_json(body@) matches Some(root)
                &&& prepared(p, root, config.upstream.model_mapping@, old(store)@, now)
                &&& final(store)@ == request::request_messages(root, old(store)@, now).1
            },
            Err(e) => {
                &&& body@.len() == 0 || json::parsed_json(body@) is None
                &&& e.status == 400
                &&& e.message@ == refusal(body@)
                &&& final(store)@ == old(store)@
            },
        },
{
    if body.len() == 0 {
        return Err(AppError::bad_request("Request body cannot be empty".to_owned()));
    }
    let original = match Json::parse(body) {
        Ok(v) => v,
        Err(complaint) => {
            let mut message = String::new();
            message.append("Invalid request JSON: ");
            message.append(complaint.as_str());
            assert(message@ =~= refusal(body@));
            return Err(AppError::bad_request(message));
        },
    };
    let is_stream: bool = match original.get("stream") {
        Some(v) => match v.as_bool() {
            Some(b) => b,
            None => false,
        },
        None => false,
    };
    proof {
        reveal_strlit("");
        assert(""@ =~= Seq::empty());
    }
    let model = match original.text_at("model") {
        Some(s) => s,
        None => "",
    };
    let mapped_model = config.map_model(model).to_owned();
    let chat = convert_request(&original, mapped_model.as_str(), is_stream, store, now);
    let chat_body = chat.print().as_str().as_bytes_vec();
    Ok(PreparedRequest { original, is_stream, mapped_model, body: chat_body })
}

/// Reads a request and converts it for the upstream API, as [`prepare_request_at`] does, at the
/// time of the call.
pub fn prepare_request(
    body: &[u8],
    config: &Config,
    store: &mut ReasoningStore,
) -> (r: Result<PreparedRequest, AppError>)
    ensures
        match r {
            Ok(p) => {
                &&& body@.len() > 0
                &&& json::parsed_json(body@) matches Some(root)
                &&& exists|now: u128|
                    {
                        &&& #[trigger] prepared(
                            p,
                            root,
                            config.upstream.model_mapping@,
                            old(store)@,
                            now,
                        )
                        &&& final(store)@ == request::request_messages(root, old(store)@, now).1
                    }
            },
            Err(e) => {
                &&& body@.len() == 0 || json::parsed_json(body@) is None
                &&& e.status == 400
                &&& e.message@ == refusal(body@)
                &&& final(store)@ == old(store)@
            },
        },
{
    let now: u128 = store.now();
    prepare_request_at(body, config, store, now)
}

/// The headers of a request to the upstream API.
pub fn request_headers(config: &UpstreamConfig) -> (r: Vec<(String, String)>)
    ensures
        stream::pairs(r@) == seq![
            ("Authorization"@, "Bearer "@ + config.api_key@),
            ("Content-Type"@, "application/json"@),
        ] + stream::pairs(config.extra_headers@),
{
    let mut bearer = String::new();
    bearer.append("Bearer ");
    bearer.append(config.api_key.as_str());
    assert(bearer@ =~= "Bearer "@ + config.api_key@);
    let mut r: Vec<(String, String)> = Vec::new();
    r.push(("Authorization".to_owned(), bearer));
    r.push(("Content-Type".to_owned(), "application/json".to_owned()));
    let ghost first = stream::pairs(r@);
    let ghost extra = stream::pairs(config.extra_headers@);
    assert(first =~= seq![
        ("Authorization"@, "Bearer "@ + config.api_key@),
        ("Content-Type"@, "application/json"@),
    ]);
    let mut i: usize = 0;
    while i < config.extra_headers.len()
        invariant
            i <= config.extra_headers@.len(),
            extra == stream::pairs(config.extra_headers@),
            stream::pairs(r@) =~= first + extra.take(i as int),
        decreases config.extra_headers@.len() - i,
    {
        let ghost before = r@;
        let key = config.extra_headers[i].0.clone();
        let value = config.extra_headers[i].1.clone();
        r.push((key, value));
        assert(stream::pairs(r@) =~= stream::pairs(before).push((key@, value@)));
        i += 1;
    }
    assert(extra.take(i as int) =~= extra);
    r
}

// ---------------------------------------------------------------------------------------------
// Whole replies
// ---------------------------------------------------------------------------------------------

/// A status that reports an error.
pub open spec fn reports_error(status: u16) -> bool {
    400 <= status < 600
}

/// Whether a status reports an error of the client or of the server.
pub fn is_error_status(status: u16) -> (r: bool)
    ensures
        r == reports_error(status),
{
    400 <= status && status < 600
}

/// What the client gets for a whole reply.
pub enum Reply {
    /// The reply of the upstream API, as it came.
    PassThrough,
    /// A document, with status 200.
    Document(Vec<u8>),
}

/// The model of the document of a reply, where there is one.
pub open spec fn reply_document(r: Reply) -> Option<Seq<u8>> {
    match r {
        Reply::PassThrough => None,
        Reply::Document(v) => Some(v@),
    }
}

/// The document for a reply: none where the status reports an error, or where the reply holds no
/// chat completion.
pub open spec fn reply_for(
    status: u16,
    body: Seq<u8>,
    request: JsonV,
    model: Seq<char>,
    random: Seq<char>,
    time: i64,
) -> Option<Seq<u8>> {
    if reports_error(status) {
        None
    } else {
        match response::parsed_chat(body) {
            Some(c) => Some(
                encode_utf8(
                    json::json_text(
                        response::response_of(c, request, Some(model), random, time).json(),
                    ),
                ),
            ),
            None => None,
        }
    }
}

/// Converts a whole reply. Where the completion has no identifier or time, they are made from
/// `random` and `time`.
pub fn convert_reply_at(
    status: u16,
    body: &[u8],
    original_request: &Json,
    mapped_model: &str,
    random: &str,
    time: i64,
) -> (r: Reply)
    ensures
        reply_document(r) == reply_for(
            status,
            body@,
            original_request@,
            mapped_model@,
            random@,
            time,
        ),
{
    if is_error_status(status) {
        return Reply::PassThrough;
    }
    match parse_chat_response(body) {
        Ok(c) => {
            let resp = convert_chat_response(
                &c,
                original_request,
                Some(mapped_model),
                random,
                time,
            );
            Reply::Document(resp.to_json().print().as_str().as_bytes_vec())
        },
        Err(_) => Reply::PassThrough,
    }
}

/// Converts a whole reply. Where the completion has no identifier or time, a random identifier and
/// the time of the call take their place.
pub fn convert_reply(
    status: u16,
    body: &[u8],
    original_request: &Json,
    mapped_model: &str,
) -> (r: Reply)
    ensures
        exists|random: Seq<char>, time: i64|
            conversion::is_random_id(random) && reply_document(r) == #[trigger] reply_for(
                status,
                body@,
                original_request@,
                mapped_model@,
                random,
                time,
            ),
{
    let random = random_id();
    let time: i64 = unix_time();
    convert_reply_at(status, body, original_request, mapped_model, random.as_str(), time)
}

// ---------------------------------------------------------------------------------------------
// The first data of a stream
// ---------------------------------------------------------------------------------------------

/// Why a stream is refused.
pub struct PreflightDetectionResult {
    pub detection_type: String,
    pub reason: String,
    pub status_code: u16,
}

/// The model of [`PreflightDetectionResult`].
#[verifier::ext_equal]
pub struct PreflightV {
    pub detection_type: Seq<char>,
    pub reason: Seq<char>,
    pub status_code: u16,
}

impl View for PreflightDetectionResult {
    type V = PreflightV;

    open spec fn view(&self) -> PreflightV {
        PreflightV {
            detection_type: self.detection_type@,
            reason: self.reason@,
            status_code: self.status_code,
        }
    }
}

/// What came first from the upstream API.
pub enum PreflightEvent {
    /// Some data.
    Chunk(String),
    /// The end of the stream.
    Ended,
    /// A failure, with what is said of it.
    Failed(String),
    /// Nothing, for that many seconds.
    TimedOut(u64),
}

/// The text in lower case, as Unicode has it.
pub uninterp spec fn lower_case(s: Seq<char>) -> Seq<char>;

/// `str::to_lowercase`: the text in lower case, as Unicode has it.
#[verifier::external_body]
fn to_lower_case(s: &str) -> (r: String)
    ensures
        r@ == lower_case(s@),
{
    s.to_lowercase()
}

/// The text speaks of a key that is not accepted.
pub open spec fn speaks_of_auth(lower: Seq<char>) -> bool {
    text::has_text(lower, "invalid_api_key"@) || text::has_text(lower, "authentication_error"@)
        || text::has_text(lower, "unauthorized"@) || text::has_text(lower, "401"@) || (
    text::has_text(lower, "api key"@) && text::has_text(lower, "invalid"@))
}

/// The text speaks of a quota that is used up.
pub open spec fn speaks_of_quota(lower: Seq<char>) -> bool {
    text::has_text(lower, "insufficient_quota"@) || (text::has_text(lower, "billing"@)
        && text::has_text(lower, "error"@)) || text::has_text(lower, "quota_exceeded"@)
        || text::has_text(lower, "rate_limit"@)
}

/// The text speaks of function calls that are not in order.
pub open spec fn speaks_of_bad_calls(lower: Seq<char>) -> bool {
    text::has_text(lower, "tool_calls"@) && (text::has_text(lower, "malformed"@)
        || text::has_text(lower, "parse_error"@))
}

/// Why a stream that begins with these data is refused; `lower` is the text in lower case.
pub open spec fn chunk_detection(s: Seq<char>, lower: Seq<char>) -> Option<PreflightV> {
    if text::trimmed(s).len() == 0 || text::trimmed(s) == "{}"@ {
        Some(
            PreflightV {
                detection_type: "empty_response"@,
                reason: "Upstream returned empty response or empty object, content length: "@
                    + text::decimal(text::byte_len(s) as int),
                status_code: 502,
            },
        )
    } else if speaks_of_auth(lower) {
        Some(
            PreflightV {
                detection_type: "auth_error"@,
                reason: "Upstream returned authentication error, API key invalid or expired"@,
                status_code: 502,
            },
        )
    } else if speaks_of_quota(lower) {
        Some(
            PreflightV {
                detection_type: "quota_error"@,
                reason: "Upstream returned quota exceeded or rate limit error"@,
                status_code: 429,
            },
        )
    } else if speaks_of_bad_calls(lower) {
        Some(
            PreflightV {
                detection_type: "malformed_tool_call"@,
                reason: "Upstream returned malformed tool call format"@,
                status_code: 500,
            },
        )
    } else {
        None
    }
}

/// Why a stream is refused, by what came first.
pub open spec fn detection(event: PreflightEvent) -> Option<PreflightV> {
    match event {
        PreflightEvent::Chunk(s) => chunk_detection(s@, lower_case(s@)),
        PreflightEvent::Ended => Some(
            PreflightV {
                detection_type: "immediate_stream_end"@,
                reason: "Upstream stream ended immediately during preflight, no data"@,
                status_code: 502,
            },
        ),
        PreflightEvent::Failed(e) => Some(
            PreflightV {
                detection_type: "stream_read_error"@,
                reason: "Failed to read upstream stream: "@ + e@,
                status_code: 502,
            },
        ),
        PreflightEvent::TimedOut(secs) => Some(
            PreflightV {
                detection_type: "preflight_timeout"@,
                reason: "Preflight timeout ("@ + text::decimal(secs as int)
                    + "s), upstream response too slow"@,
                status_code: 504,
            },
        ),
    }
}

/// The model of an optional reason.
pub open spec fn maybe_detection(r: Option<PreflightDetectionResult>) -> Option<PreflightV> {
    match r {
        Some(x) => Some(x@),
        None => None,
    }
}

fn detected(kind: &str, reason: &str, status_code: u16) -> (r: Option<PreflightDetectionResult>)
    ensures
        maybe_detection(r) == Some(
            PreflightV { detection_type: kind@, reason: reason@, status_code },
        ),
{
    Some(
        PreflightDetectionResult {
            detection_type: kind.to_owned(),
            reason: reason.to_owned(),
            status_code,
        },
    )
}

/// Looks at the first data of a stream; `lower` is the text in lower case.
pub fn check_chunk(s: &str, lower: &str) -> (r: Option<PreflightDetectionResult>)
    ensures
        maybe_detection(r) == chunk_detection(s@, lower@),
{
    let trimmed = trim(s);
    if trimmed.as_str().is_empty() || same(trimmed.as_str(), "{}") {
        let mut reason = String::new();
        reason.append("Upstream returned empty response or empty object, content length: ");
        reason.append(decimal_u64(byte_count(s) as u64).as_str());
        assert(reason@
            =~= "Upstream returned empty response or empty object, content length: "@
            + text::decimal(text::byte_len(s@) as int));
        return detected("empty_response", reason.as_str(), 502);
    }
    if contains(lower, "invalid_api_key") || contains(lower, "authentication_error") || contains(
        lower,
        "unauthorized",
    ) || contains(lower, "401") || (contains(lower, "api key") && contains(lower, "invalid")) {
        return detected(
            "auth_error",
            "Upstream returned authentication error, API key invalid or expired",
            502,
        );
    }
    if contains(lower, "insufficient_quota") || (contains(lower, "billing") && contains(
        lower,
        "error",
    )) || contains(lower, "quota_exceeded") || contains(lower, "rate_limit") {
        return detected(
            "quota_error",
            "Upstream returned quota exceeded or rate limit error",
            429,
        );
    }
    if contains(lower, "tool_calls") && (contains(lower, "malformed") || contains(
        lower,
        "parse_error",
    )) {
        return detected(
            "malformed_tool_call",
            "Upstream returned malformed tool call format",
            500,
        );
    }
    None
}

/// The first data of a stream, by their bytes: the text of the characters that are complete.
pub fn preflight_event(bytes: &[u8]) -> (r: PreflightEvent)
    ensures
        r matches PreflightEvent::Chunk(s) && s@ == utf8_stream::text_in(
            bytes@.take(bytes@.len() - utf8_stream::unfinished(bytes@)),
        ),
{
    let mut decoder = Utf8StreamBuffer::new();
    assert(decoder@ + bytes@ =~= bytes@);
    PreflightEvent::Chunk(decoder.process_bytes(bytes))
}

/// Decides by what came first whether a stream is refused.
pub fn preflight_check(event: &PreflightEvent) -> (r: Option<PreflightDetectionResult>)
    ensures
        maybe_detection(r) == detection(*event),
{
    match event {
        PreflightEvent::Chunk(s) => check_chunk(s.as_str(), to_lower_case(s.as_str()).as_str()),
        PreflightEvent::Ended => detected(
            "immediate_stream_end",
            "Upstream stream ended immediately during preflight, no data",
            502,
        ),
        PreflightEvent::Failed(e) => {
            let mut reason = String::new();
            reason.append("Failed to read upstream stream: ");
            reason.append(e.as_str());
            assert(reason@ =~= "Failed to read upstream stream: "@ + e@);
            detected("stream_read_error", reason.as_str(), 502)
        },
        PreflightEvent::TimedOut(secs) => {
            let mut reason = String::new();
            reason.append("Preflight timeout (");
            reason.append(decimal_u64(*secs).as_str());
            reason.append("s), upstream response too slow");
            assert(reason@ =~= "Preflight timeout ("@ + text::decimal(*secs as int)
                + "s), upstream response too slow"@);
            detected("preflight_timeout", reason.as_str(), 504)
        },
    }
}

/// The document that tells the client why a stream is refused.
pub open spec fn preflight_error_json(p: PreflightV, id: Seq<char>) -> JsonV {
    JsonV::object().with(
        "error"@,
        JsonV::object().with("type"@, JsonV::Text(p.detection_type)).with(
            "message"@,
            JsonV::Text(p.reason),
        ).with("code"@, JsonV::Int(p.status_code as int)),
    ).with("type"@, JsonV::Text("error"@)).with("id"@, JsonV::Text(id))
}

/// The body that tells the client why a stream is refused, with the identifier `id`.
pub fn preflight_error_body_with(result: &PreflightDetectionResult, id: &str) -> (r: String)
    ensures
        r@ == json::json_text(preflight_error_json(result@, id@)),
{
    let error = Json::object().with("type", Json::text(result.detection_type.as_str())).with(
        "message",
        Json::text(result.reason.as_str()),
    ).with("code", Json::Int(result.status_code as i64));
    Json::object().with("error", error).with("type", Json::text("error")).with(
        "id",
        Json::text(id),
    ).print()
}

/// An identifier of 32 characters in groups of eight, four, four, four and twelve, with hyphens
/// between them.
pub open spec fn hyphenated(id: Seq<char>) -> Seq<char> {
    id.subrange(0, 8) + "-"@ + id.subrange(8, 12) + "-"@ + id.subrange(12, 16) + "-"@
        + id.subrange(16, 20) + "-"@ + id.subrange(20, 32)
}

/// The identifier in groups, with hyphens between them.
pub fn hyphenate(id: &str) -> (r: String)
    requires
        id@.len() == 32,
    ensures
        r@ == hyphenated(id@),
{
    let v = chars_of(id);
    let mut r = text_of(&v, 0, 8);
    r.append("-");
    r.append(text_of(&v, 8, 12).as_str());
    r.append("-");
    r.append(text_of(&v, 12, 16).as_str());
    r.append("-");
    r.append(text_of(&v, 16, 20).as_str());
    r.append("-");
    r.append(text_of(&v, 20, 32).as_str());
    assert(r@ =~= hyphenated(id@));
    r
}

/// The body that tells the client why a stream is refused, with a random identifier.
pub fn preflight_error_body(result: &PreflightDetectionResult) -> (r: String)
    ensures
        exists|id: Seq<char>|
            conversion::is_random_id(id) && r@ == json::json_text(
                preflight_error_json(result@, #[trigger] hyphenated(id)),
            ),
{
    let id = hyphenate(random_id().as_str());
    preflight_error_body_with(result, id.as_str())
}

/// A failure says that the client has left.
pub open spec fn says_client_left(message: Seq<char>) -> bool {
    let lower = text::ascii_lowered(message);
    text::has_text(lower, "connection reset"@) || text::has_text(lower, "broken pipe"@)
        || text::has_text(lower, "client disconnected"@) || text::has_text(lower, "aborted"@)
}

/// Whether a failure says that the client has left.
pub fn is_client_disconnect_error(message: &str) -> (r: bool)
    ensures
        r == says_client_left(message@),
{
    let lower = to_ascii_lower(message);
    contains(lower.as_str(), "connection reset") || contains(lower.as_str(), "broken pipe")
        || contains(lower.as_str(), "client disconnected") || contains(lower.as_str(), "aborted")
}

// ---------------------------------------------------------------------------------------------
// Carrying on a stream
// ---------------------------------------------------------------------------------------------

/// A sign of life for the client.
pub const KEEPALIVE: &'static str = ": keepalive\n\n";

/// A stream under way: the data of the upstream API on one side, events for the client on the other.
pub struct StreamPump {
    decoder: Utf8StreamBuffer,
    state: Option<StreamState>,
    partial: String,
    completed_sent: bool,
    ended: bool,
}

/// The model of [`StreamPump`].
#[verifier::ext_equal]
pub struct PumpV {
    /// The beginning of a character that goes on.
    pub undecoded: Seq<u8>,
    /// The stream, once a line has come.
    pub state: Option<StreamV>,
    /// The beginning of a line that goes on.
    pub partial: Seq<char>,
    /// Whether the client was told of the end of the response.
    pub completed_sent: bool,
    /// Whether the stream was ended.
    pub ended: bool,
}

impl View for StreamPump {
    type V = PumpV;

    closed spec fn view(&self) -> PumpV {
        PumpV {
            undecoded: self.decoder@,
            state: match self.state {
                Some(s) => Some(s@),
                None => None,
            },
            partial: self.partial@,
            completed_sent: self.completed_sent,
            ended: self.ended,
        }
    }
}

/// The lines that are complete once `s` has come behind `partial`, and the beginning of the next.
pub open spec fn complete_lines(
    partial: Seq<char>,
    s: Seq<char>,
    ends_with_newline: bool,
) -> (Seq<Seq<char>>, Seq<char>) {
    let all = text::lines(partial + s);
    if !ends_with_newline && all.len() > 0 {
        (all.drop_last(), all.last())
    } else {
        (all, Seq::empty())
    }
}

/// Whether one of the events speaks of the end of the response.
pub open spec fn tells_completion(events: Seq<Seq<char>>) -> bool {
    exists|i: int|
        0 <= i < events.len() && text::has_text(#[trigger] events[i], "response.completed"@)
}

/// What the conversion of lines depends on besides the lines. Where the first chunk has no
/// identifier or time, they are made from `random` and `time`; `now` is the time for the store.
#[verifier::ext_equal]
pub struct Surroundings {
    pub request: JsonV,
    pub inject: bool,
    pub random: Seq<char>,
    pub time: i64,
    pub now: u128,
}

/// A stream and a store, and the events that came out so far.
#[verifier::ext_equal]
pub struct ProgressV {
    pub state: Option<StreamV>,
    pub completed_sent: bool,
    pub store: Entries,
    pub events: Seq<Seq<char>>,
}

/// The stream, or a new one.
pub open spec fn or_initial(state: Option<StreamV>) -> StreamV {
    match state {
        Some(s) => s,
        None => StreamV::initial(),
    }
}

impl ProgressV {
    /// The progress after a line.
    pub open spec fn line(self, line: Seq<char>, env: Surroundings) -> ProgressV {
        let step = StepV::start(or_initial(self.state)).line(
            line,
            env.request,
            env.inject,
            env.random,
            env.time,
        );
        let events = stream::wire(step.events);
        ProgressV {
            state: Some(step.stream),
            completed_sent: self.completed_sent || tells_completion(events),
            store: completion::kept(self.store, step.saves, env.now),
            events: self.events + events,
        }
    }

    /// The progress after the first `n` lines.
    pub open spec fn lines(self, lines: Seq<Seq<char>>, n: int, env: Surroundings) -> ProgressV
        decreases n,
    {
        if n <= 0 {
            self
        } else {
            self.lines(lines, n - 1, env).line(lines[n - 1], env)
        }
    }
}

/// The progress of a stream after data.
pub open spec fn pumped(
    p: PumpV,
    store: Entries,
    s: Seq<char>,
    ends_with_newline: bool,
    env: Surroundings,
) -> ProgressV {
    let lines = complete_lines(p.partial, s, ends_with_newline).0;
    ProgressV {
        state: p.state,
        completed_sent: p.completed_sent,
        store,
        events: Seq::empty(),
    }.lines(lines, lines.len() as int, env)
}

/// What the client gets for these events: nothing, or all of them.
pub open spec fn joined_events(events: Seq<Seq<char>>) -> Option<Seq<char>> {
    if events.len() == 0 {
        None
    } else {
        Some(text::concatenated(events))
    }
}

/// What text of the upstream API comes to.
pub open spec fn feeds(
    before: (PumpV, Entries),
    s: Seq<char>,
    ends_with_newline: bool,
    env: Surroundings,
    after: (PumpV, Entries),
    out: Option<Seq<char>>,
) -> bool {
    let p = pumped(before.0, before.1, s, ends_with_newline, env);
    &&& after.0 == (PumpV {
        state: p.state,
        partial: complete_lines(before.0.partial, s, ends_with_newline).1,
        completed_sent: p.completed_sent,
        ..before.0
    })
    &&& after.1 == p.store
    &&& out == joined_events(p.events)
}

/// What bytes of the upstream API come to.
pub open spec fn feeds_bytes(
    before: (PumpV, Entries),
    bytes: Seq<u8>,
    env: Surroundings,
    after: (PumpV, Entries),
    out: Option<Seq<char>>,
) -> bool {
    let all = before.0.undecoded + bytes;
    let cut = all.len() - utf8_stream::unfinished(all);
    feeds(
        (PumpV { undecoded: all.skip(cut), ..before.0 }, before.1),
        utf8_stream::text_in(all.take(cut)),
        bytes.len() > 0 && bytes.last() == 10,
        env,
        after,
        out,
    )
}

/// What the end of a stream comes to: the remaining events, unless the client was told of the end
/// of the response, or nothing has come, or the stream was ended before.
pub open spec fn finishes(
    before: (PumpV, Entries),
    request: JsonV,
    inject: bool,
    now: u128,
    after: (PumpV, Entries),
    out: Option<Seq<char>>,
) -> bool {
    let step = StepV::start(or_initial(before.0.state)).completed(request, inject);
    if before.0.completed_sent || before.0.ended || before.0.state is None {
        &&& after.0 == (PumpV { ended: true, ..before.0 })
        &&& after.1 == before.1
        &&& out is None
    } else {
        &&& after.0 == (PumpV { state: Some(step.stream), ended: true, ..before.0 })
        &&& after.1 == completion::kept(before.1, step.saves, now)
        &&& out == Some(text::concatenated(stream::wire(step.events)))
    }
}

/// Whether one of the events speaks of the end of the response.
fn has_completion(events: &Vec<String>) -> (r: bool)
    ensures
        r == tells_completion(text::strings(events@)),
{
    let ghost all = text::strings(events@);
    let mut i: usize = 0;
    while i < events.len()
        invariant
            i <= events@.len(),
            all == text::strings(events@),
            forall|j: int|
                0 <= j < i ==> !text::has_text(#[trigger] all[j], "response.completed"@),
        decreases events@.len() - i,
    {
        assert(all[i as int] == events@[i as int]@);
        if contains(events[i].as_str(), "response.completed") {
            return true;
        }
        i += 1;
    }
    false
}

impl StreamPump {
    /// A stream from which nothing has come.
    pub fn new() -> (r: StreamPump)
        ensures
            r@ == (PumpV {
                undecoded: Seq::empty(),
                state: None,
                partial: Seq::empty(),
                completed_sent: false,
                ended: false,
            }),
    {
        let r = StreamPump {
            decoder: Utf8StreamBuffer::new(),
            state: None,
            partial: String::new(),
            completed_sent: false,
            ended: false,
        };
        assert(r@.partial =~= Seq::empty());
        r
    }

    /// Takes in text of the upstream API, and gives out what the client gets for it.
    pub fn feed_text_at(
        &mut self,
        s: &str,
        ends_with_newline: bool,
        original_request: &Json,
        store: &mut ReasoningStore,
        inject: bool,
        random: &str,
        time: i64,
        now: u128,
    ) -> (r: Option<String>)
        ensures
            feeds(
                (old(self)@, old(store)@),
                s@,
                ends_with_newline,
                (Surroundings {
                    request: original_request@,
                    inject,
                    random: random@,
                    time,
                    now,
                }),
                (final(self)@, final(store)@),
                text::maybe(r),
            ),
    {
        let ghost env = Surroundings {
            request: original_request@,
            inject,
            random: random@,
            time,
            now,
        };
        let ghost p = self@;
        let mut full = self.partial.clone();
        full.append(s);
        let all = split_lines(full.as_str());
        let ghost models = text::strings(all@);
        assert(models == text::lines(p.partial + s@));
        let mut count: usize = all.len();
        self.partial = String::new();
        assert(self.partial@ =~= Seq::empty());
        if !ends_with_newline && all.len() > 0 {
            count = all.len() - 1;
            self.partial = all[count].clone();
        }
        let ghost lines = complete_lines(p.partial, s@, ends_with_newline).0;
        let ghost start = ProgressV {
            state: p.state,
            completed_sent: p.completed_sent,
            store: store@,
            events: Seq::empty(),
        };
        let mut events: Vec<String> = Vec::new();
        assert(text::strings(events@) =~= Seq::empty());
        let mut i: usize = 0;
        while i < count
            invariant
                i <= count <= all@.len(),
                models == text::strings(all@),
                count == lines.len(),
                forall|j: int| 0 <= j < count ==> lines[j] == models[j],
                env == (Surroundings {
                    request: original_request@,
                    inject,
                    random: random@,
                    time,
                    now,
                }),
                self@.partial == complete_lines(p.partial, s@, ends_with_newline).1,
                self@.ended == p.ended,
                self@.undecoded == p.undecoded,
                (ProgressV {
                    state: self@.state,
                    completed_sent: self@.completed_sent,
                    store: store@,
                    events: text::strings(events@),
                }) == start.lines(lines, i as int, env),
            decreases count - i,
        {
            let ghost seen = events@;
            let mut state = match self.state.take() {
                Some(st) => st,
                None => StreamState::new(),
            };
            let mut new_events = convert_chat_stream_line_at(
                all[i].as_str(),
                &mut state,
                original_request,
                store,
                inject,
                random,
                time,
                now,
            );
            self.state = Some(state);
            if has_completion(&new_events) {
                self.completed_sent = true;
            }
            let ghost added = new_events@;
            events.append(&mut new_events);
            assert(text::strings(events@) =~= text::strings(seen) + text::strings(added));
            assert(lines[i as int] == all@[i as int]@);
            i += 1;
        }
        if events.len() == 0 {
            None
        } else {
            Some(concat_all(&events))
        }
    }

    /// Takes in bytes of the upstream API, and gives out what the client gets for them.
    pub fn feed_at(
        &mut self,
        bytes: &[u8],
        original_request: &Json,
        store: &mut ReasoningStore,
        inject: bool,
        random: &str,
        time: i64,
        now: u128,
    ) -> (r: Option<String>)
        ensures
            feeds_bytes(
                (old(self)@, old(store)@),
                bytes@,
                (Surroundings {
                    request: original_request@,
                    inject,
                    random: random@,
                    time,
                    now,
                }),
                (final(self)@, final(store)@),
                text::maybe(r),
            ),
    {
        let s = self.decoder.process_bytes(bytes);
        let ends_with_newline = bytes.len() > 0 && bytes[bytes.len() - 1] == 10;
        self.feed_text_at(
            s.as_str(),
            ends_with_newline,
            original_request,
            store,
            inject,
            random,
            time,
            now,
        )
    }

    /// Takes in bytes of the upstream API, and gives out what the client gets for them. Where the
    /// first chunk has no identifier or time, a random identifier and the time of the call take
    /// their place.
    pub fn feed(
        &mut self,
        bytes: &[u8],
        original_request: &Json,
        store: &mut ReasoningStore,
        inject: bool,
    ) -> (r: Option<String>)
        ensures
            exists|env: Surroundings|
                {
                    &&& #[trigger] feeds_bytes(
                        (old(self)@, old(store)@),
                        bytes@,
                        env,
                        (final(self)@, final(store)@),
                        text::maybe(r),
                    )
                    &&& env.request == original_request@
                    &&& env.inject == inject
                    &&& or_initial(old(self)@.state).session.first_chunk
                        ==> conversion::is_random_id(env.random)
                },
    {
        let first = match &self.state {
            Some(st) => st.awaits_first_chunk(),
            None => true,
        };
        let random = if first {
            random_id()
        } else {
            String::new()
        };
        let time: i64 = if first {
            unix_time()
        } else {
            0
        };
        let now: u128 = store.now();
        let ghost env = Surroundings {
            request: original_request@,
            inject,
            random: random@,
            time,
            now,
        };
        let ghost before = (self@, store@);
        let r = self.feed_at(
            bytes,
            original_request,
            store,
            inject,
            random.as_str(),
            time,
            now,
        );
        assert(feeds_bytes(before, bytes@, env, (self@, store@), text::maybe(r)));
        r
    }

    /// Ends the stream, and gives out what the client still gets, at the time of the call.
    pub fn finish(
        &mut self,
        original_request: &Json,
        store: &mut ReasoningStore,
        inject: bool,
    ) -> (r: Option<String>)
        ensures
            exists|now: u128|
                #[trigger] finishes(
                    (old(self)@, old(store)@),
                    original_request@,
                    inject,
                    now,
                    (final(self)@, final(store)@),
                    text::maybe(r),
                ),
    {
        let now: u128 = store.now();
        self.finish_at(original_request, store, inject, now)
    }

    /// Ends the stream, and gives out what the client still gets.
    pub fn finish_at(
        &mut self,
        original_request: &Json,
        store: &mut ReasoningStore,
        inject: bool,
        now: u128,
    ) -> (r: Option<String>)
        ensures
            finishes(
                (old(self)@, old(store)@),
                original_request@,
                inject,
                now,
                (final(self)@, final(store)@),
                text::maybe(r),
            ),
    {
        if self.completed_sent || self.ended {
            self.ended = true;
            return None;
        }
        self.ended = true;
        trigger_fallback_mechanism(&mut self.state, original_request, store, inject, now)
    }
}

/// Ends a stream whose end was not announced, where a line of it has come.
fn trigger_fallback_mechanism(
    state: &mut Option<StreamState>,
    original_request: &Json,
    store: &mut ReasoningStore,
    inject: bool,
    now: u128,
) -> (r: Option<String>)
    ensures
        match *old(state) {
            Some(st) => {
                let step = StepV::start(st@).completed(original_request@, inject);
                &&& *final(state) matches Some(st2)
                &&& st2@ == step.stream
                &&& final(store)@ == completion::kept(old(store)@, step.saves, now)
                &&& text::maybe(r) == Some(text::concatenated(stream::wire(step.events)))
            },
            None => {
                &&& *final(state) is None
                &&& final(store)@ == old(store)@
                &&& r is None
            },
        },
{
    match state.take() {
        Some(mut st) => {
            let events = generate_completed_events_at(
                &mut st,
                original_request,
                store,
                inject,
                now,
            );
            *state = Some(st);
            Some(concat_all(&events))
        },
        None => None,
    }
}

/// Whether a stream has taken as long as it may.
pub fn timed_out(elapsed_nanos: u128, total_timeout_secs: u64) -> (r: bool)
    ensures
        r == (elapsed_nanos >= total_timeout_secs * 1_000_000_000),
{
    elapsed_nanos >= (total_timeout_secs as u128) * 1_000_000_000
}

/// What a stream under way meets.
pub enum PumpEvent {
    /// Events for the client.
    Data,
    /// A failure, with what is said of it.
    Failed(String),
    /// The end of the data.
    Ended,
    /// No data for some time.
    Silent,
}

/// What is done about it.
#[derive(Debug, Clone, Copy, PartialEq, Eq, Structural)]
pub enum PumpAction {
    /// The client gets the events, and the time of silence begins anew.
    Forward,
    /// The client gets the failure; it may be that the client has left.
    Fail { client_left: bool },
    /// The client gets the remaining events, and the stream ends.
    Finish,
    /// The client gets a sign of life.
    KeepAlive,
}

/// Decides what is done about what a stream meets.
pub fn decide(event: &PumpEvent) -> (r: PumpAction)
    ensures
        r == (match *event {
            PumpEvent::Data => PumpAction::Forward,
            PumpEvent::Failed(e) => PumpAction::Fail { client_left: says_client_left(e@) },
            PumpEvent::Ended => PumpAction::Finish,
            PumpEvent::Silent => PumpAction::KeepAlive,
        }),
{
    match event {
        PumpEvent::Data => PumpAction::Forward,
        PumpEvent::Failed(e) => PumpAction::Fail {
            client_left: is_client_disconnect_error(e.as_str()),
        },
        PumpEvent::Ended => PumpAction::Finish,
        PumpEvent::Silent => PumpAction::KeepAlive,
    }
}

} // verus!
