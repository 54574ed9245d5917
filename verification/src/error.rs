//! Everything that can go wrong building, sending or reading a request,
//! and how a non-2xx API response is read.

use serde_json::Error as JsonError;
use std::time::Duration;
use vstd::prelude::*;
use crate::decode::DecodeError;
use crate::json::{
    as_text, display, json_error_text, json_as_text, json_display, json_error_display, json_member,
    json_parse, member, parse_value,
};
use crate::text::{
    concat, decimal, eq_ignore_ascii_case, first_chars, lossy_text, parse_u64, parse_u64_spec,
    push_decimal, same_ignoring_ascii_case, take_chars, trim, trimmed, utf8_lossy,
};
use crate::time::{from_secs, secs_duration};

verus! {

/// The text of an optional `String`.
pub open spec fn opt_text(o: Option<String>) -> Option<Seq<char>> {
    match o {
        Some(s) => Some(s@),
        None => None,
    }
}

/// Statuses worth retrying: 429, 529, 502, 503 and 504.
pub open spec fn is_retryable_status(status: u16) -> bool {
    status == 429 || status == 529 || status == 502 || status == 503 || status == 504
}

/// Exactly the statuses 429, 502, 503, 504 and 529 are worth retrying;
/// every other status (500 among them) is not.
pub proof fn lemma_retryable_statuses(status: u16)
    ensures
        is_retryable_status(status) <==> (status == 429 || status == 502 || status == 503 || status == 504
            || status == 529),
{
}

/// A header name that is `Retry-After` in any ASCII case.
pub open spec fn is_retry_after_name(name: Seq<char>) -> bool {
    same_ignoring_ascii_case(name, "retry-after"@)
}

/// The first position `>= i` of a `Retry-After` header.
pub open spec fn retry_after_position(headers: Seq<(String, String)>, i: int) -> Option<int>
    decreases headers.len() - i,
{
    if i < 0 || i >= headers.len() {
        None
    } else if is_retry_after_name(headers[i].0@) {
        Some(i)
    } else {
        retry_after_position(headers, i + 1)
    }
}

/// The seconds of the first `Retry-After` header, when its (trimmed) value
/// is a whole number of seconds.
pub open spec fn retry_after_secs(headers: Seq<(String, String)>) -> Option<u64> {
    match retry_after_position(headers, 0) {
        Some(k) => parse_u64_spec(trimmed(headers[k].1@)),
        None => None,
    }
}

/// The text of a member of a JSON value: a string's own text, any other
/// value as compact JSON.
pub open spec fn member_text(m: serde_json::Value) -> Seq<char> {
    match json_as_text(m) {
        Some(t) => t,
        None => json_display(m),
    }
}

/// The text of member `name` of the JSON object in `body`.
pub open spec fn body_field(body: Seq<u8>, name: Seq<char>) -> Option<Seq<char>> {
    match json_parse(body) {
        Some(v) => match json_member(v, name) {
            Some(m) => Some(member_text(m)),
            None => None,
        },
        None => None,
    }
}

/// The message of an error response: its `message` member, else its
/// `detail` member, else the first 300 characters of the body as text.
pub open spec fn api_message(body: Seq<u8>) -> Seq<char> {
    match body_field(body, "message"@) {
        Some(m) => m,
        None => match body_field(body, "detail"@) {
            Some(d) => d,
            None => first_chars(utf8_lossy(body), 300),
        },
    }
}

/// A non-2xx API response.
#[derive(Debug, Clone, PartialEq)]
pub struct ApiError {
    /// HTTP status code.
    pub status: u16,
    /// The `error_type` field of the JSON body, if present.
    pub error_type: Option<String>,
    /// The `message` of the JSON body, or the (truncated) raw body.
    pub message: String,
    /// The `Retry-After` header, when given in seconds.
    pub retry_after: Option<Duration>,
}

/// `e` is what a response with this status, headers and body reads as.
pub open spec fn api_error_of(e: ApiError, status: u16, headers: Seq<(String, String)>, body: Seq<u8>) -> bool {
    &&& e.status == status
    &&& opt_text(e.error_type) == body_field(body, "error_type"@)
    &&& e.message@ == api_message(body)
    &&& match retry_after_secs(headers) {
        Some(s) => e.retry_after == Some(secs_duration(s)),
        None => e.retry_after is None,
    }
}

/// The text of an [`ApiError`]: `API error <status>`, then ` (<error_type>)`
/// when there is one, then `: <message>` when the message is not empty.
pub open spec fn api_error_text(e: ApiError) -> Seq<char> {
    let head = "API error "@ + decimal(e.status as nat);
    let typed = match e.error_type {
        Some(t) => head + " ("@ + t@ + ")"@,
        None => head,
    };
    if e.message@.len() == 0 {
        typed
    } else {
        typed + ": "@ + e.message@
    }
}

pub(crate) fn retry_after_of(headers: &[(String, String)]) -> (r: Option<u64>)
    ensures
        r == retry_after_secs(headers@),
{
    let n = headers.len();
    let mut i: usize = 0;
    while i < n
        invariant
            n == headers@.len(),
            i <= n,
            retry_after_position(headers@, 0) == retry_after_position(headers@, i as int),
        decreases n - i,
    {
        if eq_ignore_ascii_case(headers[i].0.as_str(), "retry-after") {
            return parse_u64(trim(headers[i].1.as_str()));
        }
        i = i + 1;
    }
    None
}

fn field_text(parsed: &Option<serde_json::Value>, name: &str) -> (r: Option<String>)
    ensures
        opt_text(r) == match *parsed {
            Some(v) => match json_member(v, name@) {
                Some(m) => Some(member_text(m)),
                None => None,
            },
            None => None,
        },
{
    match parsed {
        Some(v) => match member(v, name) {
            Some(m) => match as_text(m) {
                Some(t) => Some(t.to_owned()),
                None => Some(display(m)),
            },
            None => None,
        },
        None => None,
    }
}

impl ApiError {
    /// `true` for statuses worth retrying: 429, 529, 502, 503 and 504.
    pub fn is_retryable(&self) -> (r: bool)
        ensures
            r == is_retryable_status(self.status),
            r <==> (self.status == 429 || self.status == 502 || self.status == 503 || self.status == 504
                || self.status == 529),
    {
        self.status == 429 || self.status == 529 || self.status == 502 || self.status == 503
            || self.status == 504
    }

    /// Read a non-2xx response: `Retry-After` from the headers, `message`
    /// (or `detail`) and `error_type` from a JSON body, else the start of
    /// the body as text.
    pub fn from_parts(status: u16, headers: &[(String, String)], body: &[u8]) -> (r: ApiError)
        ensures
            api_error_of(r, status, headers@, body@),
    {
        let retry_after = match retry_after_of(headers) {
            Some(s) => Some(from_secs(s)),
            None => None,
        };
        let parsed = parse_value(body);
        let message = match field_text(&parsed, "message") {
            Some(m) => m,
            None => match field_text(&parsed, "detail") {
                Some(d) => d,
                None => {
                    let text = lossy_text(body);
                    take_chars(text.as_str(), 300)
                },
            },
        };
        ApiError { status, error_type: field_text(&parsed, "error_type"), message, retry_after }
    }

    /// The error as text (what `Display` would write).
    pub fn text(&self) -> (r: String)
        ensures
            r@ == api_error_text(*self),
    {
        let mut s = "API error ".to_owned();
        push_decimal(&mut s, self.status as u64);
        match &self.error_type {
            Some(t) => {
                s.append(" (");
                s.append(t.as_str());
                s.append(")");
            },
            None => {},
        }
        if !self.message.as_str().is_empty() {
            s.append(": ");
            s.append(self.message.as_str());
        }
        s
    }
}

/// Everything that can go wrong building, sending or reading a request.
#[derive(Debug)]
pub enum Error {
    /// No API key: set `TYPESAFE_API_KEY` or call `ClientBuilder::api_key`.
    MissingApiKey,
    /// The client is misconfigured (for example no transport is available).
    Config(String),
    /// The request is invalid; nothing was sent.
    InvalidRequest(String),
    /// The network call failed (after retries).
    Transport(String),
    /// The API answered with a non-2xx status (after retries).
    Api(ApiError),
    /// The state could not be serialized, or the response was not valid JSON
    /// of the expected shape.
    Json(JsonError),
    /// The API returned no answer for this question.
    MissingAnswer {
        /// The question id.
        id: String,
    },
    /// The answer for this id has a different type than the question asked.
    WrongAnswerType {
        /// The question id.
        id: String,
        /// Type you asked for.
        expected: &'static str,
        /// Type the API returned.
        found: &'static str,
    },
    /// The answer could not be mapped onto your Rust type.
    Decode {
        /// The question id.
        id: String,
        /// What went wrong.
        source: DecodeError,
    },
}

/// The text of a [`DecodeError`].
pub open spec fn decode_error_text(e: DecodeError) -> Seq<char> {
    match e {
        DecodeError::Empty => "no probabilities supplied"@,
        DecodeError::UnknownLabel(l) => "unknown label `"@ + l@ + "`"@,
        DecodeError::InvalidProbability(p) => "invalid probability "@ + p@,
        DecodeError::WrongLevelCount { expected, found } => "expected "@ + decimal(expected as nat)
            + " level probabilities, found "@ + decimal(found as nat),
        DecodeError::BadIndex(i) => "no level with index "@ + decimal(i as nat),
    }
}

/// The text of an [`Error`].
pub open spec fn error_text(e: Error) -> Seq<char> {
    match e {
        Error::MissingApiKey => "missing API key (set TYPESAFE_API_KEY)"@,
        Error::Config(m) => "invalid client configuration: "@ + m@,
        Error::InvalidRequest(m) => "invalid request: "@ + m@,
        Error::Transport(m) => "transport error: "@ + m@,
        Error::Api(a) => api_error_text(a),
        Error::Json(j) => "json error: "@ + json_error_display(j),
        Error::MissingAnswer { id } => "no answer returned for question `"@ + id@ + "`"@,
        Error::WrongAnswerType { id, expected, found } => "question `"@ + id@ + "`: expected a "@
            + expected@ + " answer, got "@ + found@,
        Error::Decode { id, source } => "question `"@ + id@ + "`: "@ + decode_error_text(source),
    }
}

/// The kind of an answer the API returned.
#[derive(Debug, Clone, Copy, PartialEq, Eq, Structural)]
pub enum AnswerKind {
    /// A yes/no answer.
    Noul,
    /// A pick-one answer.
    Choice,
    /// A rating answer.
    Score,
    /// A kind this client does not know.
    Unknown,
}

/// The name of an answer kind, as errors report it.
pub open spec fn kind_name(k: AnswerKind) -> Seq<char> {
    match k {
        AnswerKind::Noul => "noul"@,
        AnswerKind::Choice => "choice"@,
        AnswerKind::Score => "score"@,
        AnswerKind::Unknown => "unknown"@,
    }
}

impl AnswerKind {
    /// The name of this kind: `noul`, `choice`, `score` or `unknown`.
    pub fn name(&self) -> (r: &'static str)
        ensures
            r@ == kind_name(*self),
    {
        match self {
            AnswerKind::Noul => "noul",
            AnswerKind::Choice => "choice",
            AnswerKind::Score => "score",
            AnswerKind::Unknown => "unknown",
        }
    }
}

/// Check the answer found for question `id` before decoding it: no answer
/// is [`Error::MissingAnswer`], an answer of another kind than `expected`
/// is [`Error::WrongAnswerType`].
pub fn expect_answer(id: &str, expected: AnswerKind, found: Option<AnswerKind>) -> (r: Result<(), Error>)
    ensures
        match found {
            None => r matches Err(Error::MissingAnswer { id: i }) && i@ == id@,
            Some(k) => if k == expected {
                r is Ok
            } else {
                r matches Err(Error::WrongAnswerType { id: i, expected: e, found: f }) && i@ == id@ && e@
                    == kind_name(expected) && f@ == kind_name(k)
            },
        },
{
    match found {
        None => Err(Error::MissingAnswer { id: id.to_owned() }),
        Some(k) => {
            if k == expected {
                Ok(())
            } else {
                Err(Error::WrongAnswerType { id: id.to_owned(), expected: expected.name(), found: k.name() })
            }
        },
    }
}

impl From<JsonError> for Error {
    fn from(e: JsonError) -> (r: Self) {
        Error::Json(e)
    }
}

impl vstd::std_specs::convert::FromSpecImpl<JsonError> for Error {
    open spec fn obeys_from_spec() -> bool {
        true
    }

    open spec fn from_spec(e: JsonError) -> Error {
        Error::Json(e)
    }
}

impl DecodeError {
    /// The error as text (what `Display` would write).
    pub fn text(&self) -> (r: String)
        ensures
            r@ == decode_error_text(*self),
    {
        match self {
            DecodeError::Empty => "no probabilities supplied".to_owned(),
            DecodeError::UnknownLabel(l) => {
                let mut s = concat("unknown label `", l.as_str());
                s.append("`");
                s
            },
            DecodeError::InvalidProbability(p) => concat("invalid probability ", p.as_str()),
            DecodeError::WrongLevelCount { expected, found } => {
                let mut s = "expected ".to_owned();
                push_decimal(&mut s, *expected as u64);
                s.append(" level probabilities, found ");
                push_decimal(&mut s, *found as u64);
                s
            },
            DecodeError::BadIndex(i) => {
                let mut s = "no level with index ".to_owned();
                push_decimal(&mut s, *i as u64);
                s
            },
        }
    }
}

impl Error {
    /// The error as text (what `Display` would write).
    pub fn text(&self) -> (r: String)
        ensures
            r@ == error_text(*self),
    {
        match self {
            Error::MissingApiKey => "missing API key (set TYPESAFE_API_KEY)".to_owned(),
            Error::Config(m) => concat("invalid client configuration: ", m.as_str()),
            Error::InvalidRequest(m) => concat("invalid request: ", m.as_str()),
            Error::Transport(m) => concat("transport error: ", m.as_str()),
            Error::Api(a) => a.text(),
            Error::Json(j) => {
                let t = json_error_text(j);
                concat("json error: ", t.as_str())
            },
            Error::MissingAnswer { id } => {
                let mut s = concat("no answer returned for question `", id.as_str());
                s.append("`");
                s
            },
            Error::WrongAnswerType { id, expected, found } => {
                let mut s = concat("question `", id.as_str());
                s.append("`: expected a ");
                s.append(*expected);
                s.append(" answer, got ");
                s.append(*found);
                s
            },
            Error::Decode { id, source } => {
                let mut s = concat("question `", id.as_str());
                s.append("`: ");
                let d = source.text();
                s.append(d.as_str());
                s
            },
        }
    }
}

} // verus!
