//! The client: its configuration, the HTTP request it sends, and the
//! decision taken after each attempt.

use std::sync::Arc;
use std::time::Duration;
use vstd::prelude::*;
pub use crate::error::{ApiError, Error};
pub use crate::request::Request;
use crate::error::{api_error_of, is_retryable_status, opt_text, retry_after_of, retry_after_secs};
use crate::request::{request_body, request_problem};
use crate::text::{concat, trim, trim_end_char, trim_end_matches, trimmed};
use crate::time::{duration_secs, from_millis, from_secs, millis_duration, secs_duration, whole_secs};

verus! {

/// Default API base URL.
pub const DEFAULT_BASE_URL: &'static str = "https://api.typesafe.ai";

/// Default model alias.
pub const DEFAULT_MODEL: &'static str = "jev-latest";

/// The `User-Agent` sent with every request.
pub const USER_AGENT: &'static str = "jevkit/0.1.0";

/// An HTTP `POST` ready to send.
#[derive(Debug, Clone)]
pub struct HttpRequest {
    /// Full URL.
    pub url: String,
    /// Header name/value pairs.
    pub headers: Vec<(String, String)>,
    /// Request body (JSON).
    pub body: Vec<u8>,
    /// Whole-request timeout.
    pub timeout: Duration,
}

/// An HTTP response, whatever its status.
#[derive(Debug, Clone)]
pub struct HttpResponse {
    /// Status code.
    pub status: u16,
    /// Header name/value pairs.
    pub headers: Vec<(String, String)>,
    /// Response body.
    pub body: Vec<u8>,
}

/// The network failed before a response arrived (DNS, connect, TLS, timeout).
#[derive(Debug, Clone, PartialEq, Eq)]
pub struct TransportError(pub String);

/// Sends one HTTP `POST`.
///
/// Implement this to use your own HTTP stack (or a mock in tests). A non-2xx
/// status is not an error here: return it as `Ok(HttpResponse)` and the
/// client will interpret and retry it. Return `Err` only when no response
/// arrived at all.
pub trait Transport: Send + Sync {
    /// Whether this transport can give back `outcome` for `request`: any
    /// outcome, unless an implementation says more.
    open spec fn answers(&self, request: HttpRequest, outcome: Result<HttpResponse, TransportError>) -> bool {
        true
    }

    /// Perform the request; what comes back is an outcome of this very
    /// request.
    fn post(&self, request: &HttpRequest) -> (r: Result<HttpResponse, TransportError>)
        ensures
            self.answers(*request, r),
    ;
}

/// Token usage reported by the API.
#[derive(Debug, Clone, Copy, PartialEq, Eq)]
pub struct Usage {
    /// Billable input tokens.
    pub input_tokens: u64,
    /// Output tokens (currently free).
    pub output_tokens: u64,
}

impl Default for Usage {
    fn default() -> (r: Self)
        ensures
            r == (Usage { input_tokens: 0, output_tokens: 0 }),
    {
        Usage { input_tokens: 0, output_tokens: 0 }
    }
}

/// How failed calls are retried.
///
/// Retried: network failures and the statuses 429, 502, 503, 504 and 529.
/// If the server sends `Retry-After` and it exceeds `max_delay`, the error
/// is returned at once instead of waiting.
#[derive(Debug, Clone, Copy, PartialEq, Eq)]
pub struct RetryPolicy {
    /// Retries after the first attempt. `0` disables retrying.
    pub max_retries: u32,
    /// Delay before the first retry; doubles each time.
    pub base_delay: Duration,
    /// Upper bound for any single wait.
    pub max_delay: Duration,
}

/// The default policy: 2 retries, starting at 500 ms, at most 8 s per wait.
pub open spec fn default_retry_policy() -> RetryPolicy {
    RetryPolicy { max_retries: 2, base_delay: millis_duration(500), max_delay: secs_duration(8) }
}

impl Default for RetryPolicy {
    fn default() -> (r: Self)
        ensures
            r == default_retry_policy(),
    {
        RetryPolicy { max_retries: 2, base_delay: from_millis(500), max_delay: from_secs(8) }
    }
}

/// `2` to the power `n`.
pub open spec fn two_to(n: nat) -> nat
    decreases n,
{
    if n == 0 {
        1
    } else {
        2 * two_to((n - 1) as nat)
    }
}

/// What the client does after one attempt.
#[derive(Debug)]
pub enum Step {
    /// A 2xx response arrived: its body is the answer to parse.
    Done(Vec<u8>),
    /// Stop and report this error.
    Fail(Error),
    /// Wait this many seconds (the server's `Retry-After`), then try again.
    RetryAfter(u64),
    /// Wait the policy's backoff delay for this retry, then try again.
    Backoff,
}

/// Whether attempt number `retry` (zero-based) that ended in `outcome` is
/// followed by another under policy `p`: retries are left, and the attempt
/// failed on the network, or got a status worth retrying whose
/// `Retry-After`, if any, is no longer than `max_delay`.
pub open spec fn step_continues(p: RetryPolicy, retry: int, outcome: Result<HttpResponse, TransportError>) -> bool {
    &&& retry < p.max_retries
    &&& match outcome {
        Ok(resp) => {
            &&& (resp.status < 200 || resp.status >= 300)
            &&& is_retryable_status(resp.status)
            &&& match retry_after_secs(resp.headers@) {
                Some(s) => s <= duration_secs(p.max_delay),
                None => true,
            }
        },
        Err(_) => true,
    }
}

/// One call makes at most `max_retries + 1` attempts: in a run of attempts
/// where each but the last was followed by another, there are no more than
/// `max_retries + 1`.
pub proof fn lemma_attempts_bounded(p: RetryPolicy, outcomes: Seq<Result<HttpResponse, TransportError>>)
    requires
        forall|i: int| 0 <= i < outcomes.len() - 1 ==> step_continues(p, i, #[trigger] outcomes[i]),
    ensures
        outcomes.len() <= p.max_retries + 1,
{
    if outcomes.len() > p.max_retries + 1 {
        let i = p.max_retries as int;
        assert(step_continues(p, i, outcomes[i]));
    }
}

/// Which attempts are followed by another: a non-2xx response whose status
/// is not 429, 502, 503, 504 or 529 never is, whatever retries are left;
/// one whose status is, without `Retry-After` and with retries left,
/// always is; a network failure is exactly while retries are left; a 2xx
/// response never is.
pub proof fn lemma_which_attempts_are_retried(
    p: RetryPolicy,
    retry: int,
    resp: HttpResponse,
    failure: TransportError,
)
    ensures
        (resp.status < 200 || resp.status >= 300) && !(resp.status == 429 || resp.status == 502
            || resp.status == 503 || resp.status == 504 || resp.status == 529) ==> !step_continues(
            p,
            retry,
            Ok(resp),
        ),
        (resp.status == 429 || resp.status == 502 || resp.status == 503 || resp.status == 504
            || resp.status == 529) && retry < p.max_retries && retry_after_secs(resp.headers@) is None
            ==> step_continues(p, retry, Ok(resp)),
        200 <= resp.status < 300 ==> !step_continues(p, retry, Ok(resp)),
        step_continues(p, retry, Err(failure)) <==> retry < p.max_retries,
{
    crate::error::lemma_retryable_statuses(resp.status);
}

impl RetryPolicy {
    /// Never retry.
    pub fn none() -> (r: Self)
        ensures
            r == (RetryPolicy { max_retries: 0, ..default_retry_policy() }),
    {
        RetryPolicy { max_retries: 0, ..Self::default() }
    }

    /// How many times the base delay is waited before the given zero-based
    /// retry: `2^retry`, or `u32::MAX` once that no longer fits.
    pub fn backoff_multiplier(retry: u32) -> (r: u32)
        ensures
            r == if retry < 32 { two_to(retry as nat) } else { u32::MAX as nat },
    {
        if retry >= 32 {
            return u32::MAX;
        }
        let mut m: u32 = 1;
        let mut i: u32 = 0;
        while i < retry
            invariant
                i <= retry < 32,
                m == two_to(i as nat),
            decreases retry - i,
        {
            proof {
                lemma_two_to_bound(i as nat);
            }
            m = m * 2;
            i = i + 1;
        }
        m
    }

    /// The decision after attempt number `retry` (zero-based) ended in
    /// `outcome`: a 2xx response is done; another status is retried when it
    /// is worth retrying and retries are left, after the server's
    /// `Retry-After` if it gives one no longer than `max_delay`, else after
    /// the backoff delay; a network failure is retried while retries are
    /// left. Everything else fails. The wait is whole seconds, so it exceeds
    /// `max_delay` exactly when it exceeds the whole seconds of `max_delay`.
    pub fn next_step(&self, retry: u32, outcome: Result<HttpResponse, TransportError>) -> (r: Step)
        ensures
            match outcome {
                Ok(resp) => if 200 <= resp.status < 300 {
                    r matches Step::Done(b) && b@ == resp.body@
                } else if !is_retryable_status(resp.status) || retry >= self.max_retries {
                    r matches Step::Fail(Error::Api(e)) && api_error_of(e, resp.status, resp.headers@, resp.body@)
                } else {
                    match retry_after_secs(resp.headers@) {
                        Some(s) => if s > duration_secs(self.max_delay) {
                            r matches Step::Fail(Error::Api(e)) && api_error_of(e, resp.status, resp.headers@, resp.body@)
                        } else {
                            r == Step::RetryAfter(s)
                        },
                        None => r is Backoff,
                    }
                },
                Err(t) => if retry >= self.max_retries {
                    r matches Step::Fail(Error::Transport(m)) && m@ == t.0@
                } else {
                    r is Backoff
                },
            },
            retry >= self.max_retries ==> !(r is RetryAfter) && !(r is Backoff),
            r matches Step::RetryAfter(s) ==> s <= duration_secs(self.max_delay),
            (outcome matches Ok(resp) && (resp.status < 200 || resp.status >= 300) && !is_retryable_status(resp.status))
                ==> r is Fail,
            (r is RetryAfter || r is Backoff) <==> step_continues(*self, retry as int, outcome),
    {
        match outcome {
            Ok(resp) => {
                if 200 <= resp.status && resp.status < 300 {
                    return Step::Done(resp.body);
                }
                let err = ApiError::from_parts(resp.status, resp.headers.as_slice(), resp.body.as_slice());
                if !err.is_retryable() || retry >= self.max_retries {
                    return Step::Fail(Error::Api(err));
                }
                match retry_after_of(resp.headers.as_slice()) {
                    Some(s) => {
                        if s > whole_secs(&self.max_delay) {
                            Step::Fail(Error::Api(err))
                        } else {
                            Step::RetryAfter(s)
                        }
                    },
                    None => Step::Backoff,
                }
            },
            Err(t) => {
                if retry >= self.max_retries {
                    Step::Fail(Error::Transport(t.0))
                } else {
                    Step::Backoff
                }
            },
        }
    }
}

/// What a [`ClientBuilder`] holds.
pub struct BuilderModel {
    /// The API key, if set.
    pub api_key: Option<Seq<char>>,
    /// The base URL, if set.
    pub base_url: Option<Seq<char>>,
    /// The default model, if set.
    pub model: Option<Seq<char>>,
    /// The timeout, if set.
    pub timeout: Option<Duration>,
    /// The retry policy, if set.
    pub retry: Option<RetryPolicy>,
    /// Whether a transport of its own was given.
    pub has_transport: bool,
}

/// What a [`Client`] holds.
pub struct ClientModel {
    /// The API key.
    pub api_key: Seq<char>,
    /// The base URL.
    pub base_url: Seq<char>,
    /// The model used when a request sets none.
    pub model: Seq<char>,
    /// Whole-request timeout.
    pub timeout: Duration,
    /// How failed calls are retried.
    pub retry: RetryPolicy,
    /// Whether a transport of its own was given (else the built-in HTTP
    /// transport sends).
    pub has_transport: bool,
}

/// A setting that holds more than white space.
pub open spec fn non_blank(o: Option<Seq<char>>) -> Option<Seq<char>> {
    match o {
        Some(v) => if trimmed(v).len() > 0 {
            Some(v)
        } else {
            None
        },
        None => None,
    }
}

/// A setting is kept exactly when it holds a character that is not white
/// space; a kept setting is unchanged.
pub proof fn lemma_non_blank(o: Option<Seq<char>>)
    ensures
        non_blank(o) is Some <==> (o matches Some(v) && trimmed(v).len() > 0),
        non_blank(o) matches Some(v) ==> o == Some(v),
        non_blank(Some(Seq::<char>::empty())) is None,
{
    assert(trimmed(Seq::<char>::empty()) =~= Seq::<char>::empty()) by {
        reveal_with_fuel(crate::text::trim_start_spec, 1);
        reveal_with_fuel(crate::text::trim_end_spec, 1);
    }
}

/// `a`, or else `b`.
pub open spec fn or_else<T>(a: Option<T>, b: Option<T>) -> Option<T> {
    match a {
        Some(x) => Some(x),
        None => b,
    }
}

/// `a`, or else `d`.
pub open spec fn or_default<T>(a: Option<T>, d: T) -> T {
    match a {
        Some(x) => x,
        None => d,
    }
}

/// Configuration for a [`Client`].
pub struct ClientBuilder {
    api_key: Option<String>,
    base_url: Option<String>,
    model: Option<String>,
    timeout: Option<Duration>,
    retry: Option<RetryPolicy>,
    transport: Option<Box<dyn Transport>>,
}

impl View for ClientBuilder {
    type V = BuilderModel;

    closed spec fn view(&self) -> BuilderModel {
        BuilderModel {
            api_key: opt_text(self.api_key),
            base_url: opt_text(self.base_url),
            model: opt_text(self.model),
            timeout: self.timeout,
            retry: self.retry,
            has_transport: self.transport is Some,
        }
    }
}

/// A builder with nothing set.
pub open spec fn empty_builder() -> BuilderModel {
    BuilderModel {
        api_key: None,
        base_url: None,
        model: None,
        timeout: None,
        retry: None,
        has_transport: false,
    }
}

/// The client a builder makes with the API key `key`: unset options take
/// their defaults (base URL `https://api.typesafe.ai`, model `jev-latest`,
/// 30 s timeout, the default retry policy).
pub open spec fn built_client(b: BuilderModel, key: Seq<char>) -> ClientModel {
    ClientModel {
        api_key: key,
        base_url: or_default(b.base_url, DEFAULT_BASE_URL@),
        model: or_default(b.model, DEFAULT_MODEL@),
        timeout: or_default(b.timeout, secs_duration(30)),
        retry: or_default(b.retry, default_retry_policy()),
        has_transport: b.has_transport,
    }
}

impl Default for ClientBuilder {
    fn default() -> (r: Self)
        ensures
            r@ == empty_builder(),
    {
        ClientBuilder { api_key: None, base_url: None, model: None, timeout: None, retry: None, transport: None }
    }
}

fn non_blank_text(v: Option<String>) -> (r: Option<String>)
    ensures
        opt_text(r) == non_blank(opt_text(v)),
{
    match v {
        Some(s) => if trim(s.as_str()).is_empty() {
            None
        } else {
            Some(s)
        },
        None => None,
    }
}

impl ClientBuilder {
    /// Fill the options that are still unset from the given settings (an
    /// API key, a base URL, a default model), skipping settings that are
    /// blank. Options set earlier win.
    pub fn fill_unset(self, api_key: Option<String>, base_url: Option<String>, model: Option<String>) -> (r: Self)
        ensures
            r@ == (BuilderModel {
                api_key: or_else(self@.api_key, non_blank(opt_text(api_key))),
                base_url: or_else(self@.base_url, non_blank(opt_text(base_url))),
                model: or_else(self@.model, non_blank(opt_text(model))),
                ..self@
            }),
            self@.api_key is None ==> (r@.api_key is Some <==> (api_key matches Some(a) && trimmed(a@).len() > 0)),
    {
        let mut this = self;
        if this.api_key.is_none() {
            this.api_key = non_blank_text(api_key);
        }
        if this.base_url.is_none() {
            this.base_url = non_blank_text(base_url);
        }
        if this.model.is_none() {
            this.model = non_blank_text(model);
        }
        this
    }

    /// Set the API key.
    pub fn api_key(self, key: &str) -> (r: Self)
        ensures
            r@ == (BuilderModel { api_key: Some(key@), ..self@ }),
    {
        let mut this = self;
        this.api_key = Some(key.to_owned());
        this
    }

    /// Set the base URL (a gateway or test server), without `/v1/systemone`.
    pub fn base_url(self, url: &str) -> (r: Self)
        ensures
            r@ == (BuilderModel { base_url: Some(url@), ..self@ }),
    {
        let mut this = self;
        this.base_url = Some(url.to_owned());
        this
    }

    /// Set the default model (default `jev-latest`).
    pub fn model(self, model: &str) -> (r: Self)
        ensures
            r@ == (BuilderModel { model: Some(model@), ..self@ }),
    {
        let mut this = self;
        this.model = Some(model.to_owned());
        this
    }

    /// Whole-request timeout (default 30 s).
    pub fn timeout(self, timeout: Duration) -> (r: Self)
        ensures
            r@ == (BuilderModel { timeout: Some(timeout), ..self@ }),
    {
        let mut this = self;
        this.timeout = Some(timeout);
        this
    }

    /// Retry behaviour (default: 2 retries, exponential backoff).
    pub fn retry(self, policy: RetryPolicy) -> (r: Self)
        ensures
            r@ == (BuilderModel { retry: Some(policy), ..self@ }),
    {
        let mut this = self;
        this.retry = Some(policy);
        this
    }

    /// Use your own HTTP stack instead of the built-in one.
    pub fn transport<T: Transport + 'static>(self, transport: T) -> (r: Self)
        ensures
            r@ == (BuilderModel { has_transport: true, ..self@ }),
    {
        let mut this = self;
        let boxed: Box<dyn Transport> = Box::new(transport);
        this.transport = Some(boxed);
        this
    }

    /// Build the client. Fails with [`Error::MissingApiKey`] when no API key
    /// with text was set.
    pub fn build(self) -> (r: Result<Client, Error>)
        ensures
            match non_blank(self@.api_key) {
                None => r matches Err(Error::MissingApiKey),
                Some(k) => r matches Ok(c) && c@ == built_client(self@, k),
            },
            r is Ok <==> (self@.api_key matches Some(k) && trimmed(k).len() > 0),
            r matches Ok(c) ==> self@.api_key == Some(c@.api_key) && trimmed(c@.api_key).len() > 0,
    {
        let api_key = match non_blank_text(self.api_key) {
            Some(k) => k,
            None => {
                return Err(Error::MissingApiKey);
            },
        };
        let base_url = match self.base_url {
            Some(u) => u,
            None => DEFAULT_BASE_URL.to_owned(),
        };
        let model = match self.model {
            Some(m) => m,
            None => DEFAULT_MODEL.to_owned(),
        };
        let timeout = match self.timeout {
            Some(t) => t,
            None => from_secs(30),
        };
        let retry = match self.retry {
            Some(p) => p,
            None => RetryPolicy::default(),
        };
        Ok(Client { inner: Arc::new(Inner { api_key, base_url, model, timeout, retry, transport: self.transport }) })
    }
}

struct Inner {
    api_key: String,
    base_url: String,
    model: String,
    timeout: Duration,
    retry: RetryPolicy,
    transport: Option<Box<dyn Transport>>,
}

/// A blocking client for the System One API. Cheap to clone.
#[derive(Clone)]
pub struct Client {
    inner: Arc<Inner>,
}

impl View for Client {
    type V = ClientModel;

    closed spec fn view(&self) -> ClientModel {
        ClientModel {
            api_key: self.inner.api_key@,
            base_url: self.inner.base_url@,
            model: self.inner.model@,
            timeout: self.inner.timeout,
            retry: self.inner.retry,
            has_transport: self.inner.transport is Some,
        }
    }
}

/// The URL requests are posted to: the base URL without trailing slashes,
/// then `/v1/systemone`.
pub open spec fn endpoint(base_url: Seq<char>) -> Seq<char> {
    trim_end_char(base_url, '/') + "/v1/systemone"@
}

/// The headers sent with every request.
pub open spec fn request_headers(api_key: Seq<char>) -> Seq<(Seq<char>, Seq<char>)> {
    seq![
        ("Authorization"@, "Bearer "@ + api_key),
        ("Content-Type"@, "application/json"@),
        ("Accept"@, "application/json"@),
        ("User-Agent"@, USER_AGENT@),
    ]
}

/// The text of header pairs.
pub open spec fn header_texts(h: Seq<(String, String)>) -> Seq<(Seq<char>, Seq<char>)> {
    h.map_values(|p: (String, String)| (p.0@, p.1@))
}

impl Client {
    /// Start configuring a client.
    pub fn builder() -> (r: ClientBuilder)
        ensures
            r@ == empty_builder(),
    {
        ClientBuilder::default()
    }

    /// A client with defaults and the given API key.
    pub fn new(api_key: &str) -> (r: Result<Client, Error>)
        ensures
            match non_blank(Some(api_key@)) {
                None => r matches Err(Error::MissingApiKey),
                Some(k) => r matches Ok(c) && c@ == built_client(BuilderModel { api_key: Some(k), ..empty_builder() }, k),
            },
            r is Ok <==> trimmed(api_key@).len() > 0,
            r matches Ok(c) ==> c@.api_key == api_key@,
    {
        Self::builder().api_key(api_key).build()
    }

    /// The model used when a request does not set one.
    pub fn default_model(&self) -> (r: &str)
        ensures
            r@ == self@.model,
    {
        self.inner.model.as_str()
    }

    /// The base URL requests go to.
    pub fn base_url(&self) -> (r: &str)
        ensures
            r@ == self@.base_url,
    {
        self.inner.base_url.as_str()
    }

    /// The whole-request timeout.
    pub fn timeout(&self) -> (r: Duration)
        ensures
            r == self@.timeout,
    {
        self.inner.timeout
    }

    /// How failed calls are retried.
    pub fn retry_policy(&self) -> (r: RetryPolicy)
        ensures
            r == self@.retry,
    {
        self.inner.retry
    }

    /// The HTTP request that sends `request`: the JSON body (with this
    /// client's model when the request sets none), the endpoint, the
    /// headers and the timeout. Fails, sending nothing, when the request
    /// is invalid.
    pub fn http_request(&self, request: &Request) -> (r: Result<HttpRequest, Error>)
        ensures
            match request_problem(request@) {
                Some(m) => r matches Err(Error::InvalidRequest(x)) && x@ == m,
                None => r matches Ok(h) && h.url@ == endpoint(self@.base_url) && header_texts(h.headers@)
                    == request_headers(self@.api_key) && h.body@ == request_body(request@, self@.model)
                    && h.timeout == self@.timeout,
            },
    {
        let inner = &*self.inner;
        let body = match request.to_json(inner.model.as_str()) {
            Ok(b) => b,
            Err(e) => {
                return Err(e);
            },
        };
        let url = concat(trim_end_matches(inner.base_url.as_str(), '/'), "/v1/systemone");
        let mut headers: Vec<(String, String)> = Vec::new();
        headers.push(("Authorization".to_owned(), concat("Bearer ", inner.api_key.as_str())));
        headers.push(("Content-Type".to_owned(), "application/json".to_owned()));
        headers.push(("Accept".to_owned(), "application/json".to_owned()));
        headers.push(("User-Agent".to_owned(), USER_AGENT.to_owned()));
        assert(header_texts(headers@) =~= request_headers(self@.api_key));
        Ok(HttpRequest { url, headers, body, timeout: inner.timeout })
    }

    /// Whether the transport given to the builder can answer `request` with
    /// `outcome` (false when none was given).
    pub closed spec fn transport_answers(&self, request: HttpRequest, outcome: Result<HttpResponse, TransportError>) -> bool {
        match self.inner.transport {
            Some(t) => t.answers(request, outcome),
            None => false,
        }
    }

    /// Send one attempt through the transport given to the builder; `None`
    /// when there is none, and the built-in HTTP transport is to send it.
    pub fn post(&self, request: &HttpRequest) -> (r: Option<Result<HttpResponse, TransportError>>)
        ensures
            r is Some <==> self@.has_transport,
            r matches Some(o) ==> self.transport_answers(*request, o),
    {
        match &self.inner.transport {
            Some(t) => Some(t.post(request)),
            None => None,
        }
    }
}

proof fn lemma_two_to_grows(i: nat, j: nat)
    requires
        i <= j,
    ensures
        two_to(i) <= two_to(j),
    decreases j,
{
    if i < j {
        lemma_two_to_grows(i, (j - 1) as nat);
    }
}

proof fn lemma_two_to_bound(i: nat)
    requires
        i < 31,
    ensures
        two_to(i) * 2 <= u32::MAX,
{
    lemma_two_to_grows(i, 30);
    reveal_with_fuel(two_to, 31);
    assert(two_to(30) == 0x4000_0000);
}

} // verus!
