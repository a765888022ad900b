//! The outbound HTTP client's decisions: retries, the circuit breaker's
//! bookkeeping, and how transport failures are classified.
use vstd::prelude::*;
use crate::error::{AppError, ErrorCode};

verus! {

/// Settings of the outbound HTTP client.
#[derive(Debug)]
pub struct HttpClientConfig {
    pub enabled: bool,
    pub timeout_secs: u64,
    pub user_agent: String,
    pub max_retries: u32,
    pub retry_delay_ms: u64,
}

/// A request method.
#[derive(Debug, Clone, Copy, PartialEq, Eq, Structural)]
pub enum HttpMethod {
    Get,
    Post,
    Put,
    Delete,
    Patch,
    Head,
    Options,
}

pub open spec fn method_text(m: HttpMethod) -> Seq<char> {
    match m {
        HttpMethod::Get => "GET"@,
        HttpMethod::Post => "POST"@,
        HttpMethod::Put => "PUT"@,
        HttpMethod::Delete => "DELETE"@,
        HttpMethod::Patch => "PATCH"@,
        HttpMethod::Head => "HEAD"@,
        HttpMethod::Options => "OPTIONS"@,
    }
}

/// The method's name on the wire.
pub fn method_name(m: HttpMethod) -> (s: &'static str)
    ensures
        s@ == method_text(m),
{
    match m {
        HttpMethod::Get => "GET",
        HttpMethod::Post => "POST",
        HttpMethod::Put => "PUT",
        HttpMethod::Delete => "DELETE",
        HttpMethod::Patch => "PATCH",
        HttpMethod::Head => "HEAD",
        HttpMethod::Options => "OPTIONS",
    }
}

/// An answer from a server.
#[derive(Debug)]
pub struct HttpResponse {
    pub status: u16,
    pub headers: Vec<(String, String)>,
    pub body: Vec<u8>,
}

impl HttpResponse {
    pub fn is_success(&self) -> (b: bool)
        ensures
            b == (200 <= self.status <= 299),
    {
        200 <= self.status && self.status <= 299
    }
}

/// The error of a request that got no answer: a timeout, or another failure.
pub fn transport_error(timed_out: bool) -> (e: AppError)
    ensures
        e.code == (if timed_out { ErrorCode::HttpTimeout } else { ErrorCode::HttpRequestFailed }),
{
    if timed_out {
        AppError::from_static(ErrorCode::HttpTimeout, "HTTP request timed out")
    } else {
        AppError::from_static(ErrorCode::HttpRequestFailed, "HTTP request failed")
    }
}

/// What the circuit breaker is told about an attempt.
#[derive(Debug, Clone, Copy, PartialEq, Eq, Structural)]
pub enum BreakerNote {
    Success,
    Failure,
    Nothing,
}

/// What the client does next with a request.
#[derive(Debug)]
pub enum RetryAction {
    /// Send the request (after waiting the retry delay when `wait`).
    Send { wait: bool },
    /// Answer with this response.
    Return(HttpResponse),
    /// Give up with this error.
    Fail(AppError),
}

/// The retry state of one request.
pub struct RetryState {
    attempt: u64,
    attempts: u64,
    has_breaker: bool,
}

/// What the breaker learns from a response: 2xx is a success, 5xx a
/// failure, anything else nothing.
pub open spec fn spec_note_response(status: u16) -> BreakerNote {
    if 200 <= status <= 299 {
        BreakerNote::Success
    } else if status >= 500 {
        BreakerNote::Failure
    } else {
        BreakerNote::Nothing
    }
}

impl RetryState {
    pub closed spec fn attempt(&self) -> u64 {
        self.attempt
    }

    pub closed spec fn attempts(&self) -> u64 {
        self.attempts
    }

    pub closed spec fn breaker(&self) -> bool {
        self.has_breaker
    }

    /// Begins a request: one attempt plus `max_retries` retries. A breaker
    /// that refuses the request ends it at once.
    pub fn begin(max_retries: u32, breaker_allows: Option<bool>) -> (r: Result<(RetryState, RetryAction), AppError>)
        ensures
            match breaker_allows {
                Some(false) => r matches Err(e) && e.code == ErrorCode::CircuitBreakerOpen,
                _ => r matches Ok((s, a)) && s.attempt() == 0 && s.attempts() == max_retries + 1
                    && s.breaker() == (breaker_allows is Some) && a matches RetryAction::Send { wait: false },
            },
    {
        match breaker_allows {
            Some(false) => Err(AppError::from_static(ErrorCode::CircuitBreakerOpen, "circuit breaker is open")),
            _ => Ok((
                RetryState { attempt: 0, attempts: max_retries as u64 + 1, has_breaker: breaker_allows.is_some() },
                RetryAction::Send { wait: false },
            )),
        }
    }

    /// Handles how the current attempt ended; returns what the breaker is
    /// told and what comes next. Any response ends the request; an error is
    /// retried while attempts remain, after the delay.
    pub fn on_result(&mut self, result: Result<HttpResponse, AppError>) -> (r: (BreakerNote, RetryAction))
        requires
            old(self).attempt() < old(self).attempts(),
        ensures
            final(self).attempts() == old(self).attempts(),
            final(self).breaker() == old(self).breaker(),
            final(self).attempt() < final(self).attempts() || r.1 !is Send,
            match result {
                Ok(resp) => {
                    &&& r.0 == (if old(self).breaker() { spec_note_response(resp.status) } else { BreakerNote::Nothing })
                    &&& r.1 matches RetryAction::Return(x) && x == resp
                },
                Err(e) => {
                    &&& r.0 == (if old(self).breaker() { BreakerNote::Failure } else { BreakerNote::Nothing })
                    &&& if old(self).attempt() + 1 < old(self).attempts() {
                        r.1 matches RetryAction::Send { wait: true } && final(self).attempt() == old(self).attempt() + 1
                    } else {
                        r.1 matches RetryAction::Fail(x) && x == e
                    }
                },
            },
    {
        match result {
            Ok(resp) => {
                let note = if !self.has_breaker {
                    BreakerNote::Nothing
                } else if resp.is_success() {
                    BreakerNote::Success
                } else if resp.status >= 500 {
                    BreakerNote::Failure
                } else {
                    BreakerNote::Nothing
                };
                (note, RetryAction::Return(resp))
            },
            Err(e) => {
                let note = if self.has_breaker { BreakerNote::Failure } else { BreakerNote::Nothing };
                if self.attempt + 1 < self.attempts {
                    self.attempt = self.attempt + 1;
                    (note, RetryAction::Send { wait: true })
                } else {
                    (note, RetryAction::Fail(e))
                }
            },
        }
    }
}

} // verus!
