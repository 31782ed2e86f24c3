//! The transport's policy: the browser-like headers sent with every request,
//! which responses end the attempts, which are retried, and the exponential
//! backoff between attempts.
use vstd::prelude::*;

use crate::payload::field_views;
use crate::text::prefix_chars;

verus! {

/// Attempts made when nothing else is configured.
pub const DEFAULT_MAX_RETRIES: u32 = 3;

/// Seconds before the first retry when nothing else is configured.
pub const DEFAULT_BASE_DELAY_SECS: u64 = 1;

/// Characters of the body kept in the error of a terminal status.
pub const EXCERPT_CHARS: usize = 50;

/// The headers sent with every request, as a browser would send them.
pub open spec fn browser_headers_spec() -> Seq<(Seq<char>, Seq<char>)> {
    seq![
        ("user-agent"@, "Mozilla/5.0 (Windows NT 10.0; Win64; x64) Chrome/120.0"@),
        ("accept"@, "application/json, text/plain, */*"@),
        ("accept-language"@, "en-US,en;q=0.9,vi;q=0.8"@),
    ]
}

/// Builds the headers sent with every request.
pub fn browser_headers() -> (r: Vec<(String, String)>)
    ensures
        field_views(r@) == browser_headers_spec(),
{
    let mut h: Vec<(String, String)> = Vec::new();
    h.push(("user-agent".to_owned(), "Mozilla/5.0 (Windows NT 10.0; Win64; x64) Chrome/120.0".to_owned()));
    h.push(("accept".to_owned(), "application/json, text/plain, */*".to_owned()));
    h.push(("accept-language".to_owned(), "en-US,en;q=0.9,vi;q=0.8".to_owned()));
    proof {
        assert(field_views(h@) =~= browser_headers_spec());
    }
    h
}

/// `2` to the power `n`.
pub open spec fn two_pow(n: nat) -> nat
    decreases n,
{
    if n == 0 {
        1
    } else {
        2 * two_pow((n - 1) as nat)
    }
}

/// The delay before the retry that follows attempt `attempt` (counted from 0).
pub open spec fn backoff_secs(base: nat, attempt: nat) -> nat {
    base * two_pow(attempt)
}

/// A 2xx status.
pub open spec fn is_success(status: u16) -> bool {
    200 <= status <= 299
}

/// A 5xx status.
pub open spec fn is_server_error(status: u16) -> bool {
    500 <= status <= 599
}

/// How many attempts are made, and the delay before the first retry.
#[derive(Debug, Clone, Copy, PartialEq, Eq, Structural)]
pub struct RetryPolicy {
    pub max_retries: u32,
    pub base_delay_secs: u64,
}

impl Default for RetryPolicy {
    fn default() -> (r: Self)
        ensures
            r.max_retries == DEFAULT_MAX_RETRIES,
            r.base_delay_secs == DEFAULT_BASE_DELAY_SECS,
    {
        RetryPolicy { max_retries: DEFAULT_MAX_RETRIES, base_delay_secs: DEFAULT_BASE_DELAY_SECS }
    }
}

/// A response: its status code and its body.
#[derive(Debug, Clone)]
pub struct Response {
    pub status: u16,
    pub body: String,
}

/// What one attempt gave.
#[derive(Debug, Clone)]
pub enum AttemptOutcome {
    /// The server answered.
    Answered(Response),
    /// No answer: connection refused, timeout, name resolution.
    Unreachable(String),
}

/// Why a request failed.
#[derive(Debug, Clone)]
pub enum TransportError {
    /// A status that is not a success: terminal, or a server error on the
    /// last attempt. Holds the first characters of the body.
    Status { status: u16, excerpt: String },
    /// The last attempt got no answer.
    Unreachable(String),
    /// No attempt was allowed.
    MaxRetriesExceeded,
}

/// What follows an attempt.
#[derive(Debug, Clone)]
pub enum RetryStep {
    /// The response is returned as it is.
    Done(Response),
    /// Sleep this many seconds, then attempt again.
    Retry(u64),
    /// The request fails with this error.
    Fail(TransportError),
}

/// `n`, or `u64::MAX` when `n` does not fit.
pub open spec fn saturate(n: nat) -> u64 {
    if n <= u64::MAX {
        n as u64
    } else {
        u64::MAX
    }
}

/// The delay before the retry that follows attempt `attempt`, saturated at
/// the largest `u64`.
pub fn backoff_delay(base_secs: u64, attempt: u32) -> (r: u64)
    ensures
        r == saturate(backoff_secs(base_secs as nat, attempt as nat)),
{
    let mut d: u64 = base_secs;
    let mut i: u32 = 0;
    proof {
        assert(two_pow(0) == 1);
        assert(backoff_secs(base_secs as nat, 0) == base_secs as nat);
    }
    while i < attempt
        invariant
            i <= attempt,
            d == saturate(backoff_secs(base_secs as nat, i as nat)),
        decreases attempt - i,
    {
        proof {
            let b = base_secs as nat;
            let p = two_pow(i as nat);
            assert(two_pow((i + 1) as nat) == 2 * p);
            assert(b * (2 * p) == 2 * (b * p)) by (nonlinear_arith);
        }
        if d > u64::MAX / 2 {
            d = u64::MAX;
        } else {
            d = d * 2;
        }
        i = i + 1;
    }
    d
}

/// What follows attempt `attempt` (counted from 0) that gave `outcome`.
pub open spec fn decide_spec(policy: RetryPolicy, attempt: nat, outcome: AttemptOutcome) -> RetryStep {
    let last = attempt + 1 >= policy.max_retries;
    match outcome {
        AttemptOutcome::Answered(resp) => if is_success(resp.status) {
            RetryStep::Done(resp)
        } else if is_server_error(resp.status) && !last {
            RetryStep::Retry(saturate(backoff_secs(policy.base_delay_secs as nat, attempt)))
        } else {
            RetryStep::Fail(
                TransportError::Status { status: resp.status, excerpt: resp.body },
            )
        },
        AttemptOutcome::Unreachable(msg) => if !last {
            RetryStep::Retry(saturate(backoff_secs(policy.base_delay_secs as nat, attempt)))
        } else {
            RetryStep::Fail(TransportError::Unreachable(msg))
        },
    }
}

/// `got` is `want`, but for the excerpt of a status error, which holds the
/// first characters of the body.
pub open spec fn same_step(got: RetryStep, want: RetryStep) -> bool {
    match (got, want) {
        (
            RetryStep::Fail(TransportError::Status { status: s1, excerpt: e1 }),
            RetryStep::Fail(TransportError::Status { status: s2, excerpt: body }),
        ) => s1 == s2 && e1@ == body@.take(
            if body@.len() < EXCERPT_CHARS {
                body@.len() as int
            } else {
                EXCERPT_CHARS as int
            },
        ),
        _ => got == want,
    }
}

/// Decides what follows attempt `attempt` (counted from 0) that gave
/// `outcome`.
pub fn decide(policy: RetryPolicy, attempt: u32, outcome: AttemptOutcome) -> (r: RetryStep)
    requires
        attempt < policy.max_retries,
    ensures
        same_step(r, decide_spec(policy, attempt as nat, outcome)),
{
    let last = attempt + 1 >= policy.max_retries;
    match outcome {
        AttemptOutcome::Answered(resp) => {
            if 200 <= resp.status && resp.status <= 299 {
                RetryStep::Done(resp)
            } else if 500 <= resp.status && resp.status <= 599 && !last {
                RetryStep::Retry(backoff_delay(policy.base_delay_secs, attempt))
            } else {
                let excerpt = prefix_chars(resp.body.as_str(), EXCERPT_CHARS);
                proof {
                    assert(resp.body@.take(resp.body@.len() as int) =~= resp.body@);
                }
                RetryStep::Fail(TransportError::Status { status: resp.status, excerpt })
            }
        },
        AttemptOutcome::Unreachable(msg) => {
            if !last {
                RetryStep::Retry(backoff_delay(policy.base_delay_secs, attempt))
            } else {
                RetryStep::Fail(TransportError::Unreachable(msg))
            }
        },
    }
}

/// The attempts of one request, in progress.
pub struct RetryLoop {
    policy: RetryPolicy,
    attempt: u32,
    last_error: Option<TransportError>,
}

impl RetryLoop {
    /// The policy this request follows.
    pub closed spec fn policy(&self) -> RetryPolicy {
        self.policy
    }

    /// The number of attempts recorded so far.
    pub closed spec fn attempts(&self) -> nat {
        self.attempt as nat
    }

    /// No error is kept before the first attempt.
    pub closed spec fn wf(&self) -> bool {
        self.attempt == 0 ==> self.last_error is None
    }

    /// Starts a request under `policy`, before any attempt.
    pub fn new(policy: RetryPolicy) -> (r: Self)
        ensures
            r.wf(),
            r.policy() == policy,
            r.attempts() == 0,
    {
        RetryLoop { policy, attempt: 0, last_error: None }
    }

    /// The number of attempts recorded so far.
    pub fn attempts_made(&self) -> (r: u32)
        ensures
            r as nat == self.attempts(),
    {
        self.attempt
    }

    /// The failure of the latest attempt that got no answer.
    pub closed spec fn last_unreachable(&self) -> Option<TransportError> {
        self.last_error
    }

    /// `None` while another attempt is allowed; else the error the request
    /// fails with: the latest failure to reach the server, or
    /// `MaxRetriesExceeded` when there was none.
    pub fn exhausted(&mut self) -> (r: Option<TransportError>)
        requires
            old(self).wf(),
        ensures
            final(self).wf(),
            final(self).policy() == old(self).policy(),
            final(self).attempts() == old(self).attempts(),
            old(self).attempts() < old(self).policy().max_retries ==> r is None && *final(self)
                == *old(self),
            old(self).attempts() >= old(self).policy().max_retries ==> r == Some(
                match old(self).last_unreachable() {
                    Some(e) => e,
                    None => TransportError::MaxRetriesExceeded,
                },
            ),
            old(self).attempts() == 0 ==> old(self).last_unreachable() is None,
    {
        if self.attempt < self.policy.max_retries {
            None
        } else {
            match self.last_error.take() {
                Some(e) => Some(e),
                None => Some(TransportError::MaxRetriesExceeded),
            }
        }
    }

    /// Records the outcome of the next attempt and says what follows it.
    pub fn record(&mut self, outcome: AttemptOutcome) -> (r: RetryStep)
        requires
            old(self).attempts() < old(self).policy().max_retries,
            old(self).wf(),
        ensures
            final(self).wf(),
            same_step(r, decide_spec(old(self).policy(), old(self).attempts(), outcome)),
            final(self).policy() == old(self).policy(),
            final(self).attempts() == old(self).attempts() + 1,
            outcome matches AttemptOutcome::Unreachable(m) ==> final(self).last_unreachable()
                matches Some(TransportError::Unreachable(x)) && x@ == m@,
            outcome is Answered ==> final(self).last_unreachable() == old(self).last_unreachable(),
    {
        let is_unreachable = match &outcome {
            AttemptOutcome::Unreachable(_) => true,
            AttemptOutcome::Answered(_) => false,
        };
        let msg = match &outcome {
            AttemptOutcome::Unreachable(m) => m.clone(),
            AttemptOutcome::Answered(_) => String::new(),
        };
        let step = decide(self.policy, self.attempt, outcome);
        if is_unreachable {
            self.last_error = Some(TransportError::Unreachable(msg));
        }
        self.attempt = self.attempt + 1;
        step
    }
}

/// A success ends the attempts at once; a status that is neither a success
/// nor a server error fails at once, whatever the attempt; a server error
/// before the last attempt waits `base * 2^attempt` seconds.
pub proof fn lemma_retry_policy(policy: RetryPolicy, attempt: nat, resp: Response)
    requires
        attempt < policy.max_retries,
        backoff_secs(policy.base_delay_secs as nat, attempt) <= u64::MAX,
    ensures
        is_success(resp.status) ==> decide_spec(policy, attempt, AttemptOutcome::Answered(resp))
            == RetryStep::Done(resp),
        !is_success(resp.status) && !is_server_error(resp.status) ==> decide_spec(
            policy,
            attempt,
            AttemptOutcome::Answered(resp),
        ) is Fail,
        is_server_error(resp.status) && attempt + 1 < policy.max_retries ==> decide_spec(
            policy,
            attempt,
            AttemptOutcome::Answered(resp),
        ) == RetryStep::Retry((policy.base_delay_secs as nat * two_pow(attempt)) as u64),
        is_server_error(resp.status) && attempt + 1 == policy.max_retries ==> decide_spec(
            policy,
            attempt,
            AttemptOutcome::Answered(resp),
        ) == RetryStep::Fail(TransportError::Status { status: resp.status, excerpt: resp.body }),
{
}

} // verus!
