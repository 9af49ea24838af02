use vstd::prelude::*;

verus! {

/// Attempts allowed for time-based failures (rate limits, overload).
pub const MAX_RETRY_ATTEMPTS: u8 = 4;

/// The base delay between attempts, in milliseconds.
pub const BASE_RETRY_DELAY_MILLIS: u64 = 5_000;

/// A failed completion request, as far as retrying cares.
#[derive(Clone, Copy, Debug, PartialEq, Eq)]
pub enum CompletionError {
    /// The provider answered with this HTTP status.
    HttpResponseError { status_code: u16 },
    ServerOverloaded { retry_after_millis: Option<u64> },
    RateLimitExceeded { retry_after_millis: Option<u64> },
    /// An upstream provider behind a proxy answered with this status.
    UpstreamProviderError { status: u16, retry_after_millis: Option<u64> },
    ApiInternalServerError,
    ApiReadResponseError,
    HttpSend,
    DeserializeResponse,
    BadRequestFormat,
    AuthenticationError,
    PermissionError,
    NoApiKey,
    ApiEndpointNotFound,
    PromptTooLarge,
    SerializeRequest,
    BuildRequestBody,
    StreamEndedUnexpectedly,
    PaymentRequired,
    DataRetentionConsentRequired,
    Other,
}

/// How a failed request is retried; delays are in milliseconds.
#[derive(Clone, Copy, Debug, PartialEq, Eq)]
pub enum RetryStrategy {
    ExponentialBackoff { initial_delay_millis: u64, max_attempts: u8 },
    Fixed { delay_millis: u64, max_attempts: u8 },
}

pub open spec fn or_base_delay(retry_after: Option<u64>) -> u64 {
    match retry_after {
        Some(d) => d,
        None => BASE_RETRY_DELAY_MILLIS,
    }
}

pub open spec fn fixed(delay: u64, attempts: u8) -> Option<RetryStrategy> {
    Some(RetryStrategy::Fixed { delay_millis: delay, max_attempts: attempts })
}

/// The retry policy: rate limits back off exponentially, overload waits for
/// the advertised delay, errors that retrying cannot fix are not retried,
/// other 4xx and 5xx responses are retried once, failures that might pass
/// on a new try are retried a few times after the base delay, and anything
/// else is taken as not retryable.
pub open spec fn spec_retry_strategy(error: CompletionError) -> Option<RetryStrategy> {
    match error {
        CompletionError::HttpResponseError { status_code } => {
            if status_code == 429 {
                Some(
                    RetryStrategy::ExponentialBackoff {
                        initial_delay_millis: BASE_RETRY_DELAY_MILLIS,
                        max_attempts: MAX_RETRY_ATTEMPTS,
                    },
                )
            } else if status_code == 413 || status_code == 403 || status_code == 401 {
                None
            } else if 400 <= status_code <= 599 {
                fixed(BASE_RETRY_DELAY_MILLIS, 1)
            } else {
                None
            }
        },
        CompletionError::ServerOverloaded { retry_after_millis }
        | CompletionError::RateLimitExceeded { retry_after_millis } => fixed(
            or_base_delay(retry_after_millis),
            MAX_RETRY_ATTEMPTS,
        ),
        CompletionError::UpstreamProviderError { status, retry_after_millis } => {
            if status == 429 || status == 503 || status == 529 {
                fixed(or_base_delay(retry_after_millis), MAX_RETRY_ATTEMPTS)
            } else if status == 500 {
                fixed(or_base_delay(retry_after_millis), 3)
            } else {
                fixed(or_base_delay(retry_after_millis), 2)
            }
        },
        CompletionError::ApiInternalServerError
        | CompletionError::ApiReadResponseError
        | CompletionError::HttpSend
        | CompletionError::DeserializeResponse
        | CompletionError::BadRequestFormat => fixed(BASE_RETRY_DELAY_MILLIS, 3),
        CompletionError::AuthenticationError
        | CompletionError::PermissionError
        | CompletionError::NoApiKey
        | CompletionError::ApiEndpointNotFound
        | CompletionError::PromptTooLarge
        | CompletionError::PaymentRequired
        | CompletionError::DataRetentionConsentRequired => None,
        CompletionError::SerializeRequest
        | CompletionError::BuildRequestBody
        | CompletionError::StreamEndedUnexpectedly => fixed(BASE_RETRY_DELAY_MILLIS, 1),
        CompletionError::Other => None,
    }
}

fn or_base(retry_after: Option<u64>) -> (d: u64)
    ensures
        d == or_base_delay(retry_after),
{
    match retry_after {
        Some(d) => d,
        None => BASE_RETRY_DELAY_MILLIS,
    }
}

/// How to retry a failed completion request, or `None` when retrying cannot help.
pub fn retry_strategy_for(error: &CompletionError) -> (r: Option<RetryStrategy>)
    ensures
        r == spec_retry_strategy(*error),
{
    match *error {
        CompletionError::HttpResponseError { status_code } => {
            if status_code == 429 {
                Some(
                    RetryStrategy::ExponentialBackoff {
                        initial_delay_millis: BASE_RETRY_DELAY_MILLIS,
                        max_attempts: MAX_RETRY_ATTEMPTS,
                    },
                )
            } else if status_code == 413 || status_code == 403 || status_code == 401 {
                None
            } else if 400 <= status_code && status_code <= 599 {
                Some(RetryStrategy::Fixed { delay_millis: BASE_RETRY_DELAY_MILLIS, max_attempts: 1 })
            } else {
                None
            }
        },
        CompletionError::ServerOverloaded { retry_after_millis }
        | CompletionError::RateLimitExceeded { retry_after_millis } => Some(
            RetryStrategy::Fixed {
                delay_millis: or_base(retry_after_millis),
                max_attempts: MAX_RETRY_ATTEMPTS,
            },
        ),
        CompletionError::UpstreamProviderError { status, retry_after_millis } => {
            let delay = or_base(retry_after_millis);
            if status == 429 || status == 503 || status == 529 {
                Some(RetryStrategy::Fixed { delay_millis: delay, max_attempts: MAX_RETRY_ATTEMPTS })
            } else if status == 500 {
                Some(RetryStrategy::Fixed { delay_millis: delay, max_attempts: 3 })
            } else {
                Some(RetryStrategy::Fixed { delay_millis: delay, max_attempts: 2 })
            }
        },
        CompletionError::ApiInternalServerError
        | CompletionError::ApiReadResponseError
        | CompletionError::HttpSend
        | CompletionError::DeserializeResponse
        | CompletionError::BadRequestFormat => Some(
            RetryStrategy::Fixed { delay_millis: BASE_RETRY_DELAY_MILLIS, max_attempts: 3 },
        ),
        CompletionError::AuthenticationError
        | CompletionError::PermissionError
        | CompletionError::NoApiKey
        | CompletionError::ApiEndpointNotFound
        | CompletionError::PromptTooLarge
        | CompletionError::PaymentRequired
        | CompletionError::DataRetentionConsentRequired => None,
        CompletionError::SerializeRequest
        | CompletionError::BuildRequestBody
        | CompletionError::StreamEndedUnexpectedly => Some(
            RetryStrategy::Fixed { delay_millis: BASE_RETRY_DELAY_MILLIS, max_attempts: 1 },
        ),
        CompletionError::Other => None,
    }
}

/// No failure is retried more than `MAX_RETRY_ATTEMPTS` times, and every
/// retried failure is retried at least once.
pub proof fn lemma_retry_attempts_bounded(error: CompletionError)
    ensures
        match spec_retry_strategy(error) {
            Some(RetryStrategy::ExponentialBackoff { max_attempts, .. }) => 1 <= max_attempts
                <= MAX_RETRY_ATTEMPTS,
            Some(RetryStrategy::Fixed { max_attempts, .. }) => 1 <= max_attempts <= MAX_RETRY_ATTEMPTS,
            None => true,
        },
{
}

/// Failures that retrying cannot fix (bad credentials, missing
/// permission or key, unknown endpoint, oversized prompt or payload, payment
/// or consent required) and failures of unknown kind (an HTTP status that is
/// no error, any other error) are exactly those that are never retried.
pub proof fn lemma_not_retried_exactly(error: CompletionError)
    ensures
        spec_retry_strategy(error) is None <==> match error {
            CompletionError::HttpResponseError { status_code } => status_code == 413
                || status_code == 403 || status_code == 401 || !(400 <= status_code <= 599),
            CompletionError::AuthenticationError
            | CompletionError::PermissionError
            | CompletionError::NoApiKey
            | CompletionError::ApiEndpointNotFound
            | CompletionError::PromptTooLarge
            | CompletionError::PaymentRequired
            | CompletionError::DataRetentionConsentRequired
            | CompletionError::Other => true,
            _ => false,
        },
{
}

/// A retry that will be made: its number, the most allowed, and the wait
/// before it in milliseconds.
#[derive(Clone, Copy, Debug, PartialEq, Eq)]
pub struct RetryPlan {
    pub attempt: u8,
    pub max_attempts: u8,
    pub delay_millis: u64,
}

/// `x` doubled `times` times.
pub open spec fn doubled(x: nat, times: nat) -> nat
    decreases times,
{
    if times == 0 {
        x
    } else {
        2 * doubled(x, (times - 1) as nat)
    }
}

/// The retry after a failed request, if any: there is none without a model,
/// nor for a TAU Cloud model when the user has no plan, nor when the error
/// is not retried or the attempt is past the strategy's last. An exponential
/// wait doubles its whole seconds with each attempt; a fixed one stays.
pub open spec fn spec_completion_retry(
    error: CompletionError,
    attempt: u8,
    has_model: bool,
    tau_cloud: bool,
    has_plan: bool,
) -> Option<RetryPlan> {
    if !has_model || (tau_cloud && !has_plan) {
        None
    } else {
        match spec_retry_strategy(error) {
            None => None,
            Some(RetryStrategy::ExponentialBackoff { initial_delay_millis, max_attempts }) => {
                if attempt > max_attempts {
                    None
                } else {
                    Some(
                        RetryPlan {
                            attempt,
                            max_attempts,
                            delay_millis: (doubled(
                                (initial_delay_millis / 1000) as nat,
                                (attempt - 1) as nat,
                            ) * 1000) as u64,
                        },
                    )
                }
            },
            Some(RetryStrategy::Fixed { delay_millis, max_attempts }) => {
                if attempt > max_attempts {
                    None
                } else {
                    Some(RetryPlan { attempt, max_attempts, delay_millis })
                }
            },
        }
    }
}

/// Decides whether and when a failed completion request is retried;
/// `attempt` counts from one.
pub fn completion_retry(
    error: &CompletionError,
    attempt: u8,
    has_model: bool,
    tau_cloud: bool,
    has_plan: bool,
) -> (r: Option<RetryPlan>)
    requires
        attempt >= 1,
    ensures
        r == spec_completion_retry(*error, attempt, has_model, tau_cloud, has_plan),
{
    if !has_model || (tau_cloud && !has_plan) {
        return None;
    }
    match retry_strategy_for(error) {
        None => None,
        Some(RetryStrategy::ExponentialBackoff { initial_delay_millis, max_attempts }) => {
            if attempt > max_attempts {
                return None;
            }
            assert(initial_delay_millis == BASE_RETRY_DELAY_MILLIS && max_attempts == MAX_RETRY_ATTEMPTS);
            let mut secs: u64 = initial_delay_millis / 1000;
            let mut k: u8 = 1;
            while k < attempt
                invariant
                    1 <= k <= attempt <= MAX_RETRY_ATTEMPTS,
                    initial_delay_millis == BASE_RETRY_DELAY_MILLIS,
                    secs == doubled((initial_delay_millis / 1000) as nat, (k - 1) as nat),
                    secs <= 5 * 8,
                    k == 1 ==> secs == 5,
                    k == 2 ==> secs == 10,
                    k == 3 ==> secs == 20,
                    k == 4 ==> secs == 40,
                decreases attempt - k,
            {
                secs = secs * 2;
                k = k + 1;
            }
            Some(RetryPlan { attempt, max_attempts, delay_millis: secs * 1000 })
        },
        Some(RetryStrategy::Fixed { delay_millis, max_attempts }) => {
            if attempt > max_attempts {
                None
            } else {
                Some(RetryPlan { attempt, max_attempts, delay_millis })
            }
        },
    }
}

/// A planned retry never goes past its strategy's last attempt, and a
/// failure that is not retried is never planned.
pub proof fn lemma_retry_plan_within_strategy(
    error: CompletionError,
    attempt: u8,
    has_model: bool,
    tau_cloud: bool,
    has_plan: bool,
)
    ensures
        spec_completion_retry(error, attempt, has_model, tau_cloud, has_plan) matches Some(p) ==> p.attempt
            == attempt && attempt <= p.max_attempts <= MAX_RETRY_ATTEMPTS,
        spec_retry_strategy(error) is None ==> spec_completion_retry(error, attempt, has_model, tau_cloud, has_plan)
            is None,
{
    lemma_retry_attempts_bounded(error);
}


/// A provider that says how long to wait is believed: a rate-limit or
/// overload error that advertises a delay `d` is retried after exactly `d`
/// milliseconds, up to four times; one that advertises none waits the five
/// second base delay. An upstream provider's advertised delay is honoured
/// the same way, with four attempts when it is rate limited or overloaded
/// (429, 503, 529), three after an internal error (500), two otherwise.
pub proof fn lemma_advertised_delay_honoured(d: Option<u64>, status: u16)
    ensures
        spec_retry_strategy(CompletionError::RateLimitExceeded { retry_after_millis: d }) == Some(
            RetryStrategy::Fixed {
                delay_millis: match d {
                    Some(ms) => ms,
                    None => 5_000u64,
                },
                max_attempts: 4u8,
            },
        ),
        spec_retry_strategy(CompletionError::ServerOverloaded { retry_after_millis: d }) == Some(
            RetryStrategy::Fixed {
                delay_millis: match d {
                    Some(ms) => ms,
                    None => 5_000u64,
                },
                max_attempts: 4u8,
            },
        ),
        spec_retry_strategy(CompletionError::UpstreamProviderError { status, retry_after_millis: d }) == Some(
            RetryStrategy::Fixed {
                delay_millis: match d {
                    Some(ms) => ms,
                    None => 5_000u64,
                },
                max_attempts: if status == 429 || status == 503 || status == 529 {
                    4u8
                } else if status == 500 {
                    3u8
                } else {
                    2u8
                },
            },
        ),
{
}

/// An HTTP error status is handled by its class: 429 backs off
/// exponentially from five seconds, four times; 401, 403 and 413 are never
/// retried; every other 4xx or 5xx status is retried once after five
/// seconds; a status outside 400 to 599 is not retried.
pub proof fn lemma_http_status_strategy(status: u16)
    ensures
        status == 429 ==> spec_retry_strategy(CompletionError::HttpResponseError { status_code: status })
            == Some(RetryStrategy::ExponentialBackoff { initial_delay_millis: 5_000u64, max_attempts: 4u8 }),
        (status == 401 || status == 403 || status == 413) ==> spec_retry_strategy(
            CompletionError::HttpResponseError { status_code: status },
        ) is None,
        (400 <= status <= 599 && status != 401 && status != 403 && status != 413 && status != 429)
            ==> spec_retry_strategy(CompletionError::HttpResponseError { status_code: status }) == Some(
            RetryStrategy::Fixed { delay_millis: 5_000u64, max_attempts: 1u8 },
        ),
        !(400 <= status <= 599) ==> spec_retry_strategy(CompletionError::HttpResponseError { status_code: status })
            is None,
{
}


/// When a retry is planned and how long it waits: never without a model,
/// nor for a TAU Cloud model without a plan. Otherwise a rate limited
/// response (HTTP 429) waits 5, 10, 20 and 40 seconds before its first to
/// fourth retry and gives up after the fourth; a failure with a fixed
/// strategy waits that strategy's delay before each retry up to its last
/// attempt, and gives up after it; a failure that is not retried never is.
pub proof fn lemma_retry_schedule(
    error: CompletionError,
    attempt: u8,
    has_model: bool,
    tau_cloud: bool,
    has_plan: bool,
)
    ensures
        !has_model ==> spec_completion_retry(error, attempt, has_model, tau_cloud, has_plan) is None,
        tau_cloud && !has_plan ==> spec_completion_retry(error, attempt, has_model, tau_cloud, has_plan) is None,
        has_model && !(tau_cloud && !has_plan) ==> {
            let r = spec_completion_retry(error, attempt, has_model, tau_cloud, has_plan);
            match spec_retry_strategy(error) {
                None => r is None,
                Some(RetryStrategy::Fixed { delay_millis, max_attempts }) => {
                    &&& attempt <= max_attempts ==> r == Some(
                        RetryPlan { attempt, max_attempts, delay_millis },
                    )
                    &&& attempt > max_attempts ==> r is None
                },
                Some(RetryStrategy::ExponentialBackoff { .. }) => true,
            }
        },
        has_model && !(tau_cloud && !has_plan) ==> {
            let r = spec_completion_retry(
                CompletionError::HttpResponseError { status_code: 429 },
                attempt,
                has_model,
                tau_cloud,
                has_plan,
            );
            &&& attempt == 1 ==> r == Some(RetryPlan { attempt: 1, max_attempts: 4, delay_millis: 5_000 })
            &&& attempt == 2 ==> r == Some(RetryPlan { attempt: 2, max_attempts: 4, delay_millis: 10_000 })
            &&& attempt == 3 ==> r == Some(RetryPlan { attempt: 3, max_attempts: 4, delay_millis: 20_000 })
            &&& attempt == 4 ==> r == Some(RetryPlan { attempt: 4, max_attempts: 4, delay_millis: 40_000 })
            &&& attempt > 4 ==> r is None
        },
{
    reveal_with_fuel(doubled, 4);
}


/// Failures that might pass on a new try are retried after the five second
/// base delay: three times for a server, transport or response error, once
/// for a request that could not be built or a stream that ended early.
pub proof fn lemma_transient_failures_retried()
    ensures
        spec_retry_strategy(CompletionError::ApiInternalServerError) == Some(
            RetryStrategy::Fixed { delay_millis: 5_000, max_attempts: 3 },
        ),
        spec_retry_strategy(CompletionError::ApiReadResponseError) == Some(
            RetryStrategy::Fixed { delay_millis: 5_000, max_attempts: 3 },
        ),
        spec_retry_strategy(CompletionError::HttpSend) == Some(
            RetryStrategy::Fixed { delay_millis: 5_000, max_attempts: 3 },
        ),
        spec_retry_strategy(CompletionError::DeserializeResponse) == Some(
            RetryStrategy::Fixed { delay_millis: 5_000, max_attempts: 3 },
        ),
        spec_retry_strategy(CompletionError::BadRequestFormat) == Some(
            RetryStrategy::Fixed { delay_millis: 5_000, max_attempts: 3 },
        ),
        spec_retry_strategy(CompletionError::SerializeRequest) == Some(
            RetryStrategy::Fixed { delay_millis: 5_000, max_attempts: 1 },
        ),
        spec_retry_strategy(CompletionError::BuildRequestBody) == Some(
            RetryStrategy::Fixed { delay_millis: 5_000, max_attempts: 1 },
        ),
        spec_retry_strategy(CompletionError::StreamEndedUnexpectedly) == Some(
            RetryStrategy::Fixed { delay_millis: 5_000, max_attempts: 1 },
        ),
{
}

} // verus!
