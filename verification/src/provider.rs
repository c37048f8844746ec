//! Errors of model providers and what to do about them.
use vstd::prelude::*;

use crate::model::{group_views, Copied};
use crate::text::{contains, decimal, decimal_text, has};

verus! {

broadcast use group_views;

/// How many times a transient failure is retried before it is given up.
pub const MAX_TRANSIENT_RETRIES: usize = 5;

/// The first delay before a retry, in seconds.
pub const BASE_BACKOFF_SECS: u64 = 2;

/// The longest delay that is chosen without being asked for, in seconds.
pub const MAX_BACKOFF_SECS: u64 = 60;

/// The status that says that a client sends too many requests.
pub const TOO_MANY_REQUESTS: u16 = 429;

/// The status that says that a request is too large.
pub const PAYLOAD_TOO_LARGE: u16 = 413;

/// Why a provider gave no answer.
pub enum ProviderError {
    /// The request did not get through.
    Transport(String),
    /// The provider answered with an error status.
    Api { status: u16, body: String },
    /// The answer could not be read.
    Deserialize(String),
    /// The provider asks to wait.
    RateLimited { retry_after_secs: Option<u64> },
}

#[verifier::ext_equal]
pub enum ProviderErrorView {
    Transport(Seq<char>),
    Api { status: u16, body: Seq<char> },
    Deserialize(Seq<char>),
    RateLimited { retry_after_secs: Option<u64> },
}

impl View for ProviderError {
    type V = ProviderErrorView;

    open spec fn view(&self) -> ProviderErrorView {
        match self {
            ProviderError::Transport(s) => ProviderErrorView::Transport(s@),
            ProviderError::Api { status, body } => ProviderErrorView::Api {
                status: *status,
                body: body@,
            },
            ProviderError::Deserialize(s) => ProviderErrorView::Deserialize(s@),
            ProviderError::RateLimited { retry_after_secs } => ProviderErrorView::RateLimited {
                retry_after_secs: *retry_after_secs,
            },
        }
    }
}

impl Copied for ProviderError {
    fn copied(&self) -> (r: Self) {
        match self {
            ProviderError::Transport(s) => ProviderError::Transport(s.clone()),
            ProviderError::Api { status, body } => ProviderError::Api {
                status: *status,
                body: body.clone(),
            },
            ProviderError::Deserialize(s) => ProviderError::Deserialize(s.clone()),
            ProviderError::RateLimited { retry_after_secs } => ProviderError::RateLimited {
                retry_after_secs: *retry_after_secs,
            },
        }
    }
}

/// The message that an error shows.
pub open spec fn error_text(e: ProviderErrorView) -> Seq<char> {
    match e {
        ProviderErrorView::Transport(s) => "transport error: "@ + s,
        ProviderErrorView::Api { status, body } => "provider returned error status "@ + decimal(
            status as nat,
        ) + ": "@ + body,
        ProviderErrorView::Deserialize(s) => "failed to parse provider response: "@ + s,
        ProviderErrorView::RateLimited { retry_after_secs } => match retry_after_secs {
            Some(n) => "rate-limited, retry after Some("@ + decimal(n as nat) + ")s"@,
            None => "rate-limited, retry after Nones"@,
        },
    }
}

impl ProviderError {
    /// The message that the error shows.
    pub fn message(&self) -> (r: String)
        ensures
            r@ == error_text(self@),
    {
        match self {
            ProviderError::Transport(s) => {
                let mut r = "transport error: ".to_owned();
                r.append(s.as_str());
                r
            },
            ProviderError::Api { status, body } => {
                let mut r = "provider returned error status ".to_owned();
                r.append(decimal_text(*status as u64).as_str());
                r.append(": ");
                r.append(body.as_str());
                r
            },
            ProviderError::Deserialize(s) => {
                let mut r = "failed to parse provider response: ".to_owned();
                r.append(s.as_str());
                r
            },
            ProviderError::RateLimited { retry_after_secs } => match retry_after_secs {
                Some(n) => {
                    let mut r = "rate-limited, retry after Some(".to_owned();
                    r.append(decimal_text(*n).as_str());
                    r.append(")s");
                    r
                },
                None => "rate-limited, retry after Nones".to_owned(),
            },
        }
    }
}

/// What an HTTP answer of a provider means: an error for a rate limit or a
/// status that is no success, else the body to be read.
pub open spec fn reply_of(status: u16, body: Seq<char>) -> Result<Seq<char>, ProviderErrorView> {
    if status == TOO_MANY_REQUESTS {
        Err(ProviderErrorView::RateLimited { retry_after_secs: None })
    } else if !(200 <= status < 300) {
        Err(ProviderErrorView::Api { status, body })
    } else {
        Ok(body)
    }
}

/// Sorts an HTTP answer of a provider by its status.
pub fn check_reply(status: u16, body: String) -> (r: Result<String, ProviderError>)
    ensures
        match r {
            Ok(b) => reply_of(status, body@) == Ok::<_, ProviderErrorView>(b@),
            Err(e) => reply_of(status, body@) == Err::<Seq<char>, _>(e@),
        },
{
    if status == TOO_MANY_REQUESTS {
        return Err(ProviderError::RateLimited { retry_after_secs: None });
    }
    if status < 200 || status >= 300 {
        return Err(ProviderError::Api { status, body });
    }
    Ok(body)
}

/// The text that `str::to_lowercase` gives.
pub uninterp spec fn lowercase(s: Seq<char>) -> Seq<char>;

/// `str::to_lowercase`: the lower-case form by Unicode's rules, which do not
/// depend on a locale.
#[verifier::external_body]
pub(crate) fn to_lower(s: &str) -> (r: String)
    ensures
        r@ == lowercase(s@),
{
    s.to_lowercase()
}

/// Whether a lower-case text complains about the size of the context.
pub open spec fn complains_of_context(body: Seq<char>) -> bool {
    contains(body, "context length"@) || contains(body, "context_length"@) || contains(
        body,
        "context window"@,
    ) || contains(body, "too many tokens"@) || contains(body, "maximum context"@) || contains(
        body,
        "prompt is too long"@,
    )
}

/// Whether a lower-case text complains about the size of the context.
pub fn mentions_context_limit(body: &str) -> (r: bool)
    ensures
        r == complains_of_context(body@),
{
    has(body, "context length") || has(body, "context_length") || has(body, "context window")
        || has(body, "too many tokens") || has(body, "maximum context") || has(
        body,
        "prompt is too long",
    )
}

/// Whether an error says that the request is too large for the model.
pub open spec fn context_length_error(e: ProviderErrorView) -> bool {
    match e {
        ProviderErrorView::Api { status, body } => status == PAYLOAD_TOO_LARGE
            || complains_of_context(lowercase(body)),
        _ => false,
    }
}

/// Whether an error says that the request is too large for the model.
pub fn is_context_length_error(err: &ProviderError) -> (r: bool)
    ensures
        r == context_length_error(err@),
{
    match err {
        ProviderError::Api { status, body } => {
            *status == PAYLOAD_TOO_LARGE || mentions_context_limit(to_lower(body.as_str()).as_str())
        },
        _ => false,
    }
}

/// Whether a retry can help: rate limits, server errors and transport
/// failures.
pub open spec fn transient_error(e: ProviderErrorView) -> bool {
    match e {
        ProviderErrorView::RateLimited { .. } => true,
        ProviderErrorView::Transport(_) => true,
        ProviderErrorView::Api { status, .. } => 500 <= status < 600,
        ProviderErrorView::Deserialize(_) => false,
    }
}

/// Whether a retry can help.
pub fn is_transient_error(err: &ProviderError) -> (r: bool)
    ensures
        r == transient_error(err@),
{
    match err {
        ProviderError::RateLimited { .. } => true,
        ProviderError::Transport(_) => true,
        ProviderError::Api { status, .. } => 500 <= *status && *status < 600,
        ProviderError::Deserialize(_) => false,
    }
}

/// The delay before the retry after `attempt` earlier ones, in seconds: what
/// the provider asks for, else two seconds doubled for each earlier attempt
/// and at most a minute.
pub open spec fn backoff_secs(attempt: nat, e: ProviderErrorView) -> nat {
    match e {
        ProviderErrorView::RateLimited { retry_after_secs: Some(secs) } => secs as nat,
        _ => {
            let doubled = BASE_BACKOFF_SECS * vstd::arithmetic::power2::pow2(attempt);
            if doubled < MAX_BACKOFF_SECS {
                doubled as nat
            } else {
                MAX_BACKOFF_SECS as nat
            }
        },
    }
}

/// The delay before the retry after `attempt` earlier ones, in seconds.
pub fn backoff_delay(attempt: usize, err: &ProviderError) -> (secs: u64)
    ensures
        secs == backoff_secs(attempt as nat, err@),
{
    if let ProviderError::RateLimited { retry_after_secs: Some(secs) } = err {
        return *secs;
    }
    proof {
        vstd::arithmetic::power2::lemma2_to64();
        if attempt >= 5 {
            vstd::arithmetic::power2::lemma_pow2_strictly_increases(4, attempt as nat);
            lemma_pow2_at_least_32(attempt as nat);
        }
    }
    let factor: u64 = match attempt {
        0 => 1,
        1 => 2,
        2 => 4,
        3 => 8,
        4 => 16,
        _ => 32,
    };
    let secs: u64 = BASE_BACKOFF_SECS * factor;
    if secs < MAX_BACKOFF_SECS {
        secs
    } else {
        MAX_BACKOFF_SECS
    }
}

proof fn lemma_pow2_at_least_32(n: nat)
    requires
        n >= 5,
    ensures
        vstd::arithmetic::power2::pow2(n) >= 32,
{
    vstd::arithmetic::power2::lemma2_to64();
    if n > 5 {
        vstd::arithmetic::power2::lemma_pow2_strictly_increases(5, n);
    }
}

/// The chosen delay grows with the attempts and never exceeds a minute, for
/// every error that names no delay itself.
pub proof fn law_backoff_grows_to_a_cap(i: nat, j: nat, e: ProviderErrorView)
    requires
        i <= j,
        !(e matches ProviderErrorView::RateLimited { retry_after_secs: Some(_) }),
    ensures
        BASE_BACKOFF_SECS <= backoff_secs(i, e) <= backoff_secs(j, e) <= MAX_BACKOFF_SECS,
{
    vstd::arithmetic::power2::lemma_pow2_pos(i);
    vstd::arithmetic::power2::lemma_pow2_pos(j);
    if i < j {
        vstd::arithmetic::power2::lemma_pow2_strictly_increases(i, j);
    }
}

/// A failure is worth a retry exactly if it may pass: the request did not get
/// through, the provider asks to wait, or it answered with a status of a server
/// error, from 500 to 599.
pub proof fn law_which_failures_may_pass(status: u16, body: Seq<char>, secs: Option<u64>)
    ensures
        transient_error(ProviderErrorView::Transport(body)),
        transient_error(ProviderErrorView::RateLimited { retry_after_secs: secs }),
        !transient_error(ProviderErrorView::Deserialize(body)),
        transient_error(ProviderErrorView::Api { status, body }) <==> status / 100 == 5,
{
}

/// The wait before a retry is what the provider asks for. Where it asks for
/// nothing, it is two seconds at first, and doubles each time up to a minute.
pub proof fn law_wait_doubles(attempt: nat, e: ProviderErrorView, secs: u64)
    ensures
        backoff_secs(attempt, ProviderErrorView::RateLimited { retry_after_secs: Some(secs) })
            == secs,
        !(e matches ProviderErrorView::RateLimited { retry_after_secs: Some(_) }) ==> {
            &&& backoff_secs(0, e) == 2
            &&& backoff_secs(attempt + 1, e) == if 2 * backoff_secs(attempt, e) < 60 {
                2 * backoff_secs(attempt, e)
            } else {
                60
            }
        },
{
    vstd::arithmetic::power2::lemma2_to64();
    vstd::arithmetic::power2::lemma_pow2_unfold(attempt + 1);
    vstd::arithmetic::power2::lemma_pow2_pos(attempt);
}

/// The wait can be counted.
pub proof fn law_backoff_fits(attempt: nat, e: ProviderErrorView)
    ensures
        backoff_secs(attempt, e) <= u64::MAX,
{
}

/// An answer with a status from 200 to 299 is read; one with 429 asks to wait;
/// any other is an error with that status and that body.
pub proof fn law_status_decides(status: u16, body: Seq<char>)
    ensures
        status / 100 == 2 <==> reply_of(status, body) is Ok,
        reply_of(status, body) matches Ok(b) ==> b == body,
        status == 429 <==> reply_of(status, body) == Err::<Seq<char>, _>(
            ProviderErrorView::RateLimited { retry_after_secs: None },
        ),
        status / 100 != 2 && status != 429 ==> reply_of(status, body) == Err::<Seq<char>, _>(
            ProviderErrorView::Api { status, body },
        ),
{
}

/// An error of the provider says that a request is too large where its status is
/// 413, or its text complains of the size of the context in one of the usual
/// ways; no other error does.
pub proof fn law_what_says_too_large(status: u16, body: Seq<char>, secs: Option<u64>)
    ensures
        context_length_error(ProviderErrorView::Api { status: 413, body }),
        !context_length_error(ProviderErrorView::Transport(body)),
        !context_length_error(ProviderErrorView::Deserialize(body)),
        !context_length_error(ProviderErrorView::RateLimited { retry_after_secs: secs }),
        status != 413 ==> (context_length_error(ProviderErrorView::Api { status, body }) <==> (
        contains(lowercase(body), "context length"@) || contains(
            lowercase(body),
            "context_length"@,
        ) || contains(lowercase(body), "context window"@) || contains(
            lowercase(body),
            "too many tokens"@,
        ) || contains(lowercase(body), "maximum context"@) || contains(
            lowercase(body),
            "prompt is too long"@,
        ))),
{
}

} // verus!
