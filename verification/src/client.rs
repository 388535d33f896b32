//! The request logic of the App Store Connect client: how rate-limited responses are
//! retried, which statuses count as success, and how paginated results are collected.
//!
//! The HTTP transport itself lives with the program around this library; it performs the
//! requests and hands each response's status and headers to the decisions made here.

use vstd::prelude::*;

use crate::auth::AuthError;
use crate::models::common::JsonApiResponse;
use crate::models::sales::{sales_error_text, SalesTsvError};

verus! {

/// Maximum number of retries on HTTP 429 (rate limited) responses.
pub const MAX_RATE_LIMIT_RETRIES: u32 = 3;

/// `Retry-After` delay in seconds used when the header is missing or unreadable.
pub const DEFAULT_RETRY_AFTER_SECS: u64 = 5;

/// HTTP status of a rate-limited response.
pub const TOO_MANY_REQUESTS: u16 = 429;

#[verifier::external_type_specification]
#[verifier::external_body]
pub struct ExReqwestError(reqwest::Error);

/// Errors that can occur when calling the App Store Connect API.
#[derive(Debug)]
pub enum ApiError {
    /// Authentication/JWT error.
    Auth(AuthError),
    /// HTTP transport error.
    Http(reqwest::Error),
    /// Non-success HTTP status from the API.
    Status {
        /// HTTP status code.
        status: u16,
        /// Response body text.
        body: String,
    },
    /// Failed to deserialize the response body.
    Deserialize(String),
    /// Rate limited after exhausting all retries.
    RateLimited,
    /// Sales report parsing error.
    SalesReport(String),
}

impl From<AuthError> for ApiError {
    fn from(e: AuthError) -> (res: ApiError) {
        ApiError::Auth(e)
    }
}

impl vstd::std_specs::convert::FromSpecImpl<AuthError> for ApiError {
    open spec fn obeys_from_spec() -> bool {
        true
    }

    open spec fn from_spec(e: AuthError) -> ApiError {
        ApiError::Auth(e)
    }
}

impl From<reqwest::Error> for ApiError {
    fn from(e: reqwest::Error) -> (res: ApiError) {
        ApiError::Http(e)
    }
}

impl vstd::std_specs::convert::FromSpecImpl<reqwest::Error> for ApiError {
    open spec fn obeys_from_spec() -> bool {
        true
    }

    open spec fn from_spec(e: reqwest::Error) -> ApiError {
        ApiError::Http(e)
    }
}

impl ApiError {
    /// The error reported when a downloaded sales report cannot be parsed: the report
    /// error's description.
    pub fn from_sales_error(e: &SalesTsvError) -> (res: ApiError)
        ensures
            res matches ApiError::SalesReport(m) && m@ == sales_error_text(*e),
    {
        ApiError::SalesReport(e.message())
    }
}

/// Whether an HTTP status is a success (2xx).
pub open spec fn is_success(status: u16) -> bool {
    200 <= status < 300
}

/// Whether an HTTP status is a success (2xx); other statuses become [`ApiError::Status`].
pub fn is_success_status(status: u16) -> (res: bool)
    ensures
        res == is_success(status),
{
    200 <= status && status < 300
}

/// Whether `c` is an ASCII decimal digit.
pub open spec fn is_digit(c: char) -> bool {
    '0' <= c <= '9'
}

/// The value of a string of decimal digits.
pub open spec fn digits_value(d: Seq<char>) -> nat
    decreases d.len(),
{
    if d.len() == 0 {
        0
    } else {
        (digits_value(d.drop_last()) * 10 + (d.last() as int - '0' as int)) as nat
    }
}

/// The digits of a number text: without one leading `+`, if there is one.
pub open spec fn unsigned_digits(s: Seq<char>) -> Seq<char> {
    if s.len() > 0 && s[0] == '+' {
        s.skip(1)
    } else {
        s
    }
}

/// What `str::parse::<u64>` yields: an optional `+` followed by at least one decimal digit
/// and nothing else, whose value fits in a `u64`.
pub open spec fn parse_u64_spec(s: Seq<char>) -> Option<u64> {
    let d = unsigned_digits(s);
    if d.len() > 0 && (forall|i: int| 0 <= i < d.len() ==> is_digit(#[trigger] d[i])) && digits_value(d) <= u64::MAX {
        Some(digits_value(d) as u64)
    } else {
        None
    }
}

/// Appending a digit never lowers the value of a prefix.
proof fn lemma_digits_value_monotone(d: Seq<char>, i: int, j: int)
    requires
        0 <= i <= j <= d.len(),
        forall|k: int| 0 <= k < d.len() ==> is_digit(#[trigger] d[k]),
    ensures
        digits_value(d.take(i)) <= digits_value(d.take(j)),
    decreases j - i,
{
    if i < j {
        lemma_digits_value_monotone(d, i, j - 1);
        assert(d.take(j).drop_last() =~= d.take(j - 1));
    }
}

/// Parses a decimal `u64` the way `str::parse::<u64>` does.
pub fn parse_u64(s: &str) -> (res: Option<u64>)
    ensures
        res == parse_u64_spec(s@),
{
    let n = s.unicode_len();
    let mut i: usize = 0;
    if n > 0 && s.get_char(0) == '+' {
        i = 1;
    }
    let start = i;
    let ghost d = unsigned_digits(s@);
    assert(d =~= s@.skip(start as int));
    if start == n {
        assert(d.len() == 0);
        assert(parse_u64_spec(s@) is None);
        return None;
    }
    let mut acc: u64 = 0;
    assert(d.take(0) =~= Seq::<char>::empty());
    while i < n
        invariant
            start <= i <= n,
            n == s@.len(),
            d == s@.skip(start as int),
            d == unsigned_digits(s@),
            d.len() > 0,
            forall|k: int| 0 <= k < i - start ==> is_digit(#[trigger] d[k]),
            acc as nat == digits_value(d.take(i - start)),
        decreases n - i,
    {
        let c = s.get_char(i);
        assert(c == d[i - start]);
        if c < '0' || c > '9' {
            assert(!is_digit(d[i - start]));
            assert(parse_u64_spec(s@) is None);
            return None;
        }
        let digit = (c as u32 - '0' as u32) as u64;
        assert(d.take(i - start + 1).drop_last() =~= d.take(i - start));
        let next = match acc.checked_mul(10) {
            Some(m) => m.checked_add(digit),
            None => None,
        };
        match next {
            Some(v) => {
                acc = v;
            },
            None => {
                proof {
                    if forall|k: int| 0 <= k < d.len() ==> is_digit(#[trigger] d[k]) {
                        lemma_digits_value_monotone(d, i - start + 1, d.len() as int);
                        assert(d.take(d.len() as int) =~= d);
                    }
                }
                return None;
            },
        }
        i = i + 1;
    }
    assert(d.take(n - start) =~= d);
    Some(acc)
}

/// The wait before retrying a rate-limited request: the `Retry-After` header in seconds,
/// or [`DEFAULT_RETRY_AFTER_SECS`] when it is missing or not a number.
pub open spec fn retry_after_spec(header: Option<Seq<char>>) -> u64 {
    match header {
        Some(h) => match parse_u64_spec(h) {
            Some(n) => n,
            None => DEFAULT_RETRY_AFTER_SECS,
        },
        None => DEFAULT_RETRY_AFTER_SECS,
    }
}

/// The view of an optional string slice.
pub open spec fn opt_str_slice_view(s: Option<&str>) -> Option<Seq<char>> {
    match s {
        Some(v) => Some(v@),
        None => None,
    }
}

/// Parses the `Retry-After` header (in seconds) of a response.
pub fn retry_after_secs(header: Option<&str>) -> (res: u64)
    ensures
        res == retry_after_spec(opt_str_slice_view(header)),
{
    match header {
        Some(h) => match parse_u64(h) {
            Some(n) => n,
            None => DEFAULT_RETRY_AFTER_SECS,
        },
        None => DEFAULT_RETRY_AFTER_SECS,
    }
}

/// What to do with a response.
#[derive(Debug, Clone, Copy, PartialEq, Eq, Structural)]
pub enum RetryDecision {
    /// The response is final: check its status and read its body.
    Proceed,
    /// Rate limited: wait this many seconds, then send the request again.
    Wait(u64),
    /// Rate limited after all retries: fail with [`ApiError::RateLimited`].
    GiveUp,
}

/// The decision on a response with `status` after `attempt` retries, and the number of
/// retries after it; `wait` is the delay the response asks for.
pub open spec fn retry_step(attempt: nat, status: u16, wait: u64) -> (nat, RetryDecision) {
    if status != TOO_MANY_REQUESTS {
        (attempt, RetryDecision::Proceed)
    } else if attempt >= MAX_RATE_LIMIT_RETRIES {
        (attempt, RetryDecision::GiveUp)
    } else {
        (attempt + 1, RetryDecision::Wait(wait))
    }
}

/// The rate-limit retry state of one request.
pub struct RetryState {
    attempt: u32,
}

impl RetryState {
    /// Number of retries made so far.
    pub closed spec fn attempt(&self) -> nat {
        self.attempt as nat
    }

    /// The state before the first response.
    pub fn new() -> (res: Self)
        ensures
            res.attempt() == 0,
    {
        RetryState { attempt: 0 }
    }

    /// Decides what to do with a response with `status` and `Retry-After` header `retry_after`:
    /// a response that is not 429 proceeds; a 429 waits and retries, up to
    /// [`MAX_RATE_LIMIT_RETRIES`] times, after which the request gives up.
    pub fn on_status(&mut self, status: u16, retry_after: Option<&str>) -> (res: RetryDecision)
        ensures
            (final(self).attempt(), res) == retry_step(
                old(self).attempt(),
                status,
                retry_after_spec(opt_str_slice_view(retry_after)),
            ),
    {
        if status != TOO_MANY_REQUESTS {
            RetryDecision::Proceed
        } else if self.attempt >= MAX_RATE_LIMIT_RETRIES {
            RetryDecision::GiveUp
        } else {
            self.attempt = self.attempt + 1;
            RetryDecision::Wait(retry_after_secs(retry_after))
        }
    }
}

/// Number of requests sent when the responses have the statuses `statuses`, starting after
/// `attempt` retries: sending stops at the first decision that is not a wait.
pub open spec fn requests_sent(attempt: nat, statuses: Seq<u16>) -> nat
    decreases statuses.len(),
{
    if statuses.len() == 0 {
        0
    } else {
        let (next, d) = retry_step(attempt, statuses[0], 0);
        if d is Wait {
            1 + requests_sent(next, statuses.drop_first())
        } else {
            1
        }
    }
}

/// The decision that ends a run of responses, if the run ends within `statuses`.
pub open spec fn final_decision(attempt: nat, statuses: Seq<u16>) -> Option<RetryDecision>
    decreases statuses.len(),
{
    if statuses.len() == 0 {
        None
    } else {
        let (next, d) = retry_step(attempt, statuses[0], 0);
        if d is Wait {
            final_decision(next, statuses.drop_first())
        } else {
            Some(d)
        }
    }
}

/// Whatever the responses, a request is sent at most `MAX_RATE_LIMIT_RETRIES + 1` times.
pub proof fn lemma_requests_bounded(statuses: Seq<u16>)
    ensures
        requests_sent(0, statuses) <= MAX_RATE_LIMIT_RETRIES + 1,
{
    lemma_requests_bounded_from(0, statuses);
}

proof fn lemma_requests_bounded_from(attempt: nat, statuses: Seq<u16>)
    requires
        attempt <= MAX_RATE_LIMIT_RETRIES,
    ensures
        requests_sent(attempt, statuses) <= MAX_RATE_LIMIT_RETRIES + 1 - attempt,
    decreases statuses.len(),
{
    if statuses.len() > 0 {
        let (next, d) = retry_step(attempt, statuses[0], 0);
        if d is Wait {
            lemma_requests_bounded_from(next, statuses.drop_first());
        }
    }
}

/// A run that starts with `MAX_RATE_LIMIT_RETRIES + 1` rate-limited responses ends, after
/// exactly that many requests, by giving up.
pub proof fn lemma_gives_up_after_retries(statuses: Seq<u16>)
    requires
        statuses.len() > MAX_RATE_LIMIT_RETRIES,
        forall|i: int| 0 <= i <= MAX_RATE_LIMIT_RETRIES ==> statuses[i] == TOO_MANY_REQUESTS,
    ensures
        final_decision(0, statuses) == Some(RetryDecision::GiveUp),
        requests_sent(0, statuses) == MAX_RATE_LIMIT_RETRIES + 1,
{
    lemma_gives_up_from(0, statuses);
}

proof fn lemma_gives_up_from(attempt: nat, statuses: Seq<u16>)
    requires
        attempt <= MAX_RATE_LIMIT_RETRIES,
        statuses.len() > MAX_RATE_LIMIT_RETRIES - attempt,
        forall|i: int| 0 <= i <= MAX_RATE_LIMIT_RETRIES - attempt ==> statuses[i] == TOO_MANY_REQUESTS,
    ensures
        final_decision(attempt, statuses) == Some(RetryDecision::GiveUp),
        requests_sent(attempt, statuses) == MAX_RATE_LIMIT_RETRIES + 1 - attempt,
    decreases MAX_RATE_LIMIT_RETRIES - attempt,
{
    assert(statuses[0] == TOO_MANY_REQUESTS);
    if attempt < MAX_RATE_LIMIT_RETRIES {
        let rest = statuses.drop_first();
        assert forall|i: int| 0 <= i <= MAX_RATE_LIMIT_RETRIES - (attempt + 1) implies rest[i] == TOO_MANY_REQUESTS by {
            assert(rest[i] == statuses[i + 1]);
        }
        lemma_gives_up_from(attempt + 1, rest);
    }
}

/// A response that is not rate limited always proceeds, at every attempt.
pub proof fn lemma_other_statuses_proceed(attempt: nat, status: u16, wait: u64)
    requires
        status != TOO_MANY_REQUESTS,
    ensures
        retry_step(attempt, status, wait) == (attempt, RetryDecision::Proceed),
{
}

/// A 429 response received after fewer than three retries is retried: the retry count goes
/// up by one and the request waits exactly the delay the response asks for, whatever it is.
pub proof fn lemma_rate_limited_waits_requested_delay(attempt: nat, wait: u64)
    requires
        attempt < 3,
    ensures
        retry_step(attempt, 429u16, wait) == (attempt + 1, RetryDecision::Wait(wait)),
{
}

/// A 429 response received after three retries gives up, and the retry count stays.
pub proof fn lemma_rate_limited_gives_up_after_three(attempt: nat, wait: u64)
    requires
        attempt >= 3,
    ensures
        retry_step(attempt, 429u16, wait) == (attempt, RetryDecision::GiveUp),
{
}

/// A run of 429 responses, each asking for its own delay, is waited out delay by delay three
/// times from a fresh state, and the fourth gives up.
pub proof fn lemma_three_retries_with_their_delays(w1: u64, w2: u64, w3: u64, w4: u64)
    ensures
        retry_step(0, 429u16, w1) == (1nat, RetryDecision::Wait(w1)),
        retry_step(1, 429u16, w2) == (2nat, RetryDecision::Wait(w2)),
        retry_step(2, 429u16, w3) == (3nat, RetryDecision::Wait(w3)),
        retry_step(3, 429u16, w4) == (3nat, RetryDecision::GiveUp),
{
}

/// The delay of a `Retry-After` header made of decimal digits is the number they write (when
/// it fits in a `u64`); a header that is missing, empty or holds anything but digits (after
/// one optional `+`) asks for 5 seconds.
pub proof fn lemma_retry_after_delay(h: Seq<char>)
    ensures
        (h.len() > 0 && (forall|i: int| 0 <= i < h.len() ==> '0' <= #[trigger] h[i] <= '9')
            && digits_value(h) <= u64::MAX) ==> retry_after_spec(Some(h)) == digits_value(h),
        (h.len() == 0 || (exists|i: int| 1 <= i < h.len() && !('0' <= #[trigger] h[i] <= '9'))
            || !('0' <= h[0] <= '9' || h[0] == '+')) ==> retry_after_spec(Some(h)) == 5,
        retry_after_spec(None) == 5,
{
    if h.len() > 0 && h[0] != '+' {
        assert(unsigned_digits(h) == h);
    }
    if h.len() > 0 && h[0] == '+' {
        let d = unsigned_digits(h);
        assert(d == h.skip(1));
        if exists|i: int| 1 <= i < h.len() && !('0' <= #[trigger] h[i] <= '9') {
            let i = choose|i: int| 1 <= i < h.len() && !('0' <= #[trigger] h[i] <= '9');
            assert(d[i - 1] == h[i]);
            assert(!is_digit(d[i - 1]));
        }
    }
}

/// Decimal digit strings are read in base ten, most significant digit first.
pub proof fn lemma_digits_value_appends(d: Seq<char>, c: char)
    requires
        '0' <= c <= '9',
    ensures
        digits_value(d.push(c)) == 10 * digits_value(d) + (c as int - '0' as int),
        digits_value(Seq::<char>::empty()) == 0,
{
    assert(d.push(c).drop_last() =~= d);
}

/// The items of every page of a paginated resource, collected in page order.
pub struct PageCollector<T> {
    items: Vec<T>,
    pages: Ghost<Seq<Seq<T>>>,
}

impl<T> PageCollector<T> {
    /// The items collected so far.
    pub closed spec fn items(&self) -> Seq<T> {
        self.items@
    }

    /// The data of each page absorbed so far, in order.
    pub closed spec fn pages(&self) -> Seq<Seq<T>> {
        self.pages@
    }

    /// The collected items are the pages' data, concatenated in page order.
    pub open spec fn wf(&self) -> bool {
        self.items() == self.pages().flatten_alt()
    }

    /// A collector that has seen no page.
    pub fn new() -> (res: Self)
        ensures
            res.wf(),
            res.pages() == Seq::<Seq<T>>::empty(),
            res.items() == Seq::<T>::empty(),
    {
        PageCollector { items: Vec::new(), pages: Ghost(Seq::empty()) }
    }

    /// Adds the data of one page and returns the link to the next page, if any:
    /// collection goes on while pages link to a next one.
    pub fn add_page(&mut self, page: JsonApiResponse<Vec<T>>) -> (next: Option<String>)
        requires
            old(self).wf(),
        ensures
            final(self).wf(),
            final(self).pages() == old(self).pages().push(page.data@),
            final(self).items() == old(self).items() + page.data@,
            crate::models::common::opt_str_view(next) == page.next_link(),
    {
        let (mut data, next) = page.into_parts();
        let ghost d = data@;
        self.items.append(&mut data);
        self.pages = Ghost(self.pages@.push(d));
        assert(self.pages@.drop_last() =~= old(self).pages@);
        assert(self.items@ =~= old(self).items@ + d);
        next
    }

    /// The collected items.
    pub fn into_items(self) -> (res: Vec<T>)
        ensures
            res@ == self.items(),
    {
        self.items
    }
}

} // verus!
