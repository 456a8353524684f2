//! The retry policy of a segment download, as a step function from the
//! number of failed attempts and the outcome of the latest attempt to what
//! the caller does next. The caller performs the requests, the timeouts and
//! the waits.
use vstd::prelude::*;

verus! {

/// Attempts made for one segment before the download fails for good.
pub const MAX_ATTEMPTS: u32 = 5;

/// Time allowed to each attempt, in seconds.
pub const ATTEMPT_TIMEOUT_SECS: u64 = 15;

/// Wait between a failed attempt and the next, in milliseconds.
pub const RETRY_DELAY_MILLIS: u64 = 500;

/// How one attempt ended.
pub enum AttemptOutcome {
    /// The server answered with `status`; `body` is what it sent.
    Response { status: u16, body: Vec<u8> },
    /// The connection or the protocol failed.
    TransportError,
    /// The attempt outlived its time.
    TimedOut,
}

/// A download that ran out of attempts.
pub struct FetchFailure {
    pub url: String,
    pub attempts: u32,
}

/// What the caller does after an attempt.
pub enum FetchAction {
    /// The segment is fetched: these are its bytes.
    Deliver(Vec<u8>),
    /// Wait `delay_millis`, then attempt again; `failed` attempts have failed.
    Retry { failed: u32, delay_millis: u64 },
    /// No attempt is left.
    GiveUp(FetchFailure),
}

#[derive(PartialEq, Eq, Structural, Clone, Copy, Debug)]
pub enum Decision {
    Deliver,
    Retry,
    GiveUp,
}

pub open spec fn is_success_spec(status: u16) -> bool {
    200 <= status && status <= 299
}

/// An attempt succeeds when the server answers with a 2xx status.
pub open spec fn attempt_succeeded(o: AttemptOutcome) -> bool {
    match o {
        AttemptOutcome::Response { status, .. } => is_success_spec(status),
        _ => false,
    }
}

/// The bytes that an attempt received.
pub open spec fn body_of(o: AttemptOutcome) -> Seq<u8> {
    match o {
        AttemptOutcome::Response { body, .. } => body@,
        _ => Seq::empty(),
    }
}

/// What follows an attempt with outcome `o` after `failed` failed ones.
pub open spec fn decision(failed: nat, o: AttemptOutcome) -> Decision {
    if attempt_succeeded(o) {
        Decision::Deliver
    } else if failed + 1 < MAX_ATTEMPTS {
        Decision::Retry
    } else {
        Decision::GiveUp
    }
}

pub open spec fn decision_of(a: FetchAction) -> Decision {
    match a {
        FetchAction::Deliver(_) => Decision::Deliver,
        FetchAction::Retry { .. } => Decision::Retry,
        FetchAction::GiveUp(_) => Decision::GiveUp,
    }
}

/// How a download ends when its attempts have the given outcomes, in order,
/// after `failed` failed ones: the number of attempts it makes and the bytes
/// it delivers (`None` where it gives up), or `None` while it still waits
/// for an outcome.
pub open spec fn run_from(failed: nat, outcomes: Seq<AttemptOutcome>) -> Option<
    (nat, Option<Seq<u8>>),
>
    decreases outcomes.len(),
{
    if outcomes.len() == 0 {
        None
    } else {
        match decision(failed, outcomes[0]) {
            Decision::Deliver => Some((failed + 1, Some(body_of(outcomes[0])))),
            Decision::GiveUp => Some((failed + 1, None)),
            Decision::Retry => run_from(failed + 1, outcomes.drop_first()),
        }
    }
}

/// Whether an HTTP status is a success (2xx).
pub fn is_success_status(status: u16) -> (r: bool)
    ensures
        r == is_success_spec(status),
{
    200 <= status && status <= 299
}

/// Decides what follows an attempt on the segment at `url` that ended with
/// `outcome`, after `failed` failed attempts.
pub fn next_action(url: &str, failed: u32, outcome: AttemptOutcome) -> (r: FetchAction)
    requires
        failed < MAX_ATTEMPTS,
    ensures
        decision_of(r) == decision(failed as nat, outcome),
        r matches FetchAction::Deliver(b) ==> b@ == body_of(outcome),
        r matches FetchAction::Retry { failed: f, delay_millis: d } ==> f == failed + 1 && d
            == RETRY_DELAY_MILLIS,
        r matches FetchAction::GiveUp(e) ==> e.url@ == url@ && e.attempts == MAX_ATTEMPTS,
{
    match outcome {
        AttemptOutcome::Response { status, body } => {
            if is_success_status(status) {
                return FetchAction::Deliver(body);
            }
        },
        _ => {},
    }
    if failed + 1 < MAX_ATTEMPTS {
        FetchAction::Retry { failed: failed + 1, delay_millis: RETRY_DELAY_MILLIS }
    } else {
        FetchAction::GiveUp(FetchFailure { url: String::from_str(url), attempts: MAX_ATTEMPTS })
    }
}

proof fn lemma_run_success(failed: nat, outcomes: Seq<AttemptOutcome>, n: nat)
    requires
        failed + n <= MAX_ATTEMPTS,
        1 <= n <= outcomes.len(),
        forall|i: int| 0 <= i < n - 1 ==> !attempt_succeeded(#[trigger] outcomes[i]),
        attempt_succeeded(outcomes[n - 1]),
    ensures
        run_from(failed, outcomes) == Some((failed + n, Some(body_of(outcomes[n - 1])))),
    decreases n,
{
    if n > 1 {
        let rest = outcomes.drop_first();
        assert forall|i: int| 0 <= i < n - 2 implies !attempt_succeeded(#[trigger] rest[i]) by {
            assert(rest[i] == outcomes[i + 1]);
        }
        lemma_run_success(failed + 1, rest, (n - 1) as nat);
        assert(rest[n - 2] == outcomes[n - 1]);
    }
}

proof fn lemma_run_exhausted(failed: nat, outcomes: Seq<AttemptOutcome>)
    requires
        failed < MAX_ATTEMPTS,
        outcomes.len() >= MAX_ATTEMPTS - failed,
        forall|i: int| 0 <= i < MAX_ATTEMPTS - failed ==> !attempt_succeeded(#[trigger] outcomes[i]),
    ensures
        run_from(failed, outcomes) == Some((MAX_ATTEMPTS as nat, None::<Seq<u8>>)),
        run_from(failed, outcomes) == run_from(
            failed,
            outcomes.take(MAX_ATTEMPTS - failed),
        ),
    decreases MAX_ATTEMPTS - failed,
{
    let k = MAX_ATTEMPTS - failed;
    let short = outcomes.take(k);
    assert(short[0] == outcomes[0]);
    if failed + 1 < MAX_ATTEMPTS {
        let rest = outcomes.drop_first();
        assert forall|i: int| 0 <= i < MAX_ATTEMPTS - (failed + 1) implies !attempt_succeeded(
            #[trigger] rest[i],
        ) by {
            assert(rest[i] == outcomes[i + 1]);
        }
        lemma_run_exhausted(failed + 1, rest);
        assert(short.drop_first() =~= rest.take(MAX_ATTEMPTS - (failed + 1)));
    }
}

/// A download whose first `n - 1` attempts fail and whose `n`-th succeeds,
/// `n` at most `MAX_ATTEMPTS`, makes `n` attempts and delivers exactly the
/// bytes of the `n`-th response.
pub proof fn law_success_on_nth_attempt(outcomes: Seq<AttemptOutcome>, n: nat)
    requires
        1 <= n <= MAX_ATTEMPTS,
        n <= outcomes.len(),
        forall|i: int| 0 <= i < n - 1 ==> !attempt_succeeded(#[trigger] outcomes[i]),
        attempt_succeeded(outcomes[n - 1]),
    ensures
        run_from(0, outcomes) == Some((n, Some(body_of(outcomes[n - 1])))),
{
    lemma_run_success(0, outcomes, n);
}

/// A download whose first `MAX_ATTEMPTS` attempts fail gives up after
/// exactly that many attempts: the outcome of any later attempt plays no
/// part, so none is made.
pub proof fn law_gives_up_after_max_attempts(outcomes: Seq<AttemptOutcome>)
    requires
        outcomes.len() >= MAX_ATTEMPTS,
        forall|i: int| 0 <= i < MAX_ATTEMPTS ==> !attempt_succeeded(#[trigger] outcomes[i]),
    ensures
        run_from(0, outcomes) == Some((MAX_ATTEMPTS as nat, None::<Seq<u8>>)),
        run_from(0, outcomes) == run_from(0, outcomes.take(MAX_ATTEMPTS as int)),
{
    lemma_run_exhausted(0, outcomes);
}

} // verus!
