//! The retry policy: client errors are returned at once, other failures are
//! retried until the configured number of attempts is used up.

use vstd::prelude::*;

verus! {

/// How one attempt at a request ended.
pub enum Attempt<V, E> {
    /// The server answered with a success status and a body that parsed.
    Success(V),
    /// A 4xx status, or a body that did not parse: never retried.
    ClientError(E),
    /// A network failure or a server error: retried while attempts are left.
    Transient(E),
}

/// What to do after an attempt.
pub enum RetryStep<V, E> {
    /// Stop, with this result.
    Done(Result<V, E>),
    /// Send the request again.
    Again,
}

/// The decision after attempt number `made` of `num_tries` ended with `outcome`.
pub open spec fn retry_step<V, E>(outcome: Attempt<V, E>, made: nat, num_tries: nat) -> RetryStep<
    V,
    E,
> {
    match outcome {
        Attempt::Success(v) => RetryStep::Done(Ok(v)),
        Attempt::ClientError(e) => RetryStep::Done(Err(e)),
        Attempt::Transient(e) => if made < num_tries {
            RetryStep::Again
        } else {
            RetryStep::Done(Err(e))
        },
    }
}

/// Decides what follows attempt number `made` of `num_tries`.
pub fn after_attempt<V, E>(outcome: Attempt<V, E>, made: u8, num_tries: u8) -> (r: RetryStep<V, E>)
    requires
        1 <= made <= num_tries,
    ensures
        r == retry_step(outcome, made as nat, num_tries as nat),
{
    match outcome {
        Attempt::Success(v) => RetryStep::Done(Ok(v)),
        Attempt::ClientError(e) => RetryStep::Done(Err(e)),
        Attempt::Transient(e) => if made < num_tries {
            RetryStep::Again
        } else {
            RetryStep::Done(Err(e))
        },
    }
}

/// The attempts made and the result returned when attempt `i + 1` would end
/// with `outcomes[i]`, counting from attempt `from + 1`.
pub open spec fn retry_run_from<V, E>(outcomes: Seq<Attempt<V, E>>, from: nat, num_tries: nat) -> (
    nat,
    Result<V, E>,
)
    recommends
        from < num_tries <= outcomes.len(),
    decreases num_tries - from,
{
    if from >= num_tries || from >= outcomes.len() {
        (from, Err(arbitrary()))
    } else {
        match retry_step(outcomes[from as int], from + 1, num_tries) {
            RetryStep::Done(r) => (from + 1, r),
            RetryStep::Again => retry_run_from(outcomes, from + 1, num_tries),
        }
    }
}

/// The attempts made and the result returned for a whole request.
pub open spec fn retry_run<V, E>(outcomes: Seq<Attempt<V, E>>, num_tries: nat) -> (
    nat,
    Result<V, E>,
) {
    retry_run_from(outcomes, 0, num_tries)
}

/// A client error on the first attempt is returned at once, whatever the
/// number of attempts allowed.
pub proof fn lemma_client_error_not_retried<V, E>(outcomes: Seq<Attempt<V, E>>, num_tries: nat, e: E)
    requires
        1 <= num_tries <= outcomes.len(),
        outcomes[0] == Attempt::<V, E>::ClientError(e),
    ensures
        retry_run(outcomes, num_tries) == (1nat, Err::<V, E>(e)),
{
}

proof fn lemma_transient_run_from<V, E>(outcomes: Seq<Attempt<V, E>>, from: nat, num_tries: nat)
    requires
        from < num_tries <= outcomes.len(),
        forall|i: int| 0 <= i < num_tries ==> #[trigger] outcomes[i] is Transient,
    ensures
        retry_run_from(outcomes, from, num_tries) == (num_tries, Err::<V, E>(
            outcomes[num_tries - 1]->Transient_0,
        )),
    decreases num_tries - from,
{
    assert(outcomes[from as int] is Transient);
    if from + 1 < num_tries {
        lemma_transient_run_from(outcomes, from + 1, num_tries);
    }
}

/// When every attempt fails transiently, all `num_tries` attempts are made
/// (`num_tries - 1` retries) and the error of the last one is returned.
pub proof fn lemma_transient_errors_use_all_attempts<V, E>(
    outcomes: Seq<Attempt<V, E>>,
    num_tries: nat,
)
    requires
        1 <= num_tries <= outcomes.len(),
        forall|i: int| 0 <= i < num_tries ==> #[trigger] outcomes[i] is Transient,
    ensures
        retry_run(outcomes, num_tries) == (num_tries, Err::<V, E>(
            outcomes[num_tries - 1]->Transient_0,
        )),
{
    lemma_transient_run_from(outcomes, 0, num_tries);
}

/// Relies on `reqwest::Error::is_client_error`: whether the error came from a
/// 4xx status.
pub assume_specification[ reqwest::Error::is_client_error ](e: &reqwest::Error) -> bool;

/// Relies on `reqwest::Error::is_serialization`: whether the error came from
/// (de)serialising a body.
pub assume_specification[ reqwest::Error::is_serialization ](e: &reqwest::Error) -> bool;

/// Sorts the result of one HTTP attempt: client and body errors are final,
/// every other error may be retried.
pub fn classify<V>(r: Result<V, reqwest::Error>) -> (a: Attempt<V, reqwest::Error>)
    ensures
        r matches Ok(v) ==> a == Attempt::<V, reqwest::Error>::Success(v),
        r matches Err(e) ==> (a == Attempt::<V, reqwest::Error>::ClientError(e) || a
            == Attempt::<V, reqwest::Error>::Transient(e)),
{
    match r {
        Ok(v) => Attempt::Success(v),
        Err(e) => {
            if e.is_client_error() || e.is_serialization() {
                Attempt::ClientError(e)
            } else {
                Attempt::Transient(e)
            }
        },
    }
}

} // verus!
