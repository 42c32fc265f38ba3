//! Asking again until an answer decides.
use vstd::prelude::*;

use crate::kubeconfig;
use crate::kubeconfig::is_valid_kubeconfig;
use crate::mtls;
use crate::mtls::{parse_cli_mtls_bundle, CliMtlsBundle, MalformedValue};

verus! {

/// What an answer is worth: it is the one waited for, or none will come, or
/// another may.
#[derive(Debug)]
pub enum Verdict<R> {
    Accept,
    Reject(R),
    Retry,
}

/// How far asking has come. The attempts count from zero.
#[derive(Debug)]
pub enum Poll<R> {
    /// Ask, for the attempt of this number.
    Ask(u32),
    /// Rest, behind the attempt of this number.
    Rest(u32),
    /// The answer waited for has come.
    Accepted,
    /// None will come.
    Rejected(R),
    /// None has come in all attempts.
    TimedOut,
}

impl<R> Poll<R> {
    /// Begins to ask.
    pub fn start() -> (r: Self)
        ensures
            r == Poll::<R>::Ask(0),
    {
        Poll::Ask(0)
    }

    /// The step behind an answer.
    pub open spec fn after_answer(self, verdict: Verdict<R>) -> Self {
        match (self, verdict) {
            (Poll::Ask(_), Verdict::Accept) => Poll::Accepted,
            (Poll::Ask(_), Verdict::Reject(reason)) => Poll::Rejected(reason),
            (Poll::Ask(attempt), Verdict::Retry) => Poll::Rest(attempt),
            _ => self,
        }
    }

    /// The step behind a rest.
    pub open spec fn after_rest(self, attempts: u32) -> Self {
        match self {
            Poll::Rest(attempt) => if attempt + 1 < attempts {
                Poll::Ask((attempt + 1) as u32)
            } else {
                Poll::TimedOut
            },
            _ => self,
        }
    }

    /// Goes on behind an answer.
    pub fn answered(self, verdict: Verdict<R>) -> (r: Self)
        ensures
            r == self.after_answer(verdict),
            self matches Poll::Ask(attempt) ==> match verdict {
                Verdict::Accept => r == Poll::<R>::Accepted,
                Verdict::Reject(reason) => r == Poll::<R>::Rejected(reason),
                Verdict::Retry => r == Poll::<R>::Rest(attempt),
            },
            !(self is Ask) ==> r == self,
    {
        match (self, verdict) {
            (Poll::Ask(_), Verdict::Accept) => Poll::Accepted,
            (Poll::Ask(_), Verdict::Reject(reason)) => Poll::Rejected(reason),
            (Poll::Ask(attempt), Verdict::Retry) => Poll::Rest(attempt),
            (other, _) => other,
        }
    }

    /// Goes on behind a rest, where so many attempts are made at most.
    pub fn rested(self, attempts: u32) -> (r: Self)
        ensures
            r == self.after_rest(attempts),
            self matches Poll::Rest(attempt) ==> {
                &&& attempt + 1 < attempts ==> (r matches Poll::Ask(next) && next == attempt + 1)
                &&& attempt + 1 >= attempts ==> r == Poll::<R>::TimedOut
            },
            !(self is Rest) ==> r == self,
    {
        match self {
            Poll::Rest(attempt) => {
                if attempts > 0 && attempt < attempts - 1 {
                    Poll::Ask(attempt + 1)
                } else {
                    Poll::TimedOut
                }
            },
            other => other,
        }
    }
}

/// How many steps asking can still take, where an answer and a rest are one each.
pub open spec fn steps_left<R>(step: Poll<R>, attempts: u32) -> int {
    match step {
        Poll::Ask(attempt) => if attempt < attempts {
            2 * (attempts - attempt) + 1
        } else {
            2
        },
        Poll::Rest(attempt) => if attempt < attempts {
            2 * (attempts - attempt)
        } else {
            1
        },
        _ => 0,
    }
}

/// What asking comes to from a step on, given what each answer is worth.
pub open spec fn poll_outcome<R>(
    step: Poll<R>,
    attempts: u32,
    answers: spec_fn(int) -> Verdict<R>,
) -> Poll<R>
    decreases steps_left(step, attempts),
{
    match step {
        Poll::Ask(attempt) => poll_outcome(
            step.after_answer(answers(attempt as int)),
            attempts,
            answers,
        ),
        Poll::Rest(_) => poll_outcome(step.after_rest(attempts), attempts, answers),
        _ => step,
    }
}

/// The last attempt that is made from a step on. Its answer is the one in hand
/// when asking ends. `None` where no attempt is made.
pub open spec fn last_asked<R>(
    step: Poll<R>,
    attempts: u32,
    answers: spec_fn(int) -> Verdict<R>,
) -> Option<u32>
    decreases steps_left(step, attempts),
{
    match step {
        Poll::Ask(attempt) => {
            let later = last_asked(
                step.after_answer(answers(attempt as int)),
                attempts,
                answers,
            );
            if later is Some {
                later
            } else {
                Some(attempt)
            }
        },
        Poll::Rest(_) => last_asked(step.after_rest(attempts), attempts, answers),
        _ => None,
    }
}

/// What a verdict comes to behind which nothing more is asked.
pub open spec fn end_of<R>(verdict: Verdict<R>) -> Poll<R> {
    match verdict {
        Verdict::Accept => Poll::Accepted,
        Verdict::Reject(reason) => Poll::Rejected(reason),
        Verdict::Retry => Poll::TimedOut,
    }
}

proof fn lemma_poll_from<R>(
    attempt: u32,
    attempts: u32,
    answers: spec_fn(int) -> Verdict<R>,
    k: int,
)
    requires
        attempt <= k < attempts,
        forall|i: int| attempt <= i < k ==> (#[trigger] answers(i)) is Retry,
        k + 1 < attempts ==> !(answers(k) is Retry),
    ensures
        poll_outcome(Poll::Ask(attempt), attempts, answers) == end_of(answers(k)),
        last_asked(Poll::Ask(attempt), attempts, answers) == Some(k as u32),
    decreases attempts - attempt,
{
    reveal_with_fuel(poll_outcome, 4);
    reveal_with_fuel(last_asked, 4);
    if attempt < k {
        assert(answers(attempt as int) is Retry);
        lemma_poll_from((attempt + 1) as u32, attempts, answers, k);
    }
}

/// Asking ends with the first answer that decides, and comes to what it says.
/// Where none of the attempts brings one, it ends with the last attempt, in a
/// timeout.
pub proof fn law_first_decision_counts<R>(
    attempts: u32,
    answers: spec_fn(int) -> Verdict<R>,
    k: int,
)
    requires
        0 <= k < attempts,
        forall|i: int| 0 <= i < k ==> (#[trigger] answers(i)) is Retry,
        k + 1 < attempts ==> !(answers(k) is Retry),
    ensures
        poll_outcome(Poll::Ask(0), attempts, answers) == end_of(answers(k)),
        last_asked(Poll::Ask(0), attempts, answers) == Some(k as u32),
{
    lemma_poll_from(0, attempts, answers, k);
}

/// How often the cluster is asked for its kubeconfig.
pub const KUBECONFIG_ATTEMPTS: u32 = 30;

/// How often the cluster is asked for its health.
pub const HEALTH_ATTEMPTS: u32 = 180;

/// How often the cluster is asked for the client certificate.
pub const SECRET_ATTEMPTS: u32 = 90;

/// How often a command in the container is asked for its exit code.
pub const EXIT_CODE_ATTEMPTS: u32 = 20;

/// The seconds of a rest while a cluster comes up.
pub const CLUSTER_REST_SECONDS: u64 = 2;

/// The milliseconds of a rest while a command ends.
pub const EXIT_CODE_REST_MILLIS: u64 = 200;

/// What is said where no kubeconfig has come.
pub const KUBECONFIG_TIMED_OUT: &'static str = "timed out waiting for kubeconfig";

/// What is said where the cluster has not become healthy.
pub const HEALTH_TIMED_OUT: &'static str = "timed out waiting for cluster health check";

/// The value of printing the kubeconfig in the container; `None` where that
/// failed, which counts at the last attempt only.
pub open spec fn kubeconfig_verdict(attempt: int, output: Option<Seq<char>>) -> Verdict<()> {
    match output {
        Some(text) => if kubeconfig::looks_like_kubeconfig(text) {
            Verdict::Accept
        } else {
            Verdict::Retry
        },
        None => if attempt + 1 < KUBECONFIG_ATTEMPTS {
            Verdict::Retry
        } else {
            Verdict::Reject(())
        },
    }
}

/// The value of printing the kubeconfig in the container.
pub fn wait_for_kubeconfig(attempt: u32, output: Option<&str>) -> (r: Verdict<()>)
    ensures
        r == kubeconfig_verdict(
            attempt as int,
            match output {
                Some(text) => Some(text@),
                None => None,
            },
        ),
        output matches Some(text) ==> {
            &&& kubeconfig::looks_like_kubeconfig(text@) ==> r == Verdict::<()>::Accept
            &&& !kubeconfig::looks_like_kubeconfig(text@) ==> r == Verdict::<()>::Retry
        },
        output is None && attempt < 29 ==> r == Verdict::<()>::Retry,
        output is None && attempt >= 29 ==> r == Verdict::<()>::Reject(()),
{
    match output {
        Some(text) => {
            if is_valid_kubeconfig(text) {
                Verdict::Accept
            } else {
                Verdict::Retry
            }
        },
        None => {
            if attempt < KUBECONFIG_ATTEMPTS - 1 {
                Verdict::Retry
            } else {
                Verdict::Reject(())
            }
        },
    }
}

/// Whether the kubeconfig was printed and looks like one.
pub open spec fn valid_output(output: Option<Seq<char>>) -> bool {
    output is Some && kubeconfig::looks_like_kubeconfig(output->0)
}

/// Waiting for the kubeconfig ends with the first attempt whose output looks like
/// one, and brings that output. Where none does, it ends with the last attempt,
/// which decides whether printing failed or time ran out. So the output in hand
/// tells how the waiting ended.
pub proof fn law_first_valid_kubeconfig_counts(outputs: spec_fn(int) -> Option<Seq<char>>, k: int)
    requires
        0 <= k <= KUBECONFIG_ATTEMPTS,
        forall|i: int| 0 <= i < k ==> !valid_output(#[trigger] outputs(i)),
        k < KUBECONFIG_ATTEMPTS ==> valid_output(outputs(k)),
    ensures
        ({
            let answers = |i: int| kubeconfig_verdict(i, outputs(i));
            let end = poll_outcome(Poll::Ask(0), KUBECONFIG_ATTEMPTS, answers);
            let last = last_asked(Poll::Ask(0), KUBECONFIG_ATTEMPTS, answers);
            let in_hand = outputs(last->0 as int);
            &&& last == Some(
                if k < KUBECONFIG_ATTEMPTS {
                    k as u32
                } else {
                    (KUBECONFIG_ATTEMPTS - 1) as u32
                },
            )
            &&& end == if valid_output(in_hand) {
                Poll::<()>::Accepted
            } else if in_hand is None {
                Poll::<()>::Rejected(())
            } else {
                Poll::<()>::TimedOut
            }
            &&& valid_output(in_hand) <==> k < KUBECONFIG_ATTEMPTS
        }),
{
    let answers = |i: int| kubeconfig_verdict(i, outputs(i));
    let last = if k < KUBECONFIG_ATTEMPTS {
        k
    } else {
        KUBECONFIG_ATTEMPTS - 1
    };
    assert forall|i: int| 0 <= i < last implies (#[trigger] answers(i)) is Retry by {
        assert(!valid_output(outputs(i)));
    }
    if last < k {
        assert(!valid_output(outputs(last)));
    }
    assert(answers(last) == kubeconfig_verdict(last, outputs(last)));
    law_first_decision_counts(KUBECONFIG_ATTEMPTS, answers, last);
}

/// The health that the Docker engine reports of a container.
#[derive(Clone, Copy, Debug, PartialEq, Eq, Structural)]
pub enum Health {
    /// The engine reports an empty status.
    Empty,
    /// The container has no health check.
    NoCheck,
    Starting,
    Healthy,
    Unhealthy,
}

/// Why a cluster will not become healthy.
#[derive(Clone, Copy, Debug, PartialEq, Eq, Structural)]
pub enum HealthFailure {
    /// It was not healthy up to the end.
    Unhealthy,
    /// Its container has no health check.
    NoHealthCheck,
}

impl HealthFailure {
    /// What is said of it.
    pub fn message(&self) -> (r: &'static str)
        ensures
            r@ == match *self {
                HealthFailure::Unhealthy => "cluster health check reported unhealthy"@,
                HealthFailure::NoHealthCheck => "cluster container does not expose a health check"@,
            },
    {
        match self {
            HealthFailure::Unhealthy => "cluster health check reported unhealthy",
            HealthFailure::NoHealthCheck => "cluster container does not expose a health check",
        }
    }
}

/// Whether a report says that a container has no health check.
pub open spec fn no_check(health: Option<Health>) -> bool {
    health is None || health == Some(Health::NoCheck) || health == Some(Health::Empty)
}

/// The value of a cluster's health; `None` where the engine reports none. That
/// there is no health check counts at the first attempt, that the cluster is
/// unhealthy at the last.
pub open spec fn health_verdict(attempt: int, health: Option<Health>) -> Verdict<HealthFailure> {
    if health == Some(Health::Healthy) {
        Verdict::Accept
    } else if health == Some(Health::Unhealthy) && attempt + 1 == HEALTH_ATTEMPTS {
        Verdict::Reject(HealthFailure::Unhealthy)
    } else if attempt == 0 && no_check(health) {
        Verdict::Reject(HealthFailure::NoHealthCheck)
    } else {
        Verdict::Retry
    }
}

/// The value of a cluster's health.
pub fn wait_for_cluster_ready(attempt: u32, health: Option<Health>) -> (r: Verdict<HealthFailure>)
    ensures
        r == health_verdict(attempt as int, health),
        match health {
            Some(Health::Healthy) => r == Verdict::<HealthFailure>::Accept,
            Some(Health::Starting) => r == Verdict::<HealthFailure>::Retry,
            Some(Health::Unhealthy) => r == if attempt == 179 {
                Verdict::Reject(HealthFailure::Unhealthy)
            } else {
                Verdict::Retry
            },
            _ => r == if attempt == 0 {
                Verdict::Reject(HealthFailure::NoHealthCheck)
            } else {
                Verdict::Retry
            },
        },
{
    match health {
        Some(Health::Healthy) => Verdict::Accept,
        Some(Health::Unhealthy) => {
            if attempt == HEALTH_ATTEMPTS - 1 {
                Verdict::Reject(HealthFailure::Unhealthy)
            } else {
                Verdict::Retry
            }
        },
        Some(Health::Starting) => Verdict::Retry,
        _ => {
            if attempt == 0 {
                Verdict::Reject(HealthFailure::NoHealthCheck)
            } else {
                Verdict::Retry
            }
        },
    }
}

/// Waiting for a cluster comes to an end in this way: no health check at the
/// first look ends it there; else the first look that finds it healthy does; else
/// the last look decides whether it is unhealthy or time ran out.
pub proof fn law_health_decides(reports: spec_fn(int) -> Option<Health>, k: int)
    requires
        0 <= k <= HEALTH_ATTEMPTS,
        forall|i: int| 0 <= i < k ==> #[trigger] reports(i) != Some(Health::Healthy),
        k < HEALTH_ATTEMPTS ==> reports(k) == Some(Health::Healthy),
    ensures
        ({
            let answers = |i: int| health_verdict(i, reports(i));
            let end = poll_outcome(Poll::Ask(0), HEALTH_ATTEMPTS, answers);
            let last = last_asked(Poll::Ask(0), HEALTH_ATTEMPTS, answers);
            if no_check(reports(0)) {
                end == Poll::<HealthFailure>::Rejected(HealthFailure::NoHealthCheck) && last
                    == Some(0u32)
            } else if k < HEALTH_ATTEMPTS {
                end == Poll::<HealthFailure>::Accepted && last == Some(k as u32)
            } else {
                &&& last == Some((HEALTH_ATTEMPTS - 1) as u32)
                &&& end == if reports(HEALTH_ATTEMPTS - 1) == Some(Health::Unhealthy) {
                    Poll::<HealthFailure>::Rejected(HealthFailure::Unhealthy)
                } else {
                    Poll::<HealthFailure>::TimedOut
                }
            }
        }),
{
    let answers = |i: int| health_verdict(i, reports(i));
    let last = if no_check(reports(0)) {
        0
    } else if k < HEALTH_ATTEMPTS {
        k
    } else {
        HEALTH_ATTEMPTS - 1
    };
    assert forall|i: int| 0 <= i < last implies (#[trigger] answers(i)) is Retry by {
        assert(reports(i) != Some(Health::Healthy));
    }
    if last < k {
        assert(reports(last) != Some(Health::Healthy));
    }
    assert(answers(last) == health_verdict(last, reports(last)));
    law_first_decision_counts(HEALTH_ATTEMPTS, answers, last);
}

/// What looking for the client certificate brought.
#[derive(Clone, Copy, Debug, PartialEq, Eq, Structural)]
pub enum SecretAnswer {
    /// A bundle.
    Bundle,
    /// The secret is not there, or not complete.
    Missing,
    /// Looking failed.
    Failed,
}

/// What a printed secret says of the client certificate.
pub open spec fn answer_of(reply: mtls::SecretReply) -> SecretAnswer {
    match reply {
        mtls::SecretReply::Complete(_) => SecretAnswer::Bundle,
        mtls::SecretReply::Absent => SecretAnswer::Missing,
        mtls::SecretReply::Malformed(_) => SecretAnswer::Failed,
    }
}

/// Looks for the client certificate in what printing the secret brought; `None`
/// where that failed. The bundle is there where the answer is that it is.
pub fn fetch_cli_mtls_bundle(printed: Option<&str>) -> (r: (
    SecretAnswer,
    Result<Option<CliMtlsBundle>, MalformedValue>,
))
    ensures
        r.0 == match printed {
            Some(output) => answer_of(mtls::secret_reply(output@)),
            None => SecretAnswer::Failed,
        },
        match (r.1, printed) {
            (Ok(Some(bundle)), Some(output)) => mtls::secret_reply(output@)
                == mtls::SecretReply::Complete(bundle@),
            (Err(e), Some(output)) => mtls::secret_reply(output@) == mtls::SecretReply::Malformed(
                e.value,
            ),
            (Ok(None), Some(output)) => mtls::secret_reply(output@) is Absent,
            (Ok(None), None) => true,
            _ => false,
        },
        match r.0 {
            SecretAnswer::Bundle => r.1 is Ok && r.1->Ok_0 is Some,
            SecretAnswer::Missing => printed is Some && r.1 is Ok && r.1->Ok_0 is None,
            SecretAnswer::Failed => printed is None || r.1 is Err,
        },
{
    match printed {
        Some(output) => {
            let found = parse_cli_mtls_bundle(output);
            let answer = match &found {
                Ok(Some(_)) => SecretAnswer::Bundle,
                Ok(None) => SecretAnswer::Missing,
                Err(_) => SecretAnswer::Failed,
            };
            (answer, found)
        },
        None => (SecretAnswer::Failed, Ok(None)),
    }
}

/// Why no client certificate will come.
#[derive(Clone, Copy, Debug, PartialEq, Eq, Structural)]
pub enum SecretFailure {
    /// It was missing up to the end.
    TimedOut,
    /// Looking failed.
    Failed,
}

impl SecretFailure {
    /// What is said of it.
    pub fn message(&self) -> (r: &'static str)
        ensures
            r@ == match *self {
                SecretFailure::TimedOut =>
                    "timed out waiting for CLI mTLS secret navigator-cli-client"@,
                SecretFailure::Failed => "failed to fetch CLI mTLS secret navigator-cli-client"@,
            },
    {
        match self {
            SecretFailure::TimedOut => "timed out waiting for CLI mTLS secret navigator-cli-client",
            SecretFailure::Failed => "failed to fetch CLI mTLS secret navigator-cli-client",
        }
    }
}

/// The value of looking for the client certificate. At the last attempt a missing
/// one counts at once.
pub open spec fn secret_verdict(attempt: int, answer: SecretAnswer) -> Verdict<SecretFailure> {
    match answer {
        SecretAnswer::Bundle => Verdict::Accept,
        SecretAnswer::Missing => if attempt + 1 < SECRET_ATTEMPTS {
            Verdict::Retry
        } else {
            Verdict::Reject(SecretFailure::TimedOut)
        },
        SecretAnswer::Failed => Verdict::Reject(SecretFailure::Failed),
    }
}

/// The value of looking for the client certificate.
pub fn wait_for_cli_mtls(attempt: u32, answer: SecretAnswer) -> (r: Verdict<SecretFailure>)
    ensures
        r == secret_verdict(attempt as int, answer),
        match answer {
            SecretAnswer::Bundle => r == Verdict::<SecretFailure>::Accept,
            SecretAnswer::Missing => r == if attempt < 89 {
                Verdict::Retry
            } else {
                Verdict::Reject(SecretFailure::TimedOut)
            },
            SecretAnswer::Failed => r == Verdict::<SecretFailure>::Reject(SecretFailure::Failed),
        },
{
    match answer {
        SecretAnswer::Bundle => Verdict::Accept,
        SecretAnswer::Missing => {
            if attempt < SECRET_ATTEMPTS - 1 {
                Verdict::Retry
            } else {
                Verdict::Reject(SecretFailure::TimedOut)
            }
        },
        SecretAnswer::Failed => Verdict::Reject(SecretFailure::Failed),
    }
}

/// Begins to fetch the client certificate; `None` where the gateway does not speak
/// TLS and there is none to fetch.
pub fn fetch_and_store_cli_mtls(tls_enabled: bool) -> (r: Option<Poll<SecretFailure>>)
    ensures
        r == (if tls_enabled {
            Some(Poll::<SecretFailure>::Ask(0))
        } else {
            None
        }),
{
    if !tls_enabled {
        return None;
    }
    Some(Poll::start())
}

/// Waiting for the client certificate ends with the first answer that is not that
/// it is missing, and with a failure where all say so.
pub proof fn law_first_secret_counts(looks: spec_fn(int) -> SecretAnswer, k: int)
    requires
        0 <= k <= SECRET_ATTEMPTS,
        forall|i: int| 0 <= i < k ==> #[trigger] looks(i) == SecretAnswer::Missing,
        k < SECRET_ATTEMPTS ==> looks(k) != SecretAnswer::Missing,
    ensures
        ({
            let answers = |i: int| secret_verdict(i, looks(i));
            let end = poll_outcome(Poll::Ask(0), SECRET_ATTEMPTS, answers);
            let last = last_asked(Poll::Ask(0), SECRET_ATTEMPTS, answers);
            if k == SECRET_ATTEMPTS {
                end == Poll::<SecretFailure>::Rejected(SecretFailure::TimedOut) && last == Some(
                    (SECRET_ATTEMPTS - 1) as u32,
                )
            } else {
                &&& last == Some(k as u32)
                &&& end == if looks(k) == SecretAnswer::Bundle {
                    Poll::<SecretFailure>::Accepted
                } else {
                    Poll::<SecretFailure>::Rejected(SecretFailure::Failed)
                }
            }
        }),
{
    let answers = |i: int| secret_verdict(i, looks(i));
    let last = if k == SECRET_ATTEMPTS {
        SECRET_ATTEMPTS - 1
    } else {
        k
    };
    assert forall|i: int| 0 <= i < last implies (#[trigger] answers(i)) is Retry by {
        assert(looks(i) == SecretAnswer::Missing);
    }
    if last < k {
        assert(looks(last) == SecretAnswer::Missing);
    }
    assert(answers(last) == secret_verdict(last, looks(last)));
    law_first_decision_counts(SECRET_ATTEMPTS, answers, last);
}

/// The value of an exit code: one ends the waiting.
pub open spec fn exit_verdict(exit_code: Option<i64>) -> Verdict<()> {
    if exit_code is Some {
        Verdict::Accept
    } else {
        Verdict::Retry
    }
}

/// The value of an exit code.
pub fn wait_for_exit_code(exit_code: Option<i64>) -> (r: Verdict<()>)
    ensures
        r == exit_verdict(exit_code),
        exit_code is Some ==> r == Verdict::<()>::Accept,
        exit_code is None ==> r == Verdict::<()>::Retry,
{
    if exit_code.is_some() {
        Verdict::Accept
    } else {
        Verdict::Retry
    }
}

/// Waiting for an exit code ends with the first attempt that brings one, and
/// brings that code. Where none does, it ends with the last attempt, without one.
pub proof fn law_first_exit_code_counts(codes: spec_fn(int) -> Option<i64>, k: int)
    requires
        0 <= k <= EXIT_CODE_ATTEMPTS,
        forall|i: int| 0 <= i < k ==> #[trigger] codes(i) is None,
        k < EXIT_CODE_ATTEMPTS ==> codes(k) is Some,
    ensures
        ({
            let answers = |i: int| exit_verdict(codes(i));
            let end = poll_outcome(Poll::Ask(0), EXIT_CODE_ATTEMPTS, answers);
            let last = last_asked(Poll::Ask(0), EXIT_CODE_ATTEMPTS, answers);
            if k < EXIT_CODE_ATTEMPTS {
                end == Poll::<()>::Accepted && last == Some(k as u32)
            } else {
                end == Poll::<()>::TimedOut && last == Some((EXIT_CODE_ATTEMPTS - 1) as u32)
            }
        }),
{
    let answers = |i: int| exit_verdict(codes(i));
    let last = if k < EXIT_CODE_ATTEMPTS {
        k
    } else {
        EXIT_CODE_ATTEMPTS - 1
    };
    assert forall|i: int| 0 <= i < last implies (#[trigger] answers(i)) is Retry by {
        assert(codes(i) is None);
    }
    if last < k {
        assert(codes(last) is None);
    }
    assert(answers(last) == exit_verdict(codes(last)));
    law_first_decision_counts(EXIT_CODE_ATTEMPTS, answers, last);
}

/// What asking comes to: what the first answer that decides says, whatever the answers
/// behind it would be, or a timeout where none of the attempts brings one.
pub proof fn law_asking_comes_to_the_first_decision<R>(
    attempts: u32,
    answers: spec_fn(int) -> Verdict<R>,
    k: int,
)
    requires
        0 <= k < attempts,
        forall|i: int| 0 <= i < k ==> (#[trigger] answers(i)) is Retry,
        k + 1 < attempts ==> !(answers(k) is Retry),
    ensures
        match answers(k) {
            Verdict::Accept => poll_outcome(Poll::Ask(0), attempts, answers)
                == Poll::<R>::Accepted,
            Verdict::Reject(reason) => poll_outcome(Poll::Ask(0), attempts, answers)
                == Poll::<R>::Rejected(reason),
            Verdict::Retry => poll_outcome(Poll::Ask(0), attempts, answers) == Poll::<R>::TimedOut,
        },
{
    law_first_decision_counts(attempts, answers, k);
}

/// Asking goes from an attempt to a rest and from a rest to the next attempt, as long
/// as there is one. An answer that decides ends it, and nothing follows the end.
pub proof fn law_asking_step_by_step<R>(
    step: Poll<R>,
    attempt: u32,
    attempts: u32,
    reason: R,
    verdict: Verdict<R>,
)
    ensures
        Poll::<R>::Ask(attempt).after_answer(Verdict::Accept) == Poll::<R>::Accepted,
        Poll::<R>::Ask(attempt).after_answer(Verdict::Reject(reason)) == Poll::<R>::Rejected(
            reason,
        ),
        Poll::<R>::Ask(attempt).after_answer(Verdict::Retry) == Poll::<R>::Rest(attempt),
        attempt + 1 < attempts ==> Poll::<R>::Rest(attempt).after_rest(attempts)
            == Poll::<R>::Ask((attempt + 1) as u32),
        attempt + 1 >= attempts ==> Poll::<R>::Rest(attempt).after_rest(attempts)
            == Poll::<R>::TimedOut,
        !(step is Ask) ==> step.after_answer(verdict) == step,
        !(step is Rest) ==> step.after_rest(attempts) == step,
{
}

/// The longest that is waited: a minute for the kubeconfig, six for the cluster's
/// health, three for the client certificate, and four seconds for an exit code.
pub proof fn law_longest_waits()
    ensures
        KUBECONFIG_ATTEMPTS * CLUSTER_REST_SECONDS == 60,
        HEALTH_ATTEMPTS * CLUSTER_REST_SECONDS == 360,
        SECRET_ATTEMPTS * CLUSTER_REST_SECONDS == 180,
        EXIT_CODE_ATTEMPTS * EXIT_CODE_REST_MILLIS == 4000,
        CLUSTER_REST_SECONDS == 2,
        EXIT_CODE_REST_MILLIS == 200,
{
}

/// A report is worth the same at every attempt, but for two: that there is no health
/// check ends the waiting at the first, that the cluster is unhealthy at the last.
pub proof fn law_health_counts_at_the_ends(attempt: int, health: Option<Health>)
    requires
        0 <= attempt < 180,
    ensures
        health_verdict(attempt, Some(Health::Healthy)) == Verdict::<HealthFailure>::Accept,
        health_verdict(attempt, Some(Health::Starting)) == Verdict::<HealthFailure>::Retry,
        health_verdict(attempt, Some(Health::Unhealthy)) == if attempt < 179 {
            Verdict::<HealthFailure>::Retry
        } else {
            Verdict::<HealthFailure>::Reject(HealthFailure::Unhealthy)
        },
        health is None || health == Some(Health::NoCheck) || health == Some(Health::Empty)
            ==> health_verdict(attempt, health) == if attempt > 0 {
            Verdict::<HealthFailure>::Retry
        } else {
            Verdict::<HealthFailure>::Reject(HealthFailure::NoHealthCheck)
        },
{
}

/// What a printed secret comes to is what is answered: a bundle where it was read, that
/// it is missing where there was none, and a failure where a value is no base64.
pub proof fn law_secret_is_answered(reply: mtls::SecretReply)
    ensures
        answer_of(reply) == SecretAnswer::Bundle <==> reply is Complete,
        answer_of(reply) == SecretAnswer::Missing <==> reply is Absent,
        answer_of(reply) == SecretAnswer::Failed <==> reply is Malformed,
{
}

/// A bundle is accepted at every attempt, a failure ends the waiting at every attempt,
/// and that the certificate is missing ends it at the last alone.
pub proof fn law_secret_counts(attempt: int)
    requires
        0 <= attempt < 90,
    ensures
        secret_verdict(attempt, SecretAnswer::Bundle) == Verdict::<SecretFailure>::Accept,
        secret_verdict(attempt, SecretAnswer::Failed) == Verdict::<SecretFailure>::Reject(
            SecretFailure::Failed,
        ),
        secret_verdict(attempt, SecretAnswer::Missing) == if attempt < 89 {
            Verdict::<SecretFailure>::Retry
        } else {
            Verdict::<SecretFailure>::Reject(SecretFailure::TimedOut)
        },
{
}

} // verus!
