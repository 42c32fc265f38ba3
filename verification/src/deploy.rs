//! The steps that bring a cluster up.
//!
//! What is missing is created, in order; what exists is left as it is. So
//! deploying again is safe: it starts the cluster where it is stopped and fetches
//! its settings anew.
use vstd::prelude::*;

use crate::docker;
use crate::docker::{ensure_present, start_container, DockerFailure, Ensure};

verus! {

/// Something that the Docker engine must have before a cluster can run.
#[derive(Clone, Copy, Debug, PartialEq, Eq, Structural)]
pub enum Resource {
    Network,
    Volume,
    Image,
    Container,
}

/// One step of deploying.
#[derive(Clone, Copy, Debug, PartialEq, Eq, Structural)]
pub enum Stage {
    /// See whether the engine has it.
    Inspect(Resource),
    /// Create it.
    Create(Resource),
    /// Start the container.
    Start,
    /// Wait until the cluster prints its kubeconfig.
    AwaitKubeconfig,
    /// Store the rewritten kubeconfig.
    StoreKubeconfig,
    /// Wait until the cluster is healthy.
    AwaitReady,
    /// Fetch and store the client certificate, where the gateway asks for one.
    FetchMtls,
}

/// The step behind a resource, once the engine has it.
pub open spec fn stage_behind(resource: Resource) -> Stage {
    match resource {
        Resource::Network => Stage::Inspect(Resource::Volume),
        Resource::Volume => Stage::Inspect(Resource::Image),
        Resource::Image => Stage::Inspect(Resource::Container),
        Resource::Container => Stage::Start,
    }
}

fn behind(resource: Resource) -> (r: Stage)
    ensures
        r == stage_behind(resource),
{
    match resource {
        Resource::Network => Stage::Inspect(Resource::Volume),
        Resource::Volume => Stage::Inspect(Resource::Image),
        Resource::Image => Stage::Inspect(Resource::Container),
        Resource::Container => Stage::Start,
    }
}

/// How far deploying has come.
#[derive(Debug)]
pub enum Deployment {
    /// This step is to be done.
    At(Stage),
    /// The cluster is up.
    Deployed,
    /// This step failed.
    Failed(Stage, DockerFailure),
}

impl Deployment {
    /// Begins to deploy.
    pub fn start() -> (r: Self)
        ensures
            r == Deployment::At(Stage::Inspect(Resource::Network)),
    {
        Deployment::At(Stage::Inspect(Resource::Network))
    }

    /// The step behind a step. A step that is no request to the engine fails
    /// without a status.
    pub open spec fn after(self, reply: Result<(), DockerFailure>) -> Deployment {
        match self {
            Deployment::At(stage) => match (stage, reply) {
                (Stage::Inspect(resource), Ok(_)) => Deployment::At(stage_behind(resource)),
                (Stage::Inspect(resource), Err(failure)) => if docker::not_found(failure) {
                    Deployment::At(Stage::Create(resource))
                } else {
                    Deployment::Failed(stage, failure)
                },
                (Stage::Create(resource), Ok(_)) => Deployment::At(stage_behind(resource)),
                (Stage::Start, Ok(_)) => Deployment::At(Stage::AwaitKubeconfig),
                (Stage::Start, Err(failure)) => if docker::conflict(failure) {
                    Deployment::At(Stage::AwaitKubeconfig)
                } else {
                    Deployment::Failed(stage, failure)
                },
                (Stage::AwaitKubeconfig, Ok(_)) => Deployment::At(Stage::StoreKubeconfig),
                (Stage::StoreKubeconfig, Ok(_)) => Deployment::At(Stage::AwaitReady),
                (Stage::AwaitReady, Ok(_)) => Deployment::At(Stage::FetchMtls),
                (Stage::FetchMtls, Ok(_)) => Deployment::Deployed,
                (_, Err(failure)) => Deployment::Failed(stage, failure),
            },
            _ => self,
        }
    }

    /// Goes on behind a step.
    pub fn next(self, reply: Result<(), DockerFailure>) -> (r: Deployment)
        ensures
            r == self.after(reply),
            !(self is At) ==> r == self,
            reply matches Err(failure) ==> r matches Deployment::Failed(stage, said) ==> self is At
                ==> self == Deployment::At(stage) && said == failure,
    {
        let stage = match self {
            Deployment::At(stage) => stage,
            other => return other,
        };
        match stage {
            Stage::Inspect(resource) => match ensure_present(reply) {
                Ensure::Present => Deployment::At(behind(resource)),
                Ensure::Create => Deployment::At(Stage::Create(resource)),
                Ensure::Fail(failure) => Deployment::Failed(stage, failure),
            },
            Stage::Create(resource) => match reply {
                Ok(_) => Deployment::At(behind(resource)),
                Err(failure) => Deployment::Failed(stage, failure),
            },
            Stage::Start => match start_container(reply) {
                Ok(_) => Deployment::At(Stage::AwaitKubeconfig),
                Err(failure) => Deployment::Failed(stage, failure),
            },
            _ => match reply {
                Ok(_) => match stage {
                    Stage::AwaitKubeconfig => Deployment::At(Stage::StoreKubeconfig),
                    Stage::StoreKubeconfig => Deployment::At(Stage::AwaitReady),
                    Stage::AwaitReady => Deployment::At(Stage::FetchMtls),
                    _ => Deployment::Deployed,
                },
                Err(failure) => Deployment::Failed(stage, failure),
            },
        }
    }
}

/// What is said of a step that failed, in front of the failure's own message.
pub open spec fn failed_step(stage: Stage) -> Option<Seq<char>> {
    match stage {
        Stage::Create(Resource::Network) => Some("failed to create Docker network"@),
        Stage::Create(Resource::Volume) => Some("failed to create Docker volume"@),
        Stage::Create(Resource::Container) => Some("failed to create cluster container"@),
        Stage::Start => Some("failed to start cluster container"@),
        _ => None,
    }
}

/// What is said of a step that failed, in front of the failure's own message.
pub fn failure_context(stage: Stage) -> (r: Option<&'static str>)
    ensures
        match r {
            Some(context) => failed_step(stage) == Some(context@),
            None => failed_step(stage) is None,
        },
        match (stage, r) {
            (Stage::Create(Resource::Network), Some(context)) => context@
                == "failed to create Docker network"@,
            (Stage::Create(Resource::Volume), Some(context)) => context@
                == "failed to create Docker volume"@,
            (Stage::Create(Resource::Image), None) => true,
            (Stage::Create(Resource::Container), Some(context)) => context@
                == "failed to create cluster container"@,
            (Stage::Start, Some(context)) => context@ == "failed to start cluster container"@,
            (Stage::Create(_), _) => false,
            (Stage::Start, None) => false,
            (_, r) => r is None,
        },
{
    match stage {
        Stage::Create(Resource::Network) => Some("failed to create Docker network"),
        Stage::Create(Resource::Volume) => Some("failed to create Docker volume"),
        Stage::Create(Resource::Container) => Some("failed to create cluster container"),
        Stage::Start => Some("failed to start cluster container"),
        _ => None,
    }
}

/// What the Docker engine has of a cluster.
pub struct Engine {
    pub network: bool,
    pub volume: bool,
    pub image: bool,
    pub container: bool,
    pub running: bool,
}

impl Engine {
    /// Whether the engine has a resource.
    pub open spec fn has(self, resource: Resource) -> bool {
        match resource {
            Resource::Network => self.network,
            Resource::Volume => self.volume,
            Resource::Image => self.image,
            Resource::Container => self.container,
        }
    }

    /// The engine with a resource more.
    pub open spec fn with(self, resource: Resource) -> Engine {
        match resource {
            Resource::Network => Engine { network: true, ..self },
            Resource::Volume => Engine { volume: true, ..self },
            Resource::Image => Engine { image: true, ..self },
            Resource::Container => Engine { container: true, ..self },
        }
    }
}

/// What a step, and the reply to it, may have done to the engine. What fails may
/// have been done all the same.
pub open spec fn may_become(
    stage: Stage,
    reply: Result<(), DockerFailure>,
    before: Engine,
    now: Engine,
) -> bool {
    match stage {
        Stage::Inspect(resource) => {
            &&& now == before
            &&& reply is Ok ==> before.has(resource)
            &&& reply is Err && docker::not_found(reply->Err_0) ==> !before.has(resource)
        },
        Stage::Create(resource) => now == before.with(resource) || reply is Err && now == before,
        Stage::Start => {
            let runs = reply is Ok || docker::conflict(reply->Err_0);
            &&& now == (Engine { running: now.running, ..before })
            &&& runs ==> now.running
        },
        _ => now == before,
    }
}

/// A run of deploying: the steps, the engine at each, and the replies between
/// them.
pub open spec fn is_run(
    steps: Seq<Deployment>,
    engines: Seq<Engine>,
    replies: Seq<Result<(), DockerFailure>>,
) -> bool {
    &&& steps.len() == replies.len() + 1
    &&& engines.len() == replies.len() + 1
    &&& steps[0] == Deployment::At(Stage::Inspect(Resource::Network))
    &&& forall|i: int|
        0 <= i < replies.len() ==> #[trigger] steps[i].after(replies[i]) == steps[i + 1]
            && match steps[i] {
            Deployment::At(stage) => may_become(stage, replies[i], engines[i], engines[i + 1]),
            _ => engines[i] == engines[i + 1],
        }
}

/// Whether deploying has seen to a resource before a step.
spec fn seen_to(stage: Stage, resource: Resource) -> bool {
    match stage {
        Stage::Inspect(next) => place(resource) < place(next),
        Stage::Create(next) => place(resource) < place(next),
        _ => true,
    }
}

spec fn place(resource: Resource) -> int {
    match resource {
        Resource::Network => 0,
        Resource::Volume => 1,
        Resource::Image => 2,
        Resource::Container => 3,
    }
}

/// What holds at each step, given the engine on which deploying began.
spec fn holds_at(step: Deployment, first: Engine, now: Engine) -> bool {
    &&& forall|resource: Resource| first.has(resource) ==> #[trigger] now.has(resource)
    &&& match step {
        Deployment::At(stage) => {
            &&& forall|resource: Resource|
                seen_to(stage, resource) ==> #[trigger] now.has(resource)
            &&& forall|resource: Resource|
                !seen_to(stage, resource) ==> #[trigger] now.has(resource) == first.has(resource)
            &&& stage is Create ==> !now.has(stage->Create_0)
            &&& !(stage is Inspect || stage is Create || stage is Start) ==> now.running
        },
        Deployment::Deployed => now.running && forall|resource: Resource| #[trigger]
            now.has(resource),
        Deployment::Failed(_, _) => true,
    }
}

proof fn lemma_run(
    steps: Seq<Deployment>,
    engines: Seq<Engine>,
    replies: Seq<Result<(), DockerFailure>>,
    i: int,
)
    requires
        is_run(steps, engines, replies),
        0 <= i < steps.len(),
    ensures
        holds_at(steps[i], engines[0], engines[i]),
    decreases i,
{
    if i > 0 {
        lemma_run(steps, engines, replies, i - 1);
        assert(steps[i - 1].after(replies[i - 1]) == steps[i]);
        let before = engines[i - 1];
        let now = engines[i];
        assert forall|resource: Resource| before.has(resource) implies #[trigger] now.has(
            resource,
        ) by {
            match resource {
                Resource::Network => {},
                Resource::Volume => {},
                Resource::Image => {},
                Resource::Container => {},
            }
        }
        match steps[i - 1] {
            Deployment::At(Stage::Create(made)) => {
                assert forall|resource: Resource| resource != made implies #[trigger] now.has(
                    resource,
                ) == before.has(resource) by {}
                assert(replies[i - 1] is Ok ==> now.has(made));
            },
            _ => {},
        }
    }
}

/// Once a cluster is deployed, the engine has all that it needs and it runs.
pub proof fn law_deployed_cluster_runs(
    steps: Seq<Deployment>,
    engines: Seq<Engine>,
    replies: Seq<Result<(), DockerFailure>>,
    i: int,
    resource: Resource,
)
    requires
        is_run(steps, engines, replies),
        0 <= i < steps.len(),
        steps[i] is Deployed,
    ensures
        engines[i].running,
        engines[i].has(resource),
{
    lemma_run(steps, engines, replies, i);
}

/// Deploying creates only what is missing, and what is there stays.
pub proof fn law_deploying_creates_what_is_missing(
    steps: Seq<Deployment>,
    engines: Seq<Engine>,
    replies: Seq<Result<(), DockerFailure>>,
    i: int,
    resource: Resource,
)
    requires
        is_run(steps, engines, replies),
        0 <= i < steps.len(),
    ensures
        steps[i] == Deployment::At(Stage::Create(resource)) ==> !engines[0].has(resource),
        engines[0].has(resource) ==> engines[i].has(resource),
{
    lemma_run(steps, engines, replies, i);
}

/// Deploying where all is there already creates nothing: all that it may do to
/// the engine is start the container.
pub proof fn law_deploying_again_is_safe(
    steps: Seq<Deployment>,
    engines: Seq<Engine>,
    replies: Seq<Result<(), DockerFailure>>,
    i: int,
)
    requires
        is_run(steps, engines, replies),
        0 <= i < steps.len(),
        forall|resource: Resource| #[trigger] engines[0].has(resource),
    ensures
        engines[i] == (Engine { running: engines[i].running, ..engines[0] }),
        !(steps[i] is At && steps[i]->At_0 is Create),
{
    lemma_run(steps, engines, replies, i);
    assert(engines[i].has(Resource::Network) && engines[0].has(Resource::Network));
    assert(engines[i].has(Resource::Volume) && engines[0].has(Resource::Volume));
    assert(engines[i].has(Resource::Image) && engines[0].has(Resource::Image));
    assert(engines[i].has(Resource::Container) && engines[0].has(Resource::Container));
}

/// Where a step stands in the order of all steps.
spec fn rank(stage: Stage) -> int {
    match stage {
        Stage::Inspect(resource) => 2 * place(resource),
        Stage::Create(resource) => 2 * place(resource) + 1,
        Stage::Start => 8,
        Stage::AwaitKubeconfig => 9,
        Stage::StoreKubeconfig => 10,
        Stage::AwaitReady => 11,
        Stage::FetchMtls => 12,
    }
}

/// Whether a step was done and done well, in some part of a run.
pub open spec fn was_done(
    stage: Stage,
    steps: Seq<Deployment>,
    replies: Seq<Result<(), DockerFailure>>,
    end: int,
) -> bool {
    exists|j: int|
        0 <= j < end && #[trigger] steps[j] == Deployment::At(stage) && replies[j] is Ok
}

/// Once a cluster is deployed, its kubeconfig was fetched and stored anew, the
/// cluster was found healthy, and the client certificate was seen to.
pub proof fn law_deploying_refreshes_the_settings(
    steps: Seq<Deployment>,
    engines: Seq<Engine>,
    replies: Seq<Result<(), DockerFailure>>,
    i: int,
)
    requires
        is_run(steps, engines, replies),
        0 <= i < steps.len(),
        steps[i] is Deployed,
    ensures
        was_done(Stage::AwaitKubeconfig, steps, replies, i),
        was_done(Stage::StoreKubeconfig, steps, replies, i),
        was_done(Stage::AwaitReady, steps, replies, i),
        was_done(Stage::FetchMtls, steps, replies, i),
{
    lemma_done(steps, engines, replies, i);
}

proof fn lemma_done(
    steps: Seq<Deployment>,
    engines: Seq<Engine>,
    replies: Seq<Result<(), DockerFailure>>,
    i: int,
)
    requires
        is_run(steps, engines, replies),
        0 <= i < steps.len(),
        !(steps[i] is Failed),
    ensures
        ({
            let reached = match steps[i] {
                Deployment::At(stage) => rank(stage),
                _ => 13,
            };
            &&& reached > 9 ==> was_done(Stage::AwaitKubeconfig, steps, replies, i)
            &&& reached > 10 ==> was_done(Stage::StoreKubeconfig, steps, replies, i)
            &&& reached > 11 ==> was_done(Stage::AwaitReady, steps, replies, i)
            &&& reached > 12 ==> was_done(Stage::FetchMtls, steps, replies, i)
        }),
    decreases i,
{
    if i > 0 {
        assert(steps[i - 1].after(replies[i - 1]) == steps[i]);
        lemma_done(steps, engines, replies, i - 1);
        assert forall|stage: Stage| was_done(stage, steps, replies, i - 1) implies #[trigger] was_done(
            stage,
            steps,
            replies,
            i,
        ) by {
            let j = choose|j: int|
                0 <= j < i - 1 && #[trigger] steps[j] == Deployment::At(stage) && replies[j] is Ok;
            assert(steps[j] == Deployment::At(stage));
        }
        match steps[i - 1] {
            Deployment::At(stage) => {
                assert(steps[i - 1] == Deployment::At(stage));
                assert(replies[i - 1] is Ok ==> was_done(stage, steps, replies, i));
            },
            _ => {},
        }
    }
}

/// How many replies deploying can still wait for.
pub open spec fn replies_left(step: Deployment) -> nat {
    match step {
        Deployment::At(stage) => match stage {
            Stage::Inspect(Resource::Network) => 13,
            Stage::Create(Resource::Network) => 12,
            Stage::Inspect(Resource::Volume) => 11,
            Stage::Create(Resource::Volume) => 10,
            Stage::Inspect(Resource::Image) => 9,
            Stage::Create(Resource::Image) => 8,
            Stage::Inspect(Resource::Container) => 7,
            Stage::Create(Resource::Container) => 6,
            Stage::Start => 5,
            Stage::AwaitKubeconfig => 4,
            Stage::StoreKubeconfig => 3,
            Stage::AwaitReady => 2,
            Stage::FetchMtls => 1,
        },
        _ => 0,
    }
}

/// Deploying ends: each reply brings it nearer to its end, and it fails only
/// where a reply is a failure.
pub proof fn law_deploying_ends(step: Deployment, reply: Result<(), DockerFailure>)
    ensures
        replies_left(step) == 0 <==> !(step is At),
        step is At ==> replies_left(step.after(reply)) < replies_left(step),
        step is At && reply is Ok ==> !(step.after(reply) is Failed),
{
}

/// The steps in their order, where each is done well: what the engine has already is
/// passed over, and what it has not is created before the next is looked at.
pub open spec fn order() -> Seq<Deployment> {
    seq![
        Deployment::At(Stage::Inspect(Resource::Network)),
        Deployment::At(Stage::Inspect(Resource::Volume)),
        Deployment::At(Stage::Inspect(Resource::Image)),
        Deployment::At(Stage::Inspect(Resource::Container)),
        Deployment::At(Stage::Start),
        Deployment::At(Stage::AwaitKubeconfig),
        Deployment::At(Stage::StoreKubeconfig),
        Deployment::At(Stage::AwaitReady),
        Deployment::At(Stage::FetchMtls),
        Deployment::Deployed,
    ]
}

/// A step that is done leads to the next in the order, and creating a resource leads
/// where finding it would have led.
pub proof fn law_done_steps_follow_the_order(i: int, resource: Resource)
    requires
        0 <= i < order().len() - 1,
    ensures
        order()[i].after(Ok(())) == order()[i + 1],
        Deployment::At(Stage::Create(resource)).after(Ok(())) == Deployment::At(
            Stage::Inspect(resource),
        ).after(Ok(())),
{
}

/// A step that fails is where deploying ends, with the failure that the step had. But
/// what the engine does not know is created, and a container that runs already is
/// started.
pub proof fn law_failure_ends_deploying(stage: Stage, failure: DockerFailure)
    ensures
        ({
            let now = Deployment::At(stage).after(Err(failure));
            let unknown = stage is Inspect && failure.status == Some(404u16);
            let running = stage is Start && failure.status == Some(409u16);
            &&& unknown ==> now == Deployment::At(Stage::Create(stage->Inspect_0))
            &&& running ==> now == Deployment::At(Stage::AwaitKubeconfig)
            &&& !unknown && !running ==> now == Deployment::Failed(stage, failure)
        }),
{
}

/// Where deploying has ended, it stays as it is.
pub proof fn law_ended_deployment_stays(step: Deployment, reply: Result<(), DockerFailure>)
    requires
        !(step is At),
    ensures
        step.after(reply) == step,
{
}

/// Each step that asks the engine to make something says so when it fails, and says
/// what; of any other step only the failure's own message is told.
pub proof fn law_failed_steps_are_told_apart(stage: Stage)
    ensures
        stage == Stage::Create(Resource::Network) ==> failed_step(stage) == Some(
            "failed to create Docker network"@,
        ),
        stage == Stage::Create(Resource::Volume) ==> failed_step(stage) == Some(
            "failed to create Docker volume"@,
        ),
        stage == Stage::Create(Resource::Container) ==> failed_step(stage) == Some(
            "failed to create cluster container"@,
        ),
        stage is Start ==> failed_step(stage) == Some("failed to start cluster container"@),
        stage is Inspect || stage == Stage::Create(Resource::Image) ==> failed_step(stage) is None,
        stage is AwaitKubeconfig || stage is StoreKubeconfig || stage is AwaitReady || stage
            is FetchMtls ==> failed_step(stage) is None,
{
}

} // verus!
