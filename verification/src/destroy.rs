//! The steps that take a cluster down with all that belongs to it.
use vstd::prelude::*;

use crate::docker;
use crate::docker::{cleanup_network_if_unused, remove_if_present, DockerFailure, NetworkCleanup};

verus! {

/// One step of destroying.
#[derive(Clone, Copy, Debug, PartialEq, Eq, Structural)]
pub enum Removal {
    /// Stop the container.
    Stop,
    /// Remove the container, running or not.
    Container,
    /// Remove the volume with the cluster's state.
    Volume,
    /// Remove the stored kubeconfig.
    Kubeconfig,
    /// Count the containers that are attached to the network.
    InspectNetwork,
    /// Remove the network.
    Network,
}

/// How far destroying has come.
#[derive(Debug)]
pub enum Destruction {
    /// This step is to be done.
    At(Removal),
    /// The cluster is gone.
    Destroyed,
    /// This step failed.
    Failed(Removal, DockerFailure),
}

/// A reply that gives no count.
fn plain(reply: Result<usize, DockerFailure>) -> (r: Result<(), DockerFailure>)
    ensures
        r == match reply {
            Ok(_) => Ok::<(), DockerFailure>(()),
            Err(failure) => Err(failure),
        },
{
    match reply {
        Ok(_) => Ok(()),
        Err(failure) => Err(failure),
    }
}

impl Destruction {
    /// Begins to destroy.
    pub fn start() -> (r: Self)
        ensures
            r == Destruction::At(Removal::Stop),
    {
        Destruction::At(Removal::Stop)
    }

    /// The step behind a step. The reply holds the number of attached containers
    /// where they were counted. That stopping or removing the kubeconfig failed
    /// does not count, and what does not exist counts as removed.
    pub open spec fn after(self, reply: Result<usize, DockerFailure>) -> Destruction {
        match self {
            Destruction::At(removal) => match (removal, reply) {
                (Removal::Stop, _) => Destruction::At(Removal::Container),
                (Removal::Container, Ok(_)) => Destruction::At(Removal::Volume),
                (Removal::Container, Err(failure)) => if docker::not_found(failure) {
                    Destruction::At(Removal::Volume)
                } else {
                    Destruction::Failed(removal, failure)
                },
                (Removal::Volume, Ok(_)) => Destruction::At(Removal::Kubeconfig),
                (Removal::Volume, Err(failure)) => if docker::not_found(failure) {
                    Destruction::At(Removal::Kubeconfig)
                } else {
                    Destruction::Failed(removal, failure)
                },
                (Removal::Kubeconfig, _) => Destruction::At(Removal::InspectNetwork),
                (Removal::InspectNetwork, Ok(attached)) => if attached > 0 {
                    Destruction::Destroyed
                } else {
                    Destruction::At(Removal::Network)
                },
                (Removal::InspectNetwork, Err(failure)) => if docker::not_found(failure) {
                    Destruction::Destroyed
                } else {
                    Destruction::Failed(removal, failure)
                },
                (Removal::Network, Ok(_)) => Destruction::Destroyed,
                (Removal::Network, Err(failure)) => Destruction::Failed(removal, failure),
            },
            _ => self,
        }
    }

    /// Goes on behind a step. The reply holds the number of attached containers
    /// where they were counted.
    pub fn next(self, reply: Result<usize, DockerFailure>) -> (r: Destruction)
        ensures
            r == self.after(reply),
            !(self is At) ==> r == self,
            reply matches Err(failure) ==> r matches Destruction::Failed(removal, said) ==> self
                is At ==> self == Destruction::At(removal) && said == failure,
    {
        let removal = match self {
            Destruction::At(removal) => removal,
            other => return other,
        };
        match removal {
            Removal::Stop => Destruction::At(Removal::Container),
            Removal::Container => match remove_if_present(plain(reply)) {
                Ok(_) => Destruction::At(Removal::Volume),
                Err(failure) => Destruction::Failed(removal, failure),
            },
            Removal::Volume => match remove_if_present(plain(reply)) {
                Ok(_) => Destruction::At(Removal::Kubeconfig),
                Err(failure) => Destruction::Failed(removal, failure),
            },
            Removal::Kubeconfig => Destruction::At(Removal::InspectNetwork),
            Removal::InspectNetwork => match cleanup_network_if_unused(reply) {
                NetworkCleanup::Keep => Destruction::Destroyed,
                NetworkCleanup::Remove => Destruction::At(Removal::Network),
                NetworkCleanup::Fail(failure) => Destruction::Failed(removal, failure),
            },
            Removal::Network => match reply {
                Ok(_) => Destruction::Destroyed,
                Err(failure) => Destruction::Failed(removal, failure),
            },
        }
    }
}

/// What is said of a step that failed, in front of the failure's own message.
pub fn failure_context(removal: Removal) -> (r: Option<&'static str>)
    ensures
        match r {
            Some(context) => removal == Removal::Network && context@
                == "failed to remove Docker network"@,
            None => removal != Removal::Network,
        },
{
    match removal {
        Removal::Network => Some("failed to remove Docker network"),
        _ => None,
    }
}

/// What is left of a cluster. The network, where it exists, holds the number of
/// containers that are attached to it.
pub struct Remains {
    pub container: bool,
    pub volume: bool,
    pub kubeconfig: bool,
    pub network: Option<nat>,
}

/// What a step, and the reply to it, may have done. What fails may have been done
/// all the same, unless the engine says that there is nothing to do it to. With
/// its container a cluster may leave the network.
pub open spec fn may_become(
    removal: Removal,
    reply: Result<usize, DockerFailure>,
    before: Remains,
    now: Remains,
) -> bool {
    let absent = reply is Err && docker::not_found(reply->Err_0);
    match removal {
        Removal::Stop => now == before,
        Removal::Container => {
            &&& now == (Remains { container: now.container, network: now.network, ..before })
            &&& now.network is Some <==> before.network is Some
            &&& reply is Ok || absent ==> !now.container
        },
        Removal::Volume => {
            &&& now == (Remains { volume: now.volume, ..before })
            &&& reply is Ok || absent ==> !now.volume
        },
        Removal::Kubeconfig => {
            &&& now == (Remains { kubeconfig: now.kubeconfig, ..before })
            &&& reply is Ok ==> !now.kubeconfig
        },
        Removal::InspectNetwork => {
            &&& now == before
            &&& reply is Ok ==> before.network == Some(reply->Ok_0 as nat)
            &&& absent ==> before.network is None
        },
        Removal::Network => {
            &&& now == (Remains { network: now.network, ..before })
            &&& reply is Ok ==> now.network is None
        },
    }
}

/// A run of destroying: the steps, what is left at each, and the replies between
/// them.
pub open spec fn is_run(
    steps: Seq<Destruction>,
    remains: Seq<Remains>,
    replies: Seq<Result<usize, DockerFailure>>,
) -> bool {
    &&& steps.len() == replies.len() + 1
    &&& remains.len() == replies.len() + 1
    &&& steps[0] == Destruction::At(Removal::Stop)
    &&& forall|i: int|
        0 <= i < replies.len() ==> #[trigger] steps[i].after(replies[i]) == steps[i + 1]
            && match steps[i] {
            Destruction::At(removal) => may_become(removal, replies[i], remains[i], remains[i + 1]),
            _ => remains[i] == remains[i + 1],
        }
}

/// What holds at each step, given what there was at first.
spec fn holds_at(step: Destruction, first: Remains, now: Remains) -> bool {
    match step {
        Destruction::At(removal) => match removal {
            Removal::Stop => now == first,
            Removal::Container => now == first,
            Removal::Volume => !now.container && now.volume == first.volume && now.kubeconfig
                == first.kubeconfig,
            Removal::Kubeconfig => !now.container && !now.volume,
            Removal::InspectNetwork => !now.container && !now.volume,
            Removal::Network => !now.container && !now.volume && now.network == Some(0nat),
        },
        Destruction::Destroyed => !now.container && !now.volume && now.network != Some(0nat),
        Destruction::Failed(Removal::Container, _) => now.volume == first.volume
            && now.kubeconfig == first.kubeconfig,
        Destruction::Failed(Removal::Volume, _) => !now.container && now.kubeconfig
            == first.kubeconfig,
        Destruction::Failed(_, _) => !now.container && !now.volume,
    }
}

proof fn lemma_run(
    steps: Seq<Destruction>,
    remains: Seq<Remains>,
    replies: Seq<Result<usize, DockerFailure>>,
    i: int,
)
    requires
        is_run(steps, remains, replies),
        0 <= i < steps.len(),
    ensures
        holds_at(steps[i], remains[0], remains[i]),
    decreases i,
{
    if i > 0 {
        lemma_run(steps, remains, replies, i - 1);
        assert(steps[i - 1].after(replies[i - 1]) == steps[i]);
    }
}

/// Once a cluster is destroyed, its container and its volume are gone, and the
/// network is gone unless other containers are attached to it.
pub proof fn law_destroyed_cluster_is_gone(
    steps: Seq<Destruction>,
    remains: Seq<Remains>,
    replies: Seq<Result<usize, DockerFailure>>,
    i: int,
)
    requires
        is_run(steps, remains, replies),
        0 <= i < steps.len(),
        steps[i] is Destroyed,
    ensures
        !remains[i].container,
        !remains[i].volume,
        remains[i].network is Some ==> remains[i].network->0 > 0,
{
    lemma_run(steps, remains, replies, i);
}

/// The network is removed only while no container is attached to it.
pub proof fn law_network_in_use_stays(
    steps: Seq<Destruction>,
    remains: Seq<Remains>,
    replies: Seq<Result<usize, DockerFailure>>,
    i: int,
)
    requires
        is_run(steps, remains, replies),
        0 <= i < steps.len(),
        steps[i] == Destruction::At(Removal::Network),
    ensures
        remains[i].network == Some(0nat),
{
    lemma_run(steps, remains, replies, i);
}

/// The state of a cluster outlives a container that could not be removed: where
/// that step fails, neither the volume nor the kubeconfig is touched. Where the
/// volume could not be removed, the kubeconfig is kept.
pub proof fn law_failure_keeps_what_comes_later(
    steps: Seq<Destruction>,
    remains: Seq<Remains>,
    replies: Seq<Result<usize, DockerFailure>>,
    i: int,
)
    requires
        is_run(steps, remains, replies),
        0 <= i < steps.len(),
        steps[i] is Failed,
    ensures
        steps[i]->Failed_0 == Removal::Container ==> remains[i].volume == remains[0].volume
            && remains[i].kubeconfig == remains[0].kubeconfig,
        steps[i]->Failed_0 == Removal::Volume ==> remains[i].kubeconfig == remains[0].kubeconfig,
{
    lemma_run(steps, remains, replies, i);
}

/// How many replies destroying can still wait for.
pub open spec fn replies_left(step: Destruction) -> nat {
    match step {
        Destruction::At(removal) => match removal {
            Removal::Stop => 6,
            Removal::Container => 5,
            Removal::Volume => 4,
            Removal::Kubeconfig => 3,
            Removal::InspectNetwork => 2,
            Removal::Network => 1,
        },
        _ => 0,
    }
}

/// Destroying ends: each reply brings it nearer to its end, and it fails only
/// where a reply is a failure other than that there is nothing to remove. So a
/// cluster that is gone can be destroyed again.
pub proof fn law_destroying_ends(step: Destruction, reply: Result<usize, DockerFailure>)
    ensures
        replies_left(step) == 0 <==> !(step is At),
        step is At ==> replies_left(step.after(reply)) < replies_left(step),
        step is At && reply is Ok ==> !(step.after(reply) is Failed),
        step is At && step->At_0 != Removal::Network && reply is Err && docker::not_found(
            reply->Err_0,
        ) ==> !(step.after(reply) is Failed),
{
}

/// A step that is done leads to the next: the container is stopped, then it and the
/// volume and the kubeconfig are removed, and then the network is looked at, which goes
/// where no container is attached to it.
pub proof fn law_done_removals_follow_the_order(attached: usize)
    ensures
        Destruction::At(Removal::Stop).after(Ok(attached)) == Destruction::At(Removal::Container),
        Destruction::At(Removal::Container).after(Ok(attached)) == Destruction::At(Removal::Volume),
        Destruction::At(Removal::Volume).after(Ok(attached)) == Destruction::At(
            Removal::Kubeconfig,
        ),
        Destruction::At(Removal::Kubeconfig).after(Ok(attached)) == Destruction::At(
            Removal::InspectNetwork,
        ),
        attached == 0 ==> Destruction::At(Removal::InspectNetwork).after(Ok(attached))
            == Destruction::At(Removal::Network),
        attached > 0 ==> Destruction::At(Removal::InspectNetwork).after(Ok(attached))
            == Destruction::Destroyed,
        Destruction::At(Removal::Network).after(Ok(attached)) == Destruction::Destroyed,
{
}

/// That stopping, or removing the kubeconfig, failed makes no difference. Where another
/// step finds nothing to remove, it counts as done, but for removing the network. Any
/// other failure is where destroying ends, with the failure that the step had.
pub proof fn law_failure_ends_destroying(removal: Removal, failure: DockerFailure)
    ensures
        ({
            let now = Destruction::At(removal).after(Err(failure));
            let gone = failure.status == Some(404u16);
            match removal {
                Removal::Stop => now == Destruction::At(Removal::Container),
                Removal::Kubeconfig => now == Destruction::At(Removal::InspectNetwork),
                Removal::Container => now == if gone {
                    Destruction::At(Removal::Volume)
                } else {
                    Destruction::Failed(removal, failure)
                },
                Removal::Volume => now == if gone {
                    Destruction::At(Removal::Kubeconfig)
                } else {
                    Destruction::Failed(removal, failure)
                },
                Removal::InspectNetwork => now == if gone {
                    Destruction::Destroyed
                } else {
                    Destruction::Failed(removal, failure)
                },
                Removal::Network => now == Destruction::Failed(removal, failure),
            }
        }),
{
}

/// Where destroying has ended, it stays as it is.
pub proof fn law_ended_destruction_stays(step: Destruction, reply: Result<usize, DockerFailure>)
    requires
        !(step is At),
    ensures
        step.after(reply) == step,
{
}

} // verus!
