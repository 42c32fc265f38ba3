//! What deploying a cluster asks for, step by step.
use vstd::prelude::*;

use crate::cluster;
use crate::cluster::{
    container_name, container_request, deployed_image_ref, network_request, volume_name,
    ContainerRequest, DeployOptions, NetworkRequest, KUBECONFIG_PATH, NETWORK_NAME,
};
use crate::deploy::{Deployment, Resource, Stage};
use crate::destroy::Removal;
use crate::docker::DockerFailure;
use crate::exec::print_file_command;
use crate::handle;
use crate::handle::{cluster_handle, ClusterHandle};
use crate::kubeconfig;
use crate::kubeconfig::kubeconfig_to_store;
use crate::paths;
use crate::paths::{Environment, HomeNotSet, HostPath};
use crate::poll::KUBECONFIG_TIMED_OUT;
use crate::text;

verus! {

/// What deploying a cluster makes, and how far it has come.
#[derive(Debug)]
pub struct DeployPlan {
    handle: ClusterHandle,
    image_ref: String,
    step: Deployment,
    to_store: Option<String>,
}

/// What a plan to deploy holds. The text to store is known once the cluster has
/// printed its kubeconfig.
#[verifier::ext_equal]
pub struct PlanView {
    pub handle: handle::HandleView,
    pub image_ref: Seq<char>,
    pub step: Deployment,
    pub to_store: Option<Seq<char>>,
}

impl View for DeployPlan {
    type V = PlanView;

    closed spec fn view(&self) -> PlanView {
        PlanView {
            handle: self.handle@,
            image_ref: self.image_ref@,
            step: self.step,
            to_store: match self.to_store {
                Some(contents) => Some(contents@),
                None => None,
            },
        }
    }
}

/// What is to be done next to deploy a cluster.
#[derive(Debug)]
pub enum DeployAction {
    InspectNetwork(&'static str),
    InspectVolume(String),
    InspectImage(String),
    InspectContainer(String),
    CreateNetwork(NetworkRequest),
    CreateVolume(String),
    PullImage(String),
    CreateContainer(ContainerRequest),
    /// Start the container.
    Start(String),
    /// Run the command in the container until it prints a kubeconfig.
    AwaitKubeconfig { container: String, command: Vec<String> },
    /// Store the text at the path.
    StoreKubeconfig { path: HostPath, contents: String },
    /// Wait until the container is healthy.
    AwaitReady(String),
    /// Fetch and store the client certificate, where the gateway asks for one.
    FetchMtls(String),
}

/// What an action to deploy a cluster is about.
pub enum ActionView {
    InspectNetwork(Seq<char>),
    InspectVolume(Seq<char>),
    InspectImage(Seq<char>),
    InspectContainer(Seq<char>),
    CreateNetwork(cluster::NetworkView),
    CreateVolume(Seq<char>),
    PullImage(Seq<char>),
    CreateContainer(cluster::ContainerView),
    Start(Seq<char>),
    AwaitKubeconfig { container: Seq<char>, command: Seq<Seq<char>> },
    StoreKubeconfig { path: paths::PathView, contents: Seq<char> },
    AwaitReady(Seq<char>),
    FetchMtls(Seq<char>),
}

impl View for DeployAction {
    type V = ActionView;

    open spec fn view(&self) -> ActionView {
        match *self {
            DeployAction::InspectNetwork(network) => ActionView::InspectNetwork(network@),
            DeployAction::InspectVolume(volume) => ActionView::InspectVolume(volume@),
            DeployAction::InspectImage(image) => ActionView::InspectImage(image@),
            DeployAction::InspectContainer(container) => ActionView::InspectContainer(container@),
            DeployAction::CreateNetwork(request) => ActionView::CreateNetwork(request@),
            DeployAction::CreateVolume(volume) => ActionView::CreateVolume(volume@),
            DeployAction::PullImage(image) => ActionView::PullImage(image@),
            DeployAction::CreateContainer(request) => ActionView::CreateContainer(request@),
            DeployAction::Start(container) => ActionView::Start(container@),
            DeployAction::AwaitKubeconfig { container, command } => ActionView::AwaitKubeconfig {
                container: container@,
                command: text::views(command@),
            },
            DeployAction::StoreKubeconfig { path, contents } => ActionView::StoreKubeconfig {
                path: path@,
                contents: contents@,
            },
            DeployAction::AwaitReady(container) => ActionView::AwaitReady(container@),
            DeployAction::FetchMtls(container) => ActionView::FetchMtls(container@),
        }
    }
}

/// What a step is about, under a plan.
pub open spec fn stage_action(stage: Stage, plan: PlanView) -> ActionView {
    let resource = cluster::resource_name(plan.handle.name);
    match stage {
        Stage::Inspect(Resource::Network) => ActionView::InspectNetwork("navigator-cluster"@),
        Stage::Inspect(Resource::Volume) => ActionView::InspectVolume(resource),
        Stage::Inspect(Resource::Image) => ActionView::InspectImage(plan.image_ref),
        Stage::Inspect(Resource::Container) => ActionView::InspectContainer(resource),
        Stage::Create(Resource::Network) => ActionView::CreateNetwork(cluster::cluster_network()),
        Stage::Create(Resource::Volume) => ActionView::CreateVolume(resource),
        Stage::Create(Resource::Image) => ActionView::PullImage(plan.image_ref),
        Stage::Create(Resource::Container) => ActionView::CreateContainer(
            cluster::cluster_container(plan.handle.name, plan.image_ref),
        ),
        Stage::Start => ActionView::Start(resource),
        Stage::AwaitKubeconfig => ActionView::AwaitKubeconfig {
            container: resource,
            command: seq!["cat"@, "/etc/rancher/k3s/k3s.yaml"@],
        },
        Stage::StoreKubeconfig => ActionView::StoreKubeconfig {
            path: plan.handle.kubeconfig_path,
            contents: plan.to_store->0,
        },
        Stage::AwaitReady => ActionView::AwaitReady(resource),
        Stage::FetchMtls => ActionView::FetchMtls(resource),
    }
}

/// What came of an action.
#[derive(Debug)]
pub enum DeployReply {
    /// It was done.
    Done,
    /// It was not.
    Refused(DockerFailure),
    /// This is what the container printed last while its kubeconfig was awaited.
    Printed(String),
}

/// What a reply says.
pub enum ReplyView {
    Done,
    Refused(DockerFailure),
    Printed(Seq<char>),
}

impl View for DeployReply {
    type V = ReplyView;

    open spec fn view(&self) -> ReplyView {
        match *self {
            DeployReply::Done => ReplyView::Done,
            DeployReply::Refused(failure) => ReplyView::Refused(failure),
            DeployReply::Printed(output) => ReplyView::Printed(output@),
        }
    }
}

/// Whether a reply brings a kubeconfig.
pub open spec fn brings_kubeconfig(reply: ReplyView) -> bool {
    reply is Printed && kubeconfig::looks_like_kubeconfig(reply->Printed_0)
}

/// What a reply means to a step: where the kubeconfig was awaited and none was
/// printed, the waiting has failed.
pub open spec fn means(step: Deployment, reply: ReplyView, outcome: Result<(), DockerFailure>) -> bool {
    match reply {
        ReplyView::Refused(failure) => outcome == Err::<(), DockerFailure>(failure),
        _ => if step == Deployment::At(Stage::AwaitKubeconfig) && !brings_kubeconfig(reply) {
            outcome matches Err(failure) && failure.status is None && failure.message@
                == "timed out waiting for kubeconfig"@
        } else {
            outcome == Ok::<(), DockerFailure>(())
        },
    }
}

impl PlanView {
    /// What the plan may become behind an action.
    pub open spec fn goes_to(self, reply: ReplyView, now: PlanView) -> bool {
        &&& exists|outcome: Result<(), DockerFailure>| #[trigger]
            means(self.step, reply, outcome) && now.step == self.step.after(outcome)
        &&& now.handle == self.handle
        &&& now.image_ref == self.image_ref
        &&& now.to_store == if self.step == Deployment::At(Stage::AwaitKubeconfig)
            && brings_kubeconfig(reply) {
            Some(kubeconfig::rewritten(reply->Printed_0, self.handle.name))
        } else {
            self.to_store
        }
    }
}

impl DeployPlan {
    /// Where the kubeconfig is to be stored, there is one.
    #[verifier::type_invariant]
    spec fn knows_what_to_store(self) -> bool {
        self.step == Deployment::At(Stage::StoreKubeconfig) ==> self.to_store is Some
    }

    /// How far deploying has come.
    pub fn step(&self) -> (r: &Deployment)
        ensures
            *r == self@.step,
    {
        &self.step
    }

    /// The cluster that is deployed.
    pub fn handle(&self) -> (r: &ClusterHandle)
        ensures
            r@ == self@.handle,
    {
        &self.handle
    }

    /// The image from which the cluster is made.
    pub fn image_ref(&self) -> (r: &str)
        ensures
            r@ == self@.image_ref,
    {
        self.image_ref.as_str()
    }

    /// What is to be done next; `None` where nothing is.
    pub fn action(&self) -> (r: Option<DeployAction>)
        ensures
            match (r, self@.step) {
                (Some(action), Deployment::At(stage)) => action@ == stage_action(stage, self@),
                (None, Deployment::At(_)) => false,
                (r, _) => r is None,
            },
            match r {
                Some(DeployAction::InspectNetwork(network)) => {
                    &&& self@.step == Deployment::At(Stage::Inspect(Resource::Network))
                    &&& network@ == "navigator-cluster"@
                },
                Some(DeployAction::InspectVolume(volume)) => {
                    &&& self@.step == Deployment::At(Stage::Inspect(Resource::Volume))
                    &&& volume@ == "navigator-cluster-"@ + self@.handle.name
                },
                Some(DeployAction::InspectImage(image)) => {
                    &&& self@.step == Deployment::At(Stage::Inspect(Resource::Image))
                    &&& image@ == self@.image_ref
                },
                Some(DeployAction::InspectContainer(container)) => {
                    &&& self@.step == Deployment::At(Stage::Inspect(Resource::Container))
                    &&& container@ == "navigator-cluster-"@ + self@.handle.name
                },
                Some(DeployAction::CreateNetwork(request)) => {
                    &&& self@.step == Deployment::At(Stage::Create(Resource::Network))
                    &&& request@ == cluster::cluster_network()
                },
                Some(DeployAction::CreateVolume(volume)) => {
                    &&& self@.step == Deployment::At(Stage::Create(Resource::Volume))
                    &&& volume@ == "navigator-cluster-"@ + self@.handle.name
                },
                Some(DeployAction::PullImage(image)) => {
                    &&& self@.step == Deployment::At(Stage::Create(Resource::Image))
                    &&& image@ == self@.image_ref
                },
                Some(DeployAction::CreateContainer(request)) => {
                    &&& self@.step == Deployment::At(Stage::Create(Resource::Container))
                    &&& request@ == cluster::cluster_container(
                        self@.handle.name,
                        self@.image_ref,
                    )
                },
                Some(DeployAction::Start(container)) => {
                    &&& self@.step == Deployment::At(Stage::Start)
                    &&& container@ == "navigator-cluster-"@ + self@.handle.name
                },
                Some(DeployAction::AwaitKubeconfig { container, command }) => {
                    &&& self@.step == Deployment::At(Stage::AwaitKubeconfig)
                    &&& container@ == "navigator-cluster-"@ + self@.handle.name
                    &&& text::views(command@) == seq!["cat"@, "/etc/rancher/k3s/k3s.yaml"@]
                },
                Some(DeployAction::StoreKubeconfig { path, contents }) => {
                    &&& self@.step == Deployment::At(Stage::StoreKubeconfig)
                    &&& path@ == self@.handle.kubeconfig_path
                    &&& self@.to_store == Some(contents@)
                },
                Some(DeployAction::AwaitReady(container)) => {
                    &&& self@.step == Deployment::At(Stage::AwaitReady)
                    &&& container@ == "navigator-cluster-"@ + self@.handle.name
                },
                Some(DeployAction::FetchMtls(container)) => {
                    &&& self@.step == Deployment::At(Stage::FetchMtls)
                    &&& container@ == "navigator-cluster-"@ + self@.handle.name
                },
                None => !(self@.step is At),
            },
    {
        proof {
            use_type_invariant(self);
        }
        let stage = match &self.step {
            Deployment::At(stage) => *stage,
            _ => return None,
        };
        let name = self.handle.name();
        Some(
            match stage {
                Stage::Inspect(Resource::Network) => DeployAction::InspectNetwork(NETWORK_NAME),
                Stage::Inspect(Resource::Volume) => DeployAction::InspectVolume(volume_name(name)),
                Stage::Inspect(Resource::Image) => DeployAction::InspectImage(
                    self.image_ref.clone(),
                ),
                Stage::Inspect(Resource::Container) => DeployAction::InspectContainer(
                    container_name(name),
                ),
                Stage::Create(Resource::Network) => DeployAction::CreateNetwork(network_request()),
                Stage::Create(Resource::Volume) => DeployAction::CreateVolume(volume_name(name)),
                Stage::Create(Resource::Image) => DeployAction::PullImage(self.image_ref.clone()),
                Stage::Create(Resource::Container) => DeployAction::CreateContainer(
                    container_request(name, self.image_ref.as_str()),
                ),
                Stage::Start => DeployAction::Start(container_name(name)),
                Stage::AwaitKubeconfig => DeployAction::AwaitKubeconfig {
                    container: container_name(name),
                    command: print_file_command(KUBECONFIG_PATH),
                },
                Stage::StoreKubeconfig => DeployAction::StoreKubeconfig {
                    path: self.handle.kubeconfig_path().clone(),
                    contents: self.to_store.as_ref().unwrap().clone(),
                },
                Stage::AwaitReady => DeployAction::AwaitReady(container_name(name)),
                Stage::FetchMtls => DeployAction::FetchMtls(container_name(name)),
            },
        )
    }

    /// Goes on behind an action.
    pub fn next(self, reply: DeployReply) -> (r: DeployPlan)
        ensures
            self@.goes_to(reply@, r@),
            r@.handle == self@.handle && r@.image_ref == self@.image_ref,
            reply matches DeployReply::Refused(failure) ==> r@.step == self@.step.after(
                Err(failure),
            ) && r@.to_store == self@.to_store,
            !(reply is Refused) && self@.step != Deployment::At(Stage::AwaitKubeconfig) ==> r@.step
                == self@.step.after(Ok(())) && r@.to_store == self@.to_store,
            self@.step == Deployment::At(Stage::AwaitKubeconfig) ==> match reply {
                DeployReply::Printed(output) => if kubeconfig::looks_like_kubeconfig(output@) {
                    r@.step == Deployment::At(Stage::StoreKubeconfig) && r@.to_store == Some(
                        kubeconfig::rewritten(output@, self@.handle.name),
                    )
                } else {
                    r@.step is Failed && r@.to_store == self@.to_store
                },
                DeployReply::Done => r@.step is Failed && r@.to_store == self@.to_store,
                DeployReply::Refused(_) => true,
            },
    {
        proof {
            use_type_invariant(&self);
        }
        let DeployPlan { handle, image_ref, step, to_store } = self;
        let awaited = match &step {
            Deployment::At(Stage::AwaitKubeconfig) => true,
            _ => false,
        };
        let found = match &reply {
            DeployReply::Printed(output) => if awaited {
                kubeconfig_to_store(output.as_str(), handle.name())
            } else {
                None
            },
            _ => None,
        };
        let outcome: Result<(), DockerFailure> = match reply {
            DeployReply::Refused(failure) => Err(failure),
            _ => if awaited && found.is_none() {
                Err(DockerFailure { status: None, message: KUBECONFIG_TIMED_OUT.to_string() })
            } else {
                Ok(())
            },
        };
        assert(means(step, reply@, outcome));
        let to_store = match found {
            Some(contents) => Some(contents),
            None => to_store,
        };
        DeployPlan { handle, image_ref, step: step.next(outcome), to_store }
    }

    /// The cluster, and how deploying it ended.
    pub fn into_parts(self) -> (r: (ClusterHandle, Deployment))
        ensures
            r.0@ == self@.handle,
            r.1 == self@.step,
    {
        let DeployPlan { handle, step, .. } = self;
        (handle, step)
    }
}

/// What is to be deployed, with nothing done yet. It fails before anything is
/// done where there is no place for the cluster's settings.
pub fn deploy_cluster(options: DeployOptions, env: &Environment) -> (r: Result<
    DeployPlan,
    HomeNotSet,
>)
    ensures
        match (r, paths::config_dir(env.xdg_config_home, env.home)) {
            (Ok(plan), Some(config)) => plan@ == (PlanView {
                handle: handle::handle_of(config, options.name@),
                image_ref: cluster::deployed_image(options, *env),
                step: Deployment::At(Stage::Inspect(Resource::Network)),
                to_store: None,
            }),
            (Err(_), None) => true,
            _ => false,
        },
{
    let image_ref = deployed_image_ref(&options, env);
    match cluster_handle(env, options.name.as_str()) {
        Ok(handle) => Ok(
            DeployPlan { handle, image_ref, step: Deployment::start(), to_store: None },
        ),
        Err(e) => Err(e),
    }
}

/// A run of a plan: the plan at each step, and the replies between them.
pub open spec fn is_run(plans: Seq<PlanView>, replies: Seq<ReplyView>) -> bool {
    &&& plans.len() == replies.len() + 1
    &&& plans[0].step == Deployment::At(Stage::Inspect(Resource::Network))
    &&& plans[0].to_store is None
    &&& forall|i: int|
        0 <= i < replies.len() ==> plans[i].goes_to(#[trigger] replies[i], plans[i + 1])
}

/// A plan goes through the steps of a deployment: each reply has a meaning with
/// which the next step is behind the one before.
pub proof fn law_plan_follows_the_steps(plans: Seq<PlanView>, replies: Seq<ReplyView>) -> (outcomes:
    Seq<Result<(), DockerFailure>>)
    requires
        is_run(plans, replies),
    ensures
        outcomes.len() == replies.len(),
        forall|i: int|
            0 <= i < replies.len() ==> means(plans[i].step, replies[i], #[trigger] outcomes[i])
                && plans[i + 1].step == plans[i].step.after(outcomes[i]),
{
    let outcomes = Seq::new(
        replies.len(),
        |i: int|
            choose|outcome: Result<(), DockerFailure>| #[trigger]
                means(plans[i].step, replies[i], outcome) && plans[i + 1].step
                    == plans[i].step.after(outcome),
    );
    assert forall|i: int| 0 <= i < replies.len() implies means(
        plans[i].step,
        replies[i],
        #[trigger] outcomes[i],
    ) && plans[i + 1].step == plans[i].step.after(outcomes[i]) by {
        assert(plans[i].goes_to(replies[i], plans[i + 1]));
    }
    outcomes
}

/// What deploying stores, it stores as the kubeconfig of the cluster that it began
/// with, and it deploys no other.
pub proof fn law_deploying_stores_in_one_place(
    plans: Seq<PlanView>,
    replies: Seq<ReplyView>,
    i: int,
)
    requires
        is_run(plans, replies),
        0 <= i < plans.len(),
    ensures
        plans[i].handle == plans[0].handle,
        plans[i].image_ref == plans[0].image_ref,
        stage_action(Stage::StoreKubeconfig, plans[i])->StoreKubeconfig_path
            == plans[0].handle.kubeconfig_path,
    decreases i,
{
    if i > 0 {
        law_deploying_stores_in_one_place(plans, replies, i - 1);
        assert(plans[i - 1].goes_to(replies[i - 1], plans[i]));
    }
}

/// Whether a kubeconfig that the container printed was accepted at one step, and
/// its rewritten form was stored at the next.
pub open spec fn stored_at(plans: Seq<PlanView>, replies: Seq<ReplyView>, a: int) -> bool {
    let name = plans[0].handle.name;
    &&& plans[a].step == Deployment::At(Stage::AwaitKubeconfig)
    &&& stage_action(Stage::AwaitKubeconfig, plans[a]) == (ActionView::AwaitKubeconfig {
        container: cluster::resource_name(name),
        command: seq!["cat"@, "/etc/rancher/k3s/k3s.yaml"@],
    })
    &&& brings_kubeconfig(replies[a])
    &&& plans[a + 1].step == Deployment::At(Stage::StoreKubeconfig)
    &&& stage_action(Stage::StoreKubeconfig, plans[a + 1]) == (ActionView::StoreKubeconfig {
        path: plans[0].handle.kubeconfig_path,
        contents: kubeconfig::rewritten(replies[a]->Printed_0, name),
    })
    &&& !(replies[a + 1] is Refused)
}

/// Once a cluster is deployed, its kubeconfig is stored: what the container
/// printed, which looks like a kubeconfig, rewritten under the cluster's name, at
/// the path of the cluster's handle.
pub proof fn law_deployed_kubeconfig_is_stored(
    plans: Seq<PlanView>,
    replies: Seq<ReplyView>,
    i: int,
)
    requires
        is_run(plans, replies),
        0 <= i < plans.len(),
        plans[i].step is Deployed,
    ensures
        exists|a: int| 0 <= a && a + 1 < i && #[trigger] stored_at(plans, replies, a),
    decreases i,
{
    assert(i > 0);
    assert(plans[i - 1].goes_to(replies[i - 1], plans[i]));
    if plans[i - 1].step is Deployed {
        law_deployed_kubeconfig_is_stored(plans, replies, i - 1);
        let a = choose|a: int|
            0 <= a && a + 1 < i - 1 && #[trigger] stored_at(plans, replies, a);
        assert(stored_at(plans, replies, a));
    } else {
        assert(plans[i - 1].step == Deployment::At(Stage::FetchMtls));
        assert(i > 1);
        assert(plans[i - 2].goes_to(replies[i - 2], plans[i - 1]));
        assert(plans[i - 2].step == Deployment::At(Stage::AwaitReady));
        assert(i > 2);
        assert(plans[i - 3].goes_to(replies[i - 3], plans[i - 2]));
        assert(plans[i - 3].step == Deployment::At(Stage::StoreKubeconfig));
        assert(i > 3);
        assert(plans[i - 4].goes_to(replies[i - 4], plans[i - 3]));
        assert(plans[i - 4].step == Deployment::At(Stage::AwaitKubeconfig));
        law_deploying_stores_in_one_place(plans, replies, i - 4);
        law_deploying_stores_in_one_place(plans, replies, i - 3);
        assert(stored_at(plans, replies, i - 4));
    }
}

/// What is deployed is what is destroyed: the container, the volume and the network
/// that deploying creates, and the kubeconfig that it stores, are those that
/// destroying removes.
pub proof fn law_destroying_removes_what_deploying_made(plan: PlanView)
    ensures
        ({
            let gone = handle::destroy_plan(plan.handle);
            let container = stage_action(Stage::Create(Resource::Container), plan);
            let network = stage_action(Stage::Create(Resource::Network), plan);
            &&& handle::removal_action(Removal::Container, gone)
                == handle::DestroyActionView::RemoveContainer(container->CreateContainer_0.name)
            &&& stage_action(Stage::Create(Resource::Volume), plan) == ActionView::CreateVolume(
                gone.volume,
            )
            &&& container->CreateContainer_0.binds == seq![
                gone.volume + ":/var/lib/rancher/k3s"@,
            ]
            &&& handle::removal_action(Removal::Volume, gone)
                == handle::DestroyActionView::RemoveVolume(gone.volume)
            &&& handle::removal_action(Removal::Kubeconfig, gone)
                == handle::DestroyActionView::RemoveKubeconfig(
                stage_action(Stage::StoreKubeconfig, plan)->StoreKubeconfig_path,
            )
            &&& handle::removal_action(Removal::Network, gone)
                == handle::DestroyActionView::RemoveNetwork(network->CreateNetwork_0.name)
        }),
{
}

/// What the steps act on fits together. What is looked for is what is created where it
/// is missing; the container that is created is the one that is started, asked and
/// awaited; it runs the image that was looked for, in the network that was.
pub proof fn law_steps_act_on_the_same(plan: PlanView)
    ensures
        ({
            let container = stage_action(Stage::Create(Resource::Container), plan);
            let network = stage_action(Stage::Create(Resource::Network), plan);
            let name = "navigator-cluster-"@ + plan.handle.name;
            &&& stage_action(Stage::Inspect(Resource::Network), plan) == ActionView::InspectNetwork(
                network->CreateNetwork_0.name,
            )
            &&& stage_action(Stage::Inspect(Resource::Volume), plan) == ActionView::InspectVolume(
                name,
            )
            &&& stage_action(Stage::Create(Resource::Volume), plan) == ActionView::CreateVolume(
                name,
            )
            &&& stage_action(Stage::Inspect(Resource::Image), plan) == ActionView::InspectImage(
                plan.image_ref,
            )
            &&& stage_action(Stage::Create(Resource::Image), plan) == ActionView::PullImage(
                plan.image_ref,
            )
            &&& stage_action(Stage::Inspect(Resource::Container), plan)
                == ActionView::InspectContainer(name)
            &&& container is CreateContainer
            &&& container->CreateContainer_0.name == name
            &&& container->CreateContainer_0.image == plan.image_ref
            &&& container->CreateContainer_0.network_mode == network->CreateNetwork_0.name
            &&& stage_action(Stage::Start, plan) == ActionView::Start(name)
            &&& stage_action(Stage::AwaitKubeconfig, plan) == (ActionView::AwaitKubeconfig {
                container: name,
                command: seq!["cat"@, "/etc/rancher/k3s/k3s.yaml"@],
            })
            &&& stage_action(Stage::AwaitReady, plan) == ActionView::AwaitReady(name)
            &&& stage_action(Stage::FetchMtls, plan) == ActionView::FetchMtls(name)
        }),
{
}

/// What is stored is the text that the plan holds, at the path of the cluster's handle.
pub proof fn law_plan_stores_its_text(plan: PlanView)
    requires
        plan.to_store is Some,
    ensures
        stage_action(Stage::StoreKubeconfig, plan) == (ActionView::StoreKubeconfig {
            path: plan.handle.kubeconfig_path,
            contents: plan.to_store->0,
        }),
{
}

/// A plan whose action was refused has failed there, with the failure that was given,
/// unless the engine does not know what was looked for or the container runs already.
/// It still deploys the same cluster, and has the same to store.
pub proof fn law_refusal_ends_the_plan(
    plan: PlanView,
    stage: Stage,
    failure: DockerFailure,
    now: PlanView,
)
    requires
        plan.step == Deployment::At(stage),
        plan.goes_to(ReplyView::Refused(failure), now),
    ensures
        now.handle == plan.handle && now.image_ref == plan.image_ref,
        now.to_store == plan.to_store,
        stage is Inspect && failure.status == Some(404u16) ==> now.step == Deployment::At(
            Stage::Create(stage->Inspect_0),
        ),
        stage is Start && failure.status == Some(409u16) ==> now.step == Deployment::At(
            Stage::AwaitKubeconfig,
        ),
        !(stage is Inspect && failure.status == Some(404u16)) && !(stage is Start && failure.status
            == Some(409u16)) ==> now.step == Deployment::Failed(stage, failure),
{
}

/// An action that was done brings the plan to the next step, with the same cluster and
/// the same to store. Only while the kubeconfig is awaited is it not enough.
pub proof fn law_done_action_brings_the_plan_on(plan: PlanView, reply: ReplyView, now: PlanView)
    requires
        plan.step is At,
        plan.step != Deployment::At(Stage::AwaitKubeconfig),
        !(reply is Refused),
        plan.goes_to(reply, now),
    ensures
        now.step == plan.step.after(Ok(())),
        now.handle == plan.handle && now.image_ref == plan.image_ref,
        now.to_store == plan.to_store,
{
}

/// While the kubeconfig is awaited, a plan goes on only with an output that looks like
/// one, and keeps it, rewritten, as what is to be stored. With anything else the time
/// is up.
pub proof fn law_awaited_kubeconfig_must_come(plan: PlanView, reply: ReplyView, now: PlanView)
    requires
        plan.step == Deployment::At(Stage::AwaitKubeconfig),
        !(reply is Refused),
        plan.goes_to(reply, now),
    ensures
        now.handle == plan.handle && now.image_ref == plan.image_ref,
        match reply {
            ReplyView::Printed(output) => if kubeconfig::looks_like_kubeconfig(output) {
                now.step == Deployment::At(Stage::StoreKubeconfig) && now.to_store == Some(
                    kubeconfig::rewritten(output, plan.handle.name),
                )
            } else {
                now.step matches Deployment::Failed(stage, failure) && stage
                    == Stage::AwaitKubeconfig && failure.status is None && failure.message@
                    == "timed out waiting for kubeconfig"@ && now.to_store == plan.to_store
            },
            _ => now.step matches Deployment::Failed(stage, failure) && stage
                == Stage::AwaitKubeconfig && failure.status is None && failure.message@
                == "timed out waiting for kubeconfig"@ && now.to_store == plan.to_store,
        },
{
}

/// What is deployed first is the cluster that was asked for, from the image that was,
/// and it is looked for before anything else is done.
pub proof fn law_plan_begins_with_what_was_asked_for(
    plan: PlanView,
    config: paths::PathView,
    options: DeployOptions,
    env: Environment,
)
    requires
        plan == (PlanView {
            handle: handle::handle_of(config, options.name@),
            image_ref: cluster::deployed_image(options, env),
            step: Deployment::At(Stage::Inspect(Resource::Network)),
            to_store: None,
        }),
    ensures
        plan.handle.name == options.name@,
        options.image_ref matches Some(image) ==> plan.image_ref == image@,
        stage_action(Stage::Create(Resource::Container), plan) matches ActionView::CreateContainer(
            container,
        ) && container.name == "navigator-cluster-"@ + options.name@ && container.image
            == plan.image_ref,
{
}

} // verus!
