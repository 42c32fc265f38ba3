//! A cluster by its name, and what can be done with it.
use vstd::prelude::*;

use crate::cluster;
use crate::cluster::{container_name, volume_name, NETWORK_NAME};
use crate::destroy::{Destruction, Removal};
use crate::docker::DockerFailure;
use crate::paths;
use crate::paths::{stored_kubeconfig_path, Environment, HomeNotSet, HostPath};

verus! {

/// A cluster, and where its kubeconfig is kept.
#[derive(Debug, Clone)]
pub struct ClusterHandle {
    name: String,
    kubeconfig_path: HostPath,
}

/// What a handle holds.
#[verifier::ext_equal]
pub struct HandleView {
    pub name: Seq<char>,
    pub kubeconfig_path: paths::PathView,
}

impl View for ClusterHandle {
    type V = HandleView;

    closed spec fn view(&self) -> HandleView {
        HandleView { name: self.name@, kubeconfig_path: self.kubeconfig_path@ }
    }
}

impl ClusterHandle {
    /// The cluster's name.
    pub fn name(&self) -> (r: &str)
        ensures
            r@ == self@.name,
    {
        self.name.as_str()
    }

    /// Where the cluster's kubeconfig is kept.
    pub fn kubeconfig_path(&self) -> (r: &HostPath)
        ensures
            r@ == self@.kubeconfig_path,
    {
        &self.kubeconfig_path
    }

    /// The container that is to be stopped.
    pub fn stop(&self) -> (r: String)
        ensures
            r@ == cluster::resource_name(self@.name),
            r@ == "navigator-cluster-"@ + self@.name,
    {
        container_name(self.name.as_str())
    }

    /// What is to be removed, with nothing done yet.
    pub fn destroy(&self) -> (r: DestroyPlan)
        ensures
            r@ == destroy_plan(self@),
            r.container@ == "navigator-cluster-"@ + self@.name,
            r.volume@ == "navigator-cluster-"@ + self@.name,
            r.kubeconfig_path@ == self@.kubeconfig_path,
            r.step == Destruction::At(Removal::Stop),
    {
        DestroyPlan {
            container: container_name(self.name.as_str()),
            volume: volume_name(self.name.as_str()),
            kubeconfig_path: self.kubeconfig_path.clone(),
            step: Destruction::start(),
        }
    }
}

/// The handle of the cluster of a name, given the directory of the user's
/// settings.
pub open spec fn handle_of(config: paths::PathView, name: Seq<char>) -> HandleView {
    HandleView {
        name,
        kubeconfig_path: paths::cluster_dir(config, name).join("kubeconfig"@),
    }
}

/// The handle of the cluster of a name, deployed or not.
pub fn cluster_handle(env: &Environment, name: &str) -> (r: Result<ClusterHandle, HomeNotSet>)
    ensures
        match (r, paths::config_dir(env.xdg_config_home, env.home)) {
            (Ok(handle), Some(config)) => handle@ == handle_of(config, name@),
            (Err(_), None) => true,
            _ => false,
        },
        match (r, paths::config_dir(env.xdg_config_home, env.home)) {
            (Ok(handle), Some(config)) => {
                &&& handle@.name == name@
                &&& handle@.kubeconfig_path.base == config.base
                &&& handle@.kubeconfig_path.parts == config.parts + seq![
                    "navigator"@,
                    "clusters"@,
                    name@,
                    "kubeconfig"@,
                ]
            },
            _ => true,
        },
{
    match stored_kubeconfig_path(env, name) {
        Ok(kubeconfig_path) => Ok(ClusterHandle { name: String::from(name), kubeconfig_path }),
        Err(e) => Err(e),
    }
}

/// What destroying a cluster removes, and how far it has come.
#[derive(Debug)]
pub struct DestroyPlan {
    pub container: String,
    pub volume: String,
    pub kubeconfig_path: HostPath,
    pub step: Destruction,
}

/// What a plan to destroy holds.
#[verifier::ext_equal]
pub struct DestroyView {
    pub container: Seq<char>,
    pub volume: Seq<char>,
    pub kubeconfig_path: paths::PathView,
    pub step: Destruction,
}

impl View for DestroyPlan {
    type V = DestroyView;

    open spec fn view(&self) -> DestroyView {
        DestroyView {
            container: self.container@,
            volume: self.volume@,
            kubeconfig_path: self.kubeconfig_path@,
            step: self.step,
        }
    }
}

/// What destroying a cluster removes, with nothing done yet.
pub open spec fn destroy_plan(handle: HandleView) -> DestroyView {
    DestroyView {
        container: cluster::resource_name(handle.name),
        volume: cluster::resource_name(handle.name),
        kubeconfig_path: handle.kubeconfig_path,
        step: Destruction::At(Removal::Stop),
    }
}

/// What is to be done next to destroy a cluster.
#[derive(Debug)]
pub enum DestroyAction {
    /// Stop the container.
    Stop(String),
    /// Remove the container, running or not.
    RemoveContainer(String),
    /// Remove the volume with the cluster's state.
    RemoveVolume(String),
    /// Remove the stored kubeconfig.
    RemoveKubeconfig(HostPath),
    /// Count the containers that are attached to the network.
    InspectNetwork(&'static str),
    /// Remove the network.
    RemoveNetwork(&'static str),
}

/// What an action to destroy a cluster is about.
pub enum DestroyActionView {
    Stop(Seq<char>),
    RemoveContainer(Seq<char>),
    RemoveVolume(Seq<char>),
    RemoveKubeconfig(paths::PathView),
    InspectNetwork(Seq<char>),
    RemoveNetwork(Seq<char>),
}

impl View for DestroyAction {
    type V = DestroyActionView;

    open spec fn view(&self) -> DestroyActionView {
        match *self {
            DestroyAction::Stop(container) => DestroyActionView::Stop(container@),
            DestroyAction::RemoveContainer(container) => DestroyActionView::RemoveContainer(
                container@,
            ),
            DestroyAction::RemoveVolume(volume) => DestroyActionView::RemoveVolume(volume@),
            DestroyAction::RemoveKubeconfig(path) => DestroyActionView::RemoveKubeconfig(path@),
            DestroyAction::InspectNetwork(network) => DestroyActionView::InspectNetwork(network@),
            DestroyAction::RemoveNetwork(network) => DestroyActionView::RemoveNetwork(network@),
        }
    }
}

/// What a removal is about, under a plan.
pub open spec fn removal_action(removal: Removal, plan: DestroyView) -> DestroyActionView {
    match removal {
        Removal::Stop => DestroyActionView::Stop(plan.container),
        Removal::Container => DestroyActionView::RemoveContainer(plan.container),
        Removal::Volume => DestroyActionView::RemoveVolume(plan.volume),
        Removal::Kubeconfig => DestroyActionView::RemoveKubeconfig(plan.kubeconfig_path),
        Removal::InspectNetwork => DestroyActionView::InspectNetwork("navigator-cluster"@),
        Removal::Network => DestroyActionView::RemoveNetwork("navigator-cluster"@),
    }
}

impl DestroyPlan {
    /// What is to be done next; `None` where nothing is.
    pub fn action(&self) -> (r: Option<DestroyAction>)
        ensures
            match (r, self@.step) {
                (Some(action), Destruction::At(removal)) => action@ == removal_action(
                    removal,
                    self@,
                ),
                (None, Destruction::At(_)) => false,
                (r, _) => r is None,
            },
            match r {
                Some(DestroyAction::Stop(container)) => self.step == Destruction::At(Removal::Stop)
                    && container@ == self.container@,
                Some(DestroyAction::RemoveContainer(container)) => self.step == Destruction::At(
                    Removal::Container,
                ) && container@ == self.container@,
                Some(DestroyAction::RemoveVolume(volume)) => self.step == Destruction::At(
                    Removal::Volume,
                ) && volume@ == self.volume@,
                Some(DestroyAction::RemoveKubeconfig(path)) => self.step == Destruction::At(
                    Removal::Kubeconfig,
                ) && path@ == self.kubeconfig_path@,
                Some(DestroyAction::InspectNetwork(network)) => self.step == Destruction::At(
                    Removal::InspectNetwork,
                ) && network@ == "navigator-cluster"@,
                Some(DestroyAction::RemoveNetwork(network)) => self.step == Destruction::At(
                    Removal::Network,
                ) && network@ == "navigator-cluster"@,
                None => !(self.step is At),
            },
    {
        match &self.step {
            Destruction::At(removal) => Some(
                match removal {
                    Removal::Stop => DestroyAction::Stop(self.container.clone()),
                    Removal::Container => DestroyAction::RemoveContainer(self.container.clone()),
                    Removal::Volume => DestroyAction::RemoveVolume(self.volume.clone()),
                    Removal::Kubeconfig => DestroyAction::RemoveKubeconfig(
                        self.kubeconfig_path.clone(),
                    ),
                    Removal::InspectNetwork => DestroyAction::InspectNetwork(NETWORK_NAME),
                    Removal::Network => DestroyAction::RemoveNetwork(NETWORK_NAME),
                },
            ),
            _ => None,
        }
    }

    /// Goes on behind an action.
    pub fn next(self, reply: Result<usize, DockerFailure>) -> (r: DestroyPlan)
        ensures
            r@ == (DestroyView { step: self@.step.after(reply), ..self@ }),
            r.container@ == self.container@ && r.volume@ == self.volume@,
            r.kubeconfig_path@ == self.kubeconfig_path@,
            r.step == self.step.after(reply),
    {
        DestroyPlan {
            container: self.container,
            volume: self.volume,
            kubeconfig_path: self.kubeconfig_path,
            step: self.step.next(reply),
        }
    }
}

/// The handle of a cluster has the cluster's name, and its kubeconfig stands below a
/// directory of that name. So clusters of different names have different handles.
pub proof fn law_handle_names_the_cluster(
    config: paths::PathView,
    name: Seq<char>,
    other: Seq<char>,
)
    ensures
        handle_of(config, name).name == name,
        handle_of(config, name).kubeconfig_path.base == config.base,
        handle_of(config, name).kubeconfig_path.parts == config.parts + seq![
            "navigator"@,
            "clusters"@,
            name,
            "kubeconfig"@,
        ],
        name != other ==> handle_of(config, name) != handle_of(config, other),
{
    paths::law_cluster_files_stand_below_the_settings(config, name, "kubeconfig"@);
}

/// What destroying a cluster acts on is the cluster's own: its container is the one
/// that is stopped and then removed, its volume and its kubeconfig are removed, and the
/// network that is looked at is the one that may go.
pub proof fn law_destroying_acts_on_the_cluster(handle: HandleView)
    ensures
        ({
            let plan = destroy_plan(handle);
            let container = "navigator-cluster-"@ + handle.name;
            &&& removal_action(Removal::Stop, plan) == DestroyActionView::Stop(container)
            &&& removal_action(Removal::Container, plan) == DestroyActionView::RemoveContainer(
                container,
            )
            &&& removal_action(Removal::Volume, plan) == DestroyActionView::RemoveVolume(container)
            &&& removal_action(Removal::Kubeconfig, plan) == DestroyActionView::RemoveKubeconfig(
                handle.kubeconfig_path,
            )
            &&& removal_action(Removal::InspectNetwork, plan) == DestroyActionView::InspectNetwork(
                cluster::cluster_network().name,
            )
            &&& removal_action(Removal::Network, plan) == DestroyActionView::RemoveNetwork(
                cluster::cluster_network().name,
            )
        }),
{
}

/// What each removal acts on is what the plan says: the container is stopped and
/// removed under one name, the volume and the kubeconfig under theirs, and the network
/// is looked at and removed under one name.
pub proof fn law_removals_act_on_the_plan(plan: DestroyView)
    ensures
        removal_action(Removal::Stop, plan) == DestroyActionView::Stop(plan.container),
        removal_action(Removal::Container, plan) == DestroyActionView::RemoveContainer(
            plan.container,
        ),
        removal_action(Removal::Volume, plan) == DestroyActionView::RemoveVolume(plan.volume),
        removal_action(Removal::Kubeconfig, plan) == DestroyActionView::RemoveKubeconfig(
            plan.kubeconfig_path,
        ),
        removal_action(Removal::InspectNetwork, plan) is InspectNetwork,
        removal_action(Removal::Network, plan) == DestroyActionView::RemoveNetwork(
            removal_action(Removal::InspectNetwork, plan)->InspectNetwork_0,
        ),
{
}

} // verus!
