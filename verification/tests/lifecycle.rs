use navigator_bootstrap::cluster::DeployOptions;
use navigator_bootstrap::deploy::{self, Deployment, Resource, Stage};
use navigator_bootstrap::destroy::{self, Destruction, Removal};
use navigator_bootstrap::docker::{
    cleanup_network_if_unused, ensure_present, is_conflict, is_not_found, remove_if_present,
    start_container, stop_container, DockerFailure, Ensure, NetworkCleanup,
};
use navigator_bootstrap::deploy_plan::{deploy_cluster, DeployAction, DeployPlan, DeployReply};
use navigator_bootstrap::handle::{cluster_handle, DestroyAction};
use navigator_bootstrap::paths::Environment;

fn failure(status: Option<u16>) -> DockerFailure {
    DockerFailure {
        status,
        message: "said so".to_string(),
    }
}

fn refused<T>(status: u16) -> Result<T, DockerFailure> {
    Err(failure(Some(status)))
}

fn environment(xdg: Option<&str>) -> Environment {
    Environment {
        home: None,
        xdg_config_home: xdg.map(str::to_string),
        kubeconfig: None,
        cluster_image: None,
        image_tag: Some("7".to_string()),
    }
}

#[test]
fn statuses_are_told_apart() {
    assert!(is_not_found(&failure(Some(404))));
    assert!(!is_not_found(&failure(Some(409))));
    assert!(!is_not_found(&failure(None)));
    assert!(is_conflict(&failure(Some(409))));
    assert!(!is_conflict(&failure(Some(404))));
    assert!(!is_conflict(&failure(None)));
}

#[test]
fn replies_of_the_engine_are_read() {
    assert!(matches!(ensure_present(Ok(())), Ensure::Present));
    assert!(matches!(ensure_present(refused(404)), Ensure::Create));
    assert!(matches!(ensure_present(refused(500)), Ensure::Fail(_)));
    assert!(start_container(Ok(())).is_ok());
    assert!(start_container(refused(409)).is_ok());
    assert_eq!(start_container(refused(404)).unwrap_err().message, "said so");
    assert!(stop_container(refused(409)).is_ok());
    assert!(stop_container(refused(404)).is_ok());
    assert!(stop_container(refused(500)).is_err());
    assert!(remove_if_present(Ok(())).is_ok());
    assert!(remove_if_present(refused(404)).is_ok());
    assert!(remove_if_present(refused(409)).is_err());
    assert!(matches!(cleanup_network_if_unused(Ok(0)), NetworkCleanup::Remove));
    assert!(matches!(cleanup_network_if_unused(Ok(2)), NetworkCleanup::Keep));
    assert!(matches!(cleanup_network_if_unused(refused(404)), NetworkCleanup::Keep));
    assert!(matches!(cleanup_network_if_unused(refused(500)), NetworkCleanup::Fail(_)));
}

/// The stages of a deployment, with the engine answering as given.
fn deployed(reply: fn(Stage) -> Result<(), DockerFailure>) -> (Vec<Stage>, Deployment) {
    let mut step = Deployment::start();
    let mut stages = Vec::new();
    loop {
        let stage = match &step {
            Deployment::At(stage) => *stage,
            _ => return (stages, step),
        };
        stages.push(stage);
        step = step.next(reply(stage));
    }
}

#[test]
fn deploying_creates_all_that_is_missing() {
    let (stages, end) = deployed(|stage| match stage {
        Stage::Inspect(_) => refused(404),
        _ => Ok(()),
    });
    assert!(matches!(end, Deployment::Deployed));
    assert_eq!(
        stages,
        vec![
            Stage::Inspect(Resource::Network),
            Stage::Create(Resource::Network),
            Stage::Inspect(Resource::Volume),
            Stage::Create(Resource::Volume),
            Stage::Inspect(Resource::Image),
            Stage::Create(Resource::Image),
            Stage::Inspect(Resource::Container),
            Stage::Create(Resource::Container),
            Stage::Start,
            Stage::AwaitKubeconfig,
            Stage::StoreKubeconfig,
            Stage::AwaitReady,
            Stage::FetchMtls,
        ]
    );
}

#[test]
fn deploying_again_creates_nothing() {
    let (stages, end) = deployed(|stage| match stage {
        Stage::Start => refused(409),
        _ => Ok(()),
    });
    assert!(matches!(end, Deployment::Deployed));
    assert!(!stages.iter().any(|stage| matches!(stage, Stage::Create(_))));
    assert!(stages.contains(&Stage::StoreKubeconfig));
    assert_eq!(stages.len(), 9);
}

#[test]
fn deploying_stops_at_the_first_failure() {
    let (stages, end) = deployed(|stage| match stage {
        Stage::Inspect(Resource::Volume) => refused(500),
        _ => Ok(()),
    });
    assert_eq!(stages.len(), 2);
    match end {
        Deployment::Failed(stage, failure) => {
            assert_eq!(stage, Stage::Inspect(Resource::Volume));
            assert_eq!(failure.status, Some(500));
            assert_eq!(deploy::failure_context(stage), None);
        }
        _ => panic!("the engine refused"),
    }
    let (_, end) = deployed(|stage| match stage {
        Stage::Start => refused(404),
        _ => Ok(()),
    });
    assert!(matches!(end, Deployment::Failed(Stage::Start, _)));
    let (_, end) = deployed(|stage| match stage {
        Stage::AwaitReady => Err(failure(None)),
        _ => Ok(()),
    });
    assert!(matches!(end, Deployment::Failed(Stage::AwaitReady, _)));
    assert_eq!(
        deploy::failure_context(Stage::Create(Resource::Network)),
        Some("failed to create Docker network")
    );
    assert_eq!(
        deploy::failure_context(Stage::Create(Resource::Volume)),
        Some("failed to create Docker volume")
    );
    assert_eq!(
        deploy::failure_context(Stage::Create(Resource::Container)),
        Some("failed to create cluster container")
    );
    assert_eq!(
        deploy::failure_context(Stage::Start),
        Some("failed to start cluster container")
    );
    assert_eq!(deploy::failure_context(Stage::Create(Resource::Image)), None);
}

/// The steps of a destruction, with the engine answering as given.
fn destroyed(reply: fn(Removal) -> Result<usize, DockerFailure>) -> (Vec<Removal>, Destruction) {
    let mut step = Destruction::start();
    let mut removals = Vec::new();
    loop {
        let removal = match &step {
            Destruction::At(removal) => *removal,
            _ => return (removals, step),
        };
        removals.push(removal);
        step = step.next(reply(removal));
    }
}

#[test]
fn destroying_removes_everything() {
    let (removals, end) = destroyed(|_| Ok(0));
    assert!(matches!(end, Destruction::Destroyed));
    assert_eq!(
        removals,
        vec![
            Removal::Stop,
            Removal::Container,
            Removal::Volume,
            Removal::Kubeconfig,
            Removal::InspectNetwork,
            Removal::Network,
        ]
    );
}

#[test]
fn network_of_other_clusters_is_kept() {
    let (removals, end) = destroyed(|_| Ok(1));
    assert!(matches!(end, Destruction::Destroyed));
    assert!(!removals.contains(&Removal::Network));
}

#[test]
fn destroying_again_is_no_error() {
    let (removals, end) = destroyed(|_| refused(404));
    assert!(matches!(end, Destruction::Destroyed));
    assert_eq!(removals.len(), 5);
}

#[test]
fn destroying_forgives_two_steps_only() {
    let (_, end) = destroyed(|removal| match removal {
        Removal::Stop | Removal::Kubeconfig => refused(500),
        _ => Ok(0),
    });
    assert!(matches!(end, Destruction::Destroyed));
    let (removals, end) = destroyed(|removal| match removal {
        Removal::Container => refused(409),
        _ => Ok(0),
    });
    assert!(matches!(end, Destruction::Failed(Removal::Container, _)));
    assert!(!removals.contains(&Removal::Volume));
    let (removals, end) = destroyed(|removal| match removal {
        Removal::Volume => refused(409),
        _ => Ok(0),
    });
    assert!(matches!(end, Destruction::Failed(Removal::Volume, _)));
    assert!(!removals.contains(&Removal::Kubeconfig));
    let (_, end) = destroyed(|removal| match removal {
        Removal::InspectNetwork => refused(500),
        _ => Ok(0),
    });
    assert!(matches!(end, Destruction::Failed(Removal::InspectNetwork, _)));
    let (_, end) = destroyed(|removal| match removal {
        Removal::Network => refused(404),
        _ => Ok(0),
    });
    assert!(matches!(end, Destruction::Failed(Removal::Network, _)));
    assert_eq!(
        destroy::failure_context(Removal::Network),
        Some("failed to remove Docker network")
    );
    assert_eq!(destroy::failure_context(Removal::Volume), None);
}

#[test]
fn handle_knows_what_belongs_to_the_cluster() {
    let handle = cluster_handle(&environment(Some("/x")), "dev").unwrap();
    assert_eq!(handle.name(), "dev");
    let parts = vec!["navigator", "clusters", "dev", "kubeconfig"];
    assert_eq!(handle.kubeconfig_path().base, "/x");
    assert_eq!(handle.kubeconfig_path().parts, parts);
    assert_eq!(handle.stop(), "navigator-cluster-dev");
    let plan = handle.destroy();
    assert_eq!(plan.container, "navigator-cluster-dev");
    assert_eq!(plan.volume, "navigator-cluster-dev");
    assert_eq!(plan.kubeconfig_path.base, "/x");
    assert_eq!(plan.kubeconfig_path.parts, parts);
    assert!(matches!(plan.step, Destruction::At(Removal::Stop)));
    assert!(cluster_handle(&environment(None), "dev").is_err());
}

#[test]
fn destroying_names_what_it_removes() {
    let mut plan = cluster_handle(&environment(Some("/x")), "dev").unwrap().destroy();
    let mut said = Vec::new();
    while let Some(action) = plan.action() {
        said.push(match action {
            DestroyAction::Stop(name) => format!("stop {name}"),
            DestroyAction::RemoveContainer(name) => format!("container {name}"),
            DestroyAction::RemoveVolume(name) => format!("volume {name}"),
            DestroyAction::RemoveKubeconfig(path) => format!("file {}", path.parts.join("/")),
            DestroyAction::InspectNetwork(name) => format!("inspect {name}"),
            DestroyAction::RemoveNetwork(name) => format!("network {name}"),
        });
        plan = plan.next(Ok(0));
    }
    assert!(matches!(plan.step, Destruction::Destroyed));
    assert_eq!(
        said,
        vec![
            "stop navigator-cluster-dev",
            "container navigator-cluster-dev",
            "volume navigator-cluster-dev",
            "file navigator/clusters/dev/kubeconfig",
            "inspect navigator-cluster",
            "network navigator-cluster",
        ]
    );
}

fn plan() -> DeployPlan {
    deploy_cluster(DeployOptions::new("dev"), &environment(Some("/x"))).unwrap()
}

/// The plan at the step where the kubeconfig is awaited.
fn awaiting() -> DeployPlan {
    let mut plan = plan();
    while !matches!(plan.step(), Deployment::At(Stage::AwaitKubeconfig)) {
        plan = plan.next(DeployReply::Done);
    }
    plan
}

#[test]
fn deploying_begins_with_the_network() {
    let plan = plan();
    assert_eq!(plan.image_ref(), "navigator-cluster:7");
    assert_eq!(plan.handle().name(), "dev");
    assert!(matches!(
        plan.step(),
        Deployment::At(Stage::Inspect(Resource::Network))
    ));
    assert!(deploy_cluster(DeployOptions::new("dev"), &environment(None)).is_err());
}

#[test]
fn deploying_asks_for_what_belongs_to_the_cluster() {
    let mut plan = plan();
    let mut said = Vec::new();
    while let Some(action) = plan.action() {
        let (what, reply) = match action {
            DeployAction::InspectNetwork(name) => (format!("network? {name}"), refused(404)),
            DeployAction::InspectVolume(name) => (format!("volume? {name}"), refused(404)),
            DeployAction::InspectImage(image) => (format!("image? {image}"), refused(404)),
            DeployAction::InspectContainer(name) => (format!("container? {name}"), refused(404)),
            DeployAction::CreateNetwork(request) => (format!("network {}", request.name), Ok(())),
            DeployAction::CreateVolume(name) => (format!("volume {name}"), Ok(())),
            DeployAction::PullImage(image) => (format!("image {image}"), Ok(())),
            DeployAction::CreateContainer(request) => (
                format!("container {} of {}", request.name, request.image),
                Ok(()),
            ),
            DeployAction::Start(name) => (format!("start {name}"), refused(409)),
            DeployAction::AwaitKubeconfig { container, command } => {
                said.push(format!("{container}: {}", command.join(" ")));
                let printed = "apiVersion: v1\nclusters:\n- name: default\n";
                plan = plan.next(DeployReply::Printed(printed.to_string()));
                continue;
            }
            DeployAction::StoreKubeconfig { path, contents } => {
                assert_eq!(path.base, "/x");
                (format!("{}: {contents}", path.parts.join("/")), Ok(()))
            }
            DeployAction::AwaitReady(name) => (format!("ready {name}"), Ok(())),
            DeployAction::FetchMtls(name) => (format!("mtls {name}"), Ok(())),
        };
        said.push(what);
        plan = plan.next(match reply {
            Ok(()) => DeployReply::Done,
            Err(failure) => DeployReply::Refused(failure),
        });
    }
    let (handle, end) = plan.into_parts();
    assert_eq!(handle.name(), "dev");
    assert!(matches!(end, Deployment::Deployed));
    assert_eq!(
        said,
        vec![
            "network? navigator-cluster",
            "network navigator-cluster",
            "volume? navigator-cluster-dev",
            "volume navigator-cluster-dev",
            "image? navigator-cluster:7",
            "image navigator-cluster:7",
            "container? navigator-cluster-dev",
            "container navigator-cluster-dev of navigator-cluster:7",
            "start navigator-cluster-dev",
            "navigator-cluster-dev: cat /etc/rancher/k3s/k3s.yaml",
            "navigator/clusters/dev/kubeconfig: apiVersion: v1\nclusters:\n- name: dev\n",
            "ready navigator-cluster-dev",
            "mtls navigator-cluster-dev",
        ]
    );
}

#[test]
fn deploying_stores_only_a_kubeconfig() {
    for reply in [
        DeployReply::Printed("cat: no such file".to_string()),
        DeployReply::Done,
    ] {
        let (_, end) = awaiting().next(reply).into_parts();
        match end {
            Deployment::Failed(stage, failure) => {
                assert_eq!(stage, Stage::AwaitKubeconfig);
                assert_eq!(failure.status, None);
                assert_eq!(failure.message, "timed out waiting for kubeconfig");
            }
            _ => panic!("no kubeconfig"),
        }
    }
    let refused = awaiting().next(DeployReply::Refused(failure(None)));
    assert!(matches!(
        refused.step(),
        Deployment::Failed(Stage::AwaitKubeconfig, _)
    ));
    assert!(refused.action().is_none());
}
