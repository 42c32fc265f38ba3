//! What a local cluster is made of.
use vstd::prelude::*;

use crate::paths::Environment;
use crate::text;
use crate::text::{chars_of, is_blank};

verus! {

/// The standard library's `String::from` for a string slice, which `into` calls:
/// the string holds what the slice holds.
pub assume_specification<'a>[ <String as From<&'a str>>::from ](s: &str) -> (r: String)
    ensures
        r@ == s@,
;

/// What to deploy.
#[derive(Debug, Clone)]
pub struct DeployOptions {
    pub name: String,
    pub image_ref: Option<String>,
}

impl DeployOptions {
    /// A cluster of that name, from the default image.
    pub fn new<T: Into<String>>(name: T) -> (r: Self)
        ensures
            call_ensures(<T as Into<String>>::into, (name,), r.name),
            r.image_ref is None,
    {
        DeployOptions { name: name.into(), image_ref: None }
    }
}

/// The image from which clusters are made, without its tag.
pub const DEFAULT_IMAGE_NAME: &'static str = "navigator-cluster";

/// The Docker network that all clusters share.
pub const NETWORK_NAME: &'static str = "navigator-cluster";

/// The cluster's own kubeconfig, in its container.
pub const KUBECONFIG_PATH: &'static str = "/etc/rancher/k3s/k3s.yaml";

/// The name of a cluster's container, and of its volume.
pub open spec fn resource_name(name: Seq<char>) -> Seq<char> {
    "navigator-cluster-"@ + name
}

/// The name of a cluster's container.
pub fn container_name(name: &str) -> (r: String)
    ensures
        r@ == resource_name(name@),
        r@ == "navigator-cluster-"@ + name@,
{
    "navigator-cluster-".to_string().concat(name)
}

/// The name of a cluster's volume.
pub fn volume_name(name: &str) -> (r: String)
    ensures
        r@ == resource_name(name@),
        r@ == "navigator-cluster-"@ + name@,
{
    "navigator-cluster-".to_string().concat(name)
}

/// The cluster image with a tag.
pub open spec fn tagged_image(tag: Seq<char>) -> Seq<char> {
    "navigator-cluster"@ + ":"@ + tag
}

/// The cluster image with a tag.
fn with_tag(tag: &str) -> (r: String)
    ensures
        r@ == tagged_image(tag@),
{
    DEFAULT_IMAGE_NAME.to_string().concat(":").concat(tag)
}

/// The cluster image of a version, which the engine is to have.
pub fn ensure_cluster_image(version: &str) -> (r: String)
    ensures
        r@ == tagged_image(version@),
        r@ == "navigator-cluster:"@ + version@,
{
    proof {
        law_tagged_image(version@);
    }
    with_tag(version)
}

/// What a variable holds, where it is set and holds more than white space.
pub open spec fn filled(value: Option<String>) -> Option<Seq<char>> {
    match value {
        Some(text) => if text::blank(text@) {
            None
        } else {
            Some(text@)
        },
        None => None,
    }
}

/// The image from which a cluster is made unless another is asked for, given the
/// two variables that decide.
pub open spec fn default_image(
    cluster_image: Option<String>,
    image_tag: Option<String>,
) -> Seq<char> {
    match (filled(cluster_image), filled(image_tag)) {
        (Some(image), _) => image,
        (None, Some(tag)) => tagged_image(tag),
        (None, None) => tagged_image("dev"@),
    }
}

/// The image from which a cluster is made unless another is asked for.
pub fn default_cluster_image_ref(env: &Environment) -> (r: String)
    ensures
        r@ == default_image(env.cluster_image, env.image_tag),
        env.cluster_image is Some && !text::blank(env.cluster_image->0@) ==> r@
            == env.cluster_image->0@,
        (env.cluster_image is None || text::blank(env.cluster_image->0@)) && env.image_tag is Some
            && !text::blank(env.image_tag->0@) ==> r@ == "navigator-cluster:"@ + env.image_tag->0@,
        (env.cluster_image is None || text::blank(env.cluster_image->0@)) && (env.image_tag is None
            || text::blank(env.image_tag->0@)) ==> r@ == "navigator-cluster:dev"@,
{
    proof {
        law_default_image_choice(env.cluster_image, env.image_tag);
    }
    if let Some(image) = &env.cluster_image {
        if !is_blank(&chars_of(image.as_str())) {
            return image.clone();
        }
    }
    if let Some(tag) = &env.image_tag {
        if !is_blank(&chars_of(tag.as_str())) {
            return with_tag(tag.as_str());
        }
    }
    with_tag("dev")
}

/// The image from which a cluster is made, given what was asked for.
pub open spec fn deployed_image(options: DeployOptions, env: Environment) -> Seq<char> {
    match options.image_ref {
        Some(image) => image@,
        None => default_image(env.cluster_image, env.image_tag),
    }
}

/// The image from which a cluster is made, given what was asked for.
pub fn deployed_image_ref(options: &DeployOptions, env: &Environment) -> (r: String)
    ensures
        r@ == deployed_image(*options, *env),
        options.image_ref matches Some(image) ==> r@ == image@,
        options.image_ref is None ==> r@ == default_image(env.cluster_image, env.image_tag),
{
    match &options.image_ref {
        Some(image) => image.clone(),
        None => default_cluster_image_ref(env),
    }
}

/// A network to be created.
#[derive(Debug)]
pub struct NetworkRequest {
    pub name: String,
    pub check_duplicate: bool,
    pub driver: String,
    pub attachable: bool,
}

/// What is asked for with a network.
#[verifier::ext_equal]
pub struct NetworkView {
    pub name: Seq<char>,
    pub check_duplicate: bool,
    pub driver: Seq<char>,
    pub attachable: bool,
}

impl View for NetworkRequest {
    type V = NetworkView;

    open spec fn view(&self) -> NetworkView {
        NetworkView {
            name: self.name@,
            check_duplicate: self.check_duplicate,
            driver: self.driver@,
            attachable: self.attachable,
        }
    }
}

/// The network that all clusters share: a bridge to which containers can be
/// attached, and of which there is one.
pub open spec fn cluster_network() -> NetworkView {
    NetworkView {
        name: "navigator-cluster"@,
        check_duplicate: true,
        driver: "bridge"@,
        attachable: true,
    }
}

/// The network that all clusters share: a bridge to which containers can be
/// attached, and of which there is one.
pub fn network_request() -> (r: NetworkRequest)
    ensures
        r@ == cluster_network(),
        r.name@ == "navigator-cluster"@ && r.driver@ == "bridge"@,
        r.check_duplicate && r.attachable,
{
    NetworkRequest {
        name: NETWORK_NAME.to_string(),
        check_duplicate: true,
        driver: "bridge".to_string(),
        attachable: true,
    }
}

/// A port of a container with the port of the host that leads to it.
#[derive(Debug)]
pub struct PortMapping {
    pub container_port: String,
    pub host_ip: String,
    pub host_port: String,
}

/// A container to be created.
#[derive(Debug)]
pub struct ContainerRequest {
    pub name: String,
    pub image: String,
    pub command: Vec<String>,
    pub port_bindings: Vec<PortMapping>,
    pub exposed_ports: Vec<String>,
    pub privileged: bool,
    pub binds: Vec<String>,
    pub network_mode: String,
    pub extra_hosts: Vec<String>,
}

/// What is asked for with a container.
#[verifier::ext_equal]
pub struct ContainerView {
    pub name: Seq<char>,
    pub image: Seq<char>,
    pub command: Seq<Seq<char>>,
    pub port_bindings: Seq<(Seq<char>, Seq<char>, Seq<char>)>,
    pub exposed_ports: Seq<Seq<char>>,
    pub privileged: bool,
    pub binds: Seq<Seq<char>>,
    pub network_mode: Seq<char>,
    pub extra_hosts: Seq<Seq<char>>,
}

impl View for ContainerRequest {
    type V = ContainerView;

    open spec fn view(&self) -> ContainerView {
        ContainerView {
            name: self.name@,
            image: self.image@,
            command: text::views(self.command@),
            port_bindings: self.port_bindings@.map_values(
                |p: PortMapping| (p.container_port@, p.host_ip@, p.host_port@),
            ),
            exposed_ports: text::views(self.exposed_ports@),
            privileged: self.privileged,
            binds: text::views(self.binds@),
            network_mode: self.network_mode@,
            extra_hosts: text::views(self.extra_hosts@),
        }
    }
}

/// The container in which a cluster runs: a k3s server without its own ingress,
/// whose state is in the cluster's volume, reached on the host through the ports
/// of the API, of plain and of encrypted traffic, and of the gateway's node port.
pub open spec fn cluster_container(name: Seq<char>, image_ref: Seq<char>) -> ContainerView {
    ContainerView {
        name: resource_name(name),
        image: image_ref,
        command: seq![
            "server"@,
            "--disable=traefik"@,
            "--tls-san=127.0.0.1"@,
            "--tls-san=localhost"@,
            "--tls-san=host.docker.internal"@,
        ],
        port_bindings: seq![
            ("6443/tcp"@, "0.0.0.0"@, "6443"@),
            ("80/tcp"@, "0.0.0.0"@, "80"@),
            ("30051/tcp"@, "0.0.0.0"@, "8080"@),
            ("443/tcp"@, "0.0.0.0"@, "443"@),
        ],
        exposed_ports: seq!["6443/tcp"@, "80/tcp"@, "30051/tcp"@, "443/tcp"@],
        privileged: true,
        binds: seq![resource_name(name) + ":/var/lib/rancher/k3s"@],
        network_mode: "navigator-cluster"@,
        extra_hosts: seq!["host.docker.internal:host-gateway"@],
    }
}

/// A port of the container with the port of the host that leads to it.
fn mapping(container_port: &str, host_port: &str) -> (r: PortMapping)
    ensures
        r.container_port@ == container_port@,
        r.host_ip@ == "0.0.0.0"@,
        r.host_port@ == host_port@,
{
    PortMapping {
        container_port: container_port.to_string(),
        host_ip: "0.0.0.0".to_string(),
        host_port: host_port.to_string(),
    }
}

/// The container in which a cluster runs.
pub fn container_request(name: &str, image_ref: &str) -> (r: ContainerRequest)
    ensures
        r@ == cluster_container(name@, image_ref@),
        r.name@ == "navigator-cluster-"@ + name@,
        r.image@ == image_ref@,
        text::views(r.command@) == seq![
            "server"@,
            "--disable=traefik"@,
            "--tls-san=127.0.0.1"@,
            "--tls-san=localhost"@,
            "--tls-san=host.docker.internal"@,
        ],
        r.port_bindings@.len() == 4,
        r.port_bindings@[0].container_port@ == "6443/tcp"@ && r.port_bindings@[0].host_port@
            == "6443"@,
        r.port_bindings@[1].container_port@ == "80/tcp"@ && r.port_bindings@[1].host_port@ == "80"@,
        r.port_bindings@[2].container_port@ == "30051/tcp"@ && r.port_bindings@[2].host_port@
            == "8080"@,
        r.port_bindings@[3].container_port@ == "443/tcp"@ && r.port_bindings@[3].host_port@
            == "443"@,
        forall|i: int| 0 <= i < 4 ==> (#[trigger] r.port_bindings@[i]).host_ip@ == "0.0.0.0"@,
        text::views(r.exposed_ports@) == seq!["6443/tcp"@, "80/tcp"@, "30051/tcp"@, "443/tcp"@],
        r.privileged,
        text::views(r.binds@) == seq!["navigator-cluster-"@ + name@ + ":/var/lib/rancher/k3s"@],
        r.network_mode@ == "navigator-cluster"@,
        text::views(r.extra_hosts@) == seq!["host.docker.internal:host-gateway"@],
{
    let r = ContainerRequest {
        name: container_name(name),
        image: image_ref.to_string(),
        command: vec![
            "server".to_string(),
            "--disable=traefik".to_string(),
            "--tls-san=127.0.0.1".to_string(),
            "--tls-san=localhost".to_string(),
            "--tls-san=host.docker.internal".to_string(),
        ],
        port_bindings: vec![
            mapping("6443/tcp", "6443"),
            mapping("80/tcp", "80"),
            mapping("30051/tcp", "8080"),
            mapping("443/tcp", "443"),
        ],
        exposed_ports: vec![
            "6443/tcp".to_string(),
            "80/tcp".to_string(),
            "30051/tcp".to_string(),
            "443/tcp".to_string(),
        ],
        privileged: true,
        binds: vec![volume_name(name).concat(":/var/lib/rancher/k3s")],
        network_mode: NETWORK_NAME.to_string(),
        extra_hosts: vec!["host.docker.internal:host-gateway".to_string()],
    };
    assert(r@ =~= cluster_container(name@, image_ref@));
    r
}

/// Two clusters of different names have different containers and volumes.
pub proof fn law_resource_names_differ(one: Seq<char>, other: Seq<char>)
    requires
        one != other,
    ensures
        resource_name(one) != resource_name(other),
{
    let front = "navigator-cluster-"@;
    assert(resource_name(one).skip(front.len() as int) == one);
    assert(resource_name(other).skip(front.len() as int) == other);
}

/// The ports that lead to the container are the ports that it exposes, in the
/// same order, and no two lead from the same port of the host.
pub proof fn law_published_ports_are_exposed(name: Seq<char>, image_ref: Seq<char>)
    ensures
        ({
            let c = cluster_container(name, image_ref);
            &&& c.exposed_ports == c.port_bindings.map_values(
                |p: (Seq<char>, Seq<char>, Seq<char>)| p.0,
            )
            &&& forall|i: int, j: int|
                0 <= i < j < c.port_bindings.len() ==> (#[trigger] c.port_bindings[i]).2 != (
                #[trigger] c.port_bindings[j]).2
        }),
{
    reveal_strlit("6443");
    reveal_strlit("80");
    reveal_strlit("8080");
    reveal_strlit("443");
    let c = cluster_container(name, image_ref);
    assert(c.exposed_ports =~= c.port_bindings.map_values(
        |p: (Seq<char>, Seq<char>, Seq<char>)| p.0,
    ));
    assert("443"@[0] == '4' && "443"@.len() == 3);
    assert("80"@.len() == 2);
    assert("6443"@[0] == '6');
    assert("8080"@[0] == '8');
}

/// A tag stands behind the image's name and a colon, so that two tags give two images.
pub proof fn law_tagged_image(tag: Seq<char>)
    ensures
        tagged_image(tag) == "navigator-cluster:"@ + tag,
        forall|other: Seq<char>| other != tag ==> #[trigger] tagged_image(other) != tagged_image(
            tag,
        ),
{
    reveal_strlit("navigator-cluster");
    reveal_strlit(":");
    reveal_strlit("navigator-cluster:");
    assert("navigator-cluster:"@ =~= "navigator-cluster"@ + ":"@);
    assert forall|other: Seq<char>| other != tag implies #[trigger] tagged_image(other)
        != tagged_image(tag) by {
        assert(tagged_image(other).skip(18) =~= other);
        assert(tagged_image(tag).skip(18) =~= tag);
    }
}

/// A variable that is not set, or holds white space alone, is as good as none. The
/// image comes before the tag, and where there is neither the tag is `dev`.
pub proof fn law_default_image_choice(cluster_image: Option<String>, image_tag: Option<String>)
    ensures
        cluster_image is Some && !text::blank(cluster_image->0@) ==> default_image(
            cluster_image,
            image_tag,
        ) == cluster_image->0@,
        (cluster_image is None || text::blank(cluster_image->0@)) && image_tag is Some
            && !text::blank(image_tag->0@) ==> default_image(cluster_image, image_tag)
            == "navigator-cluster:"@ + image_tag->0@,
        (cluster_image is None || text::blank(cluster_image->0@)) && (image_tag is None
            || text::blank(image_tag->0@)) ==> default_image(cluster_image, image_tag)
            == "navigator-cluster:dev"@,
{
    reveal_strlit("navigator-cluster:");
    reveal_strlit("dev");
    reveal_strlit("navigator-cluster:dev");
    assert("navigator-cluster:dev"@ =~= "navigator-cluster:"@ + "dev"@);
    law_tagged_image("dev"@);
    if image_tag is Some {
        law_tagged_image(image_tag->0@);
    }
}

/// The image that was asked for is the one that is deployed, whatever the environment
/// says; where none was asked for, the environment decides.
pub proof fn law_asked_for_image_comes_first(options: DeployOptions, env: Environment)
    ensures
        options.image_ref matches Some(image) ==> deployed_image(options, env) == image@,
        options.image_ref is None ==> deployed_image(options, env) == default_image(
            env.cluster_image,
            env.image_tag,
        ),
{
}

/// A cluster's container has the cluster's name behind it, runs the image that it is
/// given, and keeps its state in the volume of the same name. In all else it is like
/// the container of any other cluster.
pub proof fn law_containers_differ_in_name_and_image(
    name: Seq<char>,
    image_ref: Seq<char>,
    other_name: Seq<char>,
    other_image_ref: Seq<char>,
)
    ensures
        ({
            let one = cluster_container(name, image_ref);
            let other = cluster_container(other_name, other_image_ref);
            &&& one.name == "navigator-cluster-"@ + name
            &&& one.image == image_ref
            &&& one.binds == seq!["navigator-cluster-"@ + name + ":/var/lib/rancher/k3s"@]
            &&& one.command == other.command
            &&& one.port_bindings == other.port_bindings
            &&& one.exposed_ports == other.exposed_ports
            &&& one.privileged && other.privileged
            &&& one.network_mode == other.network_mode
            &&& one.network_mode == cluster_network().name
            &&& one.extra_hosts == other.extra_hosts
        }),
{
}

/// What every cluster's container has, whatever its name and image: it runs a k3s
/// server without traefik that is known by the names of the host, with all rights; its
/// API, its plain and its encrypted traffic are at the same ports of every address of
/// the host, the gateway's node port at 8080; and it can reach the host.
pub proof fn law_what_every_container_has(name: Seq<char>, image_ref: Seq<char>, i: int)
    requires
        0 <= i < 4,
    ensures
        ({
            let c = cluster_container(name, image_ref);
            &&& c.privileged
            &&& c.command == seq![
                "server"@,
                "--disable=traefik"@,
                "--tls-san=127.0.0.1"@,
                "--tls-san=localhost"@,
                "--tls-san=host.docker.internal"@,
            ]
            &&& c.port_bindings.len() == 4
            &&& c.port_bindings[i].1 == "0.0.0.0"@
            &&& c.port_bindings[0].0 == "6443/tcp"@ && c.port_bindings[0].2 == "6443"@
            &&& c.port_bindings[1].0 == "80/tcp"@ && c.port_bindings[1].2 == "80"@
            &&& c.port_bindings[2].0 == "30051/tcp"@ && c.port_bindings[2].2 == "8080"@
            &&& c.port_bindings[3].0 == "443/tcp"@ && c.port_bindings[3].2 == "443"@
            &&& c.extra_hosts == seq!["host.docker.internal:host-gateway"@]
            &&& c.network_mode == "navigator-cluster"@
        }),
{
}

/// The network that clusters share is a bridge of their name, of which there is one and
/// to which containers can be attached.
pub proof fn law_shared_network()
    ensures
        cluster_network().name == "navigator-cluster"@,
        cluster_network().driver == "bridge"@,
        cluster_network().check_duplicate,
        cluster_network().attachable,
{
}

} // verus!
