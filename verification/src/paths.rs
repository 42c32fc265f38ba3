//! Where things are kept on the host.
use vstd::prelude::*;
use vstd::slice::slice_subrange;

use crate::lines;
use crate::text;
use crate::text::{chars_of, position, string_of};

verus! {

/// The environment variables that matter here. One that is not set, or whose
/// value is no Unicode, is `None`.
#[derive(Debug)]
pub struct Environment {
    /// `HOME`.
    pub home: Option<String>,
    /// `XDG_CONFIG_HOME`.
    pub xdg_config_home: Option<String>,
    /// `KUBECONFIG`.
    pub kubeconfig: Option<String>,
    /// `NAVIGATOR_CLUSTER_IMAGE`.
    pub cluster_image: Option<String>,
    /// `IMAGE_TAG`.
    pub image_tag: Option<String>,
}

/// `HOME` is not set.
#[derive(Debug)]
pub struct HomeNotSet;

impl HomeNotSet {
    /// What is said of it.
    pub fn message(&self) -> (r: &'static str)
        ensures
            r@ == "HOME is not set"@,
    {
        "HOME is not set"
    }
}

/// A path on the host: one that the user gave, and what is put behind it, part by
/// part, by the host's own rules for joining paths.
#[derive(Debug)]
pub struct HostPath {
    pub base: String,
    pub parts: Vec<String>,
}

/// What a path is made of.
#[verifier::ext_equal]
pub struct PathView {
    pub base: Seq<char>,
    pub parts: Seq<Seq<char>>,
}

impl View for HostPath {
    type V = PathView;

    open spec fn view(&self) -> PathView {
        PathView { base: self.base@, parts: text::views(self.parts@) }
    }
}

impl PathView {
    /// The path with a part more behind it.
    pub open spec fn join(self, part: Seq<char>) -> PathView {
        PathView { base: self.base, parts: self.parts.push(part) }
    }
}

/// A path that is as the user gave it.
pub open spec fn given(path: Seq<char>) -> PathView {
    PathView { base: path, parts: seq![] }
}

impl HostPath {
    /// A path that is as the user gave it.
    pub fn new(path: String) -> (r: Self)
        ensures
            r@ == given(path@),
            r.base@ == path@ && r.parts@.len() == 0,
    {
        let r = HostPath { base: path, parts: Vec::new() };
        assert(r@ =~= given(path@));
        r
    }

    /// The path with a part more behind it.
    pub fn join(self, part: &str) -> (r: Self)
        ensures
            r@ == self@.join(part@),
            r.base@ == self.base@,
            text::views(r.parts@) == text::views(self.parts@).push(part@),
    {
        let mut parts = self.parts;
        parts.push(part.to_string());
        let r = HostPath { base: self.base, parts };
        assert(r@ =~= self@.join(part@));
        r
    }
}

impl Clone for HostPath {
    fn clone(&self) -> (r: Self)
        ensures
            r@ == self@,
            r.base@ == self.base@,
            text::views(r.parts@) == text::views(self.parts@),
    {
        let mut parts: Vec<String> = Vec::new();
        let mut i: usize = 0;
        while i < self.parts.len()
            invariant
                i <= self.parts@.len(),
                parts@.len() == i,
                forall|j: int| 0 <= j < i ==> (#[trigger] parts@[j])@ == self.parts@[j]@,
            decreases self.parts@.len() - i,
        {
            parts.push(self.parts[i].clone());
            i = i + 1;
        }
        let r = HostPath { base: self.base.clone(), parts };
        assert(r@ =~= self@);
        r
    }
}

/// The directory for the user's settings, given the two variables that decide.
pub open spec fn config_dir(
    xdg_config_home: Option<String>,
    home: Option<String>,
) -> Option<PathView> {
    match (xdg_config_home, home) {
        (Some(dir), _) => Some(given(dir@)),
        (None, Some(home)) => Some(given(home@).join(".config"@)),
        (None, None) => None,
    }
}

/// The directory of a cluster's settings.
pub open spec fn cluster_dir(config: PathView, name: Seq<char>) -> PathView {
    config.join("navigator"@).join("clusters"@).join(name)
}

/// The directory for the user's settings.
pub fn xdg_config_dir(env: &Environment) -> (r: Result<HostPath, HomeNotSet>)
    ensures
        match r {
            Ok(dir) => config_dir(env.xdg_config_home, env.home) == Some(dir@),
            Err(_) => config_dir(env.xdg_config_home, env.home) is None,
        },
        match r {
            Ok(dir) => if env.xdg_config_home is Some {
                dir.base@ == env.xdg_config_home->0@ && dir.parts@.len() == 0
            } else {
                env.home is Some && dir.base@ == env.home->0@ && text::views(dir.parts@)
                    == seq![".config"@]
            },
            Err(_) => env.xdg_config_home is None && env.home is None,
        },
{
    if let Some(dir) = &env.xdg_config_home {
        return Ok(HostPath::new(dir.clone()));
    }
    match &env.home {
        Some(home) => Ok(HostPath::new(home.clone()).join(".config")),
        None => Err(HomeNotSet),
    }
}

/// A path in the directory of a cluster's settings.
fn in_cluster_dir(env: &Environment, name: &str, part: &str) -> (r: Result<HostPath, HomeNotSet>)
    ensures
        match (r, config_dir(env.xdg_config_home, env.home)) {
            (Ok(path), Some(config)) => path@ == cluster_dir(config, name@).join(part@),
            (Err(_), None) => true,
            _ => false,
        },
        match (r, config_dir(env.xdg_config_home, env.home)) {
            (Ok(path), Some(config)) => path.base@ == config.base && text::views(path.parts@)
                == config.parts + seq!["navigator"@, "clusters"@, name@, part@],
            _ => true,
        },
{
    proof {
        if let Some(config) = config_dir(env.xdg_config_home, env.home) {
            law_cluster_files_stand_below_the_settings(config, name@, part@);
        }
    }
    match xdg_config_dir(env) {
        Ok(config) => Ok(config.join("navigator").join("clusters").join(name).join(part)),
        Err(e) => Err(e),
    }
}

/// Where the kubeconfig of a cluster is kept.
pub fn stored_kubeconfig_path(env: &Environment, name: &str) -> (r: Result<HostPath, HomeNotSet>)
    ensures
        match (r, config_dir(env.xdg_config_home, env.home)) {
            (Ok(path), Some(config)) => path@ == cluster_dir(config, name@).join("kubeconfig"@),
            (Err(_), None) => true,
            _ => false,
        },
        match (r, config_dir(env.xdg_config_home, env.home)) {
            (Ok(path), Some(config)) => path.base@ == config.base && text::views(path.parts@)
                == config.parts + seq!["navigator"@, "clusters"@, name@, "kubeconfig"@],
            _ => true,
        },
{
    in_cluster_dir(env, name, "kubeconfig")
}

/// Where the client certificate for a cluster is kept.
pub fn cli_mtls_dir(env: &Environment, name: &str) -> (r: Result<HostPath, HomeNotSet>)
    ensures
        match (r, config_dir(env.xdg_config_home, env.home)) {
            (Ok(path), Some(config)) => path@ == cluster_dir(config, name@).join("mtls"@),
            (Err(_), None) => true,
            _ => false,
        },
        match (r, config_dir(env.xdg_config_home, env.home)) {
            (Ok(path), Some(config)) => path.base@ == config.base && text::views(path.parts@)
                == config.parts + seq!["navigator"@, "clusters"@, name@, "mtls"@],
            _ => true,
        },
{
    in_cluster_dir(env, name, "mtls")
}

/// Where a new client certificate is written before it comes into use.
pub fn cli_mtls_temp_dir(env: &Environment, name: &str) -> (r: Result<HostPath, HomeNotSet>)
    ensures
        match (r, config_dir(env.xdg_config_home, env.home)) {
            (Ok(path), Some(config)) => path@ == cluster_dir(config, name@).join("mtls.tmp"@),
            (Err(_), None) => true,
            _ => false,
        },
        match (r, config_dir(env.xdg_config_home, env.home)) {
            (Ok(path), Some(config)) => path.base@ == config.base && text::views(path.parts@)
                == config.parts + seq!["navigator"@, "clusters"@, name@, "mtls.tmp"@],
            _ => true,
        },
{
    in_cluster_dir(env, name, "mtls.tmp")
}

/// Where the client certificate in use goes while a new one takes its place.
pub fn cli_mtls_backup_dir(env: &Environment, name: &str) -> (r: Result<HostPath, HomeNotSet>)
    ensures
        match (r, config_dir(env.xdg_config_home, env.home)) {
            (Ok(path), Some(config)) => path@ == cluster_dir(config, name@).join("mtls.bak"@),
            (Err(_), None) => true,
            _ => false,
        },
        match (r, config_dir(env.xdg_config_home, env.home)) {
            (Ok(path), Some(config)) => path.base@ == config.base && text::views(path.parts@)
                == config.parts + seq!["navigator"@, "clusters"@, name@, "mtls.bak"@],
            _ => true,
        },
{
    in_cluster_dir(env, name, "mtls.bak")
}

/// The first of the paths in a list that colons separate.
pub open spec fn first_path(paths: Seq<char>) -> Seq<char> {
    paths.take(text::find(paths, ':') as int)
}

/// The user's own kubeconfig, given the two variables that decide: the first
/// path that `KUBECONFIG` lists, or the usual place in the home directory.
pub open spec fn local_kubeconfig(
    kubeconfig: Option<String>,
    home: Option<String>,
) -> Option<PathView> {
    if kubeconfig is Some && first_path(kubeconfig->0@).len() > 0 {
        Some(given(first_path(kubeconfig->0@)))
    } else if home is Some {
        Some(given(home->0@).join(".kube"@).join("config"@))
    } else {
        None
    }
}

/// The user's own kubeconfig.
pub fn default_local_kubeconfig_path(env: &Environment) -> (r: Result<HostPath, HomeNotSet>)
    ensures
        match r {
            Ok(path) => local_kubeconfig(env.kubeconfig, env.home) == Some(path@),
            Err(_) => local_kubeconfig(env.kubeconfig, env.home) is None,
        },
{
    if let Some(paths) = &env.kubeconfig {
        let chars = chars_of(paths.as_str());
        let n: usize = position(&chars, ':');
        let first = slice_subrange(&chars, 0, n);
        assert(first@ == first_path(paths@));
        if n > 0 {
            return Ok(HostPath::new(string_of(first)));
        }
    }
    match &env.home {
        Some(home) => Ok(HostPath::new(home.clone()).join(".kube").join("config")),
        None => Err(HomeNotSet),
    }
}

/// What belongs to a cluster is put behind the directory of the user's settings,
/// below a directory of the cluster's name. This is about the parts: where a name
/// is an absolute path or goes up with `..`, the host joins them to a path that
/// stands elsewhere.
pub proof fn law_cluster_files_stand_below_the_settings(
    config: PathView,
    name: Seq<char>,
    file: Seq<char>,
)
    ensures
        cluster_dir(config, name).join(file) == (PathView {
            base: config.base,
            parts: config.parts + seq!["navigator"@, "clusters"@, name, file],
        }),
{
    assert(cluster_dir(config, name).join(file).parts =~= config.parts + seq![
        "navigator"@,
        "clusters"@,
        name,
        file,
    ]);
}

/// What belongs to two clusters of different names is put together from different
/// parts.
pub proof fn law_clusters_share_no_path(
    config: PathView,
    one: Seq<char>,
    other: Seq<char>,
    file: Seq<char>,
)
    requires
        one != other,
    ensures
        cluster_dir(config, one).join(file) != cluster_dir(config, other).join(file),
{
    let n = config.parts.len() as int + 2;
    assert(cluster_dir(config, one).join(file).parts[n] == one);
    assert(cluster_dir(config, other).join(file).parts[n] == other);
}

/// The certificate in use, the one that is written, the one that was in use and the
/// kubeconfig have different names in the cluster's directory.
pub proof fn law_cluster_files_differ(config: PathView, name: Seq<char>)
    ensures
        ({
            let dir = cluster_dir(config, name);
            &&& dir.join("mtls"@) != dir.join("mtls.tmp"@)
            &&& dir.join("mtls"@) != dir.join("mtls.bak"@)
            &&& dir.join("mtls.tmp"@) != dir.join("mtls.bak"@)
            &&& dir.join("kubeconfig"@) != dir.join("mtls"@)
            &&& dir.join("kubeconfig"@) != dir.join("mtls.tmp"@)
            &&& dir.join("kubeconfig"@) != dir.join("mtls.bak"@)
        }),
{
    reveal_strlit("mtls");
    reveal_strlit("mtls.tmp");
    reveal_strlit("mtls.bak");
    reveal_strlit("kubeconfig");
    let dir = cluster_dir(config, name);
    assert(dir.join("mtls"@).parts.last().len() == 4);
    assert(dir.join("mtls.tmp"@).parts.last()[5] == 't');
    assert(dir.join("mtls.tmp"@).parts.last().len() == 8);
    assert(dir.join("mtls.bak"@).parts.last()[5] == 'b');
    assert(dir.join("mtls.bak"@).parts.last().len() == 8);
    assert(dir.join("kubeconfig"@).parts.last().len() == 10);
}

/// The directory of the user's settings: `XDG_CONFIG_HOME` where it is set, or
/// `.config` in the home directory, or none.
pub proof fn law_settings_directory(xdg_config_home: Option<String>, home: Option<String>)
    ensures
        match config_dir(xdg_config_home, home) {
            Some(dir) => if xdg_config_home is Some {
                dir.base == xdg_config_home->0@ && dir.parts.len() == 0
            } else {
                home is Some && dir.base == home->0@ && dir.parts == seq![".config"@]
            },
            None => xdg_config_home is None && home is None,
        },
{
}

/// A path with a part behind it begins as the path did, and ends in the part.
pub proof fn law_joined_path(path: PathView, part: Seq<char>)
    ensures
        path.join(part).base == path.base,
        path.join(part).parts.len() == path.parts.len() + 1,
        path.join(part).parts.drop_last() == path.parts,
        path.join(part).parts.last() == part,
{
    assert(path.join(part).parts.drop_last() =~= path.parts);
}

/// The first path of a list is all that stands before its first colon.
pub proof fn law_first_path(first: Seq<char>, rest: Seq<char>)
    requires
        forall|i: int| 0 <= i < first.len() ==> #[trigger] first[i] != ':',
    ensures
        first_path(first) == first,
        first_path(first + seq![':'] + rest) == first,
{
    let empty = Seq::<char>::empty();
    lines::lemma_find_in_rest(first, ':', empty);
    assert(first + empty =~= first);
    assert(first.take(first.len() as int) =~= first);
    lines::lemma_find_behind(first, ':', rest);
    assert((first + seq![':'] + rest).take(first.len() as int) =~= first);
}

/// The user's kubeconfig: the first path that `KUBECONFIG` lists, as it is, where that
/// is not empty, or `.kube/config` in the home directory, or none.
pub proof fn law_users_kubeconfig(
    first: Seq<char>,
    kubeconfig: Option<String>,
    home: Option<String>,
)
    requires
        kubeconfig is None ==> first.len() == 0,
        kubeconfig matches Some(paths) ==> first == first_path(paths@),
    ensures
        match local_kubeconfig(kubeconfig, home) {
            Some(path) => if first.len() > 0 {
                path.base == first && path.parts.len() == 0
            } else {
                home is Some && path.base == home->0@ && path.parts == seq![".kube"@, "config"@]
            },
            None => first.len() == 0 && home is None,
        },
{
    if home is Some {
        assert(given(home->0@).join(".kube"@).join("config"@).parts =~= seq![
            ".kube"@,
            "config"@,
        ]);
    }
}

} // verus!
