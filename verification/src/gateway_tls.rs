//! Whether the cluster's gateway speaks TLS.
use vstd::prelude::*;

use crate::text;
use crate::text::{chars_of, lower_case, same, trimmed};
use crate::yaml;
use crate::yaml::{find_in_yaml, parse_yaml, YamlScalar};

verus! {

/// The environment variable that overrides what the manifests say.
pub const NAV_GATEWAY_TLS_ENABLED_ENV: &'static str = "NAV_GATEWAY_TLS_ENABLED";

/// The text stands for no boolean.
#[derive(Debug)]
pub struct ExpectedBoolean;

impl ExpectedBoolean {
    /// What is said of it.
    pub fn message(&self) -> (r: &'static str)
        ensures
            r@ == "expected a boolean"@,
    {
        "expected a boolean"
    }
}

/// Why it cannot be told whether the gateway speaks TLS.
#[derive(Debug)]
pub enum TlsSettingError {
    /// The manifest is no YAML.
    Manifest(serde_yaml::Error),
    /// The Helm values in the manifest are no YAML.
    Values(serde_yaml::Error),
    /// The setting in the Helm values is no boolean.
    Setting,
    /// The setting in the environment is no boolean.
    Environment,
    /// Neither the environment nor a manifest holds the setting.
    Unknown,
}

/// An answer that speaks of no outside value: the setting, or which error.
pub enum TlsSetting {
    Enabled(bool),
    BadManifest,
    BadValues,
    BadSetting,
    BadEnvironment,
    Unknown,
}

impl TlsSettingError {
    /// The error without what the YAML parser says of it.
    pub open spec fn setting(self) -> TlsSetting {
        match self {
            TlsSettingError::Manifest(_) => TlsSetting::BadManifest,
            TlsSettingError::Values(_) => TlsSetting::BadValues,
            TlsSettingError::Setting => TlsSetting::BadSetting,
            TlsSettingError::Environment => TlsSetting::BadEnvironment,
            TlsSettingError::Unknown => TlsSetting::Unknown,
        }
    }

    /// What is said of the error, in front of what the YAML parser says.
    pub fn message(&self) -> (r: &'static str)
        ensures
            r@ == match *self {
                TlsSettingError::Manifest(_) => "failed to parse HelmChart manifest"@,
                TlsSettingError::Values(_) => "failed to parse Helm values"@,
                TlsSettingError::Setting => "failed to read gateway.tls.enabled"@,
                TlsSettingError::Environment => "NAV_GATEWAY_TLS_ENABLED must be true or false"@,
                TlsSettingError::Unknown =>
                    "failed to determine gateway TLS configuration from NAV_GATEWAY_TLS_ENABLED or HelmChart manifest"@,
            },
    {
        match self {
            TlsSettingError::Manifest(_) => "failed to parse HelmChart manifest",
            TlsSettingError::Values(_) => "failed to parse Helm values",
            TlsSettingError::Setting => "failed to read gateway.tls.enabled",
            TlsSettingError::Environment => "NAV_GATEWAY_TLS_ENABLED must be true or false",
            TlsSettingError::Unknown =>
                "failed to determine gateway TLS configuration from NAV_GATEWAY_TLS_ENABLED or HelmChart manifest",
        }
    }
}

/// A result without what the YAML parser says of an error.
pub open spec fn setting_of(r: Result<bool, TlsSettingError>) -> TlsSetting {
    match r {
        Ok(enabled) => TlsSetting::Enabled(enabled),
        Err(e) => e.setting(),
    }
}

/// The boolean that a word stands for, whatever its case and the white space
/// round it.
pub open spec fn bool_word(value: Seq<char>) -> Option<bool> {
    let word = text::lowered(text::trim(value));
    if word == "true"@ || word == "1"@ || word == "yes"@ {
        Some(true)
    } else if word == "false"@ || word == "0"@ || word == "no"@ {
        Some(false)
    } else {
        None
    }
}

/// Reads a boolean from a word.
pub fn parse_bool_env(value: &str) -> (r: Result<bool, ExpectedBoolean>)
    ensures
        match r {
            Ok(b) => bool_word(value@) == Some(b),
            Err(_) => bool_word(value@) is None,
        },
{
    let chars = chars_of(value);
    let low = lower_case(trimmed(&chars));
    if same(&low, &chars_of("true")) || same(&low, &chars_of("1")) || same(&low, &chars_of("yes")) {
        return Ok(true);
    }
    if same(&low, &chars_of("false")) || same(&low, &chars_of("0")) || same(&low, &chars_of("no")) {
        return Ok(false);
    }
    Err(ExpectedBoolean)
}

/// A word for a boolean stands for it in whatever case it is written, and
/// whatever white space stands round it.
pub proof fn law_case_and_space_do_not_matter(front: Seq<char>, value: Seq<char>, back: Seq<char>)
    requires
        text::blank(front),
        text::blank(back),
    ensures
        bool_word(front + value + back) == bool_word(value),
        bool_word(text::lowered(value)) == bool_word(value),
{
    text::lemma_trim_sum(front, value, back);
    text::lemma_trim_lowered(value);
    let word = text::lowered(text::trim(value));
    assert(text::lowered(word) =~= word);
}

/// The boolean that a YAML node stands for.
pub open spec fn bool_node(node: yaml::YamlNode) -> Option<bool> {
    match node {
        yaml::YamlNode::Bool(b) => Some(b),
        yaml::YamlNode::Text(t) => bool_word(t),
        yaml::YamlNode::Other => None,
    }
}

/// Reads a boolean from a YAML value: one itself, or a word for one.
pub fn parse_bool_value(value: &YamlScalar) -> (r: Result<bool, ExpectedBoolean>)
    ensures
        match r {
            Ok(b) => bool_node(value@) == Some(b),
            Err(_) => bool_node(value@) is None,
        },
        value matches YamlScalar::Bool(b) ==> r == Ok::<bool, ExpectedBoolean>(*b),
        value matches YamlScalar::Text(s) ==> match r {
            Ok(b) => bool_word(s@) == Some(b),
            Err(_) => bool_word(s@) is None,
        },
        value matches YamlScalar::Other ==> r is Err,
{
    match value {
        YamlScalar::Bool(b) => Ok(*b),
        YamlScalar::Text(s) => parse_bool_env(s.as_str()),
        YamlScalar::Other => Err(ExpectedBoolean),
    }
}

/// The setting, given what stands at `gateway.tls.enabled`. It is off where
/// nothing stands there.
pub open spec fn enabled_setting(node: Option<yaml::YamlNode>) -> TlsSetting {
    match node {
        None => TlsSetting::Enabled(false),
        Some(node) => match bool_node(node) {
            Some(enabled) => TlsSetting::Enabled(enabled),
            None => TlsSetting::BadSetting,
        },
    }
}

/// The setting, given what was found at `gateway.tls.enabled`.
pub fn gateway_tls_from_node(found: Option<YamlScalar>) -> (r: Result<bool, TlsSettingError>)
    ensures
        setting_of(r) == enabled_setting(
            match found {
                Some(scalar) => Some(scalar@),
                None => None,
            },
        ),
        found is None ==> r == Ok::<bool, TlsSettingError>(false),
        found matches Some(YamlScalar::Bool(b)) ==> r == Ok::<bool, TlsSettingError>(b),
        found matches Some(YamlScalar::Text(s)) ==> match r {
            Ok(b) => bool_word(s@) == Some(b),
            Err(e) => bool_word(s@) is None && e is Setting,
        },
        found matches Some(YamlScalar::Other) ==> r matches Err(TlsSettingError::Setting),
{
    match found {
        None => Ok(false),
        Some(value) => match parse_bool_value(&value) {
            Ok(enabled) => Ok(enabled),
            Err(_) => Err(TlsSettingError::Setting),
        },
    }
}

/// The path of the setting in the Helm values.
pub open spec fn enabled_path() -> Seq<Seq<char>> {
    seq!["gateway"@, "tls"@, "enabled"@]
}

/// The path of the Helm values in a manifest.
pub open spec fn values_path() -> Seq<Seq<char>> {
    seq!["spec"@, "valuesContent"@]
}

/// The setting that Helm values hold.
pub open spec fn values_setting(values_content: Seq<char>) -> TlsSetting {
    match yaml::yaml_document(values_content) {
        None => TlsSetting::BadValues,
        Some(doc) => enabled_setting(yaml::lookup(doc, enabled_path())),
    }
}

/// The setting that a manifest holds. `None` where it holds no Helm values.
pub open spec fn manifest_setting(contents: Seq<char>) -> Option<TlsSetting> {
    match yaml::yaml_document(contents) {
        None => Some(TlsSetting::BadManifest),
        Some(doc) => match yaml::lookup(doc, values_path()) {
            Some(yaml::YamlNode::Text(values)) => Some(values_setting(values)),
            _ => None,
        },
    }
}

/// Reads the setting from Helm values.
pub fn parse_gateway_tls_enabled_from_values(values_content: &str) -> (r: Result<
    bool,
    TlsSettingError,
>)
    ensures
        setting_of(r) == values_setting(values_content@),
        match yaml::yaml_document(values_content@) {
            None => r matches Err(TlsSettingError::Values(_)),
            Some(doc) => match yaml::lookup(doc, seq!["gateway"@, "tls"@, "enabled"@]) {
                None => r == Ok::<bool, TlsSettingError>(false),
                Some(yaml::YamlNode::Bool(b)) => r == Ok::<bool, TlsSettingError>(b),
                Some(yaml::YamlNode::Text(t)) => match r {
                    Ok(b) => bool_word(t) == Some(b),
                    Err(e) => bool_word(t) is None && e is Setting,
                },
                Some(yaml::YamlNode::Other) => r matches Err(TlsSettingError::Setting),
            },
        },
{
    match parse_yaml(values_content) {
        Err(e) => Err(TlsSettingError::Values(e)),
        Ok(values) => {
            let path: [&str; 3] = ["gateway", "tls", "enabled"];
            assert(path@.map_values(|key: &str| key@) == enabled_path());
            gateway_tls_from_node(find_in_yaml(&values, &path))
        },
    }
}

/// Reads the setting from a HelmChart manifest. `Ok(None)` where the manifest
/// holds no Helm values.
pub fn parse_gateway_tls_enabled_from_helmchart(contents: &str) -> (r: Result<
    Option<bool>,
    TlsSettingError,
>)
    ensures
        match r {
            Ok(None) => manifest_setting(contents@) is None,
            Ok(Some(enabled)) => manifest_setting(contents@) == Some(TlsSetting::Enabled(enabled)),
            Err(e) => manifest_setting(contents@) == Some(e.setting()),
        },
        match yaml::yaml_document(contents@) {
            None => r matches Err(TlsSettingError::Manifest(_)),
            Some(doc) => match yaml::lookup(doc, seq!["spec"@, "valuesContent"@]) {
                Some(yaml::YamlNode::Text(values)) => match r {
                    Ok(None) => false,
                    Ok(Some(enabled)) => values_setting(values) == TlsSetting::Enabled(enabled),
                    Err(TlsSettingError::Values(_)) => values_setting(values)
                        == TlsSetting::BadValues,
                    Err(TlsSettingError::Setting) => values_setting(values)
                        == TlsSetting::BadSetting,
                    Err(_) => false,
                },
                _ => r matches Ok(None),
            },
        },
{
    match parse_yaml(contents) {
        Err(e) => Err(TlsSettingError::Manifest(e)),
        Ok(helmchart) => {
            let path: [&str; 2] = ["spec", "valuesContent"];
            assert(path@.map_values(|key: &str| key@) == values_path());
            match find_in_yaml(&helmchart, &path) {
                Some(YamlScalar::Text(values)) => match parse_gateway_tls_enabled_from_values(
                    values.as_str(),
                ) {
                    Ok(enabled) => Ok(Some(enabled)),
                    Err(e) => Err(e),
                },
                _ => Ok(None),
            }
        },
    }
}

/// How many places in the container can hold the manifest.
pub const HELMCHART_MANIFEST_COUNT: usize = 2;

/// Where in the container the manifest can stand, in the order in which the
/// places are looked at.
pub fn helmchart_manifest_path(index: usize) -> (r: &'static str)
    requires
        index < HELMCHART_MANIFEST_COUNT,
    ensures
        index == 0 ==> r@ == "/var/lib/rancher/k3s/server/manifests/navigator-helmchart.yaml"@,
        index == 1 ==> r@ == "/opt/navigator/manifests/navigator-helmchart.yaml"@,
{
    if index == 0 {
        "/var/lib/rancher/k3s/server/manifests/navigator-helmchart.yaml"
    } else {
        "/opt/navigator/manifests/navigator-helmchart.yaml"
    }
}

/// What to do next to learn the setting.
#[derive(Debug)]
pub enum TlsLookup {
    /// The setting is known.
    Answer(bool),
    /// It cannot be learned.
    Fail(TlsSettingError),
    /// Read the manifest at the place with this index.
    Read(usize),
}

/// A step of the lookup that speaks of no outside value.
pub enum TlsLookupStep {
    Done(TlsSetting),
    Read(int),
}

impl View for TlsLookup {
    type V = TlsLookupStep;

    open spec fn view(&self) -> TlsLookupStep {
        match *self {
            TlsLookup::Answer(enabled) => TlsLookupStep::Done(TlsSetting::Enabled(enabled)),
            TlsLookup::Fail(e) => TlsLookupStep::Done(e.setting()),
            TlsLookup::Read(index) => TlsLookupStep::Read(index as int),
        }
    }
}

/// The setting that the environment variable holds.
pub open spec fn environment_setting(value: Seq<char>) -> TlsSetting {
    match bool_word(value) {
        Some(enabled) => TlsSetting::Enabled(enabled),
        None => TlsSetting::BadEnvironment,
    }
}

/// The first step: the environment decides where it speaks.
pub open spec fn first_step(environment: Option<Seq<char>>) -> TlsLookupStep {
    match environment {
        Some(value) => TlsLookupStep::Done(environment_setting(value)),
        None => TlsLookupStep::Read(0),
    }
}

/// The step behind reading a manifest, which is `None` where it could not be
/// read: it decides where it holds Helm values.
pub open spec fn step_after_manifest(index: int, manifest: Option<Seq<char>>) -> TlsLookupStep {
    let found = match manifest {
        Some(contents) => manifest_setting(contents),
        None => None,
    };
    match found {
        Some(setting) => TlsLookupStep::Done(setting),
        None => if index + 1 < HELMCHART_MANIFEST_COUNT {
            TlsLookupStep::Read(index + 1)
        } else {
            TlsLookupStep::Done(TlsSetting::Unknown)
        },
    }
}

/// Begins to look for the setting, given the environment variable.
pub fn gateway_tls_enabled(environment: Option<&str>) -> (r: TlsLookup)
    ensures
        r@ == first_step(
            match environment {
                Some(value) => Some(value@),
                None => None,
            },
        ),
        match (environment, r) {
            (None, TlsLookup::Read(index)) => index == 0,
            (Some(value), TlsLookup::Answer(enabled)) => bool_word(value@) == Some(enabled),
            (Some(value), TlsLookup::Fail(TlsSettingError::Environment)) => bool_word(
                value@,
            ) is None,
            _ => false,
        },
{
    match environment {
        Some(value) => match parse_bool_env(value) {
            Ok(enabled) => TlsLookup::Answer(enabled),
            Err(_) => TlsLookup::Fail(TlsSettingError::Environment),
        },
        None => TlsLookup::Read(0),
    }
}

/// Goes on looking for the setting, given what stands at a place where the
/// manifest can be.
pub fn gateway_tls_after_manifest(index: usize, manifest: Option<&str>) -> (r: TlsLookup)
    requires
        index < HELMCHART_MANIFEST_COUNT,
    ensures
        r@ == step_after_manifest(
            index as int,
            match manifest {
                Some(contents) => Some(contents@),
                None => None,
            },
        ),
        r matches TlsLookup::Read(next) ==> next < HELMCHART_MANIFEST_COUNT,
        r matches TlsLookup::Read(next) ==> index == 0 && next == 1,
        manifest is None && index == 0 ==> r matches TlsLookup::Read(_),
        manifest is None && index == 1 ==> r matches TlsLookup::Fail(TlsSettingError::Unknown),
        r matches TlsLookup::Answer(enabled) ==> manifest is Some && manifest_setting(manifest->0@)
            == Some(TlsSetting::Enabled(enabled)),
{
    if let Some(contents) = manifest {
        match parse_gateway_tls_enabled_from_helmchart(contents) {
            Ok(Some(enabled)) => {
                return TlsLookup::Answer(enabled);
            },
            Ok(None) => {},
            Err(e) => {
                return TlsLookup::Fail(e);
            },
        }
    }
    if index + 1 < HELMCHART_MANIFEST_COUNT {
        TlsLookup::Read(index + 1)
    } else {
        TlsLookup::Fail(TlsSettingError::Unknown)
    }
}

/// What the lookup comes to from a step on, given what stands at each place.
pub open spec fn lookup_outcome(
    step: TlsLookupStep,
    manifests: spec_fn(int) -> Option<Seq<char>>,
) -> TlsSetting
    decreases
            (match step {
                TlsLookupStep::Done(_) => 0int,
                TlsLookupStep::Read(index) => if index < HELMCHART_MANIFEST_COUNT {
                    HELMCHART_MANIFEST_COUNT - index
                } else {
                    1int
                },
            }),
{
    match step {
        TlsLookupStep::Done(setting) => setting,
        TlsLookupStep::Read(index) => lookup_outcome(
            step_after_manifest(index, manifests(index)),
            manifests,
        ),
    }
}

/// Whether a place holds a manifest with Helm values, or one that is no YAML.
pub open spec fn decides(manifest: Option<Seq<char>>) -> bool {
    manifest is Some && manifest_setting(manifest->0) is Some
}

/// The environment comes before the manifests, the first place before the
/// second, and where none of them speaks the setting stays unknown.
pub proof fn law_lookup_order(
    environment: Option<Seq<char>>,
    manifests: spec_fn(int) -> Option<Seq<char>>,
)
    ensures
        lookup_outcome(first_step(environment), manifests) == if environment is Some {
            environment_setting(environment->0)
        } else if decides(manifests(0)) {
            manifest_setting(manifests(0)->0)->0
        } else if decides(manifests(1)) {
            manifest_setting(manifests(1)->0)->0
        } else {
            TlsSetting::Unknown
        },
{
    reveal_with_fuel(lookup_outcome, 4);
}

/// The words for a boolean: `true`, `1` and `yes` for the one, `false`, `0` and `no`
/// for the other, in whatever case, with whatever white space round them. No other
/// text stands for one.
pub proof fn law_words_for_booleans(front: Seq<char>, word: Seq<char>, back: Seq<char>)
    requires
        text::blank(front),
        text::blank(back),
        word.len() > 0,
        !text::white_space(word[0]),
        !text::white_space(word.last()),
    ensures
        bool_word(front + word + back) == Some(true) <==> (text::lowered(word) == "true"@
            || text::lowered(word) == "1"@ || text::lowered(word) == "yes"@),
        bool_word(front + word + back) == Some(false) <==> (text::lowered(word) == "false"@
            || text::lowered(word) == "0"@ || text::lowered(word) == "no"@),
        bool_word(front + back) is None,
{
    text::lemma_trim_sum(front, word, back);
    lemma_trim_of_word(word);
    text::lemma_trim_sum(front, Seq::<char>::empty(), back);
    assert(front + Seq::<char>::empty() + back =~= front + back);
    assert(text::trim(Seq::<char>::empty()) =~= Seq::<char>::empty());
    assert(text::lowered(Seq::<char>::empty()) =~= Seq::<char>::empty());
    reveal_strlit("true");
    reveal_strlit("1");
    reveal_strlit("yes");
    reveal_strlit("false");
    reveal_strlit("0");
    reveal_strlit("no");
    let low = text::lowered(word);
    assert(low == "true"@ ==> low.len() == 4 && low[0] == 't');
    assert(low == "1"@ ==> low.len() == 1 && low[0] == '1');
    assert(low == "yes"@ ==> low.len() == 3 && low[0] == 'y');
    assert(low == "false"@ ==> low.len() == 5 && low[0] == 'f');
    assert(low == "0"@ ==> low.len() == 1 && low[0] == '0');
    assert(low == "no"@ ==> low.len() == 2 && low[0] == 'n');
}

/// A text with no white space at its ends is trimmed.
proof fn lemma_trim_of_word(word: Seq<char>)
    requires
        word.len() > 0,
        !text::white_space(word[0]),
        !text::white_space(word.last()),
    ensures
        text::trim(word) == word,
{
    assert(text::indent_len(word) == 0);
    assert(text::trim_start(word) =~= word);
}

/// What the Helm values hold at `gateway.tls.enabled` decides: a boolean is the
/// setting itself, a word the boolean that it stands for; where nothing stands there
/// the setting is off, and anything else is an error.
pub proof fn law_helm_values_decide(values_content: Seq<char>)
    ensures
        match yaml::yaml_document(values_content) {
            None => values_setting(values_content) == TlsSetting::BadValues,
            Some(doc) => match yaml::lookup(doc, seq!["gateway"@, "tls"@, "enabled"@]) {
                Some(yaml::YamlNode::Bool(b)) => {
                    &&& b ==> values_setting(values_content) == TlsSetting::Enabled(true)
                    &&& !b ==> values_setting(values_content) == TlsSetting::Enabled(false)
                },
                Some(yaml::YamlNode::Text(word)) => {
                    &&& bool_word(word) == Some(true) ==> values_setting(values_content)
                        == TlsSetting::Enabled(true)
                    &&& bool_word(word) == Some(false) ==> values_setting(values_content)
                        == TlsSetting::Enabled(false)
                    &&& bool_word(word) is None ==> values_setting(values_content)
                        == TlsSetting::BadSetting
                },
                Some(yaml::YamlNode::Other) => values_setting(values_content)
                    == TlsSetting::BadSetting,
                None => values_setting(values_content) == TlsSetting::Enabled(false),
            },
        },
{
}

/// What the manifest holds at `spec.valuesContent` decides where it is a text: that
/// text is the Helm values. A manifest without one says nothing.
pub proof fn law_manifest_carries_the_values(contents: Seq<char>)
    ensures
        match yaml::yaml_document(contents) {
            None => manifest_setting(contents) == Some(TlsSetting::BadManifest),
            Some(doc) => match yaml::lookup(doc, seq!["spec"@, "valuesContent"@]) {
                Some(yaml::YamlNode::Text(values)) => manifest_setting(contents) == Some(
                    values_setting(values),
                ),
                Some(yaml::YamlNode::Bool(_)) => manifest_setting(contents) is None,
                Some(yaml::YamlNode::Other) => manifest_setting(contents) is None,
                None => manifest_setting(contents) is None,
            },
        },
{
}

/// Where the environment speaks, its word is the setting, and what stands in the
/// manifests does not matter.
pub proof fn law_environment_decides(
    value: Seq<char>,
    manifests: spec_fn(int) -> Option<Seq<char>>,
)
    ensures
        bool_word(value) == Some(true) ==> lookup_outcome(first_step(Some(value)), manifests)
            == TlsSetting::Enabled(true),
        bool_word(value) == Some(false) ==> lookup_outcome(first_step(Some(value)), manifests)
            == TlsSetting::Enabled(false),
        bool_word(value) is None ==> lookup_outcome(first_step(Some(value)), manifests)
            == TlsSetting::BadEnvironment,
{
    law_lookup_order(Some(value), manifests);
}

/// Where the environment is silent, the first manifest that says something decides:
/// one that is missing, or that holds no Helm values, says nothing.
pub proof fn law_manifests_decide(manifests: spec_fn(int) -> Option<Seq<char>>)
    ensures
        ({
            let now = lookup_outcome(first_step(None), manifests);
            let silent = |manifest: Option<Seq<char>>|
                manifest is None || manifest_setting(manifest->0) is None;
            &&& !silent(manifests(0)) ==> Some(now) == manifest_setting(manifests(0)->0)
            &&& silent(manifests(0)) && !silent(manifests(1)) ==> Some(now) == manifest_setting(
                manifests(1)->0,
            )
            &&& silent(manifests(0)) && silent(manifests(1)) ==> now == TlsSetting::Unknown
        }),
{
    law_lookup_order(None, manifests);
}

/// Each error is told apart from the others, and an answer from every error.
pub proof fn law_errors_are_told_apart(
    enabled: bool,
    manifest: serde_yaml::Error,
    values: serde_yaml::Error,
)
    ensures
        setting_of(Ok(enabled)) == TlsSetting::Enabled(enabled),
        setting_of(Err(TlsSettingError::Manifest(manifest))) == TlsSetting::BadManifest,
        setting_of(Err(TlsSettingError::Values(values))) == TlsSetting::BadValues,
        setting_of(Err(TlsSettingError::Setting)) == TlsSetting::BadSetting,
        setting_of(Err(TlsSettingError::Environment)) == TlsSetting::BadEnvironment,
        setting_of(Err(TlsSettingError::Unknown)) == TlsSetting::Unknown,
{
}

} // verus!
