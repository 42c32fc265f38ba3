//! YAML documents, as far as settings are read from them.
use vstd::prelude::*;

verus! {

/// A YAML value of the `serde_yaml` crate.
#[verifier::external_type_specification]
#[verifier::external_body]
pub struct ExValue(serde_yaml::Value);

/// What the `serde_yaml` crate finds wrong with a text.
#[verifier::external_type_specification]
#[verifier::external_body]
pub struct ExError(serde_yaml::Error);

/// What stands at one place of a YAML document: a boolean, a string, or
/// anything else (null, a number, a sequence, a mapping).
pub enum YamlNode {
    Bool(bool),
    Text(Seq<char>),
    Other,
}

/// A boolean, a string, or any other YAML value.
#[derive(Debug)]
pub enum YamlScalar {
    Bool(bool),
    Text(String),
    Other,
}

impl View for YamlScalar {
    type V = YamlNode;

    open spec fn view(&self) -> YamlNode {
        match *self {
            YamlScalar::Bool(b) => YamlNode::Bool(b),
            YamlScalar::Text(s) => YamlNode::Text(s@),
            YamlScalar::Other => YamlNode::Other,
        }
    }
}

/// What a YAML value holds: each path of keys that leads from the value to a
/// place in it, with what stands there. The empty path is the value itself.
pub uninterp spec fn yaml_nodes(value: serde_yaml::Value) -> Map<Seq<Seq<char>>, YamlNode>;

/// What the document in a text holds, or `None` where the text is no YAML.
pub uninterp spec fn yaml_document(text: Seq<char>) -> Option<Map<Seq<Seq<char>>, YamlNode>>;

/// The part of a YAML value that stands under a key.
pub open spec fn under(
    nodes: Map<Seq<Seq<char>>, YamlNode>,
    key: Seq<char>,
) -> Map<Seq<Seq<char>>, YamlNode> {
    Map::new(
        |path: Seq<Seq<char>>| nodes.contains_key(seq![key] + path),
        |path: Seq<Seq<char>>| nodes[seq![key] + path],
    )
}

/// What stands at the end of a path of keys, where each key leads on.
pub open spec fn lookup(
    nodes: Map<Seq<Seq<char>>, YamlNode>,
    path: Seq<Seq<char>>,
) -> Option<YamlNode>
    decreases path.len(),
{
    if path.len() == 0 {
        Some(nodes[path])
    } else if nodes.contains_key(seq![path[0]]) {
        lookup(under(nodes, path[0]), path.skip(1))
    } else {
        None
    }
}

/// `serde_yaml::from_str`, into a `serde_yaml::Value`: which texts it takes, and
/// what it makes of one, depends on the text alone.
#[verifier::external_body]
pub(crate) fn parse_yaml(text: &str) -> (r: Result<serde_yaml::Value, serde_yaml::Error>)
    ensures
        match r {
            Ok(value) => yaml_document(text@) == Some(yaml_nodes(value)),
            Err(_) => yaml_document(text@) is None,
        },
{
    serde_yaml::from_str(text)
}

/// `serde_yaml::Value::get` with a string: the value under that key, where the
/// value is a mapping that has it.
#[verifier::external_body]
fn yaml_get<'a>(value: &'a serde_yaml::Value, key: &str) -> (r: Option<&'a serde_yaml::Value>)
    ensures
        r is Some <==> yaml_nodes(*value).contains_key(seq![key@]),
        r matches Some(inner) ==> yaml_nodes(*inner) == under(yaml_nodes(*value), key@),
{
    value.get(key)
}

/// `serde_yaml::Value::as_bool`: the boolean, where the value is one.
#[verifier::external_body]
fn yaml_bool(value: &serde_yaml::Value) -> (r: Option<bool>)
    ensures
        r == match yaml_nodes(*value)[Seq::<Seq<char>>::empty()] {
            YamlNode::Bool(b) => Some(b),
            _ => None,
        },
{
    value.as_bool()
}

/// `serde_yaml::Value::as_str`: the string, where the value is one.
#[verifier::external_body]
fn yaml_text(value: &serde_yaml::Value) -> (r: Option<&str>)
    ensures
        match (r, yaml_nodes(*value)[Seq::<Seq<char>>::empty()]) {
            (Some(s), YamlNode::Text(t)) => s@ == t,
            (None, YamlNode::Text(_)) => false,
            (r, _) => r is None,
        },
{
    value.as_str()
}

/// What a YAML value is: a boolean, a string, or anything else.
fn scalar_of(value: &serde_yaml::Value) -> (r: YamlScalar)
    ensures
        r@ == yaml_nodes(*value)[Seq::<Seq<char>>::empty()],
{
    if let Some(b) = yaml_bool(value) {
        return YamlScalar::Bool(b);
    }
    if let Some(s) = yaml_text(value) {
        return YamlScalar::Text(s.to_string());
    }
    YamlScalar::Other
}

/// What stands at the end of a path of keys in a YAML value.
pub fn find_in_yaml(value: &serde_yaml::Value, path: &[&str]) -> (r: Option<YamlScalar>)
    ensures
        match r {
            Some(scalar) => lookup(yaml_nodes(*value), path@.map_values(|key: &str| key@)) == Some(
                scalar@,
            ),
            None => lookup(yaml_nodes(*value), path@.map_values(|key: &str| key@)) is None,
        },
        match r {
            Some(YamlScalar::Bool(b)) => lookup(
                yaml_nodes(*value),
                path@.map_values(|key: &str| key@),
            ) == Some(YamlNode::Bool(b)),
            Some(YamlScalar::Text(s)) => lookup(
                yaml_nodes(*value),
                path@.map_values(|key: &str| key@),
            ) == Some(YamlNode::Text(s@)),
            Some(YamlScalar::Other) => lookup(
                yaml_nodes(*value),
                path@.map_values(|key: &str| key@),
            ) == Some(YamlNode::Other),
            None => true,
        },
{
    let ghost keys = path@.map_values(|key: &str| key@);
    let mut at: &serde_yaml::Value = value;
    let mut i: usize = 0;
    assert(keys.skip(0) == keys);
    while i < path.len()
        invariant
            i <= path@.len(),
            keys == path@.map_values(|key: &str| key@),
            lookup(yaml_nodes(*value), keys) == lookup(yaml_nodes(*at), keys.skip(i as int)),
        decreases path@.len() - i,
    {
        assert(keys.skip(i as int)[0] == path@[i as int]@);
        assert(keys.skip(i as int).skip(1) == keys.skip(i + 1));
        match yaml_get(at, path[i]) {
            Some(inner) => {
                at = inner;
            },
            None => {
                return None;
            },
        }
        i = i + 1;
    }
    assert(keys.skip(i as int) == Seq::<Seq<char>>::empty());
    Some(scalar_of(at))
}

/// The part under a key holds what stands behind the key, and nothing else.
pub proof fn law_part_under_a_key(
    nodes: Map<Seq<Seq<char>>, YamlNode>,
    key: Seq<char>,
    path: Seq<Seq<char>>,
)
    ensures
        under(nodes, key).contains_key(path) <==> nodes.contains_key(seq![key] + path),
        nodes.contains_key(seq![key] + path) ==> under(nodes, key)[path] == nodes[seq![key] + path],
{
}

/// Something stands at the end of a path where each of its fronts leads somewhere,
/// and it is what the document holds there.
pub proof fn law_lookup_follows_the_path(
    nodes: Map<Seq<Seq<char>>, YamlNode>,
    path: Seq<Seq<char>>,
)
    requires
        nodes.contains_key(Seq::<Seq<char>>::empty()),
    ensures
        lookup(nodes, path) == if forall|n: int|
            0 <= n <= path.len() ==> nodes.contains_key(#[trigger] path.take(n)) {
            Some(nodes[path])
        } else {
            None
        },
    decreases path.len(),
{
    assert(path.take(0) =~= Seq::<Seq<char>>::empty());
    if path.len() == 0 {
        assert(path =~= Seq::<Seq<char>>::empty());
        assert forall|n: int| 0 <= n <= path.len() implies nodes.contains_key(
            #[trigger] path.take(n),
        ) by {}
    } else {
        let key = path[0];
        let rest = path.skip(1);
        let part = under(nodes, key);
        assert(path.take(1) =~= seq![key]);
        if nodes.contains_key(seq![key]) {
            assert(seq![key] + Seq::<Seq<char>>::empty() =~= seq![key]);
            law_lookup_follows_the_path(part, rest);
            assert forall|n: int| 0 <= n <= rest.len() implies part.contains_key(
                #[trigger] rest.take(n),
            ) == nodes.contains_key(path.take(n + 1)) by {
                assert(seq![key] + rest.take(n) =~= path.take(n + 1));
            }
            assert(seq![key] + rest =~= path);
            assert(rest.take(rest.len() as int) =~= rest);
            let all_nodes = forall|n: int|
                0 <= n <= path.len() ==> nodes.contains_key(#[trigger] path.take(n));
            let all_part = forall|n: int|
                0 <= n <= rest.len() ==> part.contains_key(#[trigger] rest.take(n));
            if all_nodes {
                assert forall|n: int| 0 <= n <= rest.len() implies part.contains_key(
                    #[trigger] rest.take(n),
                ) by {
                    assert(nodes.contains_key(path.take(n + 1)));
                }
            }
            if all_part {
                assert forall|n: int| 0 <= n <= path.len() implies nodes.contains_key(
                    #[trigger] path.take(n),
                ) by {
                    if n > 0 {
                        assert(part.contains_key(rest.take(n - 1)));
                    }
                }
            }
        } else {
            assert(!nodes.contains_key(path.take(1)));
        }
    }
}

} // verus!
