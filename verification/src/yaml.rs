//! YAML documents as plain values, and reading them the way yaml-rust's
//! indexing (`node["key"]`, `node[i]`), accessors (`as_i64`, `as_str`,
//! `as_bool`, ...) and iteration do.
use vstd::prelude::*;
use yaml_rust::{Yaml, YamlLoader};

verus! {

#[verifier::external_type_specification]
#[verifier::external_body]
pub struct ExYaml(Yaml);

/// A YAML node. Reals keep their text, as yaml-rust keeps them; a hash
/// keeps its entries in document order.
#[derive(Debug, PartialEq)]
pub enum YamlNode {
    Real(String),
    Integer(i64),
    Text(String),
    Boolean(bool),
    Array(Vec<YamlNode>),
    Hash(Vec<(YamlNode, YamlNode)>),
    Alias(usize),
    Null,
    BadValue,
}

/// The documents that yaml-rust reads from `text`, or `None` where its
/// scanner reports an error.
pub uninterp spec fn yaml_documents(text: Seq<char>) -> Option<Seq<YamlNode>>;

/// One yaml-rust node as a `YamlNode`, variant for variant.
#[verifier::external_body]
fn yaml_node(y: &Yaml) -> YamlNode {
    match y {
        Yaml::Real(s) => YamlNode::Real(s.clone()),
        Yaml::Integer(i) => YamlNode::Integer(*i),
        Yaml::String(s) => YamlNode::Text(s.clone()),
        Yaml::Boolean(b) => YamlNode::Boolean(*b),
        Yaml::Array(a) => YamlNode::Array(a.iter().map(yaml_node).collect()),
        Yaml::Hash(h) => YamlNode::Hash(h.iter().map(|(k, v)| (yaml_node(k), yaml_node(v))).collect()),
        Yaml::Alias(n) => YamlNode::Alias(*n),
        Yaml::Null => YamlNode::Null,
        Yaml::BadValue => YamlNode::BadValue,
    }
}

/// Parses `text` with `yaml_rust::YamlLoader::load_from_str`. Trusted: the
/// result is `None` exactly when the loader reports a scan error, and
/// otherwise the loaded documents, in order, each node converted one for
/// one. The loader's result depends on the text alone.
#[verifier::external_body]
pub fn parse_yaml(text: &str) -> (r: Option<Vec<YamlNode>>)
    ensures
        r is Some <==> yaml_documents(text@) is Some,
        r matches Some(v) ==> v@ == yaml_documents(text@)->0,
{
    match YamlLoader::load_from_str(text) {
        Ok(docs) => Some(docs.iter().map(yaml_node).collect()),
        Err(_) => None,
    }
}

/// A node reached by indexing; no node (`None`) reads as `BadValue`, as
/// yaml-rust answers a missing entry.
pub open spec fn deref_node(o: Option<&YamlNode>) -> YamlNode {
    match o {
        Some(n) => *n,
        None => YamlNode::BadValue,
    }
}

/// The value of the first entry from position `i` on whose key satisfies
/// `is_key`, or `BadValue`. (The keys of a loaded hash are distinct.)
pub open spec fn hash_find(
    pairs: Seq<(YamlNode, YamlNode)>,
    is_key: spec_fn(YamlNode) -> bool,
    i: int,
) -> YamlNode
    decreases pairs.len() - i,
{
    if i < 0 || i >= pairs.len() {
        YamlNode::BadValue
    } else if is_key(pairs[i].0) {
        pairs[i].1
    } else {
        hash_find(pairs, is_key, i + 1)
    }
}

pub open spec fn is_text_key(s: Seq<char>) -> spec_fn(YamlNode) -> bool {
    |k: YamlNode| k matches YamlNode::Text(t) && t@ == s
}

pub open spec fn is_integer_key(n: i64) -> spec_fn(YamlNode) -> bool {
    |k: YamlNode| k == YamlNode::Integer(n)
}

/// `node[key]`: the hash entry named `key`, or `BadValue`.
pub open spec fn node_get(node: YamlNode, key: Seq<char>) -> YamlNode {
    match node {
        YamlNode::Hash(pairs) => hash_find(pairs@, is_text_key(key), 0),
        _ => YamlNode::BadValue,
    }
}

/// `node[i]`: element `i` of an array, the entry with integer key `i` of a
/// hash, or `BadValue`.
pub open spec fn node_at(node: YamlNode, i: usize) -> YamlNode {
    match node {
        YamlNode::Array(items) => if i < items@.len() {
            items@[i as int]
        } else {
            YamlNode::BadValue
        },
        YamlNode::Hash(pairs) => hash_find(pairs@, is_integer_key(i as i64), 0),
        _ => YamlNode::BadValue,
    }
}

/// `as_i64`
pub open spec fn node_i64(node: YamlNode) -> Option<i64> {
    match node {
        YamlNode::Integer(v) => Some(v),
        _ => None,
    }
}

/// `as_bool`
pub open spec fn node_bool(node: YamlNode) -> Option<bool> {
    match node {
        YamlNode::Boolean(b) => Some(b),
        _ => None,
    }
}

/// `as_str`
pub open spec fn node_text(node: YamlNode) -> Option<String> {
    match node {
        YamlNode::Text(s) => Some(s),
        _ => None,
    }
}

/// The text of a real, which `as_f64` parses.
pub open spec fn node_real(node: YamlNode) -> Option<String> {
    match node {
        YamlNode::Real(s) => Some(s),
        _ => None,
    }
}

/// What iterating over a node yields: an array's elements, else nothing.
pub open spec fn node_items(node: YamlNode) -> Seq<YamlNode> {
    match node {
        YamlNode::Array(items) => items@,
        _ => Seq::empty(),
    }
}

fn find_text_key<'a>(pairs: &'a Vec<(YamlNode, YamlNode)>, key: &String) -> (r: Option<&'a YamlNode>)
    ensures
        deref_node(r) == hash_find(pairs@, is_text_key(key@), 0),
{
    let mut i: usize = 0;
    while i < pairs.len()
        invariant
            i <= pairs.len(),
            hash_find(pairs@, is_text_key(key@), i as int) == hash_find(
                pairs@,
                is_text_key(key@),
                0,
            ),
        decreases pairs.len() - i,
    {
        let entry = &pairs[i];
        if let YamlNode::Text(t) = &entry.0 {
            if *t == *key {
                return Some(&entry.1);
            }
        }
        i = i + 1;
    }
    None
}

fn find_integer_key<'a>(pairs: &'a Vec<(YamlNode, YamlNode)>, n: i64) -> (r: Option<&'a YamlNode>)
    ensures
        deref_node(r) == hash_find(pairs@, is_integer_key(n), 0),
{
    let mut i: usize = 0;
    while i < pairs.len()
        invariant
            i <= pairs.len(),
            hash_find(pairs@, is_integer_key(n), i as int) == hash_find(
                pairs@,
                is_integer_key(n),
                0,
            ),
        decreases pairs.len() - i,
    {
        let entry = &pairs[i];
        if let YamlNode::Integer(m) = &entry.0 {
            if *m == n {
                return Some(&entry.1);
            }
        }
        i = i + 1;
    }
    None
}

/// `node[key]`.
pub fn get_key<'a>(node: Option<&'a YamlNode>, key: &str) -> (r: Option<&'a YamlNode>)
    ensures
        deref_node(r) == node_get(deref_node(node), key@),
{
    match node {
        Some(YamlNode::Hash(pairs)) => {
            let k = key.to_owned();
            find_text_key(pairs, &k)
        },
        _ => None,
    }
}

/// `node[i]`.
pub fn get_index<'a>(node: Option<&'a YamlNode>, i: usize) -> (r: Option<&'a YamlNode>)
    ensures
        deref_node(r) == node_at(deref_node(node), i),
{
    match node {
        Some(YamlNode::Array(items)) => {
            if i < items.len() {
                Some(&items[i])
            } else {
                None
            }
        },
        Some(YamlNode::Hash(pairs)) => find_integer_key(pairs, i as i64),
        _ => None,
    }
}

pub fn as_i64(node: Option<&YamlNode>) -> (r: Option<i64>)
    ensures
        r == node_i64(deref_node(node)),
{
    match node {
        Some(YamlNode::Integer(v)) => Some(*v),
        _ => None,
    }
}

pub fn as_bool(node: Option<&YamlNode>) -> (r: Option<bool>)
    ensures
        r == node_bool(deref_node(node)),
{
    match node {
        Some(YamlNode::Boolean(b)) => Some(*b),
        _ => None,
    }
}

pub fn as_text(node: Option<&YamlNode>) -> (r: Option<String>)
    ensures
        r == node_text(deref_node(node)),
{
    match node {
        Some(YamlNode::Text(s)) => Some(s.clone()),
        _ => None,
    }
}

pub fn as_real(node: Option<&YamlNode>) -> (r: Option<String>)
    ensures
        r == node_real(deref_node(node)),
{
    match node {
        Some(YamlNode::Real(s)) => Some(s.clone()),
        _ => None,
    }
}

/// `is_badvalue`
pub fn is_bad_value(node: Option<&YamlNode>) -> (r: bool)
    ensures
        r == (deref_node(node) == YamlNode::BadValue),
{
    match node {
        Some(YamlNode::BadValue) => true,
        Some(_) => false,
        None => true,
    }
}

} // verus!
