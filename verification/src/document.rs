//! Configuration documents: the YAML loader's values as plain nodes.

use vstd::prelude::*;
use yaml_rust::{ScanError, Yaml, YamlLoader};

verus! {

/// yaml-rust's `Yaml`: a loaded value. Nothing is known of what it holds but
/// through `node_of_yaml`.
#[verifier::external_type_specification]
#[verifier::external_body]
pub struct ExYaml(Yaml);

/// yaml-rust's `ScanError`: where and why a text failed to scan. It is only
/// carried along.
#[verifier::external_type_specification]
#[verifier::external_body]
pub struct ExScanError(ScanError);

/// One value of a document, as far as a configuration reads it.
#[derive(Debug, PartialEq)]
pub enum Node {
    Integer(i64),
    String(String),
    Array(Vec<Node>),
    /// The entries of a hash, each key with its value, in the hash's order.
    Hash(Vec<(Node, Node)>),
    /// A real, a boolean, an alias, a null or a bad value.
    Other,
}

/// The node that stands for a loaded YAML value.
pub uninterp spec fn yaml_node(yaml: Yaml) -> Node;

/// The documents of a YAML text as nodes, or `None` where the text does not
/// scan.
pub uninterp spec fn yaml_documents(source: Seq<char>) -> Option<Seq<Node>>;

/// `YamlLoader::load_from_str` of yaml-rust: the documents of `source` in
/// their order, or the scanner's error. The contract claims only that the
/// outcome is a function of the text, and gives it its name.
pub assume_specification[ YamlLoader::load_from_str ](source: &str) -> (r: Result<
    Vec<Yaml>,
    ScanError,
>)
    ensures
        match r {
            Ok(docs) => yaml_documents(source@) == Some(
                docs@.map_values(|doc: Yaml| yaml_node(doc)),
            ),
            Err(_) => yaml_documents(source@).is_none(),
        },
;

/// Turns a value of yaml-rust's `Yaml` into a node, variant by variant:
/// integers and strings with their content, arrays and hashes with their
/// members in order, everything else as `Other`. A hash is walked with
/// `LinkedHashMap::iter`, which goes by the order of insertion and holds no
/// key twice. The contract gives the result its name.
#[verifier::external_body]
pub(crate) fn node_of_yaml(yaml: &Yaml) -> (node: Node)
    ensures
        node == yaml_node(*yaml),
{
    match yaml {
        Yaml::Integer(i) => Node::Integer(*i),
        Yaml::String(s) => Node::String(s.clone()),
        Yaml::Array(v) => Node::Array(v.iter().map(node_of_yaml).collect()),
        Yaml::Hash(h) => Node::Hash(
            h.iter().map(|(k, v)| (node_of_yaml(k), node_of_yaml(v))).collect(),
        ),
        _ => Node::Other,
    }
}

/// The place of the first entry whose key is the string `key`, or the number
/// of entries where there is none.
pub open spec fn key_index(entries: Seq<(Node, Node)>, key: Seq<char>) -> int
    decreases entries.len(),
{
    if entries.len() == 0 {
        0
    } else if is_key(entries[0].0, key) {
        0
    } else {
        1 + key_index(entries.skip(1), key)
    }
}

/// Whether `node` is the string `key`.
pub open spec fn is_key(node: Node, key: Seq<char>) -> bool {
    node matches Node::String(s) && s@ == key
}

/// The value that a hash holds under the string `key`. A node that is no
/// hash holds nothing.
pub open spec fn field(node: Node, key: Seq<char>) -> Option<Node> {
    match node {
        Node::Hash(entries) => if key_index(entries@, key) < entries@.len() {
            Some(entries@[key_index(entries@, key)].1)
        } else {
            None
        },
        _ => None,
    }
}

/// `key_index` finds the first entry under the key and nothing before it.
pub proof fn lemma_key_index(entries: Seq<(Node, Node)>, key: Seq<char>)
    ensures
        0 <= key_index(entries, key) <= entries.len(),
        forall|k: int| 0 <= k < key_index(entries, key) ==> !is_key((#[trigger] entries[k]).0, key),
        key_index(entries, key) < entries.len() ==> is_key(entries[key_index(entries, key)].0, key),
    decreases entries.len(),
{
    if entries.len() > 0 && !is_key(entries[0].0, key) {
        let rest = entries.skip(1);
        lemma_key_index(rest, key);
        assert forall|k: int| 0 <= k < key_index(entries, key) implies !is_key(
            (#[trigger] entries[k]).0,
            key,
        ) by {
            if k > 0 {
                assert(entries[k] == rest[k - 1]);
            }
        }
    }
}

/// A place with no entry under the key before it, that holds one or is the
/// end of the entries, is the place `key_index` finds.
pub proof fn lemma_key_index_is(entries: Seq<(Node, Node)>, key: Seq<char>, at: int)
    requires
        0 <= at <= entries.len(),
        forall|k: int| 0 <= k < at ==> !is_key((#[trigger] entries[k]).0, key),
        at < entries.len() ==> is_key(entries[at].0, key),
    ensures
        key_index(entries, key) == at,
{
    lemma_key_index(entries, key);
}

impl Node {
    /// The value under the string `key`, where this node is a hash that has
    /// one.
    pub fn get(&self, key: &str) -> (r: Option<&Node>)
        ensures
            r == (match field(*self, key@) {
                Some(value) => Some(&value),
                None => None,
            }),
    {
        let entries = match self {
            Node::Hash(entries) => entries,
            _ => {
                return None;
            },
        };
        let wanted = key.to_owned();
        let mut i: usize = 0;
        while i < entries.len()
            invariant
                i <= entries@.len(),
                *self == Node::Hash(*entries),
                wanted@ == key@,
                forall|k: int| 0 <= k < i ==> !is_key((#[trigger] entries@[k]).0, key@),
            decreases entries.len() - i,
        {
            let found = match &entries[i].0 {
                Node::String(s) => *s == wanted,
                _ => false,
            };
            if found {
                proof {
                    lemma_key_index_is(entries@, key@, i as int);
                }
                return Some(&entries[i].1);
            }
            i += 1;
        }
        proof {
            lemma_key_index_is(entries@, key@, i as int);
        }
        None
    }
}

} // verus!
