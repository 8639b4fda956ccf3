//! Reading the two texts: a query in KDL and a document in YAML.

use vstd::prelude::*;
use crate::adapter::TreeAdapter;
use crate::compile::{compiled, try_compile};
use crate::document::DocValue;
use crate::ir::IrQuery;
use crate::query::{forest_size, QueryNode};

verus! {

/// The kdl crate's document, carried through unopened.
#[verifier::external_type_specification]
#[verifier::external_body]
pub struct ExKdlDocument(kdl::KdlDocument);

/// The kdl crate's error, carried through unopened.
#[verifier::external_type_specification]
#[verifier::external_body]
pub struct ExKdlError(kdl::KdlError);

/// The serde_yaml crate's value, carried through unopened.
#[verifier::external_type_specification]
#[verifier::external_body]
pub struct ExYamlValue(serde_yaml::Value);

/// The serde_yaml crate's error, carried through unopened.
#[verifier::external_type_specification]
#[verifier::external_body]
pub struct ExYamlError(serde_yaml::Error);

/// The nodes that a KDL document holds, as a query tree.
pub uninterp spec fn kdl_nodes(document: kdl::KdlDocument) -> Seq<QueryNode>;

/// The query tree that a text stands for when read as KDL, if it is KDL.
pub uninterp spec fn kdl_reading(text: Seq<char>) -> Option<Seq<QueryNode>>;

/// The document node that a YAML value holds.
pub uninterp spec fn yaml_value(value: serde_yaml::Value) -> DocValue;

/// The document that a text stands for when read as YAML, if it is YAML.
pub uninterp spec fn yaml_reading(text: Seq<char>) -> Option<DocValue>;

/// Why a query could not be run.
#[derive(Debug, PartialEq, Eq)]
pub enum Failure {
    /// The query or the document is malformed.
    Syntax(String),
    /// The query cannot be compiled.
    Compilation(String),
}

/// Calls `KdlDocument::from_str` of the kdl crate, through `str::parse`.
/// Trusted: the outcome depends on the text alone; what an accepted text
/// holds is named `kdl_reading`, and a refused text has no reading.
#[verifier::external_body]
fn read_kdl(text: &str) -> (read: Result<kdl::KdlDocument, kdl::KdlError>)
    ensures
        match read {
            Ok(document) => kdl_reading(text@) == Some(kdl_nodes(document)),
            Err(_) => kdl_reading(text@) is None,
        },
{
    text.parse::<kdl::KdlDocument>()
}

/// Walks a KDL document with `KdlDocument::nodes`, `KdlNode::name`,
/// `KdlNode::entries` and `KdlNode::children` of the kdl crate and copies
/// each node's name, the written form of each entry's value and the
/// children. Trusted: the copy is what `kdl_nodes` names.
#[verifier::external_body]
fn nodes_of(document: &kdl::KdlDocument) -> (nodes: Vec<QueryNode>)
    ensures
        nodes@ == kdl_nodes(*document),
{
    document.nodes().iter().map(|node| QueryNode {
        name: node.name().value().to_string(),
        entries: node.entries().iter().map(|entry| entry.value().to_string()).collect(),
        children: node.children().map(nodes_of).unwrap_or_default(),
    }).collect()
}

/// The message of a `KdlError` of the kdl crate. Nothing is claimed of it.
#[verifier::external_body]
fn kdl_error_message(error: &kdl::KdlError) -> (message: String) {
    error.to_string()
}

/// Calls `serde_yaml::from_str` for a `serde_yaml::Value`. Trusted: the
/// outcome depends on the text alone; what an accepted text holds is named
/// `yaml_reading`, and a refused text has no reading.
#[verifier::external_body]
fn read_yaml(text: &str) -> (read: Result<serde_yaml::Value, serde_yaml::Error>)
    ensures
        match read {
            Ok(value) => yaml_reading(text@) == Some(yaml_value(value)),
            Err(_) => yaml_reading(text@) is None,
        },
{
    serde_yaml::from_str::<serde_yaml::Value>(text)
}

/// Copies a `serde_yaml::Value`, variant by variant; a number and a tag are
/// copied in their written form. Trusted: the copy is what `yaml_value`
/// names.
#[verifier::external_body]
fn value_of(value: &serde_yaml::Value) -> (copy: DocValue)
    ensures
        copy == yaml_value(*value),
{
    match value {
        serde_yaml::Value::Null => DocValue::Null,
        serde_yaml::Value::Bool(b) => DocValue::Boolean(*b),
        serde_yaml::Value::Number(n) => DocValue::Number(n.to_string()),
        serde_yaml::Value::String(s) => DocValue::Text(s.clone()),
        serde_yaml::Value::Sequence(s) => DocValue::Sequence(s.iter().map(value_of).collect()),
        serde_yaml::Value::Mapping(m) => DocValue::Mapping(
            m.iter().map(|(k, v)| (value_of(k), value_of(v))).collect()),
        serde_yaml::Value::Tagged(t) => DocValue::Tagged(
            t.tag.to_string(), Box::new(value_of(&t.value))),
    }
}

/// The message of a `serde_yaml::Error`. Nothing is claimed of it.
#[verifier::external_body]
fn yaml_error_message(error: &serde_yaml::Error) -> (message: String) {
    error.to_string()
}

/// Reads a query from its text.
pub fn parse_query(text: &str) -> (read: Result<Vec<QueryNode>, Failure>)
    ensures
        match read {
            Ok(nodes) => kdl_reading(text@) == Some(nodes@),
            Err(failure) => kdl_reading(text@) is None && failure is Syntax,
        },
{
    match read_kdl(text) {
        Ok(document) => Ok(nodes_of(&document)),
        Err(error) => Err(Failure::Syntax(kdl_error_message(&error))),
    }
}

/// Reads a document from its text.
pub fn parse_document(text: &str) -> (read: Result<DocValue, Failure>)
    ensures
        match read {
            Ok(root) => yaml_reading(text@) == Some(root),
            Err(failure) => yaml_reading(text@) is None && failure is Syntax,
        },
{
    match read_yaml(text) {
        Ok(value) => Ok(value_of(&value)),
        Err(error) => Err(Failure::Syntax(yaml_error_message(&error))),
    }
}

/// Makes ready to run a query on a document: reads both texts, then
/// compiles the query and sets an adapter over the document.
///
/// A text that cannot be read fails the whole before anything is compiled.
pub fn prepare(raw_query: &str, document: &str) -> (ready: Result<(IrQuery, TreeAdapter), Failure>)
    ensures
        match ready {
            Ok(pair) => {
                &&& kdl_reading(raw_query@) is Some
                &&& pair.0@ == compiled(kdl_reading(raw_query@)->Some_0)
                &&& pair.0.is_plain()
                &&& yaml_reading(document@) == Some(pair.1.root)
            },
            Err(Failure::Syntax(_)) => kdl_reading(raw_query@) is None || yaml_reading(
                document@,
            ) is None,
            Err(Failure::Compilation(_)) => {
                &&& kdl_reading(raw_query@) is Some
                &&& yaml_reading(document@) is Some
                &&& forest_size(kdl_reading(raw_query@)->Some_0) + 1 >= u64::MAX
            },
        },
{
    let nodes = match parse_query(raw_query) {
        Ok(nodes) => nodes,
        Err(failure) => {
            return Err(failure);
        },
    };
    let root = match parse_document(document) {
        Ok(root) => root,
        Err(failure) => {
            return Err(failure);
        },
    };
    match try_compile(&nodes) {
        Some(ir) => Ok((ir, TreeAdapter::new(root))),
        None => Err(Failure::Compilation("the query has too many nodes".to_owned())),
    }
}

} // verus!
