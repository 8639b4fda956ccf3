// Runs whole queries: the library reads and compiles, the trustfall engine
// interprets, and the library's adapter resolves each step.

use std::collections::BTreeMap;
use std::num::NonZeroUsize;
use std::rc::Rc;
use std::sync::Arc;

use async_graphql_parser::types::Type;
use treequery::adapter::TreeAdapter;
use treequery::document::DocValue;
use treequery::ir::IrQuery;
use treequery::parse::{parse_document, parse_query, prepare, Failure};
use trustfall::provider::{
    BasicAdapter, ContextIterator, ContextOutcomeIterator, EdgeParameters, Typename,
    VertexIterator,
};
use trustfall::FieldValue;
use trustfall_core::interpreter::execution::interpret_ir;
use trustfall_core::ir::{
    ContextField, Eid, IREdge, IRQuery, IRQueryComponent, IRVertex, IndexedQuery, Output, Vid,
};

#[derive(Debug, Clone)]
struct Vertex<'a>(&'a DocValue);

impl Typename for Vertex<'_> {
    fn typename(&self) -> &'static str {
        self.0.typename()
    }
}

struct YamlAdapter<'a> {
    inner: &'a TreeAdapter,
}

impl<'a> BasicAdapter<'a> for YamlAdapter<'a> {
    type Vertex = Vertex<'a>;

    fn resolve_starting_vertices(
        &self,
        edge_name: &str,
        _parameters: &EdgeParameters,
    ) -> VertexIterator<'a, Self::Vertex> {
        let inner: &'a TreeAdapter = self.inner;
        Box::new(inner.resolve_starting_vertices(edge_name).into_iter().map(Vertex))
    }

    fn resolve_property(
        &self,
        contexts: ContextIterator<'a, Self::Vertex>,
        vertex_type: &str,
        property_name: &str,
    ) -> ContextOutcomeIterator<'a, Self::Vertex, FieldValue> {
        let inner: &'a TreeAdapter = self.inner;
        let vertex_type = vertex_type.to_string();
        let property_name = property_name.to_string();
        Box::new(contexts.filter_map(move |context| {
            let active: &'a DocValue = context.active_vertex().unwrap().0;
            inner
                .property_of(active, &vertex_type, &property_name)
                .map(|text| (context, FieldValue::from(text)))
        }))
    }

    fn resolve_neighbors(
        &self,
        contexts: ContextIterator<'a, Self::Vertex>,
        vertex_type: &str,
        edge_name: &str,
        _parameters: &EdgeParameters,
    ) -> ContextOutcomeIterator<'a, Self::Vertex, VertexIterator<'a, Self::Vertex>> {
        let inner: &'a TreeAdapter = self.inner;
        let vertex_type = vertex_type.to_string();
        let edge_name = edge_name.to_string();
        Box::new(contexts.filter_map(move |context| {
            let active: &'a DocValue = context.active_vertex().unwrap().0;
            inner.neighbors_of(active, &vertex_type, &edge_name).map(|children| {
                let children: VertexIterator<'a, Vertex<'a>> =
                    Box::new(children.into_iter().map(Vertex));
                (context, children)
            })
        }))
    }

    fn resolve_coercion(
        &self,
        contexts: ContextIterator<'a, Self::Vertex>,
        vertex_type: &str,
        coerce_to_type: &str,
    ) -> ContextOutcomeIterator<'a, Self::Vertex, bool> {
        let inner: &'a TreeAdapter = self.inner;
        let vertex_type = vertex_type.to_string();
        let coerce_to_type = coerce_to_type.to_string();
        Box::new(contexts.map(move |context| {
            let yes = match context.active_vertex() {
                Some(vertex) => inner.coercion_of(vertex.0, &vertex_type, &coerce_to_type),
                None => false,
            };
            (context, yes)
        }))
    }
}

fn position(id: u64) -> NonZeroUsize {
    NonZeroUsize::new(usize::try_from(id).unwrap()).unwrap()
}

// The engine's vertex record is read from its written form, field by field.
fn engine_vertex(id: u64, tag: &str) -> IRVertex {
    let tag_field = format!("{}_{}", "type", "name");
    serde_yaml::from_str(&format!("vid: {id}\n{tag_field}: {tag}\n")).unwrap()
}

fn indexed_query(ir: &IrQuery) -> IndexedQuery {
    let mut vertices = BTreeMap::new();
    for vertex in &ir.vertices {
        let vid = Vid::new(position(vertex.id));
        vertices.insert(
            vid,
            engine_vertex(vertex.id, &vertex.type_tag),
        );
    }
    let mut edges = BTreeMap::new();
    for edge in &ir.edges {
        let eid = Eid::new(position(edge.id));
        edges.insert(
            eid,
            Arc::new(IREdge {
                eid,
                from_vid: Vid::new(position(edge.from)),
                to_vid: Vid::new(position(edge.to)),
                edge_name: Arc::from(edge.name.as_str()),
                parameters: EdgeParameters::default(),
                optional: edge.optional,
                recursive: None,
            }),
        );
    }
    let mut outputs: BTreeMap<Arc<str>, Output> = BTreeMap::new();
    let mut fields: BTreeMap<Arc<str>, ContextField> = BTreeMap::new();
    for binding in &ir.outputs {
        let label: Arc<str> = Arc::from(binding.label.as_str());
        let value_type = Type::new(&binding.scalar_type).unwrap();
        let vid = Vid::new(position(binding.vertex));
        let name: Arc<str> = Arc::from(binding.field.as_str());
        fields.insert(
            label.clone(),
            ContextField {
                vertex_id: vid,
                field_name: name.clone(),
                field_type: value_type.clone(),
            },
        );
        outputs.insert(label, Output { name, value_type, vid });
    }
    let component = IRQueryComponent {
        root: Vid::new(position(ir.root)),
        vertices,
        edges,
        folds: Default::default(),
        outputs: fields,
    };
    let ir_query = IRQuery {
        root_name: Arc::from(ir.root_name.as_str()),
        root_parameters: EdgeParameters::default(),
        root_component: Arc::from(component),
        variables: BTreeMap::new(),
    };
    let mut query = IndexedQuery::try_from(ir_query).unwrap();
    query.outputs = outputs;
    query
}

fn interpret(ir: &IrQuery, adapter: &TreeAdapter) -> Vec<BTreeMap<String, FieldValue>> {
    let engine_adapter = YamlAdapter { inner: adapter };
    interpret_ir(Rc::new(engine_adapter), Arc::new(indexed_query(ir)), Arc::new(BTreeMap::new()))
        .unwrap()
        .map(|row| row.into_iter().map(|(key, field)| (key.to_string(), field)).collect())
        .collect()
}

fn run(raw_query: &str, yaml: &str) -> Result<Vec<BTreeMap<String, FieldValue>>, Failure> {
    let (ir, adapter) = prepare(raw_query, yaml)?;
    Ok(interpret(&ir, &adapter))
}

const DEPLOYMENT_QUERY: &str = r#"kind "Deployment"
metadata {
    name "@name"
}
spec {
    template {
        metadata {
            annotations {
                "kube2iam/role" "@role"
            }
        }
        spec {
            containers {
                * {
                    image "@image"
                }
            }
        }
    }
}
"#;

const DEPLOYMENT: &str = r#"apiVersion: apps/v1
kind: Deployment
metadata:
  name: other-server
  foo: bar
spec:
  template:
    metadata:
      annotations:
        kube2iam/role: "some-fancy-ARN-that-does-not-matter"
    spec:
      containers:
      - image: truelayer-docker.jfrog.io/clients-api:v1.44.19
      - image: truelayer-docker.jfrog.io/nginx-sidecar:v1.1.11
        name: proxy
      - image: truelayer-docker.jfrog.io/envoyproxy_envoy:v1.17.0
        name: proxy-envoy
"#;

#[test]
fn it_works() {
    let pretend_query = DEPLOYMENT_QUERY;
    let yaml = DEPLOYMENT;

    let hits = run(pretend_query, yaml).unwrap();

    assert_eq!(
        hits,
        vec![
            BTreeMap::from([
                ("name".into(), FieldValue::from("other-server")),
                (
                    "role".into(),
                    FieldValue::from("some-fancy-ARN-that-does-not-matter")
                ),
                (
                    "image".into(),
                    FieldValue::from("truelayer-docker.jfrog.io/clients-api:v1.44.19")
                ),
            ]),
            BTreeMap::from([
                ("name".into(), FieldValue::from("other-server")),
                (
                    "role".into(),
                    FieldValue::from("some-fancy-ARN-that-does-not-matter")
                ),
                (
                    "image".into(),
                    FieldValue::from("truelayer-docker.jfrog.io/nginx-sidecar:v1.1.11")
                ),
            ]),
            BTreeMap::from([
                ("name".into(), FieldValue::from("other-server")),
                (
                    "role".into(),
                    FieldValue::from("some-fancy-ARN-that-does-not-matter")
                ),
                (
                    "image".into(),
                    FieldValue::from("truelayer-docker.jfrog.io/envoyproxy_envoy:v1.17.0")
                ),
            ]),
        ]
    )
}

#[test]
fn running_twice_gives_the_same_rows() {
    let (ir, adapter) = prepare(DEPLOYMENT_QUERY, DEPLOYMENT).unwrap();
    let first = interpret(&ir, &adapter);
    let second = interpret(&ir, &adapter);
    assert_eq!(first.len(), 3);
    assert_eq!(first, second);
}

#[test]
fn a_numeric_field_drops_the_row() {
    let rows = run("replicas \"@count\"\n", "replicas: 3\n").unwrap();
    assert!(rows.is_empty());
}

#[test]
fn a_missing_neighbor_drops_the_row() {
    let rows = run("metadata {\n    name \"@name\"\n}\n", "kind: Deployment\n").unwrap();
    assert!(rows.is_empty());
}

#[test]
fn parse_query_reads_names_entries_and_children() {
    let nodes = parse_query(DEPLOYMENT_QUERY).unwrap();
    assert_eq!(nodes.len(), 3);
    assert_eq!(nodes[0].name, "kind");
    assert_eq!(nodes[0].entries, vec!["\"Deployment\"".to_string()]);
    assert!(nodes[0].children.is_empty());
    assert_eq!(nodes[1].name, "metadata");
    assert!(nodes[1].entries.is_empty());
    assert_eq!(nodes[1].children.len(), 1);
    assert_eq!(nodes[1].children[0].name, "name");
    assert_eq!(nodes[1].children[0].entries, vec!["\"@name\"".to_string()]);
    let annotations = &nodes[2].children[0].children[0].children[0];
    assert_eq!(annotations.name, "annotations");
    assert_eq!(annotations.children[0].name, "kube2iam/role");
    let containers = &nodes[2].children[0].children[1].children[0];
    assert_eq!(containers.children[0].name, "*");
}

#[test]
fn parse_query_refuses_malformed_text() {
    assert!(matches!(parse_query("metadata {"), Err(Failure::Syntax(_))));
}

#[test]
fn parse_document_reads_every_kind() {
    let root = parse_document("a: ~\nb: true\nc: 3\nd: text\ne: [x, y]\nf: {g: h}\ni: !tag j\n")
        .unwrap();
    let text = |s: &str| DocValue::Text(s.to_string());
    assert_eq!(
        root,
        DocValue::Mapping(vec![
            (text("a"), DocValue::Null),
            (text("b"), DocValue::Boolean(true)),
            (text("c"), DocValue::Number("3".to_string())),
            (text("d"), text("text")),
            (text("e"), DocValue::Sequence(vec![text("x"), text("y")])),
            (text("f"), DocValue::Mapping(vec![(text("g"), text("h"))])),
            (text("i"), DocValue::Tagged("!tag".to_string(), Box::new(text("j")))),
        ])
    );
}

#[test]
fn parse_document_refuses_malformed_text() {
    assert!(matches!(parse_document("a: [1, 2"), Err(Failure::Syntax(_))));
}

#[test]
fn prepare_fails_on_either_text() {
    assert!(matches!(prepare("metadata {", "a: b\n"), Err(Failure::Syntax(_))));
    assert!(matches!(prepare("metadata\n", "a: [1, 2"), Err(Failure::Syntax(_))));
}

#[test]
fn prepare_compiles_and_sets_the_root() {
    let (ir, adapter) = prepare("metadata {\n    name \"@name\"\n}\n", "metadata:\n  name: x\n")
        .unwrap();
    assert_eq!(ir.vertices.len(), 3);
    assert_eq!(ir.edges.len(), 2);
    assert_eq!(ir.outputs.len(), 1);
    assert_eq!(ir.outputs[0].label, "name");
    assert_eq!(ir.outputs[0].vertex, 2);
    assert_eq!(adapter.root, parse_document("metadata:\n  name: x\n").unwrap());
}
