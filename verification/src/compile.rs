//! The compiler: from a query tree to vertices, edges and output bindings.

use vstd::prelude::*;
use crate::ir::{
    all_bindings_plain, all_edges_plain, all_vertices_plain, binding_map, edge_models,
    insert_binding, labels_sorted, vertex_ids, BindingModel, EdgeModel, IdAllocator, IrModel,
    IrQuery, OutputBinding, QueryEdge, QueryVertex,
};
use crate::label::{extract_label, label_of};
use crate::query::{count_nodes, first_entry, forest_size, lemma_forest_size_take, QueryNode};

verus! {

/// The label under which a node's value is put out, if the node asks for it:
/// the label that its first leaf value declares.
pub open spec fn binding_label(node: QueryNode) -> Option<Seq<char>> {
    match first_entry(node) {
        Some(raw) => label_of(raw),
        None => None,
    }
}

/// The ids `first`, `first + 1`, ... , `count` of them.
pub open spec fn id_range(first: nat, count: nat) -> Seq<nat> {
    Seq::new(count, |i: int| (first + i) as nat)
}

/// The edges of a forest below the vertex `parent`, in document order.
///
/// The forest's nodes, taken depth first and siblings in order, have the
/// vertex ids `first_vid`, `first_vid + 1`, ... and their edges the ids
/// `first_eid`, `first_eid + 1`, ...; each edge leads from the vertex of the
/// node's parent to the node's own and has the node's name.
pub open spec fn edges_of(
    nodes: Seq<QueryNode>,
    parent: nat,
    first_vid: nat,
    first_eid: nat,
) -> Seq<EdgeModel>
    decreases nodes,
{
    if nodes.len() == 0 {
        Seq::empty()
    } else {
        let node = nodes.last();
        let k = forest_size(nodes.drop_last());
        edges_of(nodes.drop_last(), parent, first_vid, first_eid).push(
            EdgeModel { id: first_eid + k, from: parent, to: first_vid + k, name: node.name@ },
        ) + edges_of(node.children@, first_vid + k, first_vid + k + 1, first_eid + k + 1)
    }
}

/// The output bindings of a forest below the vertex `parent`, recorded in
/// document order on top of `earlier`.
///
/// A node that declares a label binds it to the field of the node's name on
/// the vertex of the node's parent.
pub open spec fn outputs_onto(
    earlier: Map<Seq<char>, BindingModel>,
    nodes: Seq<QueryNode>,
    parent: nat,
    first_vid: nat,
) -> Map<Seq<char>, BindingModel>
    decreases nodes,
{
    if nodes.len() == 0 {
        earlier
    } else {
        let node = nodes.last();
        let vid = first_vid + forest_size(nodes.drop_last());
        let before = outputs_onto(earlier, nodes.drop_last(), parent, first_vid);
        let own = match binding_label(node) {
            Some(label) => before.insert(label, BindingModel { vertex: parent, field: node.name@ }),
            None => before,
        };
        outputs_onto(own, node.children@, vid, vid + 1)
    }
}

/// The output bindings of a forest below the vertex `parent`.
pub open spec fn outputs_of(nodes: Seq<QueryNode>, parent: nat, first_vid: nat) -> Map<
    Seq<char>,
    BindingModel,
> {
    outputs_onto(Map::empty(), nodes, parent, first_vid)
}

/// What compiling a query's top-level nodes yields: the added root vertex
/// has id 1, the nodes' vertices the ids from 2 on and their edges the ids
/// from 1 on.
pub open spec fn compiled(nodes: Seq<QueryNode>) -> IrModel {
    IrModel {
        root: 1,
        vertex_ids: id_range(1, forest_size(nodes) + 1),
        edges: edges_of(nodes, 1, 2, 1),
        outputs: outputs_of(nodes, 1, 2),
        root_name: "Document"@,
    }
}

/// A query: the top-level nodes of its tree.
#[derive(Debug, PartialEq, Eq)]
pub struct Query(pub Vec<QueryNode>);

impl Query {
    /// Compiles the query and gives the arguments to run it with, of which
    /// there are none.
    pub fn iquery_and_arguments(self) -> (out: (IrQuery, Vec<(String, String)>))
        requires
            forest_size(self.0@) + 1 < u64::MAX,
        ensures
            out.0@ == compiled(self.0@),
            out.0.is_plain(),
            out.1@.len() == 0,
    {
        (compile_query(&self.0), Vec::new())
    }
}

/// Compiles a query's top-level nodes below a root vertex of its own.
pub fn compile_query(nodes: &Vec<QueryNode>) -> (ir: IrQuery)
    requires
        forest_size(nodes@) + 1 < u64::MAX,
    ensures
        ir@ == compiled(nodes@),
        ir.is_plain(),
{
    let mut vids = IdAllocator::new();
    let mut eids = IdAllocator::new();
    let root: u64 = vids.allocate();
    let mut vertices: Vec<QueryVertex> = Vec::new();
    vertices.push(
        QueryVertex { id: root, type_tag: "node".to_owned(), coerced_from: None, filters: Vec::new() },
    );
    let (below, edges, outputs) = construct_edges(nodes, root, &mut vids, &mut eids);
    let mut below = below;
    let ghost first = vertices@;
    let ghost rest = below@;
    vertices.append(&mut below);
    proof {
        assert(vertices@ =~= first + rest);
        assert(vertex_ids(rest) == id_range(2, forest_size(nodes@)));
        assert(vertex_ids(rest).len() == rest.len());
        assert(id_range(2, forest_size(nodes@)).len() == forest_size(nodes@));
        assert forall|i: int| 0 <= i < vertices@.len() implies vertex_ids(vertices@)[i] == 1 + i by {
            if i > 0 {
                assert(vertices@[i] == rest[i - 1]);
                assert(id_range(2, forest_size(nodes@))[i - 1] == 2 + (i - 1));
            }
        }
        assert(vertex_ids(vertices@) =~= id_range(1, forest_size(nodes@) + 1));
    }
    IrQuery { root, vertices, edges, outputs, root_name: "Document".to_owned() }
}

/// Compiles a query's top-level nodes, unless they are too many to number.
pub fn try_compile(nodes: &Vec<QueryNode>) -> (ir: Option<IrQuery>)
    ensures
        match ir {
            Some(q) => forest_size(nodes@) + 1 < u64::MAX && q@ == compiled(nodes@) && q.is_plain(),
            None => forest_size(nodes@) + 1 >= u64::MAX,
        },
{
    match count_nodes(nodes) {
        Some(n) => {
            if n < u64::MAX - 1 {
                Some(compile_query(nodes))
            } else {
                None
            }
        },
        None => None,
    }
}

/// Compiles a forest below the vertex `parent`, taking the ids of its
/// vertices and edges from the two allocators.
pub fn construct_edges(
    nodes: &Vec<QueryNode>,
    parent: u64,
    vids: &mut IdAllocator,
    eids: &mut IdAllocator,
) -> (out: (Vec<QueryVertex>, Vec<QueryEdge>, Vec<OutputBinding>))
    requires
        old(vids).next_id() + forest_size(nodes@) <= u64::MAX,
        old(eids).next_id() + forest_size(nodes@) <= u64::MAX,
    ensures
        final(vids).next_id() == old(vids).next_id() + forest_size(nodes@),
        final(eids).next_id() == old(eids).next_id() + forest_size(nodes@),
        vertex_ids(out.0@) == id_range(old(vids).next_id(), forest_size(nodes@)),
        all_vertices_plain(out.0@),
        edge_models(out.1@) == edges_of(
            nodes@,
            parent as nat,
            old(vids).next_id(),
            old(eids).next_id(),
        ),
        all_edges_plain(out.1@),
        binding_map(out.2@) == outputs_of(nodes@, parent as nat, old(vids).next_id()),
        labels_sorted(out.2@),
        all_bindings_plain(out.2@),
{
    let mut vertices: Vec<QueryVertex> = Vec::new();
    let mut edges: Vec<QueryEdge> = Vec::new();
    let mut outputs: Vec<OutputBinding> = Vec::new();
    extend_compilation(nodes, parent, vids, eids, &mut vertices, &mut edges, &mut outputs);
    proof {
        assert(vertex_ids(Seq::<QueryVertex>::empty()) =~= Seq::<nat>::empty());
        assert(edge_models(Seq::<QueryEdge>::empty()) =~= Seq::<EdgeModel>::empty());
        assert(vertex_ids(vertices@) =~= id_range(old(vids).next_id(), forest_size(nodes@)));
        assert(edge_models(edges@) =~= edges_of(
            nodes@,
            parent as nat,
            old(vids).next_id(),
            old(eids).next_id(),
        ));
    }
    (vertices, edges, outputs)
}

/// Compiles a forest below the vertex `parent` and adds what it yields to
/// the three lists: vertices and edges at their ends, bindings by label.
fn extend_compilation(
    nodes: &Vec<QueryNode>,
    parent: u64,
    vids: &mut IdAllocator,
    eids: &mut IdAllocator,
    vertices: &mut Vec<QueryVertex>,
    edges: &mut Vec<QueryEdge>,
    outputs: &mut Vec<OutputBinding>,
)
    requires
        old(vids).next_id() + forest_size(nodes@) <= u64::MAX,
        old(eids).next_id() + forest_size(nodes@) <= u64::MAX,
        labels_sorted(old(outputs)@),
    ensures
        final(vids).next_id() == old(vids).next_id() + forest_size(nodes@),
        final(eids).next_id() == old(eids).next_id() + forest_size(nodes@),
        vertex_ids(final(vertices)@) == vertex_ids(old(vertices)@) + id_range(
            old(vids).next_id(),
            forest_size(nodes@),
        ),
        all_vertices_plain(old(vertices)@) ==> all_vertices_plain(final(vertices)@),
        edge_models(final(edges)@) == edge_models(old(edges)@) + edges_of(
            nodes@,
            parent as nat,
            old(vids).next_id(),
            old(eids).next_id(),
        ),
        all_edges_plain(old(edges)@) ==> all_edges_plain(final(edges)@),
        labels_sorted(final(outputs)@),
        binding_map(final(outputs)@) == outputs_onto(
            binding_map(old(outputs)@),
            nodes@,
            parent as nat,
            old(vids).next_id(),
        ),
        all_bindings_plain(old(outputs)@) ==> all_bindings_plain(final(outputs)@),
    decreases nodes,
{
    let ghost v0 = vids.next_id();
    let ghost e0 = eids.next_id();
    let ghost ids0 = vertex_ids(vertices@);
    let ghost edges0 = edge_models(edges@);
    let ghost map0 = binding_map(outputs@);
    let ghost vplain0 = all_vertices_plain(vertices@);
    let ghost eplain0 = all_edges_plain(edges@);
    let ghost bplain0 = all_bindings_plain(outputs@);
    let mut i: usize = 0;
    proof {
        assert(nodes@.take(0) =~= Seq::<QueryNode>::empty());
        assert(vertex_ids(vertices@) =~= ids0 + id_range(v0, 0));
        assert(edge_models(edges@) =~= edges0 + edges_of(nodes@.take(0), parent as nat, v0, e0));
    }
    while i < nodes.len()
        invariant
            i <= nodes.len(),
            v0 + forest_size(nodes@) <= u64::MAX,
            e0 + forest_size(nodes@) <= u64::MAX,
            vids.next_id() == v0 + forest_size(nodes@.take(i as int)),
            eids.next_id() == e0 + forest_size(nodes@.take(i as int)),
            vertex_ids(vertices@) == ids0 + id_range(v0, forest_size(nodes@.take(i as int))),
            vplain0 ==> all_vertices_plain(vertices@),
            edge_models(edges@) == edges0 + edges_of(nodes@.take(i as int), parent as nat, v0, e0),
            eplain0 ==> all_edges_plain(edges@),
            labels_sorted(outputs@),
            binding_map(outputs@) == outputs_onto(map0, nodes@.take(i as int), parent as nat, v0),
            bplain0 ==> all_bindings_plain(outputs@),
        decreases nodes.len() - i,
    {
        let node = &nodes[i];
        let ghost k = forest_size(nodes@.take(i as int));
        proof {
            lemma_forest_size_take(nodes@, i as int);
            lemma_forest_size_take(nodes@, i as int + 1);
            assert(nodes@.take(i as int + 1).drop_last() =~= nodes@.take(i as int));
            assert(nodes@.take(i as int + 1).last() == nodes@[i as int]);
        }
        let ghost ids1 = vertex_ids(vertices@);
        let ghost edges1 = edge_models(edges@);
        let ghost map1 = binding_map(outputs@);

        let vid: u64 = vids.allocate();
        vertices.push(
            QueryVertex {
                id: vid,
                type_tag: "node".to_owned(),
                coerced_from: None,
                filters: Vec::new(),
            },
        );
        if node.entries.len() > 0 {
            match extract_label(node.entries[0].as_str()) {
                Some(label) => {
                    insert_binding(
                        outputs,
                        OutputBinding {
                            label,
                            vertex: parent,
                            field: node.name.clone(),
                            scalar_type: "String".to_owned(),
                        },
                    );
                },
                None => {},
            }
        }
        let eid: u64 = eids.allocate();
        edges.push(
            QueryEdge {
                id: eid,
                from: parent,
                to: vid,
                name: node.name.clone(),
                parameters: Vec::new(),
                optional: false,
                recursive: None,
            },
        );
        let ghost ids2 = vertex_ids(vertices@);
        let ghost edges2 = edge_models(edges@);
        proof {
            assert(ids2 =~= ids1.push(vid as nat));
            assert(edges2 =~= edges1.push(
                EdgeModel {
                    id: (e0 + k) as nat,
                    from: parent as nat,
                    to: (v0 + k) as nat,
                    name: node.name@,
                },
            ));
        }
        extend_compilation(&node.children, vid, vids, eids, vertices, edges, outputs);
        proof {
            let below = forest_size(node.children@);
            assert(vertex_ids(vertices@) =~= ids0 + id_range(v0, k + 1 + below));
            assert(edge_models(edges@) =~= edges0 + edges_of(
                nodes@.take(i as int + 1),
                parent as nat,
                v0,
                e0,
            ));
        }
        i += 1;
    }
    proof {
        assert(nodes@.take(nodes@.len() as int) =~= nodes@);
    }
}

/// Two forests that agree node by node: in the names, in the first leaf
/// values and in the children.
pub open spec fn same_forest(a: Seq<QueryNode>, b: Seq<QueryNode>) -> bool
    decreases a,
{
    a.len() == b.len() && (a.len() == 0 || {
        &&& same_forest(a.drop_last(), b.drop_last())
        &&& a.last().name@ == b.last().name@
        &&& first_entry(a.last()) == first_entry(b.last())
        &&& same_forest(a.last().children@, b.last().children@)
    })
}

/// A forest of N nodes has N edges. The edge at place k has the id
/// `first_eid + k` and leads to the vertex `first_vid + k`, one edge to each
/// vertex; it comes from `parent` or from a vertex of the forest with a
/// smaller id than the one it leads to.
pub proof fn lemma_edges_contiguous(
    nodes: Seq<QueryNode>,
    parent: nat,
    first_vid: nat,
    first_eid: nat,
)
    ensures
        edges_of(nodes, parent, first_vid, first_eid).len() == forest_size(nodes),
        forall|k: int|
            0 <= k < forest_size(nodes) ==> {
                let edge = #[trigger] edges_of(nodes, parent, first_vid, first_eid)[k];
                &&& edge.id == first_eid + k
                &&& edge.to == first_vid + k
                &&& (edge.from == parent || first_vid <= edge.from < edge.to)
            },
    decreases nodes,
{
    if nodes.len() > 0 {
        let node = nodes.last();
        let n = forest_size(nodes.drop_last());
        let before = edges_of(nodes.drop_last(), parent, first_vid, first_eid);
        let own = EdgeModel {
            id: first_eid + n,
            from: parent,
            to: first_vid + n,
            name: node.name@,
        };
        let below = edges_of(node.children@, first_vid + n, first_vid + n + 1, first_eid + n + 1);
        lemma_edges_contiguous(nodes.drop_last(), parent, first_vid, first_eid);
        lemma_edges_contiguous(node.children@, first_vid + n, first_vid + n + 1, first_eid + n + 1);
        let all = edges_of(nodes, parent, first_vid, first_eid);
        assert(all =~= before.push(own) + below);
        assert forall|k: int| 0 <= k < forest_size(nodes) implies {
            let edge = #[trigger] all[k];
            &&& edge.id == first_eid + k
            &&& edge.to == first_vid + k
            &&& (edge.from == parent || first_vid <= edge.from < edge.to)
        } by {
            if k < n {
                assert(all[k] == before[k]);
            } else if k == n {
                assert(all[k] == own);
            } else {
                assert(all[k] == below[k - n - 1]);
            }
        }
    }
}

/// A query of N nodes compiles to N + 1 vertices with the ids 1 to N + 1
/// and to N edges with the ids 1 to N; the edge with id k leads to the
/// vertex k + 1 from a vertex with a smaller id.
pub proof fn lemma_compiled_counts(nodes: Seq<QueryNode>)
    ensures
        compiled(nodes).root == 1,
        compiled(nodes).vertex_ids.len() == forest_size(nodes) + 1,
        forall|i: int|
            0 <= i <= forest_size(nodes) ==> #[trigger] compiled(nodes).vertex_ids[i] == i + 1,
        compiled(nodes).edges.len() == forest_size(nodes),
        forall|k: int|
            0 <= k < forest_size(nodes) ==> {
                let edge = #[trigger] compiled(nodes).edges[k];
                &&& edge.id == k + 1
                &&& edge.to == k + 2
                &&& 1 <= edge.from < edge.to
            },
{
    lemma_edges_contiguous(nodes, 1, 2, 1);
}

/// Forests that agree node by node have the same size, the same edges and
/// the same output bindings.
pub proof fn lemma_same_forest_compiles_alike(
    a: Seq<QueryNode>,
    b: Seq<QueryNode>,
    parent: nat,
    first_vid: nat,
    first_eid: nat,
    earlier: Map<Seq<char>, BindingModel>,
)
    requires
        same_forest(a, b),
    ensures
        forest_size(a) == forest_size(b),
        edges_of(a, parent, first_vid, first_eid) == edges_of(b, parent, first_vid, first_eid),
        outputs_onto(earlier, a, parent, first_vid) == outputs_onto(earlier, b, parent, first_vid),
    decreases a,
{
    if a.len() > 0 {
        let n = forest_size(a.drop_last());
        lemma_same_forest_compiles_alike(
            a.drop_last(),
            b.drop_last(),
            parent,
            first_vid,
            first_eid,
            earlier,
        );
        let before = outputs_onto(earlier, a.drop_last(), parent, first_vid);
        let own = match binding_label(a.last()) {
            Some(label) => before.insert(
                label,
                BindingModel { vertex: parent, field: a.last().name@ },
            ),
            None => before,
        };
        lemma_same_forest_compiles_alike(
            a.last().children@,
            b.last().children@,
            first_vid + n,
            first_vid + n + 1,
            first_eid + n + 1,
            own,
        );
    }
}

/// Compiling is a function of what the query says: queries that agree node
/// by node compile to the same vertices, edges and output bindings.
pub proof fn lemma_compilation_deterministic(a: Seq<QueryNode>, b: Seq<QueryNode>)
    requires
        same_forest(a, b),
    ensures
        compiled(a) == compiled(b),
{
    lemma_same_forest_compiles_alike(a, b, 1, 2, 1, Map::empty());
}

/// A node without children that declares no label adds one vertex and one
/// edge, named after it, and no output binding.
pub proof fn lemma_pass_through_node(
    nodes: Seq<QueryNode>,
    node: QueryNode,
    parent: nat,
    first_vid: nat,
    first_eid: nat,
    earlier: Map<Seq<char>, BindingModel>,
)
    requires
        node.children@.len() == 0,
        binding_label(node) is None,
    ensures
        forest_size(nodes.push(node)) == forest_size(nodes) + 1,
        edges_of(nodes.push(node), parent, first_vid, first_eid) == edges_of(
            nodes,
            parent,
            first_vid,
            first_eid,
        ).push(
            EdgeModel {
                id: first_eid + forest_size(nodes),
                from: parent,
                to: first_vid + forest_size(nodes),
                name: node.name@,
            },
        ),
        outputs_onto(earlier, nodes.push(node), parent, first_vid) == outputs_onto(
            earlier,
            nodes,
            parent,
            first_vid,
        ),
{
    let longer = nodes.push(node);
    assert(longer.drop_last() =~= nodes);
    assert(longer.last() == node);
    assert(node.children@ =~= Seq::<QueryNode>::empty());
    let n = forest_size(nodes);
    assert(forest_size(node.children@) == 0);
    assert(forest_size(longer) == forest_size(longer.drop_last()) + 1 + forest_size(
        longer.last().children@,
    ));
    let before = outputs_onto(earlier, longer.drop_last(), parent, first_vid);
    assert(outputs_onto(before, node.children@, first_vid + n, first_vid + n + 1) == before);
    assert(outputs_onto(earlier, longer, parent, first_vid) == before);
    assert(edges_of(node.children@, first_vid + n, first_vid + n + 1, first_eid + n + 1)
        =~= Seq::<EdgeModel>::empty());
    assert(edges_of(longer, parent, first_vid, first_eid) =~= edges_of(
        nodes,
        parent,
        first_vid,
        first_eid,
    ).push(EdgeModel { id: first_eid + n, from: parent, to: first_vid + n, name: node.name@ }));
}

} // verus!
