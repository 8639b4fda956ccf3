//! The compiled form of a query: vertices, edges and output bindings.

use vstd::prelude::*;
use crate::text_order::{
    lemma_text_before_irreflexive, lemma_text_before_total, lemma_text_before_transitive,
    text_before, text_precedes,
};

verus! {

/// One traversal position of a compiled query.
#[derive(Debug, PartialEq, Eq)]
pub struct QueryVertex {
    pub id: u64,
    pub type_tag: String,
    pub coerced_from: Option<String>,
    pub filters: Vec<String>,
}

/// One structural step of a compiled query, from a vertex to its child.
#[derive(Debug, PartialEq, Eq)]
pub struct QueryEdge {
    pub id: u64,
    pub from: u64,
    pub to: u64,
    pub name: String,
    pub parameters: Vec<String>,
    pub optional: bool,
    pub recursive: Option<u64>,
}

/// A named output column: the field of a vertex whose value fills it.
#[derive(Debug, PartialEq, Eq)]
pub struct OutputBinding {
    pub label: String,
    pub vertex: u64,
    pub field: String,
    pub scalar_type: String,
}

/// A compiled query.
#[derive(Debug, PartialEq, Eq)]
pub struct IrQuery {
    pub root: u64,
    pub vertices: Vec<QueryVertex>,
    pub edges: Vec<QueryEdge>,
    pub outputs: Vec<OutputBinding>,
    pub root_name: String,
}

/// What an edge says: its id, its two ends and its name.
pub struct EdgeModel {
    pub id: nat,
    pub from: nat,
    pub to: nat,
    pub name: Seq<char>,
}

/// What an output binding says beside its label.
pub struct BindingModel {
    pub vertex: nat,
    pub field: Seq<char>,
}

/// What a compiled query says.
pub struct IrModel {
    pub root: nat,
    pub vertex_ids: Seq<nat>,
    pub edges: Seq<EdgeModel>,
    pub outputs: Map<Seq<char>, BindingModel>,
    pub root_name: Seq<char>,
}

impl QueryVertex {
    /// A vertex of the one universal type, without coercion or filters.
    pub open spec fn is_plain(&self) -> bool {
        &&& self.type_tag@ == "node"@
        &&& self.coerced_from is None
        &&& self.filters@.len() == 0
    }
}

impl View for QueryEdge {
    type V = EdgeModel;

    open spec fn view(&self) -> EdgeModel {
        EdgeModel {
            id: self.id as nat,
            from: self.from as nat,
            to: self.to as nat,
            name: self.name@,
        }
    }
}

impl QueryEdge {
    /// An edge without parameters, neither optional nor recursive.
    pub open spec fn is_plain(&self) -> bool {
        &&& self.parameters@.len() == 0
        &&& !self.optional
        &&& self.recursive is None
    }
}

impl View for OutputBinding {
    type V = BindingModel;

    open spec fn view(&self) -> BindingModel {
        BindingModel { vertex: self.vertex as nat, field: self.field@ }
    }
}

impl OutputBinding {
    /// A binding whose column holds strings.
    pub open spec fn is_plain(&self) -> bool {
        self.scalar_type@ == "String"@
    }
}

/// The ids of a list of vertices, in order.
pub open spec fn vertex_ids(vertices: Seq<QueryVertex>) -> Seq<nat> {
    Seq::new(vertices.len(), |i: int| vertices[i].id as nat)
}

/// What a list of edges says, in order.
pub open spec fn edge_models(edges: Seq<QueryEdge>) -> Seq<EdgeModel> {
    Seq::new(edges.len(), |i: int| edges[i]@)
}

/// The bindings of a list by label; of two with one label the later counts.
pub open spec fn binding_map(bindings: Seq<OutputBinding>) -> Map<Seq<char>, BindingModel>
    decreases bindings.len(),
{
    if bindings.len() == 0 {
        Map::empty()
    } else {
        binding_map(bindings.drop_last()).insert(bindings.last().label@, bindings.last()@)
    }
}

/// No two bindings of the list share a label.
pub open spec fn labels_distinct(bindings: Seq<OutputBinding>) -> bool {
    forall|i: int, j: int|
        0 <= i < j < bindings.len() ==> bindings[i].label@ != bindings[j].label@
}

/// The bindings stand in the order of their labels, each label once.
pub open spec fn labels_sorted(bindings: Seq<OutputBinding>) -> bool {
    forall|i: int, j: int|
        0 <= i < j < bindings.len() ==> text_before(bindings[i].label@, bindings[j].label@)
}

/// Every vertex of the list is plain.
pub open spec fn all_vertices_plain(vertices: Seq<QueryVertex>) -> bool {
    forall|i: int| 0 <= i < vertices.len() ==> (#[trigger] vertices[i]).is_plain()
}

/// Every edge of the list is plain.
pub open spec fn all_edges_plain(edges: Seq<QueryEdge>) -> bool {
    forall|i: int| 0 <= i < edges.len() ==> (#[trigger] edges[i]).is_plain()
}

/// Every binding of the list is plain.
pub open spec fn all_bindings_plain(bindings: Seq<OutputBinding>) -> bool {
    forall|i: int| 0 <= i < bindings.len() ==> (#[trigger] bindings[i]).is_plain()
}

impl View for IrQuery {
    type V = IrModel;

    open spec fn view(&self) -> IrModel {
        IrModel {
            root: self.root as nat,
            vertex_ids: vertex_ids(self.vertices@),
            edges: edge_models(self.edges@),
            outputs: binding_map(self.outputs@),
            root_name: self.root_name@,
        }
    }
}

impl IrQuery {
    /// Every vertex, edge and binding is plain, and the bindings stand in
    /// the order of their labels.
    pub open spec fn is_plain(&self) -> bool {
        &&& all_vertices_plain(self.vertices@)
        &&& all_edges_plain(self.edges@)
        &&& all_bindings_plain(self.outputs@)
        &&& labels_sorted(self.outputs@)
    }
}

/// A source of ids that hands out 1, 2, 3, ... and never one twice.
#[derive(Debug)]
pub struct IdAllocator {
    next: u64,
}

impl IdAllocator {
    /// The id that the next call of `allocate` hands out.
    pub closed spec fn next_id(&self) -> nat {
        self.next as nat
    }

    /// An allocator whose first id is 1.
    pub fn new() -> (fresh: IdAllocator)
        ensures
            fresh.next_id() == 1,
    {
        IdAllocator { next: 1 }
    }

    /// Whether `count` more ids can be handed out.
    pub fn has_room(&self, count: u64) -> (yes: bool)
        ensures
            yes == (self.next_id() + count <= u64::MAX),
    {
        count <= u64::MAX - self.next
    }

    /// Hands out the next id.
    pub fn allocate(&mut self) -> (id: u64)
        requires
            old(self).next_id() < u64::MAX,
        ensures
            id == old(self).next_id(),
            final(self).next_id() == old(self).next_id() + 1,
    {
        let id: u64 = self.next;
        self.next = id + 1;
        id
    }
}

/// Records a binding: it takes the place of one with the same label, or
/// else joins the list where its label belongs in the order of labels.
pub fn insert_binding(bindings: &mut Vec<OutputBinding>, binding: OutputBinding)
    requires
        labels_sorted(old(bindings)@),
    ensures
        labels_sorted(final(bindings)@),
        binding_map(final(bindings)@) == binding_map(old(bindings)@).insert(
            binding.label@,
            binding@,
        ),
        all_bindings_plain(old(bindings)@) && binding.is_plain() ==> all_bindings_plain(
            final(bindings)@,
        ),
{
    let mut j: usize = 0;
    let mut stop = false;
    while j < bindings.len() && !stop
        invariant
            j <= bindings.len(),
            *bindings == *old(bindings),
            labels_sorted(bindings@),
            forall|k: int| 0 <= k < j ==> text_before(bindings@[k].label@, binding.label@),
            stop ==> j < bindings.len() && !text_before(
                bindings@[j as int].label@,
                binding.label@,
            ),
        decreases bindings.len() - j + (if stop { 0int } else { 1int }),
    {
        if text_precedes(bindings[j].label.as_str(), binding.label.as_str()) {
            j += 1;
        } else {
            stop = true;
        }
    }
    proof {
        lemma_sorted_labels_distinct(bindings@);
    }
    if stop && bindings[j].label == binding.label {
        proof {
            lemma_binding_map_update(bindings@, j as int, binding);
            let after = bindings@.update(j as int, binding);
            assert forall|p: int, q: int| 0 <= p < q < after.len() implies text_before(
                after[p].label@,
                after[q].label@,
            ) by {
                assert(after[p].label@ == bindings@[p].label@);
                assert(after[q].label@ == bindings@[q].label@);
            }
        }
        bindings.set(j, binding);
    } else {
        proof {
            let label = binding.label@;
            let len = bindings@.len() as int;
            lemma_text_before_irreflexive(label);
            if stop {
                if !text_before(label, bindings@[j as int].label@) {
                    lemma_text_before_total(label, bindings@[j as int].label@);
                }
                assert forall|k: int| j < k < len implies text_before(
                    label,
                    bindings@[k].label@,
                ) by {
                    lemma_text_before_transitive(
                        label,
                        bindings@[j as int].label@,
                        bindings@[k].label@,
                    );
                }
            }
            assert forall|k: int| j <= k < len implies text_before(label, bindings@[k].label@) by {}
            lemma_binding_map_insert(bindings@, j as int, binding);
            let after = bindings@.insert(j as int, binding);
            assert forall|p: int, q: int| 0 <= p < q < after.len() implies text_before(
                after[p].label@,
                after[q].label@,
            ) by {
                if q < j {
                } else if q == j {
                } else if p < j {
                    assert(after[q] == bindings@[q - 1]);
                    if q - 1 == p {
                    }
                } else if p == j {
                    assert(after[q] == bindings@[q - 1]);
                } else {
                    assert(after[p] == bindings@[p - 1]);
                    assert(after[q] == bindings@[q - 1]);
                }
            }
            assert forall|i: int| 0 <= i < after.len() && all_bindings_plain(bindings@)
                && binding.is_plain() implies (#[trigger] after[i]).is_plain() by {
                if i < j {
                } else if i == j {
                } else {
                    assert(after[i] == bindings@[i - 1]);
                }
            }
        }
        bindings.insert(j, binding);
    }
}

/// Labels in their order are distinct.
pub proof fn lemma_sorted_labels_distinct(bindings: Seq<OutputBinding>)
    requires
        labels_sorted(bindings),
    ensures
        labels_distinct(bindings),
{
    assert forall|i: int, j: int| 0 <= i < j < bindings.len() implies bindings[i].label@
        != bindings[j].label@ by {
        lemma_text_before_irreflexive(bindings[i].label@);
    }
}

/// Putting a binding with a new label into the list, at any place, changes
/// the map as an insertion does.
pub proof fn lemma_binding_map_insert(bindings: Seq<OutputBinding>, j: int, binding: OutputBinding)
    requires
        0 <= j <= bindings.len(),
        forall|k: int| 0 <= k < bindings.len() ==> bindings[k].label@ != binding.label@,
    ensures
        binding_map(bindings.insert(j, binding)) == binding_map(bindings).insert(
            binding.label@,
            binding@,
        ),
    decreases bindings.len(),
{
    let longer = bindings.insert(j, binding);
    if j == bindings.len() {
        assert(longer.drop_last() =~= bindings);
        assert(longer.last() == binding);
    } else {
        let rest = bindings.drop_last();
        lemma_binding_map_insert(rest, j, binding);
        assert(longer.drop_last() =~= rest.insert(j, binding));
        assert(longer.last() == bindings.last());
        assert(bindings.last().label@ != binding.label@);
        assert(binding_map(longer) =~= binding_map(bindings).insert(binding.label@, binding@));
    }
}

/// Replacing a binding by one of the same label changes the map as an
/// insertion of the new one does.
pub proof fn lemma_binding_map_update(bindings: Seq<OutputBinding>, j: int, binding: OutputBinding)
    requires
        labels_distinct(bindings),
        0 <= j < bindings.len(),
        bindings[j].label@ == binding.label@,
    ensures
        binding_map(bindings.update(j, binding)) == binding_map(bindings).insert(
            binding.label@,
            binding@,
        ),
        labels_distinct(bindings.update(j, binding)),
    decreases bindings.len(),
{
    let updated = bindings.update(j, binding);
    if j == bindings.len() - 1 {
        assert(updated.drop_last() =~= bindings.drop_last());
        assert(binding_map(updated) =~= binding_map(bindings).insert(binding.label@, binding@));
    } else {
        let rest = bindings.drop_last();
        assert(labels_distinct(rest));
        lemma_binding_map_update(rest, j, binding);
        assert(updated.drop_last() =~= rest.update(j, binding));
        assert(updated.last() == bindings.last());
        assert(bindings.last().label@ != binding.label@);
        assert(binding_map(updated) =~= binding_map(bindings).insert(binding.label@, binding@));
    }
}

} // verus!
