//! The adapter: how a query's steps are resolved against a document.

use vstd::prelude::*;
use crate::document::{lookup, mapping_get, DocValue};
use crate::label::{is_wildcard, is_wildcard_name};

verus! {

/// The string that a document node holds under a property's name: the node
/// is a mapping, it has the name as a key, and the value there is a string.
pub open spec fn property_value(active: DocValue, name: Seq<char>) -> Option<Seq<char>> {
    match active {
        DocValue::Mapping(entries) => match lookup(entries@, name) {
            Some(DocValue::Text(text)) => Some(text@),
            _ => None,
        },
        _ => None,
    }
}

/// The children that an edge leads to from a document node: under the
/// fan-out name every element of a sequence, in order; else the one value
/// that a mapping holds under the edge's name.
pub open spec fn neighbor_values(active: DocValue, edge: Seq<char>) -> Option<Seq<DocValue>> {
    match active {
        DocValue::Sequence(items) => if is_wildcard_name(edge) {
            Some(items@)
        } else {
            None
        },
        DocValue::Mapping(entries) => match lookup(entries@, edge) {
            Some(child) => Some(seq![child]),
            None => None,
        },
        _ => None,
    }
}

/// The values that a list of references refers to.
pub open spec fn referents(values: Seq<&DocValue>) -> Seq<DocValue> {
    Seq::new(values.len(), |i: int| *values[i])
}

/// What a batch of contexts, each given by its active document node, yields
/// for a property: for each context that has the property, in the batch's
/// order, its place in the batch and the string.
pub open spec fn property_outcomes(contexts: Seq<DocValue>, name: Seq<char>) -> Seq<
    (int, Seq<char>),
>
    decreases contexts.len(),
{
    if contexts.len() == 0 {
        Seq::empty()
    } else {
        let before = property_outcomes(contexts.drop_last(), name);
        match property_value(contexts.last(), name) {
            Some(text) => before.push((contexts.len() - 1, text)),
            None => before,
        }
    }
}

/// What a batch of contexts yields for an edge: for each context from which
/// the edge leads somewhere, in the batch's order, its place in the batch
/// and the children.
pub open spec fn neighbor_outcomes(contexts: Seq<DocValue>, edge: Seq<char>) -> Seq<
    (int, Seq<DocValue>),
>
    decreases contexts.len(),
{
    if contexts.len() == 0 {
        Seq::empty()
    } else {
        let before = neighbor_outcomes(contexts.drop_last(), edge);
        match neighbor_values(contexts.last(), edge) {
            Some(children) => before.push((contexts.len() - 1, children)),
            None => before,
        }
    }
}

/// What a list of property outcomes says.
pub open spec fn property_rows(outcomes: Seq<(usize, &String)>) -> Seq<(int, Seq<char>)> {
    Seq::new(outcomes.len(), |i: int| (outcomes[i].0 as int, outcomes[i].1@))
}

/// What a list of neighbor outcomes says.
pub open spec fn neighbor_rows(outcomes: Seq<(usize, Vec<&DocValue>)>) -> Seq<
    (int, Seq<DocValue>),
> {
    Seq::new(outcomes.len(), |i: int| (outcomes[i].0 as int, referents(outcomes[i].1@)))
}

/// Resolves a query's steps against one document.
#[derive(Debug, PartialEq, Eq)]
pub struct TreeAdapter {
    pub root: DocValue,
}

impl TreeAdapter {
    /// An adapter over the document with the given root.
    pub fn new(root: DocValue) -> (adapter: TreeAdapter)
        ensures
            adapter.root == root,
    {
        TreeAdapter { root }
    }

    /// Where a query starts: at the document's root and nowhere else,
    /// whatever the edge's name.
    pub fn resolve_starting_vertices<'a>(&'a self, edge_name: &str) -> (starts: Vec<&'a DocValue>)
        ensures
            referents(starts@) == seq![self.root],
    {
        let mut starts: Vec<&'a DocValue> = Vec::new();
        starts.push(&self.root);
        proof {
            assert(referents(starts@) =~= seq![self.root]);
        }
        starts
    }

    /// The string under a property's name at a document node, if there is
    /// one. A value of another kind there gives nothing.
    pub fn property_of<'a>(
        &self,
        active: &'a DocValue,
        vertex_type: &str,
        property_name: &str,
    ) -> (value: Option<&'a String>)
        ensures
            match value {
                Some(text) => property_value(*active, property_name@) == Some(text@),
                None => property_value(*active, property_name@) is None,
            },
    {
        match active {
            DocValue::Mapping(entries) => match mapping_get(entries, property_name) {
                Some(DocValue::Text(text)) => Some(text),
                _ => None,
            },
            _ => None,
        }
    }

    /// The children that an edge leads to from a document node, if it leads
    /// anywhere.
    pub fn neighbors_of<'a>(
        &self,
        active: &'a DocValue,
        vertex_type: &str,
        edge_name: &str,
    ) -> (children: Option<Vec<&'a DocValue>>)
        ensures
            match children {
                Some(found) => neighbor_values(*active, edge_name@) == Some(referents(found@)),
                None => neighbor_values(*active, edge_name@) is None,
            },
    {
        match active {
            DocValue::Sequence(items) => {
                if is_wildcard(edge_name) {
                    let mut found: Vec<&'a DocValue> = Vec::new();
                    let mut i: usize = 0;
                    while i < items.len()
                        invariant
                            i <= items.len(),
                            found@.len() == i,
                            forall|k: int| 0 <= k < i ==> *found@[k] == items@[k],
                        decreases items.len() - i,
                    {
                        found.push(&items[i]);
                        i += 1;
                    }
                    proof {
                        assert(referents(found@) =~= items@);
                    }
                    Some(found)
                } else {
                    None
                }
            },
            DocValue::Mapping(entries) => match mapping_get(entries, edge_name) {
                Some(child) => {
                    let mut found: Vec<&'a DocValue> = Vec::new();
                    found.push(child);
                    proof {
                        assert(referents(found@) =~= seq![*child]);
                    }
                    Some(found)
                },
                None => None,
            },
            _ => None,
        }
    }

    /// Whether a document node can be taken for a vertex of another type:
    /// never, as there is one type only.
    pub fn coercion_of(&self, active: &DocValue, vertex_type: &str, coerce_to: &str) -> (yes: bool)
        ensures
            !yes,
    {
        false
    }

    /// Resolves a property for each context of a batch, given by its active
    /// document node. Each context that has the property yields its place in
    /// the batch and the string; the others yield nothing.
    pub fn resolve_property<'a>(
        &self,
        contexts: &Vec<&'a DocValue>,
        vertex_type: &str,
        property_name: &str,
    ) -> (outcomes: Vec<(usize, &'a String)>)
        ensures
            property_rows(outcomes@) == property_outcomes(referents(contexts@), property_name@),
    {
        let mut outcomes: Vec<(usize, &'a String)> = Vec::new();
        let mut i: usize = 0;
        proof {
            assert(referents(contexts@).take(0) =~= Seq::<DocValue>::empty());
            assert(property_rows(outcomes@) =~= Seq::<(int, Seq<char>)>::empty());
        }
        while i < contexts.len()
            invariant
                i <= contexts.len(),
                property_rows(outcomes@) == property_outcomes(
                    referents(contexts@).take(i as int),
                    property_name@,
                ),
            decreases contexts.len() - i,
        {
            let ghost before = property_rows(outcomes@);
            proof {
                let upto = referents(contexts@).take(i as int + 1);
                assert(upto.drop_last() =~= referents(contexts@).take(i as int));
                assert(upto.last() == *contexts@[i as int]);
            }
            match self.property_of(contexts[i], vertex_type, property_name) {
                Some(text) => {
                    outcomes.push((i, text));
                    proof {
                        assert(property_rows(outcomes@) =~= before.push((i as int, text@)));
                    }
                },
                None => {},
            }
            i += 1;
        }
        proof {
            assert(referents(contexts@).take(contexts@.len() as int) =~= referents(contexts@));
        }
        outcomes
    }

    /// Resolves an edge for each context of a batch, given by its active
    /// document node. Each context from which the edge leads somewhere
    /// yields its place in the batch and the children; the others yield
    /// nothing.
    pub fn resolve_neighbors<'a>(
        &self,
        contexts: &Vec<&'a DocValue>,
        vertex_type: &str,
        edge_name: &str,
    ) -> (outcomes: Vec<(usize, Vec<&'a DocValue>)>)
        ensures
            neighbor_rows(outcomes@) == neighbor_outcomes(referents(contexts@), edge_name@),
    {
        let mut outcomes: Vec<(usize, Vec<&'a DocValue>)> = Vec::new();
        let mut i: usize = 0;
        proof {
            assert(referents(contexts@).take(0) =~= Seq::<DocValue>::empty());
            assert(neighbor_rows(outcomes@) =~= Seq::<(int, Seq<DocValue>)>::empty());
        }
        while i < contexts.len()
            invariant
                i <= contexts.len(),
                neighbor_rows(outcomes@) == neighbor_outcomes(
                    referents(contexts@).take(i as int),
                    edge_name@,
                ),
            decreases contexts.len() - i,
        {
            let ghost before = neighbor_rows(outcomes@);
            proof {
                let upto = referents(contexts@).take(i as int + 1);
                assert(upto.drop_last() =~= referents(contexts@).take(i as int));
                assert(upto.last() == *contexts@[i as int]);
            }
            match self.neighbors_of(contexts[i], vertex_type, edge_name) {
                Some(children) => {
                    let ghost found = referents(children@);
                    outcomes.push((i, children));
                    proof {
                        assert(neighbor_rows(outcomes@) =~= before.push((i as int, found)));
                    }
                },
                None => {},
            }
            i += 1;
        }
        proof {
            assert(referents(contexts@).take(contexts@.len() as int) =~= referents(contexts@));
        }
        outcomes
    }

    /// Resolves a coercion for each context of a batch: every context
    /// yields its place in the batch and `false`.
    pub fn resolve_coercion(
        &self,
        contexts: &Vec<&DocValue>,
        vertex_type: &str,
        coerce_to: &str,
    ) -> (outcomes: Vec<(usize, bool)>)
        ensures
            outcomes@.len() == contexts@.len(),
            forall|i: int| 0 <= i < outcomes@.len() ==> outcomes@[i] == (i as usize, false),
    {
        let mut outcomes: Vec<(usize, bool)> = Vec::new();
        let mut i: usize = 0;
        while i < contexts.len()
            invariant
                i <= contexts.len(),
                outcomes@.len() == i,
                forall|k: int| 0 <= k < i ==> outcomes@[k] == (k as usize, false),
            decreases contexts.len() - i,
        {
            outcomes.push((i, self.coercion_of(contexts[i], vertex_type, coerce_to)));
            i += 1;
        }
        outcomes
    }
}

/// A property resolves to a string exactly at a mapping that holds a string
/// under the property's name.
pub proof fn lemma_property_iff(active: DocValue, name: Seq<char>)
    ensures
        property_value(active, name) is Some <==> (active is Mapping && lookup(
            active->Mapping_0@,
            name,
        ) is Some && lookup(active->Mapping_0@, name)->Some_0 is Text),
        property_value(active, name) is Some ==> property_value(active, name)->Some_0 == lookup(
            active->Mapping_0@,
            name,
        )->Some_0->Text_0@,
{
}

/// The fan-out name leads from a sequence of K elements to K children, the
/// elements in their order.
pub proof fn lemma_wildcard_fans_out(items: Vec<DocValue>, edge: Seq<char>)
    requires
        is_wildcard_name(edge),
    ensures
        neighbor_values(DocValue::Sequence(items), edge) == Some(items@),
        neighbor_values(DocValue::Sequence(items), edge)->Some_0.len() == items@.len(),
{
}

} // verus!
