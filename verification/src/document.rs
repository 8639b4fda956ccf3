//! The document: a tree of scalars, ordered sequences and keyed mappings.

use vstd::prelude::*;

verus! {

/// One node of a document.
///
/// A number is kept in its written form. A mapping keeps its entries, key
/// and value, in the document's order.
#[derive(Debug, PartialEq, Eq)]
pub enum DocValue {
    Null,
    Boolean(bool),
    Number(String),
    Text(String),
    Sequence(Vec<DocValue>),
    Mapping(Vec<(DocValue, DocValue)>),
    Tagged(String, Box<DocValue>),
}

/// Whether a mapping's key is the string `key`.
pub open spec fn is_key(candidate: DocValue, key: Seq<char>) -> bool {
    match candidate {
        DocValue::Text(text) => text@ == key,
        _ => false,
    }
}

/// The value that a mapping's entries hold under the string key `key`: that
/// of the first entry with this key.
pub open spec fn lookup(entries: Seq<(DocValue, DocValue)>, key: Seq<char>) -> Option<DocValue>
    decreases entries.len(),
{
    if entries.len() == 0 {
        None
    } else if is_key(entries[0].0, key) {
        Some(entries[0].1)
    } else {
        lookup(entries.skip(1), key)
    }
}

/// The name of a value's kind.
pub open spec fn kind_name(value: DocValue) -> Seq<char> {
    match value {
        DocValue::Null => "null"@,
        DocValue::Boolean(_) => "bool"@,
        DocValue::Number(_) => "number"@,
        DocValue::Text(_) => "string"@,
        DocValue::Sequence(_) => "sequence"@,
        DocValue::Mapping(_) => "mapping"@,
        DocValue::Tagged(_, _) => "tagged"@,
    }
}

impl DocValue {
    /// The name of this value's kind.
    pub fn typename(&self) -> (name: &'static str)
        ensures
            name@ == kind_name(*self),
    {
        match self {
            DocValue::Null => "null",
            DocValue::Boolean(_) => "bool",
            DocValue::Number(_) => "number",
            DocValue::Text(_) => "string",
            DocValue::Sequence(_) => "sequence",
            DocValue::Mapping(_) => "mapping",
            DocValue::Tagged(_, _) => "tagged",
        }
    }
}

/// Finds the value that a mapping's entries hold under a string key.
pub fn mapping_get<'a>(entries: &'a Vec<(DocValue, DocValue)>, key: &str) -> (found: Option<&'a DocValue>)
    ensures
        match found {
            Some(value) => lookup(entries@, key@) == Some(*value),
            None => lookup(entries@, key@) is None,
        },
{
    let wanted: String = key.to_owned();
    let mut i: usize = 0;
    proof {
        assert(entries@.skip(0) =~= entries@);
    }
    while i < entries.len()
        invariant
            i <= entries.len(),
            wanted@ == key@,
            lookup(entries@, key@) == lookup(entries@.skip(i as int), key@),
        decreases entries.len() - i,
    {
        proof {
            assert(entries@.skip(i as int).skip(1) =~= entries@.skip(i as int + 1));
            assert(entries@.skip(i as int)[0] == entries@[i as int]);
        }
        match &entries[i].0 {
            DocValue::Text(text) => {
                if *text == wanted {
                    return Some(&entries[i].1);
                }
            },
            _ => {},
        }
        i += 1;
    }
    None
}

} // verus!
