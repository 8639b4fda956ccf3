//! Output labels: the sigil convention by which a leaf value names an
//! output column.

use vstd::prelude::*;

verus! {

/// The label that a leaf value declares, given the value's written form.
///
/// A value declares a label when it opens with a quotation mark followed by
/// `@`. The label is what stands between that opening and the closing
/// quotation mark. A value that opens so but has no closing quotation mark
/// after the sigil declares its whole written form as the label.
pub open spec fn label_of(raw: Seq<char>) -> Option<Seq<char>> {
    if raw.len() >= 2 && raw[0] == '"' && raw[1] == '@' {
        if raw.len() >= 3 && raw.last() == '"' {
            Some(raw.subrange(2, raw.len() - 1))
        } else {
            Some(raw)
        }
    } else {
        None
    }
}

/// Whether a name is the reserved name that fans out over a sequence.
pub open spec fn is_wildcard_name(name: Seq<char>) -> bool {
    name.len() == 1 && name[0] == '*'
}

/// Reads the label that a leaf value declares, if it declares one.
pub fn extract_label(raw: &str) -> (label: Option<String>)
    ensures
        match label {
            Some(l) => label_of(raw@) == Some(l@),
            None => label_of(raw@) is None,
        },
{
    let n: usize = raw.unicode_len();
    if n >= 2 && raw.get_char(0) == '"' && raw.get_char(1) == '@' {
        if n >= 3 && raw.get_char(n - 1) == '"' {
            Some(raw.substring_char(2, n - 1).to_owned())
        } else {
            Some(raw.to_owned())
        }
    } else {
        None
    }
}

/// Tells whether a name is the reserved fan-out name `*`.
pub fn is_wildcard(name: &str) -> (yes: bool)
    ensures
        yes == is_wildcard_name(name@),
{
    name.unicode_len() == 1 && name.get_char(0) == '*'
}

} // verus!
