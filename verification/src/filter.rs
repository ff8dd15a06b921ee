//! Which candidates are offered at all: a path is left out when one of its
//! segments is hidden or denied.

use vstd::prelude::*;
use vstd::string::StrSliceExecFns;

verus! {

/// A hidden segment: one whose name starts with `.` or `_`.
pub open spec fn is_hidden(segment: Seq<char>) -> bool {
    segment.len() > 0 && (segment[0] == '.' || segment[0] == '_')
}

/// A segment that may stand in an offered path: not hidden, and not one of
/// the denied names.
pub open spec fn segment_is_valid(segment: Seq<char>, denied: Seq<Seq<char>>) -> bool {
    !is_hidden(segment) && !denied.contains(segment)
}

/// The names of a list of strings.
pub open spec fn names(list: Seq<String>) -> Seq<Seq<char>> {
    Seq::new(list.len(), |i: int| list[i]@)
}

fn is_denied(segment: &String, denied: &Vec<String>) -> (found: bool)
    ensures
        found == names(denied@).contains(segment@),
{
    let mut index: usize = 0;
    while index < denied.len()
        invariant
            index <= denied@.len(),
            forall|i: int| 0 <= i < index ==> denied@[i]@ != segment@,
        decreases denied@.len() - index,
    {
        if denied[index] == *segment {
            assert(names(denied@)[index as int] == segment@);
            return true;
        }
        index = index + 1;
    }
    false
}

/// Whether a path, given by its segments, is offered: every segment must
/// be valid.
pub fn name_is_valid(segments: &Vec<String>, denied: &Vec<String>) -> (valid: bool)
    ensures
        valid == forall|i: int|
            0 <= i < segments@.len() ==> segment_is_valid(
                #[trigger] segments@[i]@,
                names(denied@),
            ),
{
    let mut index: usize = 0;
    while index < segments.len()
        invariant
            index <= segments@.len(),
            forall|i: int|
                0 <= i < index ==> segment_is_valid(#[trigger] segments@[i]@, names(denied@)),
        decreases segments@.len() - index,
    {
        let segment = &segments[index];
        let name = segment.as_str();
        if !name.is_empty() {
            let first = name.get_char(0);
            if first == '.' || first == '_' {
                return false;
            }
        }
        if is_denied(segment, denied) {
            return false;
        }
        index = index + 1;
    }
    true
}

} // verus!
