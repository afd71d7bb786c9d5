//! Finding a tensor of a response by its name.

use vstd::prelude::*;
use super::InferOutputTensor;
use crate::text::str_eq;

verus! {

/// Whether `idx` is the first position in `outputs` whose tensor is named `name`.
pub open spec fn is_first_named(outputs: Seq<InferOutputTensor>, name: Seq<char>, idx: int) -> bool {
    &&& 0 <= idx < outputs.len()
    &&& outputs[idx].name@ == name
    &&& forall|j: int| 0 <= j < idx ==> (#[trigger] outputs[j]).name@ != name
}

/// The index of the first tensor in `outputs` that is named `name`, in
/// whatever order the backend sent them; `None` where no tensor has that
/// name, as in an empty list.
pub fn get_output_idx(outputs: &[InferOutputTensor], name: &str) -> (r: Option<usize>)
    ensures
        match r {
            Some(idx) => is_first_named(outputs@, name@, idx as int),
            None => forall|j: int| 0 <= j < outputs@.len() ==> (#[trigger] outputs@[j]).name@ != name@,
        },
        output_position(outputs@, name@) == match r {
            Some(idx) => Some(idx as int),
            None => None,
        },
{
    let mut i: usize = 0;
    while i < outputs.len()
        invariant
            i <= outputs@.len(),
            forall|j: int| 0 <= j < i ==> (#[trigger] outputs@[j]).name@ != name@,
        decreases outputs@.len() - i,
    {
        if str_eq(outputs[i].name.as_str(), name) {
            proof {
                lemma_first_named_is_position(outputs@, name@, i as int);
            }
            return Some(i);
        }
        i += 1;
    }
    None
}

/// The position of the first tensor in `outputs` that is named `name`.
pub open spec fn output_position(outputs: Seq<InferOutputTensor>, name: Seq<char>) -> Option<int> {
    if exists|i: int| is_first_named(outputs, name, i) {
        Some(choose|i: int| is_first_named(outputs, name, i))
    } else {
        None
    }
}

/// Only one position is the first.
pub proof fn lemma_first_named_is_position(
    outputs: Seq<InferOutputTensor>,
    name: Seq<char>,
    idx: int,
)
    requires
        is_first_named(outputs, name, idx),
    ensures
        output_position(outputs, name) == Some(idx),
{
    let chosen = choose|i: int| is_first_named(outputs, name, i);
    if chosen < idx {
        assert(outputs[chosen].name@ != name);
    } else if idx < chosen {
        assert(outputs[idx].name@ != name);
    }
}

} // verus!
