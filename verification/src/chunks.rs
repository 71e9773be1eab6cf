//! Concatenation of a sequence of chunks, shared by the ordering law of the
//! byte queue and the chunking law of the line assembler.

use vstd::prelude::*;

verus! {

/// The concatenation of all chunks, in order.
pub open spec fn concat_chunks<T>(cs: Seq<Seq<T>>) -> Seq<T>
    decreases cs.len(),
{
    if cs.len() == 0 {
        Seq::empty()
    } else {
        cs.first() + concat_chunks(cs.drop_first())
    }
}

} // verus!
