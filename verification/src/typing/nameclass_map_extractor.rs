//! The entry point of the nameclass resolution pass: it consumes a
//! partition tree and will map names to their classes. The resolution
//! itself is not part of the lexical front end and does nothing yet.

use crate::bracket_partitioner::PartitionStream;
use vstd::prelude::*;

verus! {

/// Consumes a partition tree for nameclass resolution; no mapping is
/// built yet.
pub fn construct_nameclass_map(token_stream: &PartitionStream) {
    let _ = token_stream;
}

} // verus!
