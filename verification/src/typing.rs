//! The later semantic pass over the partition tree. Only its entry point
//! lives here; the pass itself is outside this front end's scope.

pub mod nameclass_map_extractor;
