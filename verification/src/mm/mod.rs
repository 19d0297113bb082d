//! Address spaces: map areas and the memory sets made of them.

pub mod laws;
pub mod load;
pub mod map_area;
pub mod memory_set;
pub mod region;
