//! Leaf buffers: the containers that own data and announce each mutation.
pub mod grid_hashmap;
pub mod index_hashmap;
pub mod singleton;
pub mod vec;
