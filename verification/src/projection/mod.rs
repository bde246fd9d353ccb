//! Projections: views that are derived from other views.
pub mod decorate_sequence;
pub mod enumerate_sequence;
pub mod filter_map_sequence;
pub mod filter_sequence;
pub mod flatten_grid;
pub mod flatten_sequence;
pub mod flatten_singleton;
pub mod grid_offset;
pub mod list2seq;
pub mod map_index_item;
pub mod map_index_key;
pub mod map_list;
pub mod map_sequence;
pub mod map_singleton;
pub mod projection_helper;
pub mod seq2idx;
pub mod sgl2idx;
pub mod sgl2seq;
pub mod vec2bin;
pub mod vec2json;
pub mod vec2list;
pub mod vec2seq;
