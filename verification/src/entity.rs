pub mod dual_h_edge;
pub mod light_h_edge;
pub mod relationship;
pub mod simple_h_edge;
pub mod structure;
