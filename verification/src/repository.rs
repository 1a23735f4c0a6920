pub mod light_h_edge_repository;
pub mod simple_h_edge_repository;
