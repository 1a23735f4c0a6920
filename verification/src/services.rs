pub mod simple_h_edge_service;
