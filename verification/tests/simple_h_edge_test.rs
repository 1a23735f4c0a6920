use hgdb_core::entity::simple_h_edge::{Property, SimpleHyperEdge};
use hgdb_core::repository::simple_h_edge_repository::SimpleHyperEdgeRepository;

const DB_PATH: &str = "/users/gigin/documents/mydbs/rocksdb/simple-h-edge";

#[test]
fn test_simple_h_edge_crud_operation() {
    // Initialize repository
    let mut repository = SimpleHyperEdgeRepository::new(DB_PATH).unwrap();

    // Define test edges with unique keys
    let edges = vec![
        (
            "test_edge_1",
            SimpleHyperEdge {
                id: "test_edge_1".to_string(),
                name: "e1".to_string(),
                main_properties: vec![Property {
                    key: "type".to_string(),
                    value: vec!["linked".to_string()],
                }],
                traversable: true,
                directed: true,
                head_hyper_nodes: vec!["v1".to_string(), "v2".to_string()],
                tail_hyper_nodes: Some(vec!["v3".to_string()]),
            },
        ),
        (
            "test_edge_2",
            SimpleHyperEdge {
                id: "test_edge_2".to_string(),
                name: "e2".to_string(),
                main_properties: vec![Property {
                    key: "type".to_string(),
                    value: vec!["not-linked".to_string()],
                }],
                traversable: false,
                directed: false,
                head_hyper_nodes: vec!["v4".to_string(), "v5".to_string()],
                tail_hyper_nodes: None,
            },
        ),
        (
            "test_edge_3",
            SimpleHyperEdge {
                id: "test_edge_3".to_string(),
                name: "e3".to_string(),
                main_properties: vec![Property {
                    key: "type".to_string(),
                    value: vec!["not-linked".to_string()],
                }],
                traversable: true,
                directed: false,
                head_hyper_nodes: vec![
                    "v6".to_string(),
                    "v7".to_string(),
                    "v8".to_string(),
                ],
                tail_hyper_nodes: None,
            },
        ),
    ];

    // Create edges
    for (key, edge) in &edges {
        repository.create(key, edge).unwrap();
    }

    // Retrieve all edges and verify count
    let all_edges = repository.get_all().unwrap();
    assert_eq!(all_edges.len(), edges.len(), "Not all edges were stored correctly");

    // Retrieve and validate each edge
    for (key, original_edge) in &edges {
        let retrieved_edge = repository.get_by_key(key).unwrap();
        assert!(retrieved_edge.is_some(), "Edge {} was not found", key);
        let retrieved_edge = retrieved_edge.unwrap();
        assert_eq!(retrieved_edge.name, original_edge.name, "Retrieved edge name mismatch");
    }

    // Update an existing edge (test update)
    let updated_edge = SimpleHyperEdge {
        id: "test_edge_1".to_string(),
        name: "e1_updated".to_string(),
        main_properties: vec![Property {
            key: "type".to_string(),
            value: vec!["updated-linked".to_string()],
        }],
        traversable: false,
        directed: false,
        head_hyper_nodes: vec!["v1_updated".to_string()],
        tail_hyper_nodes: Some(vec!["v3_updated".to_string()]),
    };

    // Update the edge in the repository
    repository.update("test_edge_1", &updated_edge).unwrap();

    // Verify update
    let updated_retrieved_edge = repository.get_by_key("test_edge_1").unwrap().unwrap();
    assert_eq!(updated_retrieved_edge.name, "e1_updated", "Updated edge name mismatch");

    // Delete all edges
    for (key, _) in &edges {
        repository.delete(key).unwrap();
    }

    // Verify database is empty
    let all_edges_after_delete = repository.get_all().unwrap();
    assert!(
        all_edges_after_delete.is_empty(),
        "Database should be empty after deleting all edges"
    );
}
