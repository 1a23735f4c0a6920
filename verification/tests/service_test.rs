use hgdb_core::entity::simple_h_edge::{Property, SimpleHyperEdge};
use hgdb_core::errors::HgError;
use hgdb_core::repository::simple_h_edge_repository::SimpleHyperEdgeRepository;
use hgdb_core::services::simple_h_edge_service::DualHyperEdgeService;

fn friendship() -> SimpleHyperEdge {
    SimpleHyperEdge {
        id: "e1".to_string(),
        name: "Friendship".to_string(),
        main_properties: vec![Property {
            key: "since".to_string(),
            value: vec!["2016".to_string()],
        }],
        traversable: true,
        directed: true,
        head_hyper_nodes: vec!["v1".to_string(), "v2".to_string()],
        tail_hyper_nodes: Some(vec!["v3".to_string()]),
    }
}

#[test]
fn test_dual_synthesis_friendship() {
    let mut repository = SimpleHyperEdgeRepository::new("dual-friendship").unwrap();
    let service = DualHyperEdgeService::new();
    let source = friendship();
    repository.create("e1", &source).unwrap();

    let (matrix, transposed) = service.create_dual_h_edge(&mut repository, "e1").unwrap();
    // Universe v1, v2, v3 against the one source edge.
    assert_eq!(matrix, vec![vec![true], vec![true], vec![true]]);
    assert_eq!(transposed, vec![vec![true, true, true]]);

    let dual = repository.get_dual_by_key("dual_e1").unwrap().unwrap();
    assert_eq!(dual.name, "Dual of Friendship");
    assert_eq!(dual.head_hyper_nodes, vec!["v1".to_string(), "v2".to_string()]);
    assert_eq!(dual.tail_hyper_nodes, Some(vec!["v3".to_string()]));
    assert_eq!(dual.simple_hyper_edge, source);
    assert_eq!(dual.dual_properties, source.main_properties);
    assert!(dual.traversable);
    assert!(dual.directed);
}

#[test]
fn test_dual_synthesis_missing_source() {
    let mut repository = SimpleHyperEdgeRepository::new("dual-missing").unwrap();
    let service = DualHyperEdgeService::new();
    let r = service.create_dual_h_edge(&mut repository, "absent");
    assert_eq!(r, Err(HgError::NotFoundError));
    // No dual record was written.
    assert_eq!(repository.get_dual_by_key("dual_absent"), Ok(None));
    assert_eq!(repository.get_all().unwrap().len(), 0);
}

#[test]
fn test_incidence_matrix_shape_and_values() {
    let service = DualHyperEdgeService::new();
    let e1 = SimpleHyperEdge {
        id: "a".to_string(),
        name: "a".to_string(),
        main_properties: vec![],
        traversable: true,
        directed: true,
        head_hyper_nodes: vec!["n1".to_string()],
        tail_hyper_nodes: Some(vec!["n2".to_string()]),
    };
    let e2 = SimpleHyperEdge {
        id: "b".to_string(),
        name: "b".to_string(),
        main_properties: vec![],
        traversable: true,
        directed: false,
        head_hyper_nodes: vec!["n2".to_string(), "n3".to_string()],
        tail_hyper_nodes: None,
    };
    let nodes = vec![
        "n1".to_string(),
        "n2".to_string(),
        "n3".to_string(),
        "absent".to_string(),
    ];
    let edges = vec![e1, e2];
    let m = service.create_incidence_matrix(&nodes, &edges);
    // k rows, m columns.
    assert_eq!(m.len(), 4);
    for row in &m {
        assert_eq!(row.len(), 2);
    }
    // Head or tail membership, cell by cell.
    assert_eq!(m[0], vec![true, false]);
    assert_eq!(m[1], vec![true, true]);
    assert_eq!(m[2], vec![false, true]);
    // A node absent from every edge has an all-false row.
    assert_eq!(m[3], vec![false, false]);
}

#[test]
fn test_transpose_matrix() {
    let service = DualHyperEdgeService::new();
    // The empty matrix transposes to the empty matrix.
    let empty: Vec<Vec<bool>> = vec![];
    assert_eq!(service.transpose_matrix(&empty), Vec::<Vec<bool>>::new());
    // A two-by-three matrix.
    let m = vec![vec![true, false, true], vec![false, false, true]];
    let t = service.transpose_matrix(&m);
    assert_eq!(t, vec![vec![true, false], vec![false, false], vec![true, true]]);
    // Transposing twice gives the matrix back.
    assert_eq!(service.transpose_matrix(&t), m);
}

#[test]
fn test_node_universe_order_and_dedup() {
    let service = DualHyperEdgeService::new();
    let edge = SimpleHyperEdge {
        id: "e".to_string(),
        name: "e".to_string(),
        main_properties: vec![],
        traversable: false,
        directed: true,
        head_hyper_nodes: vec!["v1".to_string(), "v2".to_string()],
        tail_hyper_nodes: Some(vec!["v2".to_string(), "v3".to_string()]),
    };
    let universe = service.node_universe(&edge);
    assert_eq!(universe, vec!["v1".to_string(), "v2".to_string(), "v3".to_string()]);
}

#[test]
fn test_matrix_lines() {
    let service = DualHyperEdgeService::new();
    let m = vec![vec![true, false], vec![false, true], vec![true, true]];
    let lines = service.matrix_lines(&m);
    assert_eq!(lines, vec!["1 0".to_string(), "0 1".to_string(), "1 1".to_string()]);
    let empty: Vec<Vec<bool>> = vec![];
    assert_eq!(service.matrix_lines(&empty), Vec::<String>::new());
}
