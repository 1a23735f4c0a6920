use hgdb_core::entity::simple_h_edge::{Property, SimpleHyperEdge};
use hgdb_core::errors::HgError;
use hgdb_core::repository::simple_h_edge_repository::SimpleHyperEdgeRepository;
use hgdb_core::store::KvStore;

#[test]
fn test_kv_store_basics() {
    let mut store = KvStore::new();
    assert_eq!(store.get("a"), None);
    store.put("a", "one".to_string());
    store.put("b", "two".to_string());
    assert_eq!(store.get("a"), Some("one".to_string()));
    assert_eq!(store.get("b"), Some("two".to_string()));
    store.put("a", "replaced".to_string());
    assert_eq!(store.get("a"), Some("replaced".to_string()));
    let pairs = store.scan();
    assert_eq!(pairs.len(), 2);
    store.delete("a");
    assert_eq!(store.get("a"), None);
    store.delete("a");
    assert_eq!(store.get("a"), None);
    assert_eq!(store.scan().len(), 1);
}

fn good_edge(id: &str, name: &str) -> SimpleHyperEdge {
    SimpleHyperEdge {
        id: id.to_string(),
        name: name.to_string(),
        main_properties: vec![Property {
            key: "type".to_string(),
            value: vec!["linked".to_string()],
        }],
        traversable: true,
        directed: false,
        head_hyper_nodes: vec!["v1".to_string(), "v2".to_string()],
        tail_hyper_nodes: None,
    }
}

#[test]
fn test_get_all_skips_undecodable() {
    let mut repository = SimpleHyperEdgeRepository::new("shared-keyspace").unwrap();
    let edge = good_edge("good", "kept");
    repository.create("good", &edge).unwrap();
    repository.put_raw("corrupt", "this payload is not a record");
    let all = repository.get_all().unwrap();
    assert_eq!(all.len(), 1, "the corrupted entry must be omitted, not fatal");
    assert_eq!(all[0], edge);
    // Reading the corrupted key directly surfaces the failure instead.
    assert_eq!(repository.get_by_key("corrupt"), Err(HgError::DeserializationError));
}

#[test]
fn test_create_then_get_returns_same_record() {
    let mut repository = SimpleHyperEdgeRepository::new("crud-keyspace").unwrap();
    let edge = good_edge("k1", "first");
    repository.create("k1", &edge).unwrap();
    assert_eq!(repository.get_by_key("k1"), Ok(Some(edge)));
    repository.delete("k1").unwrap();
    assert_eq!(repository.get_by_key("k1"), Ok(None));
    // Deleting an absent key succeeds without error.
    assert_eq!(repository.delete("k1"), Ok(()));
}

#[test]
fn test_update_fully_replaces() {
    let mut repository = SimpleHyperEdgeRepository::new("update-keyspace").unwrap();
    let first = good_edge("k", "first");
    let second = SimpleHyperEdge {
        id: "k".to_string(),
        name: "second".to_string(),
        main_properties: vec![],
        traversable: false,
        directed: true,
        head_hyper_nodes: vec!["h".to_string()],
        tail_hyper_nodes: Some(vec!["t".to_string()]),
    };
    repository.create("k", &first).unwrap();
    repository.update("k", &second).unwrap();
    let read = repository.get_by_key("k").unwrap().unwrap();
    assert_eq!(read, second, "nothing of the first record may remain");
    assert_eq!(read.main_properties.len(), 0);
    assert_eq!(read.tail_hyper_nodes, Some(vec!["t".to_string()]));
}

#[test]
fn test_validating_constructor() {
    // Well-formed: accepted with the fields as given.
    let ok = SimpleHyperEdge::new(
        "e".to_string(),
        "n".to_string(),
        vec![],
        true,
        true,
        vec!["a".to_string()],
        Some(vec!["b".to_string()]),
    );
    let edge = ok.unwrap();
    assert_eq!(edge.id, "e");
    assert_eq!(edge.head_hyper_nodes, vec!["a".to_string()]);

    // Empty head set.
    let r = SimpleHyperEdge::new(
        "e".to_string(),
        "n".to_string(),
        vec![],
        true,
        false,
        vec![],
        None,
    );
    assert_eq!(r, Err(HgError::ValidationError));

    // Directed without a tail set.
    let r = SimpleHyperEdge::new(
        "e".to_string(),
        "n".to_string(),
        vec![],
        true,
        true,
        vec!["a".to_string()],
        None,
    );
    assert_eq!(r, Err(HgError::ValidationError));

    // Undirected with a tail set.
    let r = SimpleHyperEdge::new(
        "e".to_string(),
        "n".to_string(),
        vec![],
        true,
        false,
        vec!["a".to_string()],
        Some(vec!["b".to_string()]),
    );
    assert_eq!(r, Err(HgError::ValidationError));

    // Directed with an empty tail set.
    let r = SimpleHyperEdge::new(
        "e".to_string(),
        "n".to_string(),
        vec![],
        true,
        true,
        vec!["a".to_string()],
        Some(vec![]),
    );
    assert_eq!(r, Err(HgError::ValidationError));

    // A node identifier repeated within the head set.
    let r = SimpleHyperEdge::new(
        "e".to_string(),
        "n".to_string(),
        vec![],
        true,
        false,
        vec!["a".to_string(), "a".to_string()],
        None,
    );
    assert_eq!(r, Err(HgError::ValidationError));
}
