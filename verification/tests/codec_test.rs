use hgdb_core::codec::light_records::{decode_light, encode_light};
use hgdb_core::codec::records::{decode_dual, decode_simple, encode_dual, encode_simple};
use hgdb_core::entity::dual_h_edge::DualHyperEdge;
use hgdb_core::entity::light_h_edge::LightHyperEdge;
use hgdb_core::entity::relationship::Relationship;
use hgdb_core::entity::simple_h_edge::{Property, SimpleHyperEdge};
use hgdb_core::entity::structure::{StructuralProperty, Traverse};

fn sample_simple() -> SimpleHyperEdge {
    SimpleHyperEdge {
        id: "e1".to_string(),
        name: "Friendship".to_string(),
        main_properties: vec![
            Property { key: "type".to_string(), value: vec!["linked".to_string()] },
            Property {
                key: "weights".to_string(),
                value: vec!["1".to_string(), "2".to_string()],
            },
        ],
        traversable: true,
        directed: true,
        head_hyper_nodes: vec!["v1".to_string(), "v2".to_string()],
        tail_hyper_nodes: Some(vec!["v3".to_string()]),
    }
}

#[test]
fn test_simple_round_trip() {
    let edge = sample_simple();
    let text = encode_simple(&edge);
    let back = decode_simple(&text);
    assert_eq!(back, Some(edge));
}

#[test]
fn test_simple_round_trip_undirected() {
    let edge = SimpleHyperEdge {
        id: "solo".to_string(),
        name: String::new(),
        main_properties: vec![],
        traversable: false,
        directed: false,
        head_hyper_nodes: vec!["n".to_string()],
        tail_hyper_nodes: None,
    };
    let text = encode_simple(&edge);
    assert_eq!(decode_simple(&text), Some(edge));
}

#[test]
fn test_simple_exact_encoding() {
    let edge = SimpleHyperEdge {
        id: "a".to_string(),
        name: "b".to_string(),
        main_properties: vec![],
        traversable: true,
        directed: false,
        head_hyper_nodes: vec!["x".to_string()],
        tail_hyper_nodes: None,
    };
    let expected = "{\"id\":\"a\",\"name\":\"b\",\"main_properties\":[],\"traversable\":true,\"directed\":false,\"head_hyper_nodes\":[\"x\"],\"tail_hyper_nodes\":null}";
    assert_eq!(encode_simple(&edge), expected);
}

#[test]
fn test_string_escaping_round_trip() {
    let edge = SimpleHyperEdge {
        id: "quote\"and\\slash".to_string(),
        name: "line\nbreak, comma],brace}".to_string(),
        main_properties: vec![Property {
            key: "\\".to_string(),
            value: vec!["\"".to_string(), String::new()],
        }],
        traversable: false,
        directed: false,
        head_hyper_nodes: vec!["\"\"".to_string()],
        tail_hyper_nodes: None,
    };
    let text = encode_simple(&edge);
    assert!(text.contains("\\\""));
    assert!(text.contains("\\\\"));
    assert_eq!(decode_simple(&text), Some(edge));
}

#[test]
fn test_decode_rejects_garbage() {
    assert_eq!(decode_simple("this is not a record"), None);
    assert_eq!(decode_simple(""), None);
    assert_eq!(decode_simple("{\"id\":\"a\""), None);
    let good = encode_simple(&sample_simple());
    let mut padded = good.clone();
    padded.push(' ');
    assert_eq!(decode_simple(&padded), None, "trailing text must be rejected");
    assert_eq!(decode_dual(&good), None, "a hyperedge record is not a dual record");
}

#[test]
fn test_dual_round_trip() {
    let source = sample_simple();
    let dual = DualHyperEdge {
        id: "dual_e1".to_string(),
        name: "Dual of Friendship".to_string(),
        simple_hyper_edge: source.clone(),
        dual_properties: source.main_properties.clone(),
        traversable: true,
        directed: true,
        head_hyper_nodes: vec!["v1".to_string(), "v2".to_string()],
        tail_hyper_nodes: Some(vec!["v3".to_string()]),
    };
    let text = encode_dual(&dual);
    assert_eq!(decode_dual(&text), Some(dual));
}

#[test]
fn test_light_round_trip() {
    let light = LightHyperEdge {
        id: "l1".to_string(),
        simple_hyper_edge: sample_simple(),
        structural_properties: vec![
            StructuralProperty { address: vec!["123 Main St".to_string()] },
            StructuralProperty { address: vec![] },
        ],
        relationship: Relationship {
            node_1: "v1".to_string(),
            node_2: "v2".to_string(),
            edge_properties: vec!["weight: 5".to_string()],
            directed: true,
        },
        traverse: Traverse { path: vec![] },
    };
    let text = encode_light(&light);
    assert_eq!(decode_light(&text), Some(light));
    assert_eq!(decode_simple(&text), None, "a light record is not a hyperedge record");
}
