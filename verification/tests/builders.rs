use heapquery::decode::{DecodeError, Stage};
use heapquery::json::{parse_heap_json, SnapshotError};
use heapquery::schema::{EdgeSchema, Field, FieldKind, NodeSchema};
use heapquery::tables::{build_locations, build_objects, build_references, LocationRow};

fn field(name: &str, kind: FieldKind) -> Field {
    Field { name: name.to_string(), kind }
}

fn node_schema() -> NodeSchema {
    NodeSchema::resolve(vec![
        field("type", FieldKind::Labels(vec!["object".to_string(), "closure".to_string()])),
        field("name", FieldKind::StringRef),
        field("id", FieldKind::Number),
        field("self_size", FieldKind::Number),
        field("edge_count", FieldKind::Number),
    ])
    .unwrap()
}

fn edge_schema() -> EdgeSchema {
    EdgeSchema::resolve(vec![
        field(
            "type",
            FieldKind::Labels(vec![
                "context".to_string(),
                "element".to_string(),
                "property".to_string(),
            ]),
        ),
        field("name_or_index", FieldKind::StringRef),
        field("to_node", FieldKind::NodeRef),
    ])
    .unwrap()
}

// A two-object snapshot: A (id 1, size 16, one reference) points at
// B (id 2, size 8, no references); one location puts A at script 7,
// line 3, column 5.
fn two_object_nodes() -> Vec<u64> {
    vec![
        0, 0, 1, 16, 1, // A: type "object", name "a_name", id 1, self_size 16, 1 edge
        1, 1, 2, 8, 0, // B: type "closure", name "b_name", id 2, self_size 8, 0 edges
    ]
}

fn strings() -> Vec<String> {
    vec!["a_name".to_string(), "b_name".to_string()]
}

#[test]
fn two_object_snapshot_objects() {
    let rows = build_objects(&node_schema(), &two_object_nodes(), &strings()).unwrap();
    assert_eq!(rows.len(), 2);
    assert_eq!(rows[0].id, 1);
    assert_eq!(rows[0].name, "a_name");
    assert_eq!(rows[0].kind, "object");
    assert_eq!(rows[0].self_size, 16);
    assert_eq!(rows[0].reference_count, 1);
    assert_eq!(rows[1].id, 2);
    assert_eq!(rows[1].name, "b_name");
    assert_eq!(rows[1].kind, "closure");
    assert_eq!(rows[1].self_size, 8);
    assert_eq!(rows[1].reference_count, 0);
}

#[test]
fn two_object_snapshot_references() {
    let edges = vec![0u64, 0, 5]; // "context", name "a_name", target position 5 (object B)
    let rows =
        build_references(&node_schema(), &two_object_nodes(), &edge_schema(), &edges, &strings())
            .unwrap();
    assert_eq!(rows.len(), 1);
    assert_eq!(rows[0].from, 1);
    assert_eq!(rows[0].to, 2);
    assert_eq!(rows[0].kind, "context");
    assert_eq!(rows[0].name_or_index, "a_name");
}

#[test]
fn two_object_snapshot_locations() {
    let locations = vec![0u64, 7, 3, 5];
    let rows = build_locations(&node_schema(), &two_object_nodes(), &locations).unwrap();
    assert_eq!(rows, vec![LocationRow { object_id: 1, script_id: 7, line: 3, column: 5 }]);
}

#[test]
fn object_count_is_length_over_stride() {
    let mut nodes = two_object_nodes();
    nodes.extend_from_slice(&[0, 0, 7, 1, 0]);
    let rows = build_objects(&node_schema(), &nodes, &strings()).unwrap();
    assert_eq!(rows.len(), nodes.len() / 5);
}

#[test]
fn numeric_name_or_index_is_stored_as_text() {
    let eschema = EdgeSchema::resolve(vec![
        field("type", FieldKind::Labels(vec!["element".to_string()])),
        field("name_or_index", FieldKind::Number),
        field("to_node", FieldKind::NodeRef),
    ])
    .unwrap();
    let edges = vec![0u64, 4, 0];
    let rows =
        build_references(&node_schema(), &two_object_nodes(), &eschema, &edges, &strings())
            .unwrap();
    assert_eq!(rows[0].name_or_index, "4");
}

#[test]
fn references_walk_objects_in_declared_counts() {
    let nodes = vec![
        0u64, 0, 1, 16, 2, // A: two references
        1, 1, 2, 8, 1, // B: one reference
        0, 0, 3, 4, 0, // C: none
    ];
    let edges = vec![
        0u64, 0, 5, // A -> B
        1, 1, 10, // A -> C
        2, 0, 0, // B -> A
    ];
    let rows = build_references(&node_schema(), &nodes, &edge_schema(), &edges, &strings())
        .unwrap();
    assert_eq!(rows.len(), 3);
    assert_eq!((rows[0].from, rows[0].to), (1, 2));
    assert_eq!((rows[1].from, rows[1].to), (1, 3));
    assert_eq!((rows[2].from, rows[2].to), (2, 1));
    assert_eq!(rows[1].kind, "element");
    assert_eq!(rows[2].kind, "property");
    assert_eq!(rows.iter().filter(|r| r.from == 1).count(), 2);
    assert_eq!(rows.iter().filter(|r| r.from == 2).count(), 1);
    assert_eq!(rows.iter().filter(|r| r.from == 3).count(), 0);
}

#[test]
fn object_array_stride_misfit_fails() {
    let nodes = vec![0u64, 0, 1, 16, 1, 9, 9];
    let e = build_objects(&node_schema(), &nodes, &strings()).unwrap_err();
    assert_eq!(e, DecodeError::Stride { stage: Stage::ObjectDecode, len: 7, stride: 5 });
}

#[test]
fn reference_array_stride_misfit_fails() {
    let edges = vec![0u64, 0];
    let e = build_references(&node_schema(), &two_object_nodes(), &edge_schema(), &edges, &strings())
        .unwrap_err();
    assert_eq!(e, DecodeError::Stride { stage: Stage::ReferenceDecode, len: 2, stride: 3 });
}

#[test]
fn location_array_stride_misfit_fails() {
    let locations = vec![0u64, 7, 3];
    let e = build_locations(&node_schema(), &two_object_nodes(), &locations).unwrap_err();
    assert_eq!(e, DecodeError::Stride { stage: Stage::LocationDecode, len: 3, stride: 4 });
}

#[test]
fn object_with_wrong_shaped_id_fails() {
    let schema = NodeSchema::resolve(vec![
        field("type", FieldKind::Labels(vec!["object".to_string()])),
        field("name", FieldKind::StringRef),
        field("id", FieldKind::StringRef),
        field("self_size", FieldKind::Number),
        field("edge_count", FieldKind::Number),
    ])
    .unwrap();
    let nodes = vec![0u64, 0, 0, 16, 0];
    let e = build_objects(&schema, &nodes, &strings()).unwrap_err();
    assert_eq!(e, DecodeError::Shape { stage: Stage::ObjectDecode, record: 0, field: 2 });
}

#[test]
fn target_position_out_of_bounds_fails() {
    let edges = vec![0u64, 0, 12];
    let e = build_references(&node_schema(), &two_object_nodes(), &edge_schema(), &edges, &strings())
        .unwrap_err();
    assert_eq!(e, DecodeError::Target { stage: Stage::ReferenceDecode, record: 0, position: 12 });
}

#[test]
fn target_position_off_record_boundary_fails() {
    let edges = vec![0u64, 0, 3];
    let e = build_references(&node_schema(), &two_object_nodes(), &edge_schema(), &edges, &strings())
        .unwrap_err();
    assert_eq!(e, DecodeError::Target { stage: Stage::ReferenceDecode, record: 0, position: 3 });
}

#[test]
fn location_position_out_of_bounds_fails() {
    let locations = vec![10u64, 7, 3, 5];
    let e = build_locations(&node_schema(), &two_object_nodes(), &locations).unwrap_err();
    assert_eq!(e, DecodeError::Target { stage: Stage::LocationDecode, record: 0, position: 10 });
}

#[test]
fn declared_count_beyond_records_fails() {
    let mut nodes = two_object_nodes();
    nodes[4] = 2; // object A claims two references
    let edges = vec![0u64, 0, 5];
    let e = build_references(&node_schema(), &nodes, &edge_schema(), &edges, &strings())
        .unwrap_err();
    assert_eq!(e, DecodeError::CountOverrun { object: 0 });
}

#[test]
fn leftover_reference_records_fail() {
    let mut nodes = two_object_nodes();
    nodes[4] = 0; // object A claims no references, yet one record exists
    let edges = vec![0u64, 0, 5];
    let e = build_references(&node_schema(), &nodes, &edge_schema(), &edges, &strings())
        .unwrap_err();
    assert_eq!(e, DecodeError::CountLeftover { remaining: 1 });
}

fn scenario_json() -> String {
    r#"{
      "snapshot": { "meta": {
        "node_fields": ["type", "name", "id", "self_size", "edge_count"],
        "node_types": [["object", "closure"], "string", "number", "number", "number"],
        "edge_fields": ["type", "name_or_index", "to_node"],
        "edge_types": [["context", "element", "property"], "string_or_number", "node"] } },
      "nodes": [0, 0, 1, 16, 1, 1, 1, 2, 8, 0],
      "edges": [0, 0, 5],
      "strings": ["a_name", "b_name"],
      "locations": [0, 7, 3, 5]
    }"#
    .to_string()
}

#[test]
fn snapshot_parses_and_decodes_end_to_end() {
    let snap = parse_heap_json(&scenario_json()).unwrap();
    let objects = build_objects(&snap.node_schema, &snap.nodes, &snap.strings).unwrap();
    assert_eq!(objects.len(), 2);
    assert_eq!(objects[0].id, 1);
    assert_eq!(objects[0].name, "a_name");
    assert_eq!(objects[1].self_size, 8);
    let refs = build_references(
        &snap.node_schema,
        &snap.nodes,
        &snap.edge_schema,
        &snap.edges,
        &snap.strings,
    )
    .unwrap();
    assert_eq!(refs.len(), 1);
    assert_eq!(refs[0].from, 1);
    assert_eq!(refs[0].to, 2);
    assert_eq!(refs[0].kind, "context");
    let locs = build_locations(&snap.node_schema, &snap.nodes, &snap.locations).unwrap();
    assert_eq!(locs, vec![LocationRow { object_id: 1, script_id: 7, line: 3, column: 5 }]);
}

#[test]
fn malformed_text_fails_to_parse() {
    assert_eq!(parse_heap_json("{ not json").unwrap_err(), SnapshotError::Malformed);
}

#[test]
fn missing_top_level_key_is_reported() {
    let e = parse_heap_json("{}").unwrap_err();
    assert_eq!(e, SnapshotError::MissingKey { key: "snapshot".to_string() });
}

#[test]
fn unsupported_type_tag_is_reported() {
    let text = scenario_json().replace("\"number\", \"number\"]", "\"number\", \"float\"]");
    let e = parse_heap_json(&text).unwrap_err();
    assert_eq!(e, SnapshotError::UnsupportedTag { tag: "float".to_string() });
}

#[test]
fn non_numeric_array_element_is_reported() {
    let text = scenario_json().replace("[0, 7, 3, 5]", "[0, 7, \"three\", 5]");
    let e = parse_heap_json(&text).unwrap_err();
    assert_eq!(e, SnapshotError::UnexpectedShape { key: "locations".to_string(), index: 2 });
}
