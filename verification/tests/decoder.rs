use heapquery::decode::{decode_record, DecodeError, FieldValue, Stage};
use heapquery::schema::{EdgeSchema, Field, FieldKind, NodeSchema, SchemaError};
use heapquery::text::{str_eq, u64_to_dec};
use heapquery::{assoc_db_name, setup_db_if_needed};

fn field(name: &str, kind: FieldKind) -> Field {
    Field { name: name.to_string(), kind }
}

#[test]
fn enum_field_decodes_to_label() {
    let fields = vec![field(
        "type",
        FieldKind::Labels(vec!["a".to_string(), "b".to_string(), "c".to_string()]),
    )];
    let values = vec![2u64];
    let strings: Vec<String> = Vec::new();
    let (rec, next) =
        decode_record(Stage::ObjectDecode, 0, &fields, &values, &strings, 0).unwrap();
    assert_eq!(rec, vec![FieldValue::Text("c".to_string())]);
    assert_eq!(next, 1);
}

#[test]
fn string_field_resolves_through_string_table() {
    let fields = vec![field("name", FieldKind::StringRef)];
    let values = vec![1u64];
    let strings = vec!["zero".to_string(), "one".to_string()];
    let (rec, _) = decode_record(Stage::ObjectDecode, 0, &fields, &values, &strings, 0).unwrap();
    assert_eq!(rec, vec![FieldValue::Text("one".to_string())]);
}

#[test]
fn numeric_fields_stay_raw() {
    let fields = vec![field("self_size", FieldKind::Number), field("to_node", FieldKind::NodeRef)];
    let values = vec![16u64, 5u64];
    let strings: Vec<String> = Vec::new();
    let (rec, next) =
        decode_record(Stage::ObjectDecode, 0, &fields, &values, &strings, 0).unwrap();
    assert_eq!(rec, vec![FieldValue::Num(16), FieldValue::Num(5)]);
    assert_eq!(next, 2);
}

#[test]
fn decode_advances_by_schema_length() {
    let fields = vec![field("id", FieldKind::Number), field("self_size", FieldKind::Number)];
    let values = vec![1u64, 16, 2, 8];
    let strings: Vec<String> = Vec::new();
    let (_, next) = decode_record(Stage::ObjectDecode, 0, &fields, &values, &strings, 2).unwrap();
    assert_eq!(next, 4);
}

#[test]
fn enum_index_out_of_range_fails() {
    let fields = vec![field("type", FieldKind::Labels(vec!["a".to_string()]))];
    let values = vec![3u64];
    let strings: Vec<String> = Vec::new();
    let r = decode_record(Stage::ObjectDecode, 4, &fields, &values, &strings, 0);
    assert_eq!(r.unwrap_err(), DecodeError::Field { stage: Stage::ObjectDecode, record: 4, field: 0 });
}

#[test]
fn string_index_out_of_range_fails() {
    let fields = vec![field("name", FieldKind::StringRef)];
    let values = vec![9u64];
    let strings = vec!["only".to_string()];
    let r = decode_record(Stage::ReferenceDecode, 1, &fields, &values, &strings, 0);
    assert_eq!(
        r.unwrap_err(),
        DecodeError::Field { stage: Stage::ReferenceDecode, record: 1, field: 0 }
    );
}

#[test]
fn truncated_record_fails() {
    let fields = vec![field("id", FieldKind::Number), field("self_size", FieldKind::Number)];
    let values = vec![1u64];
    let strings: Vec<String> = Vec::new();
    let r = decode_record(Stage::ObjectDecode, 0, &fields, &values, &strings, 0);
    assert_eq!(r.unwrap_err(), DecodeError::Truncated { stage: Stage::ObjectDecode, record: 0 });
}

fn node_fields() -> Vec<Field> {
    vec![
        field("type", FieldKind::Labels(vec!["object".to_string(), "closure".to_string()])),
        field("name", FieldKind::StringRef),
        field("id", FieldKind::Number),
        field("self_size", FieldKind::Number),
        field("edge_count", FieldKind::Number),
    ]
}

#[test]
fn node_schema_resolves_offsets_by_name() {
    let s = NodeSchema::resolve(node_fields()).unwrap();
    assert_eq!(s.type_offset, 0);
    assert_eq!(s.name_offset, 1);
    assert_eq!(s.id_offset, 2);
    assert_eq!(s.self_size_offset, 3);
    assert_eq!(s.count_offset, 4);
}

#[test]
fn node_schema_reports_missing_field() {
    let mut fields = node_fields();
    fields.remove(2);
    let e = NodeSchema::resolve(fields).unwrap_err();
    assert_eq!(e, SchemaError::MissingField { name: "id".to_string() });
}

#[test]
fn edge_schema_resolves_offsets_by_name() {
    let fields = vec![
        field("type", FieldKind::Labels(vec!["context".to_string()])),
        field("name_or_index", FieldKind::StringRef),
        field("to_node", FieldKind::NodeRef),
    ];
    let s = EdgeSchema::resolve(fields).unwrap();
    assert_eq!(s.type_offset, 0);
    assert_eq!(s.name_or_index_offset, 1);
    assert_eq!(s.to_offset, 2);
}

#[test]
fn edge_schema_reports_missing_field() {
    let fields = vec![field("type", FieldKind::StringRef)];
    let e = EdgeSchema::resolve(fields).unwrap_err();
    assert_eq!(e, SchemaError::MissingField { name: "to_node".to_string() });
}

#[test]
fn decimal_rendering_matches_std() {
    assert_eq!(u64_to_dec(0), "0");
    assert_eq!(u64_to_dec(4), "4");
    assert_eq!(u64_to_dec(10), "10");
    assert_eq!(u64_to_dec(90210), "90210");
    assert_eq!(u64_to_dec(u64::MAX), u64::MAX.to_string());
}

#[test]
fn str_eq_compares_by_characters() {
    assert!(str_eq("edge_count", "edge_count"));
    assert!(!str_eq("edge_count", "edge_counts"));
    assert!(!str_eq("a", "b"));
    assert!(str_eq("", ""));
}

#[test]
fn db_name_strips_directory_and_extension() {
    assert_eq!(assoc_db_name("foo.heapsnapshot"), "foo.db3");
    assert_eq!(assoc_db_name("/tmp/abc.heap"), "abc.db3");
    assert_eq!(assoc_db_name("dir/noext"), "noext.db3");
    assert_eq!(assoc_db_name("a/b/c.d.e"), "c.d.db3");
}

#[test]
fn db_name_ignores_trailing_separators() {
    assert_eq!(assoc_db_name("dir/"), "dir.db3");
    assert_eq!(assoc_db_name("a//"), "a.db3");
    assert_eq!(assoc_db_name("x/y.heap/"), "y.db3");
    assert_eq!(assoc_db_name(".bashrc"), ".bashrc.db3");
}

#[test]
fn setup_needed_only_without_database() {
    assert!(setup_db_if_needed(false));
    assert!(!setup_db_if_needed(true));
}
