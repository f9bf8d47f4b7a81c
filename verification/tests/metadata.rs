use rho_brain::metadata::{
    infer_value, merge_metadata_ops, metadata_pairs, metadata_row, metadata_value_of_json, row_json_value,
    JsonScalar, JsonValue, MetadataOp, MetadataRow, MetadataValue,
};

fn chars(s: &str) -> Vec<char> {
    s.chars().collect()
}

#[test]
fn form_values_are_typed() {
    assert_eq!(infer_value(&chars("true")), MetadataValue::Bool(true));
    assert_eq!(infer_value(&chars("false")), MetadataValue::Bool(false));
    assert_eq!(infer_value(&chars("42")), MetadataValue::Int(42));
    assert_eq!(infer_value(&chars("-0")), MetadataValue::Int(0));
    assert_eq!(infer_value(&chars("4.2")), MetadataValue::Text("4.2".to_string()));
    assert_eq!(infer_value(&chars("-")), MetadataValue::Text("-".to_string()));
}

#[test]
fn json_values_are_typed_like_create() {
    assert_eq!(metadata_value_of_json(&JsonValue::Str("high".to_string())), MetadataValue::Text("high".to_string()));
    assert_eq!(metadata_value_of_json(&JsonValue::Int(10)), MetadataValue::Int(10));
    assert_eq!(metadata_value_of_json(&JsonValue::Bool(false)), MetadataValue::Bool(false));
    assert_eq!(metadata_value_of_json(&JsonValue::Null), MetadataValue::Text("null".to_string()));
    assert_eq!(metadata_value_of_json(&JsonValue::Number("0.5".to_string())), MetadataValue::Number("0.5".to_string()));
}

#[test]
fn merge_sets_deletes_and_leaves_unlisted_keys() {
    let ops = merge_metadata_ops(&vec![
        ("priority".to_string(), JsonValue::Str("high".to_string())),
        ("pinned".to_string(), JsonValue::Bool(true)),
        ("stale".to_string(), JsonValue::Null),
    ]);
    assert_eq!(
        ops,
        vec![
            MetadataOp::RemoveKey("priority".to_string()),
            MetadataOp::Insert("priority".to_string(), MetadataValue::Text("high".to_string())),
            MetadataOp::RemoveKey("pinned".to_string()),
            MetadataOp::Insert("pinned".to_string(), MetadataValue::Bool(true)),
            MetadataOp::RemoveKey("stale".to_string()),
        ]
    );
}

#[test]
fn rows_show_their_set_column() {
    let text = MetadataRow { key: "k".to_string(), value_text: Some("v".to_string()), value_int: Some(1), value_number: None, value_bool: None };
    assert_eq!(row_json_value(&text), JsonScalar::Text("v".to_string()));
    let int = MetadataRow { key: "k".to_string(), value_text: None, value_int: Some(-5), value_number: None, value_bool: Some(true) };
    assert_eq!(row_json_value(&int), JsonScalar::Int(-5));
    let none = MetadataRow { key: "k".to_string(), value_text: None, value_int: None, value_number: None, value_bool: None };
    assert_eq!(row_json_value(&none), JsonScalar::Null);
}

#[test]
fn pages_show_rows_with_a_value() {
    let rows = vec![
        MetadataRow { key: "priority".to_string(), value_text: Some("high".to_string()), value_int: None, value_number: None, value_bool: None },
        MetadataRow { key: "version".to_string(), value_text: None, value_int: Some(-12), value_number: None, value_bool: None },
        MetadataRow { key: "pinned".to_string(), value_text: None, value_int: None, value_number: None, value_bool: Some(false) },
        MetadataRow { key: "empty".to_string(), value_text: None, value_int: None, value_number: None, value_bool: None },
    ];
    assert_eq!(
        metadata_pairs(&rows),
        vec![
            ("priority".to_string(), "high".to_string()),
            ("version".to_string(), "-12".to_string()),
            ("pinned".to_string(), "false".to_string()),
        ]
    );
}

#[test]
fn stored_json_metadata_reads_back() {
    let cases = vec![
        (JsonValue::Str("test_user".to_string()), JsonScalar::Text("test_user".to_string())),
        (JsonValue::Int(1), JsonScalar::Int(1)),
        (JsonValue::Number("1.5".to_string()), JsonScalar::Number("1.5".to_string())),
        (JsonValue::Number("18446744073709551616".to_string()), JsonScalar::Number("18446744073709551616".to_string())),
        (JsonValue::Bool(false), JsonScalar::Bool(false)),
    ];
    for (given, shown) in cases {
        let row = metadata_row("k".to_string(), metadata_value_of_json(&given));
        assert_eq!(row.key, "k");
        assert_eq!(row_json_value(&row), shown);
    }
    let row = metadata_row("n".to_string(), MetadataValue::Int(-3));
    assert_eq!((row.value_text, row.value_int, row.value_number, row.value_bool), (None, Some(-3), None, None));
}
