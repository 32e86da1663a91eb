use ctm::json::{
    json_number, push_list, push_number, push_object, push_text, JsonBlock, JsonContent,
    JsonDocument, JsonField, JsonScalar,
};
use serde_json::Value;

#[test]
fn numbers_beyond_sixty_four_bits_become_texts() {
    assert_eq!(json_number(0), JsonScalar::Int(0));
    assert_eq!(json_number(-5), JsonScalar::Int(-5));
    assert_eq!(json_number(i64::MAX as i128), JsonScalar::Int(i64::MAX));
    assert_eq!(json_number(i64::MIN as i128), JsonScalar::Int(i64::MIN));
    assert_eq!(
        json_number(i64::MAX as i128 + 1),
        JsonScalar::Text("9223372036854775808".to_string())
    );
    assert_eq!(
        json_number(i64::MIN as i128 - 1),
        JsonScalar::Text("-9223372036854775809".to_string())
    );
}

#[test]
fn fields_and_blocks_are_appended_in_order() {
    let mut fields = Vec::new();
    push_number(&mut fields, "n", 3);
    push_text(&mut fields, "t", "x");
    assert_eq!(
        fields,
        vec![
            JsonField { key: "n".to_string(), value: JsonScalar::Int(3) },
            JsonField { key: "t".to_string(), value: JsonScalar::Text("x".to_string()) },
        ]
    );
    let mut blocks = Vec::new();
    push_object(&mut blocks, "o", fields.clone());
    push_list(&mut blocks, "l", vec![fields.clone(), vec![]]);
    assert_eq!(
        blocks,
        vec![
            JsonBlock { key: "o".to_string(), content: JsonContent::Object(fields.clone()) },
            JsonBlock { key: "l".to_string(), content: JsonContent::List(vec![fields, vec![]]) },
        ]
    );
}

#[test]
fn document_is_written_as_serde_json_writes_it() {
    let mut fields = Vec::new();
    push_number(&mut fields, "count", 2);
    push_text(&mut fields, "name", "a \"quoted\" name\n");
    let mut row = Vec::new();
    push_text(&mut row, "user", "ann");
    push_number(&mut row, "open", -1);
    let mut totals = Vec::new();
    push_number(&mut totals, "total", 1 << 80);
    let mut blocks = Vec::new();
    push_list(&mut blocks, "rows", vec![row, vec![]]);
    push_object(&mut blocks, "totals", totals);
    let doc = JsonDocument { fields, blocks };

    let mut first = serde_json::Map::new();
    first.insert("user".to_string(), Value::from("ann"));
    first.insert("open".to_string(), Value::from(-1));
    let mut sums = serde_json::Map::new();
    sums.insert("total".to_string(), Value::from("1208925819614629174706176"));
    let mut root = serde_json::Map::new();
    root.insert("count".to_string(), Value::from(2));
    root.insert("name".to_string(), Value::from("a \"quoted\" name\n"));
    root.insert(
        "rows".to_string(),
        Value::Array(vec![Value::Object(first), Value::Object(serde_json::Map::new())]),
    );
    root.insert("totals".to_string(), Value::Object(sums));
    let expected = serde_json::to_string_pretty(&Value::Object(root.clone())).unwrap();

    let text = doc.render();
    assert_eq!(text, expected);
    assert_eq!(serde_json::from_str::<Value>(&text).unwrap(), Value::Object(root));
    assert!(text.starts_with("{\n  \"count\": 2,\n"));
}

#[test]
fn empty_document_is_an_empty_object() {
    let doc = JsonDocument { fields: vec![], blocks: vec![] };
    assert_eq!(doc.render(), "{}");
    let mut blocks = Vec::new();
    push_list(&mut blocks, "rows", vec![]);
    push_object(&mut blocks, "totals", vec![]);
    let doc = JsonDocument { fields: vec![], blocks };
    assert_eq!(doc.render(), "{\n  \"rows\": [],\n  \"totals\": {}\n}");
}

#[test]
fn a_later_key_replaces_an_earlier_one() {
    let mut fields = Vec::new();
    push_number(&mut fields, "k", 1);
    push_number(&mut fields, "k", 2);
    let mut blocks = Vec::new();
    push_object(&mut blocks, "k", vec![]);
    let doc = JsonDocument { fields: fields.clone(), blocks };
    assert_eq!(doc.render(), "{\n  \"k\": {}\n}");
    let doc = JsonDocument { fields, blocks: vec![] };
    assert_eq!(doc.render(), "{\n  \"k\": 2\n}");
}
