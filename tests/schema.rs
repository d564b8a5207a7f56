use quickwit_query::errors::InvalidQuery;
use quickwit_query::schema::{
    find_field_or_hit_dynamic, locate_splitting_dots, FieldEntry, FieldType, JsonObjectOptions,
    Schema, TextOptions,
};

fn entry(name: &str, field_type: FieldType) -> FieldEntry {
    FieldEntry { name: name.to_string(), field_type, fast: false, stored: false, fieldnorms: true }
}

fn json() -> FieldType {
    FieldType::JsonObject(JsonObjectOptions { tokenizer: None, expand_dots: false })
}

fn catalog() -> Schema {
    let mut schema = Schema::new();
    assert!(schema.add_field(entry("title", FieldType::Str(TextOptions { tokenizer: None }))));
    assert!(schema.add_field(entry("attrs", json())));
    assert!(schema.add_field(entry("attrs.color", FieldType::U64)));
    schema
}

#[test]
fn duplicate_names_are_refused() {
    let mut schema = catalog();
    assert!(!schema.add_field(entry("title", FieldType::U64)));
    assert_eq!(schema.fields.len(), 3);
    assert_eq!(schema.get_field("attrs"), Some(1));
    assert_eq!(schema.get_field("nope"), None);
}

#[test]
fn splitting_dots_skip_escaped_ones() {
    assert_eq!(locate_splitting_dots("a.b\\.c.d"), vec![1, 6]);
    assert_eq!(locate_splitting_dots("a\\\\.b"), vec![3]);
    assert!(locate_splitting_dots("abc").is_empty());
}

#[test]
fn longest_prefix_wins() {
    let schema = catalog();
    assert_eq!(schema.find_field("attrs.color"), Some((2, "")));
    assert_eq!(schema.find_field("attrs.color.dark"), Some((2, "dark")));
    assert_eq!(schema.find_field("attrs.size.big"), Some((1, "size.big")));
    assert_eq!(schema.find_field("attrs\\.size"), None);
    assert_eq!(schema.find_field("other.x"), None);
}

#[test]
fn resolution_errors() {
    let schema = catalog();
    let r = find_field_or_hit_dynamic("attrs", &schema);
    assert!(matches!(r, Err(InvalidQuery::JsonFieldRootNotSearchable { .. })));
    let r = find_field_or_hit_dynamic("title.sub", &schema);
    assert!(matches!(r, Err(InvalidQuery::FieldDoesNotExist { full_path }) if full_path == "title.sub"));
    let r = find_field_or_hit_dynamic("nope", &schema);
    assert!(matches!(r, Err(InvalidQuery::FieldDoesNotExist { .. })));
    let (field, _, path) = find_field_or_hit_dynamic("attrs.size", &schema).unwrap();
    assert_eq!((field, path), (1, "size"));
}

#[test]
fn dynamic_field_takes_the_whole_path() {
    let mut schema = catalog();
    assert!(schema.add_field(entry("_dynamic", json())));
    let (field, _, path) = find_field_or_hit_dynamic("nope.deep", &schema).unwrap();
    assert_eq!((field, path), (3, "nope.deep"));
}
