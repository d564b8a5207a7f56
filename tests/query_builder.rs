use quickwit_query::compiled::{TantivyQueryAst, TypedValue};
use quickwit_query::errors::{InvalidQuery, ValueKind};
use quickwit_query::literal::Bound;
use quickwit_query::query_ast::{DefaultOperator, QueryAst, UserTextQuery};
use quickwit_query::query_builder::{build_query, plan_query, QueryParserError, WarmupInfo};
use quickwit_query::user_input::UserQueryError;
use quickwit_query::schema::{FieldEntry, FieldType, JsonObjectOptions, Schema, TextOptions};

fn text(tokenizer: &str) -> FieldType {
    FieldType::Str(TextOptions { tokenizer: Some(tokenizer.to_string()) })
}

fn field(name: &str, field_type: FieldType, fast: bool, stored: bool) -> FieldEntry {
    FieldEntry { name: name.to_string(), field_type, fast, stored, fieldnorms: true }
}

fn make_schema() -> Schema {
    let mut schema = Schema::new();
    assert!(schema.add_field(field("title", text("default"), false, false)));
    assert!(schema.add_field(field("desc", text("default"), false, true)));
    assert!(schema.add_field(field("server.name", text("default"), false, true)));
    assert!(schema.add_field(field("server.mem", text("default"), false, false)));
    assert!(schema.add_field(field("server.running", FieldType::Bool, true, true)));
    assert!(schema.add_field(field("_source", text("default"), false, false)));
    assert!(schema.add_field(field("ip", FieldType::IpAddr, true, true)));
    assert!(schema.add_field(field("ips", FieldType::IpAddr, true, false)));
    assert!(schema.add_field(field("ip_notff", FieldType::IpAddr, false, true)));
    assert!(schema.add_field(field("dt", FieldType::Date, true, false)));
    assert!(schema.add_field(field("u64_fast", FieldType::U64, true, true)));
    assert!(schema.add_field(field("i64_fast", FieldType::I64, true, true)));
    assert!(schema.add_field(field("f64_fast", FieldType::F64, true, true)));
    schema
}

fn with_dynamic(mut schema: Schema) -> Schema {
    let options = JsonObjectOptions { tokenizer: Some("default".to_string()), expand_dots: false };
    assert!(schema.add_field(field("_dynamic", FieldType::JsonObject(options), false, false)));
    schema
}

fn run(
    user_query: &str,
    search_fields: Vec<String>,
    schema: &Schema,
    with_validation: bool,
) -> Result<(TantivyQueryAst, WarmupInfo), String> {
    let ast = QueryAst::UserText(UserTextQuery {
        user_text: user_query.to_string(),
        default_fields: None,
        default_operator: DefaultOperator::And,
    });
    build_query(ast, schema, &search_fields, None, with_validation).map_err(|e| format!("{e:?}"))
}

fn check_ok(user_query: &str, search_fields: Vec<String>, expected: &str) -> TantivyQueryAst {
    match run(user_query, search_fields, &make_schema(), true) {
        Ok((query, _)) => {
            let shown = format!("{query:?}");
            assert!(shown.contains(expected), "{shown} should contain {expected}");
            query
        }
        Err(e) => panic!("{user_query} failed: {e}"),
    }
}

fn check_err(user_query: &str, search_fields: Vec<String>, expected: &str) {
    match run(user_query, search_fields, &make_schema(), true) {
        Ok((query, _)) => panic!("{user_query} compiled to {query:?}"),
        Err(e) => assert!(e.contains(expected), "{e} should contain {expected}"),
    }
}

fn range_of(query: &TantivyQueryAst) -> (&Bound<TypedValue>, &Bound<TypedValue>) {
    match query {
        TantivyQueryAst::Range(r) => (&r.lower_bound, &r.upper_bound),
        other => panic!("not a range: {other:?}"),
    }
}

const IP_127_0_0_1: u128 = 0xffff_7f00_0001;
const IP_127_1_1_1: u128 = 0xffff_7f01_0101;

#[test]
fn test_build_query() {
    check_ok("*", Vec::new(), "MatchAll");
    check_err("foo:bar", Vec::new(), "FieldDoesNotExist { full_path: \"foo\" }");
    check_err(
        "server.type:hpc server.mem:4GB",
        Vec::new(),
        "FieldDoesNotExist { full_path: \"server.type\" }",
    );
    check_err("title:[a TO b]", Vec::new(), "SchemaError { field_name: \"title\" }");
    check_err("title:{a TO b} desc:foo", Vec::new(), "SchemaError { field_name: \"title\" }");
    check_err("title:>foo", Vec::new(), "SchemaError { field_name: \"title\" }");
    check_ok("title:foo desc:bar _source:baz", Vec::new(), "Term(");
    check_err(
        "title:foo desc:bar",
        vec!["url".to_string()],
        "FieldDoesNotExist { full_path: \"url\" }",
    );
    check_ok("server.name:\".bar:\" server.mem:4GB", vec!["server.name".to_string()], "Term(");
    check_ok("server.name:\"for.bar:b\" server.mem:4GB", Vec::new(), "Term(");
    check_err("foo", Vec::new(), "NoDefaultField");
    check_err("bar", Vec::new(), "NoDefaultField");
    check_err("title:hello AND (Jane OR desc:world)", Vec::new(), "NoDefaultField");
    check_ok("server.running:true", Vec::new(), "Term(");
    check_ok("title: IN [hello]", Vec::new(), "TermSet(");
    check_err("IN [hello]", Vec::new(), "UnsupportedSetQuery");
}

#[test]
fn test_datetime_range_query() {
    let q = check_ok(
        "dt:[2023-01-10T15:13:35Z TO 2023-01-10T15:13:40Z]",
        Vec::new(),
        "field: \"dt\", value_type: Date",
    );
    let (lower, upper) = range_of(&q);
    assert!(matches!(lower, Bound::Included(TypedValue::Date(1_673_363_615_000_000_000))));
    assert!(matches!(upper, Bound::Included(TypedValue::Date(1_673_363_620_000_000_000))));
    let q = check_ok("dt:<2023-01-10T15:13:35Z", Vec::new(), "field: \"dt\", value_type: Date");
    let (lower, upper) = range_of(&q);
    assert!(matches!(lower, Bound::Unbounded));
    assert!(matches!(upper, Bound::Excluded(TypedValue::Date(1_673_363_615_000_000_000))));
}

#[test]
fn test_ip_range_query() {
    let q = check_ok("ip:[127.0.0.1 TO 127.1.1.1]", Vec::new(), "field: \"ip\", value_type: IpAddr");
    let (lower, upper) = range_of(&q);
    assert!(matches!(lower, Bound::Included(TypedValue::IpAddr(IP_127_0_0_1))));
    assert!(matches!(upper, Bound::Included(TypedValue::IpAddr(IP_127_1_1_1))));
    let q = check_ok("ip:>127.0.0.1", Vec::new(), "field: \"ip\", value_type: IpAddr");
    let (lower, upper) = range_of(&q);
    assert!(matches!(lower, Bound::Excluded(TypedValue::IpAddr(IP_127_0_0_1))));
    assert!(matches!(upper, Bound::Unbounded));
}

#[test]
fn test_f64_range_query() {
    let q = check_ok("f64_fast:[7.7 TO 77.7]", Vec::new(), "field: \"f64_fast\", value_type: F64");
    let (lower, upper) = range_of(&q);
    let low = tantivy::f64_to_u64(7.7);
    let high = tantivy::f64_to_u64(77.7);
    assert!(matches!(lower, Bound::Included(TypedValue::F64(v)) if *v == low));
    assert!(matches!(upper, Bound::Included(TypedValue::F64(v)) if *v == high));
    let q = check_ok("f64_fast:>7", Vec::new(), "field: \"f64_fast\", value_type: F64");
    let (lower, _) = range_of(&q);
    let seven = tantivy::f64_to_u64(7.0);
    assert!(matches!(lower, Bound::Excluded(TypedValue::F64(v)) if *v == seven));
}

#[test]
fn test_i64_range_query() {
    let q = check_ok("i64_fast:[-7 TO 77]", Vec::new(), "field: \"i64_fast\", value_type: I64");
    let (lower, upper) = range_of(&q);
    assert!(matches!(lower, Bound::Included(TypedValue::I64(-7))));
    assert!(matches!(upper, Bound::Included(TypedValue::I64(77))));
    check_ok("i64_fast:>7", Vec::new(), "field: \"i64_fast\", value_type: I64");
}

#[test]
fn test_u64_range_query() {
    let q = check_ok("u64_fast:[7 TO 77]", Vec::new(), "field: \"u64_fast\", value_type: U64");
    let (lower, upper) = range_of(&q);
    assert!(matches!(lower, Bound::Included(TypedValue::U64(7))));
    assert!(matches!(upper, Bound::Included(TypedValue::U64(77))));
    check_ok("u64_fast:>7", Vec::new(), "field: \"u64_fast\", value_type: U64");
}

#[test]
fn test_range_query_ip_fields_multivalued() {
    let q = check_ok("ips:[127.0.0.1 TO 127.1.1.1]", Vec::new(), "field: \"ips\", value_type: IpAddr");
    let (lower, upper) = range_of(&q);
    assert!(matches!(lower, Bound::Included(TypedValue::IpAddr(IP_127_0_0_1))));
    assert!(matches!(upper, Bound::Included(TypedValue::IpAddr(IP_127_1_1_1))));
}

#[test]
fn test_range_query_no_fast_field() {
    check_err("ip_notff:[127.0.0.1 TO 127.1.1.1]", Vec::new(), "SchemaError { field_name: \"ip_notff\" }");
}

#[test]
fn test_build_query_not_bool_should_fail() {
    check_err("server.running:not a bool", vec!["title".to_string()], "InvalidSearchTerm { expected_value_type: Bool, field_name: \"server.running\", value: \"not\" }");
}

#[test]
fn test_build_query_warmup_info() {
    let (_, warmup_info) = run("title: IN [hello]", Vec::new(), &make_schema(), true).unwrap();
    assert_eq!(warmup_info.term_dict_field_names, vec!["title".to_string()]);
    assert_eq!(warmup_info.posting_field_names, vec!["title".to_string()]);
    let (_, warmup_info) = run("title:hello", Vec::new(), &make_schema(), true).unwrap();
    assert!(warmup_info.term_dict_field_names.is_empty());
    assert!(warmup_info.posting_field_names.is_empty());
}

#[test]
fn scenario_match_all_has_empty_warmup() {
    let (query, w) = run("*", Vec::new(), &make_schema(), true).unwrap();
    assert!(matches!(query, TantivyQueryAst::MatchAll));
    assert!(w.fast_field_names.is_empty());
    assert!(w.term_dict_field_names.is_empty());
    assert!(w.posting_field_names.is_empty());
    assert!(w.terms_grouped_by_field.is_empty());
}

#[test]
fn scenario_date_range_plans_fast_field() {
    let (_, w) = run("dt:[2023-01-10T15:13:35Z TO 2023-01-10T15:13:40Z]", Vec::new(), &make_schema(), true)
        .unwrap();
    assert_eq!(w.fast_field_names, vec!["dt".to_string()]);
}

#[test]
fn dynamic_field_takes_unmapped_paths() {
    let schema = with_dynamic(make_schema());
    let (query, _) = run("foo:bar", Vec::new(), &schema, true).unwrap();
    let shown = format!("{query:?}");
    assert!(shown.contains("json_path: Some(\"foo\")"), "{shown}");
    assert!(shown.contains("Str(\"bar\")"), "{shown}");
}

#[test]
fn lenient_mode_turns_failures_into_match_none() {
    let (query, w) = run("title:[a TO b]", Vec::new(), &make_schema(), false).unwrap();
    assert!(matches!(query, TantivyQueryAst::MatchNone));
    assert_eq!(w.fast_field_names, vec!["title".to_string()]);
    let strict = run("title:[a TO b]", Vec::new(), &make_schema(), true);
    assert!(strict.unwrap_err().contains("SchemaError"));
}

#[test]
fn lenient_mode_keeps_siblings() {
    let (query, _) = run("u64_fast:abc OR title:hello", Vec::new(), &make_schema(), false).unwrap();
    let shown = format!("{query:?}");
    assert!(shown.contains("Str(\"hello\")"), "{shown}");
    let strict = run("u64_fast:abc OR title:hello", Vec::new(), &make_schema(), true).unwrap_err();
    assert!(strict.contains("InvalidSearchTerm { expected_value_type: U64"), "{strict}");
}

#[test]
fn strict_and_lenient_agree_on_valid_queries() {
    let a = run("title:hello desc:world u64_fast:[1 TO 5]", Vec::new(), &make_schema(), true).unwrap();
    let b = run("title:hello desc:world u64_fast:[1 TO 5]", Vec::new(), &make_schema(), false).unwrap();
    assert_eq!(format!("{:?}", a.0), format!("{:?}", b.0));
}

#[test]
fn compiling_twice_gives_the_same_query() {
    let a = run("title:\"hello world\" ip:127.0.0.1", Vec::new(), &make_schema(), true).unwrap();
    let b = run("title:\"hello world\" ip:127.0.0.1", Vec::new(), &make_schema(), true).unwrap();
    assert_eq!(format!("{:?}", a.0), format!("{:?}", b.0));
    assert_eq!(format!("{:?}", a.1), format!("{:?}", b.1));
}

#[test]
fn analyzed_text_is_lowercased_and_split() {
    let (query, w) = run("title:\"Hello World\"", Vec::new(), &make_schema(), true).unwrap();
    let shown = format!("{query:?}");
    assert!(shown.contains("Phrase"), "{shown}");
    assert!(shown.contains("Str(\"hello\")") && shown.contains("Str(\"world\")"), "{shown}");
    assert_eq!(w.terms_grouped_by_field.len(), 1);
    assert_eq!(w.terms_grouped_by_field[0].1.len(), 2);
    assert!(w.terms_grouped_by_field[0].1.iter().all(|(_, needs)| *needs));
}

#[test]
fn position_need_is_or_of_occurrences() {
    let (_, w) = run("title:hello title:\"hello world\"", Vec::new(), &make_schema(), true).unwrap();
    assert_eq!(w.terms_grouped_by_field.len(), 1);
    let group = &w.terms_grouped_by_field[0].1;
    assert_eq!(group.len(), 2);
    assert!(group.iter().all(|(_, needs)| *needs));
    let (_, w) = run("title:hello title:hello", Vec::new(), &make_schema(), true).unwrap();
    assert_eq!(w.terms_grouped_by_field[0].1.len(), 1);
    assert!(!w.terms_grouped_by_field[0].1[0].1);
}

#[test]
fn sort_field_is_validated() {
    let schema = make_schema();
    let none: Vec<String> = Vec::new();
    assert!(build_query(QueryAst::MatchAll, &schema, &none, Some("_score"), true).is_ok());
    assert!(build_query(QueryAst::MatchAll, &schema, &none, Some("u64_fast"), true).is_ok());
    assert!(matches!(
        build_query(QueryAst::MatchAll, &schema, &none, Some("nope"), true),
        Err(QueryParserError::UnknownSortField { .. })
    ));
    assert!(matches!(
        build_query(QueryAst::MatchAll, &schema, &none, Some("title"), true),
        Err(QueryParserError::SortOnTextField { .. })
    ));
    assert!(matches!(
        build_query(QueryAst::MatchAll, &schema, &none, Some("ip_notff"), true),
        Err(QueryParserError::SortOnNonFastField { .. })
    ));
}

#[test]
fn unparsed_text_cannot_be_compiled() {
    let ast = QueryAst::UserText(UserTextQuery {
        user_text: "title:hello".to_string(),
        default_fields: None,
        default_operator: DefaultOperator::Or,
    });
    let r = plan_query(&ast, &make_schema(), None, true);
    assert!(matches!(r, Err(QueryParserError::InvalidQuery(InvalidQuery::UserQueryNotParsed))));
}

#[test]
fn invalid_boundary_names_type_and_field() {
    let r = run("u64_fast:[a TO 5]", Vec::new(), &make_schema(), true).unwrap_err();
    assert!(r.contains("InvalidBoundary { expected_value_type: U64, field_name: \"u64_fast\" }"), "{r}");
    let _ = ValueKind::U64;
}

#[test]
fn bool_range_is_not_supported() {
    let r = run("server.running:[false TO true]", Vec::new(), &make_schema(), true).unwrap_err();
    assert!(r.contains("RangeQueryNotSupportedForField { value_type: Bool"), "{r}");
}

#[test]
fn json_field_searches_typed_value_and_text() {
    let schema = with_dynamic(make_schema());
    let (query, _) = run("attr:42", Vec::new(), &schema, true).unwrap();
    let shown = format!("{query:?}");
    assert!(shown.contains("I64(42)"), "{shown}");
    assert!(shown.contains("Str(\"42\")"), "{shown}");
    let (query, _) = run("attr:\"Hello World\"", Vec::new(), &schema, true).unwrap();
    let shown = format!("{query:?}");
    assert!(shown.contains("Phrase"), "{shown}");
    assert!(shown.contains("Str(\"hello\")"), "{shown}");
}

#[test]
fn term_set_on_numbers_reads_values() {
    let (query, w) = run("u64_fast: IN [1 2 3]", Vec::new(), &make_schema(), true).unwrap();
    match query {
        TantivyQueryAst::TermSet(terms) => {
            let mut values: Vec<u64> = terms
                .iter()
                .map(|t| match t.value {
                    TypedValue::U64(v) => v,
                    _ => panic!("not a u64 term"),
                })
                .collect();
            values.sort();
            assert_eq!(values, vec![1, 2, 3]);
        }
        other => panic!("{other:?}"),
    }
    assert_eq!(w.term_dict_field_names, vec!["u64_fast".to_string()]);
    let err = run("u64_fast: IN [1 x]", Vec::new(), &make_schema(), true).unwrap_err();
    assert!(err.contains("InvalidSearchTerm"), "{err}");
}

#[test]
fn score_validation_needs_field_norms() {
    let mut schema = make_schema();
    let entry = FieldEntry {
        name: "raw".to_string(),
        field_type: text("raw"),
        fast: false,
        stored: false,
        fieldnorms: false,
    };
    assert!(schema.add_field(entry));
    let last = schema.fields.len() - 1;
    assert!(quickwit_query::query_builder::validate_sort_by_score(&schema, None).is_ok());
    assert!(quickwit_query::query_builder::validate_sort_by_score(&schema, Some(&vec![0, 1])).is_ok());
    let r = quickwit_query::query_builder::validate_sort_by_score(&schema, Some(&vec![0, last]));
    assert!(matches!(r, Err(QueryParserError::MissingFieldNorms { field_name }) if field_name == "raw"));
}

#[test]
fn boosted_query_keeps_factor() {
    let (query, _) = run("title:hello^3", Vec::new(), &make_schema(), true).unwrap();
    match query {
        TantivyQueryAst::Boost { boost, underlying } => {
            assert_eq!(boost.bits(), 3.0f32.to_bits());
            assert!(matches!(*underlying, TantivyQueryAst::Term(_)));
        }
        other => panic!("{other:?}"),
    }
}

#[test]
fn nested_combinations_are_flattened() {
    let (query, _) = run("title:a AND (desc:b AND title:c)", Vec::new(), &make_schema(), true).unwrap();
    match &query {
        TantivyQueryAst::Bool(b) => {
            assert_eq!(b.must.len(), 3, "{query:?}");
            assert!(b.must.iter().all(|q| matches!(q, TantivyQueryAst::Term(_))));
        }
        other => panic!("{other:?}"),
    }
    let (query, _) = run("title:a OR (desc:b OR title:c)", Vec::new(), &make_schema(), true).unwrap();
    match &query {
        TantivyQueryAst::Bool(b) => assert_eq!(b.should.len(), 3, "{query:?}"),
        other => panic!("{other:?}"),
    }
    let (query, _) = run("title:a AND (u64_fast:1 AND ip_notff:[1.1.1.1 TO 2.2.2.2])", Vec::new(), &make_schema(), false)
        .unwrap();
    assert!(matches!(query, TantivyQueryAst::MatchNone), "{query:?}");
}

#[test]
fn bare_text_fails_in_both_modes() {
    for with_validation in [true, false] {
        let err = run("foo", Vec::new(), &make_schema(), with_validation).unwrap_err();
        assert_eq!(err, format!("{:?}", QueryParserError::UserQuery(UserQueryError::NoDefaultField)));
        let err = run("title:hello AND (Jane OR desc:world)", Vec::new(), &make_schema(), with_validation)
            .unwrap_err();
        assert!(err.contains("NoDefaultField"), "{err}");
    }
}

#[test]
fn json_text_without_token_keeps_typed_value() {
    let schema = with_dynamic(make_schema());
    // Forty-two digits: a float, and a single token longer than the
    // analyzer keeps.
    let digits = format!("1{}", "0".repeat(41));
    let (query, _) = run(&format!("attr:{digits}"), Vec::new(), &schema, true).unwrap();
    let key = tantivy::f64_to_u64(1e41);
    let shown = format!("{query:?}");
    assert!(shown.contains(&format!("F64({key})")), "{shown}");
    assert!(!shown.contains("MatchNone"), "{shown}");
}

#[test]
fn match_all_plans_no_term_group() {
    let (_, w) = run("*", Vec::new(), &make_schema(), false).unwrap();
    assert!(w.terms_grouped_by_field.is_empty());
}

#[test]
fn score_validation_reports_first_field() {
    let mut schema = make_schema();
    for name in ["raw1", "raw2"] {
        let entry = FieldEntry {
            name: name.to_string(),
            field_type: text("raw"),
            fast: false,
            stored: false,
            fieldnorms: false,
        };
        assert!(schema.add_field(entry));
    }
    let n = schema.fields.len();
    let r = quickwit_query::query_builder::validate_sort_by_score(&schema, Some(&vec![0, n - 1, n - 2]));
    assert!(matches!(r, Err(QueryParserError::MissingFieldNorms { field_name }) if field_name == "raw2"));
}
