use quickwit_query::literal::{Bound, JsonLiteral};
use quickwit_query::parse_user_query;
use quickwit_query::query_ast::{self, BoolQuery, DefaultOperator, NotNaNf32, QueryAst, UserTextQuery};
use quickwit_query::user_input::UserQueryError;

fn fields(names: &[&str]) -> Vec<String> {
    names.iter().map(|s| s.to_string()).collect()
}

#[test]
fn default_operator_decides_occurrence() {
    let q = parse_user_query("a:x b:y", &Vec::new(), DefaultOperator::And).unwrap();
    match q {
        QueryAst::Bool(b) => assert!(b.must.len() == 2 && b.should.is_empty()),
        other => panic!("{other:?}"),
    }
    let q = parse_user_query("a:x b:y", &Vec::new(), DefaultOperator::Or).unwrap();
    match q {
        QueryAst::Bool(b) => assert!(b.should.len() == 2 && b.must.is_empty()),
        other => panic!("{other:?}"),
    }
    let q = parse_user_query("+a:x -b:y", &Vec::new(), DefaultOperator::Or).unwrap();
    match q {
        QueryAst::Bool(b) => assert!(b.must.len() == 1 && b.must_not.len() == 1),
        other => panic!("{other:?}"),
    }
}

#[test]
fn bare_words_search_default_fields() {
    let q = parse_user_query("hello", &fields(&["title"]), DefaultOperator::Or).unwrap();
    assert!(matches!(q, QueryAst::Term(t) if t.field == "title" && t.value == "hello"));
    let q = parse_user_query("hello", &fields(&["title", "desc"]), DefaultOperator::Or).unwrap();
    match q {
        QueryAst::Bool(b) => assert_eq!(b.should.len(), 2),
        other => panic!("{other:?}"),
    }
    let q = parse_user_query("\"hello world\"~2", &fields(&["title"]), DefaultOperator::Or).unwrap();
    assert!(matches!(q, QueryAst::Phrase(p) if p.slop == 2 && p.phrase == "hello world"));
}

#[test]
fn errors_of_free_text() {
    assert_eq!(parse_user_query("foo", &Vec::new(), DefaultOperator::And).unwrap_err(), UserQueryError::NoDefaultField);
    assert_eq!(parse_user_query("IN [a b]", &fields(&["title"]), DefaultOperator::And).unwrap_err(), UserQueryError::UnsupportedSetQuery);
    assert_eq!(parse_user_query("[1 TO 2]", &fields(&["a", "b"]), DefaultOperator::And).unwrap_err(), UserQueryError::AmbiguousRangeField);
    assert_eq!(parse_user_query("(a:b", &Vec::new(), DefaultOperator::And).unwrap_err(), UserQueryError::SyntaxError);
}

#[test]
fn ranges_and_sets() {
    let q = parse_user_query("[1 TO 2}", &fields(&["n"]), DefaultOperator::And).unwrap();
    match q {
        QueryAst::Range(r) => {
            assert_eq!(r.field, "n");
            assert!(matches!(r.lower_bound, Bound::Included(JsonLiteral::String(s)) if s == "1"));
            assert!(matches!(r.upper_bound, Bound::Excluded(JsonLiteral::String(s)) if s == "2"));
        }
        other => panic!("{other:?}"),
    }
    let q = parse_user_query("tag: IN [a b]", &Vec::new(), DefaultOperator::And).unwrap();
    match q {
        QueryAst::TermSet(t) => {
            assert_eq!(t.terms_per_field.len(), 1);
            assert_eq!(t.terms_per_field[0].0, "tag");
            assert_eq!(t.terms_per_field[0].1, fields(&["a", "b"]));
        }
        other => panic!("{other:?}"),
    }
}

#[test]
fn boost_is_carried() {
    let q = parse_user_query("a:x^2", &Vec::new(), DefaultOperator::And).unwrap();
    match q {
        QueryAst::Boost { boost, .. } => assert_eq!(boost.bits(), 2.0f32.to_bits()),
        other => panic!("{other:?}"),
    }
}

#[test]
fn user_text_uses_own_fields_first() {
    let u = UserTextQuery {
        user_text: "hello".to_string(),
        default_fields: Some(fields(&["desc"])),
        default_operator: DefaultOperator::And,
    };
    let q = u.parse_user_query(&fields(&["title"])).unwrap();
    assert!(matches!(q, QueryAst::Term(t) if t.field == "desc"));
    let u = UserTextQuery { user_text: "hello".to_string(), default_fields: None, default_operator: DefaultOperator::And };
    let q = u.parse_user_query(&fields(&["title"])).unwrap();
    assert!(matches!(q, QueryAst::Term(t) if t.field == "title"));
}

#[test]
fn nested_user_text_is_rewritten() {
    let inner = QueryAst::UserText(UserTextQuery {
        user_text: "hello".to_string(),
        default_fields: None,
        default_operator: DefaultOperator::And,
    });
    let boosted = QueryAst::Boost { underlying: Box::new(inner), boost: NotNaNf32::from_bits(3.0f32.to_bits()).unwrap() };
    let tree = QueryAst::Bool(BoolQuery { must: vec![boosted], must_not: Vec::new(), should: vec![QueryAst::MatchAll], filter: Vec::new() });
    let q = query_ast::parse_user_query(tree, &fields(&["title"])).unwrap();
    let shown = format!("{q:?}");
    assert!(!shown.contains("UserText"), "{shown}");
    assert!(shown.contains("field: \"title\""), "{shown}");
    assert!(shown.contains("MatchAll"), "{shown}");
    let bare = QueryAst::UserText(UserTextQuery { user_text: "hello".to_string(), default_fields: None, default_operator: DefaultOperator::And });
    assert_eq!(query_ast::parse_user_query(bare, &Vec::new()).unwrap_err(), UserQueryError::NoDefaultField);
}
