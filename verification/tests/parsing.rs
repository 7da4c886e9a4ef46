use identity_search::fields::FieldName;
use identity_search::parse::{parse, ParseError, ParsedQuery, QueryOp};

fn clauses_of(pq: &ParsedQuery) -> Vec<(FieldName, String)> {
    pq.clauses.iter().map(|c| (c.field, c.value.clone())).collect()
}

#[test]
fn two_clauses_one_operator() {
    let pq = parse("name:john AND mobile:123").unwrap();
    assert_eq!(
        clauses_of(&pq),
        vec![
            (FieldName::Name, "john".to_string()),
            (FieldName::Mobile, "123".to_string()),
        ]
    );
    assert_eq!(pq.ops.len(), 1);
    assert!(matches!(pq.ops[0], QueryOp::And));
}

#[test]
fn comma_is_sugar_for_and() {
    let a = parse("mobile:123,alt:456").unwrap();
    let b = parse("mobile:123 AND alt:456").unwrap();
    assert_eq!(clauses_of(&a), clauses_of(&b));
    assert_eq!(a.ops.len(), b.ops.len());
    for (x, y) in a.ops.iter().zip(b.ops.iter()) {
        assert_eq!(x, y);
    }
}

#[test]
fn unknown_field_is_invalid_clause() {
    match parse("foo:bar") {
        Err(ParseError::InvalidClause(text)) => assert_eq!(text, "foo:bar"),
        other => panic!("expected InvalidClause, got {:?}", other),
    }
}

#[test]
fn empty_query_is_rejected() {
    assert!(matches!(parse(""), Err(ParseError::EmptyQuery)));
    assert!(matches!(parse("   \t  "), Err(ParseError::EmptyQuery)));
}

#[test]
fn operators_only_is_empty_query() {
    assert!(matches!(parse("AND OR AND"), Err(ParseError::EmptyQuery)));
}

#[test]
fn clause_without_colon_is_invalid() {
    assert!(matches!(parse("justsomeword"), Err(ParseError::InvalidClause(_))));
}

#[test]
fn ops_count_one_less_than_clauses() {
    for q in [
        "mobile:1",
        "mobile:1 AND alt:2",
        "mobile:1 OR alt:2 AND name:x",
        "mobile:1,alt:2,master_id:3",
    ] {
        let pq = parse(q).unwrap();
        assert!(pq.clauses.len() > 0);
        assert_eq!(pq.ops.len(), pq.clauses.len() - 1);
    }
}

#[test]
fn operators_are_case_insensitive() {
    let pq = parse("name:a or fname:b").unwrap();
    assert_eq!(pq.clauses.len(), 2);
    assert!(matches!(pq.ops[0], QueryOp::Or));
    let pq = parse("name:a And fname:b").unwrap();
    assert!(matches!(pq.ops[0], QueryOp::And));
}

#[test]
fn field_name_is_trimmed_and_lowercased() {
    let pq = parse("  NAME : john  ").unwrap();
    assert_eq!(pq.clauses.len(), 1);
    assert_eq!(pq.clauses[0].field, FieldName::Name);
    assert_eq!(pq.clauses[0].value, "john");
}

#[test]
fn multi_word_value_joins_with_single_spaces() {
    let pq = parse("address:12   main    street").unwrap();
    assert_eq!(pq.clauses.len(), 1);
    assert_eq!(pq.clauses[0].value, "12 main street");
}

#[test]
fn value_keeps_raw_case_until_normalization() {
    let pq = parse("name:John").unwrap();
    assert_eq!(pq.clauses[0].value, "John");
}

#[test]
fn trailing_operator_is_ignored() {
    let pq = parse("mobile:1 AND").unwrap();
    assert_eq!(pq.clauses.len(), 1);
    assert_eq!(pq.ops.len(), 0);
}

#[test]
fn leading_operator_is_ignored() {
    let pq = parse("AND mobile:1 AND alt:2").unwrap();
    assert_eq!(pq.clauses.len(), 2);
    assert_eq!(pq.ops.len(), 1);
}

#[test]
fn unicode_whitespace_separates_tokens() {
    let pq = parse(" name\u{a0}: x").unwrap();
    assert_eq!(pq.clauses.len(), 1);
    assert_eq!(pq.clauses[0].field, FieldName::Name);
    assert_eq!(pq.clauses[0].value, "x");
}

#[test]
fn value_may_contain_colon() {
    let pq = parse("email:a:b@c.d").unwrap();
    assert_eq!(pq.clauses[0].field, FieldName::Email);
    assert_eq!(pq.clauses[0].value, "a:b@c.d");
}
