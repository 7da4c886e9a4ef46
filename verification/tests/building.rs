use identity_search::builder::{
    build_query, BuildError, Combinator, IndexQuery, LeafQuery,
};
use identity_search::fields::FieldName;
use identity_search::orchestrate::{plan_search, should_dedupe, SearchPlan, MAX_RESULTS};
use identity_search::parse::parse;

#[test]
fn single_identity_clause_is_exact_term() {
    let pq = parse("master_id:AB 12").unwrap();
    match build_query(&pq).unwrap() {
        IndexQuery::Leaf(LeafQuery::ExactTerm { field, term }) => {
            assert_eq!(field, FieldName::MasterId);
            assert_eq!(term, "ab12");
        },
        other => panic!("expected an exact term, got {:?}", other),
    }
}

#[test]
fn single_text_clause_is_token_conjunction() {
    let pq = parse("name:John  Smith").unwrap();
    match build_query(&pq).unwrap() {
        IndexQuery::Leaf(LeafQuery::TokenConjunction { field, tokens }) => {
            assert_eq!(field, FieldName::Name);
            assert_eq!(tokens, vec!["john".to_string(), "smith".to_string()]);
        },
        other => panic!("expected a token conjunction, got {:?}", other),
    }
}

#[test]
fn and_or_become_must_should() {
    let pq = parse("mobile:1 AND alt:2 OR master_id:3").unwrap();
    match build_query(&pq).unwrap() {
        IndexQuery::Boolean(children) => {
            assert_eq!(children.len(), 3);
            assert_eq!(children[0].combinator, Combinator::Must);
            assert_eq!(children[1].combinator, Combinator::Must);
            assert_eq!(children[2].combinator, Combinator::Should);
        },
        other => panic!("expected a boolean combination, got {:?}", other),
    }
}

#[test]
fn empty_clause_list_is_no_clauses() {
    let pq = identity_search::parse::ParsedQuery { clauses: Vec::new(), ops: Vec::new() };
    assert!(matches!(build_query(&pq), Err(BuildError::NoClauses)));
}

#[test]
fn blank_text_value_is_empty_value() {
    let pq = parse("name: AND mobile:1").unwrap();
    assert!(matches!(build_query(&pq), Err(BuildError::EmptyValue)));
}

#[test]
fn blank_identity_value_builds() {
    let pq = parse("master_id: AND mobile:1").unwrap();
    assert!(build_query(&pq).is_ok());
}

#[test]
fn single_mobile_clause_plans_fanout() {
    let pq = parse("mobile:98 76").unwrap();
    match plan_search(&pq).unwrap() {
        SearchPlan::MobileFanout { value } => assert_eq!(value, "9876"),
        other => panic!("expected the fan-out path, got {:?}", other),
    }
}

#[test]
fn other_queries_plan_direct() {
    let pq = parse("alt:9876").unwrap();
    assert!(matches!(plan_search(&pq).unwrap(), SearchPlan::Direct { .. }));
    let pq = parse("mobile:1 AND name:x").unwrap();
    assert!(matches!(plan_search(&pq).unwrap(), SearchPlan::Direct { .. }));
}

#[test]
fn single_identity_lookup_keeps_duplicates() {
    assert!(!should_dedupe(&parse("mobile:1").unwrap()));
    assert!(!should_dedupe(&parse("master_id:7").unwrap()));
    assert!(!should_dedupe(&parse("alt:5").unwrap()));
}

#[test]
fn text_and_multi_clause_queries_dedupe() {
    assert!(should_dedupe(&parse("name:x").unwrap()));
    assert!(should_dedupe(&parse("name:x AND fname:y").unwrap()));
    assert!(should_dedupe(&parse("mobile:1 AND alt:2").unwrap()));
}

#[test]
fn result_cap_is_ten_thousand() {
    assert_eq!(MAX_RESULTS, 10000);
}
