use identity_search::fields::FieldName;
use identity_search::parse::parse;
use identity_search::request::{build_query_string, RequestError, SearchRequest};

fn empty_request() -> SearchRequest {
    SearchRequest {
        name: None,
        fname: None,
        address: None,
        mobile: None,
        alt: None,
        master_id: None,
        email: None,
        filter: None,
    }
}

#[test]
fn fields_join_with_and_by_default() {
    let req = SearchRequest {
        name: Some("john".to_string()),
        mobile: Some("123".to_string()),
        ..empty_request()
    };
    assert_eq!(build_query_string(&req).unwrap(), "name:john AND mobile:123");
}

#[test]
fn or_filter_joins_with_or() {
    let req = SearchRequest {
        mobile: Some("123".to_string()),
        alt: Some("456".to_string()),
        filter: Some("or".to_string()),
        ..empty_request()
    };
    assert_eq!(build_query_string(&req).unwrap(), "mobile:123 OR alt:456");
}

#[test]
fn unknown_filter_falls_back_to_and() {
    let req = SearchRequest {
        mobile: Some("1".to_string()),
        alt: Some("2".to_string()),
        filter: Some("XOR".to_string()),
        ..empty_request()
    };
    assert_eq!(build_query_string(&req).unwrap(), "mobile:1 AND alt:2");
}

#[test]
fn blank_fields_contribute_nothing() {
    let req = SearchRequest {
        name: Some("   ".to_string()),
        mobile: Some(" 123 ".to_string()),
        ..empty_request()
    };
    assert_eq!(build_query_string(&req).unwrap(), "mobile:123");
}

#[test]
fn empty_request_is_rejected() {
    assert_eq!(build_query_string(&empty_request()), Err(RequestError::NoFields));
    let req = SearchRequest { name: Some("  ".to_string()), ..empty_request() };
    assert_eq!(build_query_string(&req), Err(RequestError::NoFields));
}

#[test]
fn built_string_parses_back() {
    let req = SearchRequest {
        name: Some("John Smith".to_string()),
        master_id: Some("AB12".to_string()),
        ..empty_request()
    };
    let q = build_query_string(&req).unwrap();
    let pq = parse(q.as_str()).unwrap();
    assert_eq!(pq.clauses.len(), 2);
    assert_eq!(pq.clauses[0].field, FieldName::Name);
    assert_eq!(pq.clauses[0].value, "John Smith");
    assert_eq!(pq.clauses[1].field, FieldName::MasterId);
    assert_eq!(pq.clauses[1].value, "AB12");
}
