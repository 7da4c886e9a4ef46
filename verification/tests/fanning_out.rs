use identity_search::builder::{IndexQuery, LeafQuery, Combinator};
use identity_search::fanout::{
    collect_master_ids, exact_matches, hop0_query, hop1_query, hop2_query, mobile_fanout,
};
use identity_search::fields::FieldName;
use identity_search::orchestrate::dedupe_by_master_id;
use identity_search::record::Record;

fn record(master_id: &str, mobile: &str, alt: &str) -> Record {
    Record {
        master_id: master_id.to_string(),
        mobile: mobile.to_string(),
        alt: alt.to_string(),
        name: String::new(),
        fname: String::new(),
        address: String::new(),
        email: String::new(),
    }
}

#[test]
fn fanout_reaches_master_id_and_alt_hops() {
    // R1 carries the probe as mobile, R2 shares R1's master identifier,
    // R3 carries the probe as alt; nothing else holds the probe.
    let records = vec![
        record("M", "777", "111"),  // R1: hop 0
        record("M", "888", "222"),  // R2: hop 1 via master_id M
        record("N", "999", "777"),  // R3: hop 2 via alt
        record("Q", "555", "333"),  // unrelated
    ];
    let hits = mobile_fanout(&records, "777");
    assert_eq!(hits, vec![0, 1, 2]);
}

#[test]
fn fanout_contains_hop0_alone() {
    let records = vec![
        record("M", "777", ""),
        record("", "777", ""),
        record("N", "123", "777"),
    ];
    let hop0 = exact_matches(&records, FieldName::Mobile, "777");
    let all = mobile_fanout(&records, "777");
    for i in &hop0 {
        assert!(all.contains(i));
    }
    assert_eq!(hop0, vec![0, 1]);
}

#[test]
fn empty_probe_yields_nothing() {
    let records = vec![record("M", "", ""), record("", "", "")];
    assert_eq!(mobile_fanout(&records, ""), Vec::<usize>::new());
    assert_eq!(mobile_fanout(&records, "   "), Vec::<usize>::new());
}

#[test]
fn empty_master_ids_are_not_collected() {
    let docs = vec![
        record("  M ", "1", ""),
        record("", "2", ""),
        record("   ", "3", ""),
        record("M", "4", ""),
        record("N", "5", ""),
    ];
    let ids = collect_master_ids(&docs);
    assert_eq!(ids, vec!["M".to_string(), "N".to_string()]);
}

#[test]
fn hop_queries_follow_the_probe() {
    assert!(hop0_query("").is_none());
    assert!(hop0_query("  ").is_none());
    match hop0_query("777") {
        Some(IndexQuery::Leaf(LeafQuery::ExactTerm { field, term })) => {
            assert_eq!(field, FieldName::Mobile);
            assert_eq!(term, "777");
        },
        other => panic!("expected an exact mobile term, got {:?}", other),
    }
    match hop2_query("777") {
        Some(IndexQuery::Leaf(LeafQuery::ExactTerm { field, term })) => {
            assert_eq!(field, FieldName::Alt);
            assert_eq!(term, "777");
        },
        other => panic!("expected an exact alt term, got {:?}", other),
    }
}

#[test]
fn hop1_query_unions_identifiers() {
    assert!(hop1_query(&Vec::new()).is_none());
    match hop1_query(&vec!["M".to_string()]) {
        Some(IndexQuery::Leaf(LeafQuery::ExactTerm { field, term })) => {
            assert_eq!(field, FieldName::MasterId);
            assert_eq!(term, "M");
        },
        other => panic!("expected a single exact term, got {:?}", other),
    }
    match hop1_query(&vec!["M".to_string(), "N".to_string()]) {
        Some(IndexQuery::Boolean(children)) => {
            assert_eq!(children.len(), 2);
            for child in &children {
                assert_eq!(child.combinator, Combinator::Should);
                assert!(matches!(
                    &child.leaf,
                    LeafQuery::ExactTerm { field: FieldName::MasterId, .. }
                ));
            }
        },
        other => panic!("expected a boolean union, got {:?}", other),
    }
}

#[test]
fn shared_master_id_collapses_to_one() {
    // Two records of one identity, retrieved by a text query: only the
    // first stays.
    let records = vec![record("7", "111", ""), record("7", "222", "")];
    let kept = dedupe_by_master_id(records);
    assert_eq!(kept.len(), 1);
    assert_eq!(kept[0].mobile, "111");
}

#[test]
fn exact_master_id_lookup_keeps_both() {
    // The same two records found by `master_id:7`: the lookup path keeps
    // duplicates, so both indices come back.
    let records = vec![record("7", "111", ""), record("7", "222", "")];
    let hits = exact_matches(&records, FieldName::MasterId, "7");
    assert_eq!(hits, vec![0, 1]);
}

#[test]
fn empty_master_id_passes_through_dedup() {
    let records = vec![
        record("", "1", ""),
        record("7", "2", ""),
        record("", "3", ""),
        record("7", "4", ""),
    ];
    let kept = dedupe_by_master_id(records);
    let mobiles: Vec<&str> = kept.iter().map(|r| r.mobile.as_str()).collect();
    assert_eq!(mobiles, vec!["1", "2", "3"]);
}

#[test]
fn hop1_matches_raw_master_id_values() {
    // The collected identifier is trimmed; hop 1 matches rows whose stored
    // master_id equals the trimmed identifier exactly.
    let records = vec![
        record(" M", "777", ""),   // hop 0; yields identifier "M"
        record("M", "1", ""),      // matched by hop 1
        record(" M", "2", ""),     // not matched: stored value is " M"
    ];
    let hits = mobile_fanout(&records, "777");
    assert_eq!(hits, vec![0, 1]);
}
