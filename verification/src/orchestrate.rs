//! The search orchestrator's decisions: which execution path a parsed
//! query takes, and how retrieved records are deduplicated.
//!
//! A query of exactly one clause on `mobile` takes the fan-out path; every
//! other query is built into a single index query and executed directly
//! under a hard result cap.  Exact single-clause identity lookups return
//! every matching record verbatim; all other queries collapse the records
//! to one per master identifier, passing records with an empty identifier
//! through unfiltered.

use vstd::prelude::*;
use crate::builder::BuildError;
use crate::builder::IndexQuery;
use crate::builder::IndexQueryView;
use crate::builder::all_leaves_ok;
use crate::builder::build_query;
use crate::builder::build_spec;
use crate::chars::contains_str;
use crate::fields::FieldClass;
use crate::fields::FieldName;
use crate::fields::field_class;
use crate::fields::field_class_exec;
use crate::normalize::normalize_spec;
use crate::normalize::normalize_value;
use crate::parse::ParsedQuery;
use crate::parse::ParsedQueryView;
use crate::record::Record;
use crate::record::RecordView;
use crate::record::record_views;

verus! {

/// The hard cap on matches returned by one search, bounding worst-case
/// latency and memory.
pub const MAX_RESULTS: usize = 10000;

/// The execution path of one search.
#[derive(Debug)]
pub enum SearchPlan {
    /// A single `mobile` clause: expand across the identity graph, probing
    /// with the normalized value.
    MobileFanout { value: String },
    /// Everything else: one boolean index query, executed directly.
    Direct { query: IndexQuery },
}

/// The mathematical shape of a search plan.
#[verifier::ext_equal]
pub enum SearchPlanView {
    MobileFanout { value: Seq<char> },
    Direct { query: IndexQueryView },
}

impl View for SearchPlan {
    type V = SearchPlanView;

    open spec fn view(&self) -> SearchPlanView {
        match self {
            SearchPlan::MobileFanout { value } => SearchPlanView::MobileFanout { value: value@ },
            SearchPlan::Direct { query } => SearchPlanView::Direct { query: query@ },
        }
    }
}

/// Whether a parsed query is exactly one clause on `mobile`.
pub open spec fn is_mobile_single(pq: ParsedQueryView) -> bool {
    pq.clauses.len() == 1 && pq.clauses[0].field == FieldName::Mobile
}

/// Decides the execution path: the fan-out for a single `mobile` clause,
/// with the clause value normalized; a directly-executed index query for
/// everything else, with the builder's errors passed through.
pub fn plan_search(parsed: &ParsedQuery) -> (r: Result<SearchPlan, BuildError>)
    requires
        parsed@.wf(),
    ensures
        is_mobile_single(parsed@) ==> (r matches Ok(p) && p@ == SearchPlanView::MobileFanout {
            value: normalize_spec(FieldName::Mobile, parsed@.clauses[0].value),
        }),
        !is_mobile_single(parsed@) ==> {
            &&& (r is Ok <==> parsed@.clauses.len() > 0 && all_leaves_ok(parsed@))
            &&& (r matches Ok(p) ==> p@ == SearchPlanView::Direct { query: build_spec(parsed@) })
            &&& (parsed@.clauses.len() == 0 ==> r == Err::<SearchPlan, BuildError>(
                BuildError::NoClauses,
            ))
            &&& (parsed@.clauses.len() > 0 && !all_leaves_ok(parsed@) ==> r == Err::<
                SearchPlan,
                BuildError,
            >(BuildError::EmptyValue))
        },
{
    let is_fanout = parsed.clauses.len() == 1 && matches!(parsed.clauses[0].field, FieldName::Mobile);
    if is_fanout {
        let value = normalize_value(FieldName::Mobile, parsed.clauses[0].value.as_str());
        proof {
            assert(parsed.clauses@[0]@ == parsed@.clauses[0]);
        }
        Ok(SearchPlan::MobileFanout { value })
    } else {
        match build_query(parsed) {
            Ok(q) => Ok(SearchPlan::Direct { query: q }),
            Err(e) => Err(e),
        }
    }
}

/// Whether the final record list is deduplicated: everything but an exact
/// single-clause identity lookup collapses to one record per master
/// identifier.
pub open spec fn dedupe_applies(pq: ParsedQueryView) -> bool {
    !(pq.clauses.len() == 1 && field_class(pq.clauses[0].field) == FieldClass::Identity)
}

/// Executable twin of [`dedupe_applies`].
pub fn should_dedupe(parsed: &ParsedQuery) -> (r: bool)
    ensures
        r == dedupe_applies(parsed@),
{
    if parsed.clauses.len() == 1 {
        proof {
            assert(parsed.clauses@[0]@ == parsed@.clauses[0]);
        }
        match field_class_exec(parsed.clauses[0].field) {
            FieldClass::Identity => false,
            FieldClass::Text => true,
        }
    } else {
        true
    }
}

/// Deduplication by master identifier, keeping the first occurrence of
/// each identifier already seen in `seen`; records with an empty
/// identifier pass through unfiltered.
pub open spec fn dedup_spec(rs: Seq<RecordView>, seen: Set<Seq<char>>) -> Seq<RecordView>
    decreases rs.len(),
{
    if rs.len() == 0 {
        rs
    } else {
        let r0 = rs[0];
        let rest = rs.drop_first();
        if r0.master_id.len() == 0 {
            seq![r0] + dedup_spec(rest, seen)
        } else if seen.contains(r0.master_id) {
            dedup_spec(rest, seen)
        } else {
            seq![r0] + dedup_spec(rest, seen.insert(r0.master_id))
        }
    }
}

/// The strings a vector holds, as a set of character sequences.
pub open spec fn seen_set(s: Seq<String>) -> Set<Seq<char>> {
    Set::new(|m: Seq<char>| exists|k: int| 0 <= k < s.len() && (#[trigger] s[k])@ == m)
}

/// Keeps the first record of each master identifier, in order; records
/// with an empty identifier all pass through.
pub fn dedupe_by_master_id(records: Vec<Record>) -> (r: Vec<Record>)
    ensures
        record_views(r@) == dedup_spec(record_views(records@), Set::empty()),
{
    let ghost full = record_views(records@);
    let mut rest = records;
    let mut out: Vec<Record> = Vec::new();
    let mut seen: Vec<String> = Vec::new();
    proof {
        assert(record_views(out@) =~= Seq::<RecordView>::empty());
        assert(seen_set(seen@) =~= Set::<Seq<char>>::empty());
        assert(record_views(out@) + dedup_spec(record_views(rest@), seen_set(seen@)) =~= dedup_spec(
            full,
            Set::empty(),
        ));
    }
    while rest.len() > 0
        invariant
            dedup_spec(full, Set::empty()) == record_views(out@) + dedup_spec(
                record_views(rest@),
                seen_set(seen@),
            ),
        decreases rest.len(),
    {
        let ghost old_rest = record_views(rest@);
        let ghost old_out = record_views(out@);
        let ghost old_seen = seen_set(seen@);
        let r = rest.remove(0);
        proof {
            assert(record_views(rest@) =~= old_rest.drop_first());
            assert(r@ == old_rest[0]);
        }
        let key = r.master_id.clone();
        if key.as_str().unicode_len() == 0 {
            out.push(r);
            proof {
                assert(record_views(out@) =~= old_out.push(old_rest[0]));
                assert(old_out + (seq![old_rest[0]] + dedup_spec(old_rest.drop_first(), old_seen))
                    =~= record_views(out@) + dedup_spec(record_views(rest@), seen_set(seen@)));
            }
        } else if contains_str(&seen, key.as_str()) {
            proof {
                assert(old_seen.contains(old_rest[0].master_id));
            }
        } else {
            let ghost keyv = key@;
            let ghost old_seen_vec = seen@;
            out.push(r);
            seen.push(key);
            proof {
                assert(record_views(out@) =~= old_out.push(old_rest[0]));
                assert forall|m: Seq<char>| #[trigger]
                    seen_set(seen@).contains(m) implies old_seen.insert(keyv).contains(m) by {
                    let k0 = choose|k: int| 0 <= k < seen@.len() && (#[trigger] seen@[k])@ == m;
                    if k0 < seen@.len() - 1 {
                        assert(seen@[k0] == old_seen_vec[k0]);
                        assert(old_seen.contains(m));
                    }
                }
                assert forall|m: Seq<char>| #[trigger]
                    old_seen.insert(keyv).contains(m) implies seen_set(seen@).contains(m) by {
                    if old_seen.contains(m) {
                        let k0 = choose|k: int|
                            0 <= k < old_seen_vec.len() && (#[trigger] old_seen_vec[k])@ == m;
                        assert(seen@[k0] == old_seen_vec[k0]);
                        assert(seen@[k0]@ == m);
                    } else {
                        assert(seen@[seen@.len() - 1]@ == m);
                    }
                }
                assert(seen_set(seen@) =~= old_seen.insert(keyv));
                assert(old_out + (seq![old_rest[0]] + dedup_spec(
                    old_rest.drop_first(),
                    old_seen.insert(keyv),
                )) =~= record_views(out@) + dedup_spec(record_views(rest@), seen_set(seen@)));
            }
        }
    }
    proof {
        assert(record_views(rest@) =~= Seq::<RecordView>::empty());
        assert(record_views(out@) + dedup_spec(Seq::<RecordView>::empty(), seen_set(seen@))
            =~= record_views(out@));
    }
    out
}

} // verus!
