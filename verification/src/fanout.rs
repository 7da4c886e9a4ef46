//! The fan-out resolver: bounded two-hop expansion of mobile-number lookups.
//!
//! The same physical person may be indexed under a number as the primary
//! `mobile` value of one row or the `alt` value of another row sharing the
//! same `master_id`.  A plain exact match therefore under-retrieves.  The
//! resolver unions three exact lookups: rows whose `mobile` is the probe
//! (hop 0), rows whose `master_id` was collected from hop 0 (hop 1), and
//! rows whose `alt` is the probe (hop 2).
//!
//! [`mobile_fanout`] carries the expansion out against an in-memory record
//! table and defines its semantics; a caller that holds the records in an
//! index engine instead replays the same hops with [`hop0_query`],
//! [`collect_master_ids`], [`hop1_query`] and [`hop2_query`].

use vstd::prelude::*;
use crate::builder::Combinator;
use crate::builder::IndexQuery;
use crate::builder::IndexQueryView;
use crate::builder::LeafQuery;
use crate::builder::LeafView;
use crate::builder::QueryChild;
use crate::builder::ChildView;
use crate::chars::contains_str;
use crate::chars::str_eq;
use crate::chars::trim;
use crate::chars::trim_str;
use crate::fields::FieldName;
use crate::record::Record;
use crate::record::RecordView;
use crate::record::field_value;
use crate::record::record_field;
use crate::record::record_views;

verus! {

/// The indices of the records whose `field` holds exactly `x`.
pub open spec fn exact_match_set(records: Seq<RecordView>, field: FieldName, x: Seq<char>) -> Set<
    int,
> {
    Set::new(|i: int| 0 <= i < records.len() && record_field(records[i], field) == x)
}

/// The distinct, trimmed, non-empty master identifiers of the hop-0 rows.
pub open spec fn fanout_ids(records: Seq<RecordView>, x: Seq<char>) -> Set<Seq<char>> {
    Set::new(
        |m: Seq<char>|
            m.len() > 0 && exists|j: int|
                0 <= j < records.len() && (#[trigger] records[j]).mobile == x && trim(
                    records[j].master_id,
                ) == m,
    )
}

/// The indices matched by hop 1: rows whose stored `master_id` equals one of
/// the collected identifiers.
pub open spec fn hop1_set(records: Seq<RecordView>, x: Seq<char>) -> Set<int> {
    Set::new(
        |i: int|
            0 <= i < records.len() && fanout_ids(records, x).contains(records[i].master_id),
    )
}

/// The full fan-out: the union of the three hops, or nothing at all when
/// the trimmed probe is empty.
pub open spec fn fanout_set(records: Seq<RecordView>, x: Seq<char>) -> Set<int> {
    if trim(x).len() == 0 {
        Set::empty()
    } else {
        exact_match_set(records, FieldName::Mobile, x).union(hop1_set(records, x)).union(
            exact_match_set(records, FieldName::Alt, x),
        )
    }
}

/// What a fan-out-disabled probe would return: hop 0 alone, under the same
/// empty-probe guard.
pub open spec fn hop0_only_set(records: Seq<RecordView>, x: Seq<char>) -> Set<int> {
    if trim(x).len() == 0 {
        Set::empty()
    } else {
        exact_match_set(records, FieldName::Mobile, x)
    }
}

/// The fan-out never returns fewer rows than the equivalent probe restricted
/// to hop 0 alone: its result is a superset, for every record table and
/// every probe value.
pub proof fn lemma_fanout_superset(records: Seq<RecordView>, x: Seq<char>)
    ensures
        hop0_only_set(records, x).subset_of(fanout_set(records, x)),
{
}

/// The set of indices a vector holds.
pub open spec fn idx_set(s: Seq<usize>) -> Set<int> {
    Set::new(|i: int| exists|k: int| 0 <= k < s.len() && (#[trigger] s[k]) as int == i)
}

/// The character sequences a vector of strings holds.
pub open spec fn str_set(s: Seq<String>) -> Set<Seq<char>> {
    Set::new(|m: Seq<char>| exists|k: int| 0 <= k < s.len() && (#[trigger] s[k])@ == m)
}

/// The indices of the records whose `field` holds exactly `value`, in
/// ascending order, without duplicates.
pub fn exact_matches(records: &Vec<Record>, field: FieldName, value: &str) -> (r: Vec<usize>)
    ensures
        idx_set(r@) == exact_match_set(record_views(records@), field, value@),
        forall|k1: int, k2: int| 0 <= k1 < k2 < r@.len() ==> r@[k1] < r@[k2],
{
    let ghost views = record_views(records@);
    let mut out: Vec<usize> = Vec::new();
    let mut i: usize = 0;
    while i < records.len()
        invariant
            i <= records@.len(),
            views == record_views(records@),
            views.len() == records@.len(),
            forall|k1: int, k2: int| 0 <= k1 < k2 < out@.len() ==> out@[k1] < out@[k2],
            forall|k: int| 0 <= k < out@.len() ==> (#[trigger] out@[k]) < i,
            forall|k: int| 0 <= k < out@.len() ==> record_field(
                views[(#[trigger] out@[k]) as int],
                field,
            ) == value@,
            forall|j: int|
                0 <= j < i && record_field(views[j], field) == value@ ==> out@.contains(j as usize),
        decreases records.len() - i,
    {
        proof {
            assert(views[i as int] == records@[i as int]@);
        }
        let ghost old_out = out@;
        if str_eq(field_value(&records[i], field).as_str(), value) {
            out.push(i);
        }
        proof {
            assert forall|j: int|
                0 <= j < i + 1 && record_field(views[j], field) == value@ implies out@.contains(
                j as usize,
            ) by {
                if j < i {
                    assert(old_out.contains(j as usize));
                    let k0 = choose|k: int| 0 <= k < old_out.len() && old_out[k] == j as usize;
                    assert(out@[k0] == j as usize);
                } else {
                    assert(out@[out@.len() - 1] == j as usize);
                }
            }
        }
        i = i + 1;
    }
    proof {
        assert forall|ii: int| #[trigger]
            idx_set(out@).contains(ii) implies exact_match_set(views, field, value@).contains(
            ii,
        ) by {
            let k0 = choose|k: int| 0 <= k < out@.len() && (out@[k]) as int == ii;
            assert(record_field(views[out@[k0] as int], field) == value@);
        }
        assert forall|ii: int| #[trigger]
            exact_match_set(views, field, value@).contains(ii) implies idx_set(out@).contains(
            ii,
        ) by {
            assert(out@.contains(ii as usize));
            let k0 = choose|k: int| 0 <= k < out@.len() && out@[k] == ii as usize;
            assert(0 <= k0 < out@.len() && (out@[k0]) as int == ii);
        }
        assert(idx_set(out@) =~= exact_match_set(views, field, value@));
    }
    out
}

/// Collects the distinct, trimmed, non-empty master identifiers of the
/// given rows, in first-seen order.
pub fn collect_master_ids(docs: &Vec<Record>) -> (r: Vec<String>)
    ensures
        str_set(r@) == master_ids_of(record_views(docs@)),
        forall|k1: int, k2: int| 0 <= k1 < k2 < r@.len() ==> (#[trigger] r@[k1])@ != (
        #[trigger] r@[k2])@,
        forall|k: int| 0 <= k < r@.len() ==> (#[trigger] r@[k])@.len() > 0,
{
    let ghost views = record_views(docs@);
    let mut out: Vec<String> = Vec::new();
    let mut i: usize = 0;
    while i < docs.len()
        invariant
            i <= docs@.len(),
            views == record_views(docs@),
            views.len() == docs@.len(),
            forall|k1: int, k2: int| 0 <= k1 < k2 < out@.len() ==> (#[trigger] out@[k1])@ != (
            #[trigger] out@[k2])@,
            forall|k: int| 0 <= k < out@.len() ==> (#[trigger] out@[k])@.len() > 0,
            str_set(out@) == ids_below(views, i as int),
        decreases docs.len() - i,
    {
        proof {
            assert(views[i as int] == docs@[i as int]@);
        }
        let ghost old_out = out@;
        let id = trim_str(docs[i].master_id.as_str());
        let id_is_new = id.as_str().unicode_len() > 0 && !contains_str(&out, id.as_str());
        let ghost idv = id@;
        if id_is_new {
            out.push(id);
        }
        proof {
            assert forall|m: Seq<char>| #[trigger]
                str_set(out@).contains(m) implies ids_below(views, i + 1).contains(m) by {
                let k0 = choose|k: int| 0 <= k < out@.len() && (#[trigger] out@[k])@ == m;
                if k0 < old_out.len() {
                    assert(old_out[k0]@ == m);
                    assert(str_set(old_out).contains(m));
                    assert(ids_below(views, i as int).contains(m));
                    let j0 = choose|j: int|
                        0 <= j < i && j < views.len() && trim(#[trigger] views[j].master_id) == m;
                    assert(0 <= j0 < i + 1 && j0 < views.len() && trim(views[j0].master_id) == m);
                } else {
                    assert(m == idv);
                    assert(trim(views[i as int].master_id) == m);
                }
            }
            assert forall|m: Seq<char>| #[trigger]
                ids_below(views, i + 1).contains(m) implies str_set(out@).contains(m) by {
                let j0 = choose|j: int| 0 <= j < i + 1 && trim(#[trigger] views[j].master_id) == m
                    && m.len() > 0;
                if j0 < i {
                    assert(ids_below(views, i as int).contains(m));
                    let k0 = choose|k: int| 0 <= k < old_out.len() && (old_out[k])@ == m;
                    assert(out@[k0]@ == m);
                } else {
                    if id_is_new {
                        assert(out@[out@.len() - 1]@ == m);
                    } else {
                        assert(str_set(old_out).contains(m));
                        let k0 = choose|k: int| 0 <= k < old_out.len() && (old_out[k])@ == m;
                        assert(out@[k0]@ == m);
                    }
                }
            }
            assert(str_set(out@) =~= ids_below(views, i + 1));
        }
        i = i + 1;
    }
    proof {
        assert(str_set(out@) =~= master_ids_of(views));
    }
    out
}

/// The identifiers hop 0 has collected after looking at the first `n` rows.
pub open spec fn hop_ids_below(records: Seq<RecordView>, x: Seq<char>, n: int) -> Set<Seq<char>> {
    Set::new(
        |m: Seq<char>|
            m.len() > 0 && exists|j: int|
                0 <= j < n && j < records.len() && (#[trigger] records[j]).mobile == x && trim(
                    records[j].master_id,
                ) == m,
    )
}

/// Whether row `i` belongs to the fan-out union of a non-empty probe.
pub open spec fn fanout_member(records: Seq<RecordView>, x: Seq<char>, i: int) -> bool {
    ||| records[i].mobile == x
    ||| fanout_ids(records, x).contains(records[i].master_id)
    ||| records[i].alt == x
}

/// Carries the fan-out out against a record table: the indices of the
/// union of the three hops, ascending and without duplicates.  An empty
/// trimmed probe yields no rows at all.
pub fn mobile_fanout(records: &Vec<Record>, x: &str) -> (r: Vec<usize>)
    ensures
        idx_set(r@) == fanout_set(record_views(records@), x@),
        forall|k1: int, k2: int| 0 <= k1 < k2 < r@.len() ==> r@[k1] < r@[k2],
{
    let ghost views = record_views(records@);
    let tx = trim_str(x);
    if tx.as_str().unicode_len() == 0 {
        let out: Vec<usize> = Vec::new();
        proof {
            assert(idx_set(out@) =~= fanout_set(views, x@));
        }
        return out;
    }
    // Hop 0 and identity collection: the master identifiers of the rows
    // whose `mobile` is the probe.
    let mut ids: Vec<String> = Vec::new();
    let mut i: usize = 0;
    while i < records.len()
        invariant
            i <= records@.len(),
            views == record_views(records@),
            views.len() == records@.len(),
            str_set(ids@) == hop_ids_below(views, x@, i as int),
        decreases records.len() - i,
    {
        proof {
            assert(views[i as int] == records@[i as int]@);
        }
        let ghost old_ids = ids@;
        let mut pushed_id: Ghost<Seq<char>> = Ghost(Seq::empty());
        if str_eq(field_value(&records[i], FieldName::Mobile).as_str(), x) {
            let id = trim_str(records[i].master_id.as_str());
            if id.as_str().unicode_len() > 0 && !contains_str(&ids, id.as_str()) {
                pushed_id = Ghost(id@);
                ids.push(id);
            }
        }
        proof {
            assert forall|m: Seq<char>| #[trigger]
                str_set(ids@).contains(m) implies hop_ids_below(views, x@, i + 1).contains(m) by {
                let k0 = choose|k: int| 0 <= k < ids@.len() && (#[trigger] ids@[k])@ == m;
                if k0 < old_ids.len() {
                    assert(old_ids[k0]@ == m);
                    assert(str_set(old_ids).contains(m));
                    assert(hop_ids_below(views, x@, i as int).contains(m));
                    let j0 = choose|j: int|
                        0 <= j < i && j < views.len() && (#[trigger] views[j]).mobile == x@ && trim(
                            views[j].master_id,
                        ) == m;
                    assert(0 <= j0 < i + 1 && j0 < views.len() && views[j0].mobile == x@ && trim(
                        views[j0].master_id,
                    ) == m);
                } else {
                    assert(m == pushed_id@);
                    assert(views[i as int].mobile == x@ && trim(views[i as int].master_id) == m);
                }
            }
            assert forall|m: Seq<char>| #[trigger]
                hop_ids_below(views, x@, i + 1).contains(m) implies str_set(ids@).contains(m) by {
                let j0 = choose|j: int|
                    0 <= j < i + 1 && j < views.len() && (#[trigger] views[j]).mobile == x@ && trim(
                        views[j].master_id,
                    ) == m;
                if j0 < i {
                    assert(hop_ids_below(views, x@, i as int).contains(m));
                    let k0 = choose|k: int| 0 <= k < old_ids.len() && (#[trigger] old_ids[k])@ == m;
                    assert(ids@[k0]@ == m);
                } else {
                    if str_set(old_ids).contains(m) {
                        let k0 = choose|k: int|
                            0 <= k < old_ids.len() && (#[trigger] old_ids[k])@ == m;
                        assert(ids@[k0]@ == m);
                    } else {
                        assert(ids@[ids@.len() - 1]@ == m);
                    }
                }
            }
            assert(str_set(ids@) =~= hop_ids_below(views, x@, i + 1));
        }
        i = i + 1;
    }
    proof {
        assert(str_set(ids@) =~= fanout_ids(views, x@));
    }
    // Hops 1 and 2 fused with hop 0 into one sweep: a row belongs to the
    // union when any of the three lookups matches it.
    let mut out: Vec<usize> = Vec::new();
    let mut n: usize = 0;
    while n < records.len()
        invariant
            n <= records@.len(),
            views == record_views(records@),
            views.len() == records@.len(),
            str_set(ids@) == fanout_ids(views, x@),
            forall|k1: int, k2: int| 0 <= k1 < k2 < out@.len() ==> out@[k1] < out@[k2],
            forall|k: int| 0 <= k < out@.len() ==> (#[trigger] out@[k]) < n,
            forall|k: int|
                0 <= k < out@.len() ==> fanout_member(views, x@, (#[trigger] out@[k]) as int),
            forall|j: int| 0 <= j < n && fanout_member(views, x@, j) ==> out@.contains(j as usize),
        decreases records.len() - n,
    {
        proof {
            assert(views[n as int] == records@[n as int]@);
        }
        let ghost old_out = out@;
        let is_mob = str_eq(field_value(&records[n], FieldName::Mobile).as_str(), x);
        let is_hop1 = contains_str(&ids, records[n].master_id.as_str());
        let is_alt = str_eq(field_value(&records[n], FieldName::Alt).as_str(), x);
        if is_mob || is_hop1 || is_alt {
            out.push(n);
        }
        proof {
            assert(is_hop1 == fanout_ids(views, x@).contains(views[n as int].master_id));
            assert forall|j: int|
                0 <= j < n + 1 && fanout_member(views, x@, j) implies out@.contains(
                j as usize,
            ) by {
                if j < n {
                    assert(old_out.contains(j as usize));
                    let k0 = choose|k: int| 0 <= k < old_out.len() && old_out[k] == j as usize;
                    assert(out@[k0] == j as usize);
                } else {
                    assert(out@[out@.len() - 1] == j as usize);
                }
            }
        }
        n = n + 1;
    }
    proof {
        assert forall|ii: int| #[trigger]
            idx_set(out@).contains(ii) implies fanout_set(views, x@).contains(ii) by {
            let k0 = choose|k: int| 0 <= k < out@.len() && (#[trigger] out@[k]) as int == ii;
            assert(fanout_member(views, x@, ii));
        }
        assert forall|ii: int| #[trigger]
            fanout_set(views, x@).contains(ii) implies idx_set(out@).contains(ii) by {
            assert(fanout_member(views, x@, ii));
            assert(out@.contains(ii as usize));
            let k0 = choose|k: int| 0 <= k < out@.len() && out@[k] == ii as usize;
            assert(0 <= k0 < out@.len() && (out@[k0]) as int == ii);
        }
        assert(idx_set(out@) =~= fanout_set(views, x@));
    }
    out
}

/// Hop 0 as an index query: an exact `mobile` lookup, or no query at all
/// for an empty trimmed probe.
pub fn hop0_query(x: &str) -> (r: Option<IndexQuery>)
    ensures
        trim(x@).len() == 0 ==> r is None,
        trim(x@).len() > 0 ==> (r matches Some(q) && q@ == IndexQueryView::Leaf(
            LeafView::ExactTerm { field: FieldName::Mobile, term: x@ },
        )),
{
    let tx = trim_str(x);
    if tx.as_str().unicode_len() == 0 {
        None
    } else {
        Some(IndexQuery::Leaf(LeafQuery::ExactTerm { field: FieldName::Mobile, term: x.to_owned() }))
    }
}

/// Hop 2 as an index query: the same probe against `alt`, under the same
/// empty-probe guard.
pub fn hop2_query(x: &str) -> (r: Option<IndexQuery>)
    ensures
        trim(x@).len() == 0 ==> r is None,
        trim(x@).len() > 0 ==> (r matches Some(q) && q@ == IndexQueryView::Leaf(
            LeafView::ExactTerm { field: FieldName::Alt, term: x@ },
        )),
{
    let tx = trim_str(x);
    if tx.as_str().unicode_len() == 0 {
        None
    } else {
        Some(IndexQuery::Leaf(LeafQuery::ExactTerm { field: FieldName::Alt, term: x.to_owned() }))
    }
}

/// Hop 1 as an index query: one optional-but-scored exact `master_id`
/// lookup per collected identifier; a single identifier short-circuits to
/// its leaf, none at all to no query.
pub fn hop1_query(ids: &Vec<String>) -> (r: Option<IndexQuery>)
    ensures
        ids@.len() == 0 ==> r is None,
        ids@.len() == 1 ==> (r matches Some(q) && q@ == IndexQueryView::Leaf(
            LeafView::ExactTerm { field: FieldName::MasterId, term: ids@[0]@ },
        )),
        ids@.len() > 1 ==> (r matches Some(q) && q@ == IndexQueryView::Boolean(
            Seq::new(
                ids@.len(),
                |i: int| ChildView {
                    combinator: Combinator::Should,
                    leaf: LeafView::ExactTerm { field: FieldName::MasterId, term: ids@[i]@ },
                },
            ),
        )),
{
    if ids.len() == 0 {
        return None;
    }
    if ids.len() == 1 {
        return Some(
            IndexQuery::Leaf(
                LeafQuery::ExactTerm { field: FieldName::MasterId, term: ids[0].clone() },
            ),
        );
    }
    let mut children: Vec<QueryChild> = Vec::new();
    let mut i: usize = 0;
    while i < ids.len()
        invariant
            i <= ids@.len(),
            children@.len() == i,
            forall|k: int| 0 <= k < i ==> (#[trigger] children@[k])@ == (ChildView {
                combinator: Combinator::Should,
                leaf: LeafView::ExactTerm { field: FieldName::MasterId, term: ids@[k]@ },
            }),
        decreases ids.len() - i,
    {
        let ghost old_children = children@;
        children.push(
            QueryChild {
                combinator: Combinator::Should,
                leaf: LeafQuery::ExactTerm { field: FieldName::MasterId, term: ids[i].clone() },
            },
        );
        proof {
            assert forall|k: int| 0 <= k < i + 1 implies (#[trigger] children@[k])@ == (ChildView {
                combinator: Combinator::Should,
                leaf: LeafView::ExactTerm { field: FieldName::MasterId, term: ids@[k]@ },
            }) by {
                if k < i {
                    assert(children@[k] == old_children[k]);
                }
            }
        }
        i = i + 1;
    }
    let q = IndexQuery::Boolean(children);
    proof {
        assert(q@ =~~= IndexQueryView::Boolean(
            Seq::new(
                ids@.len(),
                |i: int| ChildView {
                    combinator: Combinator::Should,
                    leaf: LeafView::ExactTerm { field: FieldName::MasterId, term: ids@[i]@ },
                },
            ),
        ));
    }
    Some(q)
}

/// The distinct, trimmed, non-empty master identifiers of the first `n`
/// rows.
pub open spec fn ids_below(docs: Seq<RecordView>, n: int) -> Set<Seq<char>> {
    Set::new(
        |m: Seq<char>|
            m.len() > 0 && exists|j: int|
                0 <= j < n && j < docs.len() && trim(#[trigger] docs[j].master_id) == m,
    )
}

/// The distinct, trimmed, non-empty master identifiers of the given rows.
pub open spec fn master_ids_of(docs: Seq<RecordView>) -> Set<Seq<char>> {
    ids_below(docs, docs.len() as int)
}

} // verus!
