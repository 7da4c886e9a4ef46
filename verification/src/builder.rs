//! The query builder: parsed clauses to a closed index-query type.
//!
//! The index engine's native query objects are open-ended and dynamically
//! dispatched; the core instead builds a small tagged type that the engine
//! adapter interprets.  Identity clauses become exact-term matches; text
//! clauses become tokenized matches in which every word must occur in the
//! field; the clause combinators follow the boolean operators of the query.

use vstd::prelude::*;
use crate::chars::chars_of;
use crate::chars::string_of;
use crate::chars::tokenize;
use crate::chars::tokens_of;
use crate::fields::FieldClass;
use crate::fields::FieldName;
use crate::fields::field_class;
use crate::fields::field_class_exec;
use crate::normalize::normalize_spec;
use crate::normalize::normalize_value;
use crate::parse::ClauseView;
use crate::parse::ParsedQuery;
use crate::parse::ParsedQueryView;
use crate::parse::QueryOp;

verus! {

/// How a sub-query takes part in a boolean combination.
#[derive(Clone, Copy, Debug, PartialEq, Eq, Structural)]
pub enum Combinator {
    /// The sub-query must match.
    Must,
    /// The sub-query is optional but scored.
    Should,
}

/// An atomic query against one field.
#[derive(Clone, Debug)]
pub enum LeafQuery {
    /// A single atomic comparison against the whole stored value.
    ExactTerm { field: FieldName, term: String },
    /// All listed words must occur in the field, in any order.
    TokenConjunction { field: FieldName, tokens: Vec<String> },
}

/// The mathematical shape of a leaf query.
#[verifier::ext_equal]
pub enum LeafView {
    ExactTerm { field: FieldName, term: Seq<char> },
    TokenConjunction { field: FieldName, tokens: Seq<Seq<char>> },
}

impl View for LeafQuery {
    type V = LeafView;

    open spec fn view(&self) -> LeafView {
        match self {
            LeafQuery::ExactTerm { field, term } => LeafView::ExactTerm {
                field: *field,
                term: term@,
            },
            LeafQuery::TokenConjunction { field, tokens } => LeafView::TokenConjunction {
                field: *field,
                tokens: tokens@.map_values(|t: String| t@),
            },
        }
    }
}

/// One sub-query of a boolean combination, with its combinator.
#[derive(Clone, Debug)]
pub struct QueryChild {
    pub combinator: Combinator,
    pub leaf: LeafQuery,
}

/// The mathematical shape of a combined sub-query.
#[verifier::ext_equal]
pub struct ChildView {
    pub combinator: Combinator,
    pub leaf: LeafView,
}

impl View for QueryChild {
    type V = ChildView;

    open spec fn view(&self) -> ChildView {
        ChildView { combinator: self.combinator, leaf: self.leaf@ }
    }
}

/// A complete index query: a single leaf, or a boolean combination.
#[derive(Clone, Debug)]
pub enum IndexQuery {
    Leaf(LeafQuery),
    Boolean(Vec<QueryChild>),
}

/// The mathematical shape of an index query.
#[verifier::ext_equal]
pub enum IndexQueryView {
    Leaf(LeafView),
    Boolean(Seq<ChildView>),
}

impl View for IndexQuery {
    type V = IndexQueryView;

    open spec fn view(&self) -> IndexQueryView {
        match self {
            IndexQuery::Leaf(l) => IndexQueryView::Leaf(l@),
            IndexQuery::Boolean(children) => IndexQueryView::Boolean(
                children@.map_values(|c: QueryChild| c@),
            ),
        }
    }
}

/// Why a parsed query could not be turned into an index query.
#[derive(Clone, Copy, Debug, PartialEq, Eq, Structural)]
pub enum BuildError {
    /// The clause list is empty.
    NoClauses,
    /// A clause names a field outside the fixed set.  Defensive: clauses
    /// carry a field of the closed enumeration, so this cannot arise.
    UnsupportedField,
    /// A text clause whose normalized value contains no words.
    EmptyValue,
}

/// A clause that can become a leaf: text clauses need at least one word in
/// their normalized value.
pub open spec fn leaf_ok(c: ClauseView) -> bool {
    match field_class(c.field) {
        FieldClass::Identity => true,
        FieldClass::Text => tokens_of(normalize_spec(c.field, c.value)).len() > 0,
    }
}

/// The leaf a clause becomes: an exact term for identity fields, the
/// conjunction of the normalized value's words for text fields.
pub open spec fn leaf_of(c: ClauseView) -> LeafView {
    match field_class(c.field) {
        FieldClass::Identity => LeafView::ExactTerm {
            field: c.field,
            term: normalize_spec(c.field, c.value),
        },
        FieldClass::Text => LeafView::TokenConjunction {
            field: c.field,
            tokens: tokens_of(normalize_spec(c.field, c.value)),
        },
    }
}

/// `AND` makes a clause mandatory, `OR` optional-but-scored.
pub open spec fn combinator_of(op: QueryOp) -> Combinator {
    match op {
        QueryOp::And => Combinator::Must,
        QueryOp::Or => Combinator::Should,
    }
}

/// The combinator of clause `i`: the first clause is always mandatory, each
/// later clause follows the operator preceding it.
pub open spec fn combinator_for(pq: ParsedQueryView, i: int) -> Combinator {
    if i == 0 {
        Combinator::Must
    } else {
        combinator_of(pq.ops[i - 1])
    }
}

/// Every clause can become a leaf.
pub open spec fn all_leaves_ok(pq: ParsedQueryView) -> bool {
    forall|i: int| 0 <= i < pq.clauses.len() ==> leaf_ok(#[trigger] pq.clauses[i])
}

/// The index query a well-formed parsed query builds: a single clause
/// short-circuits to its leaf, several clauses become a boolean combination
/// in clause order.
pub open spec fn build_spec(pq: ParsedQueryView) -> IndexQueryView {
    if pq.clauses.len() == 1 {
        IndexQueryView::Leaf(leaf_of(pq.clauses[0]))
    } else {
        IndexQueryView::Boolean(
            Seq::new(
                pq.clauses.len(),
                |i: int| ChildView { combinator: combinator_for(pq, i), leaf: leaf_of(pq.clauses[i]) },
            ),
        )
    }
}

/// Builds the leaf of one clause, or reports that its normalized value has
/// no words.
fn build_leaf(field: FieldName, value: &str) -> (r: Result<LeafQuery, BuildError>)
    ensures
        leaf_ok(ClauseView { field, value: value@ }) ==> (r matches Ok(l) && l@ == leaf_of(
            ClauseView { field, value: value@ },
        )),
        !leaf_ok(ClauseView { field, value: value@ }) ==> (r matches Err(e) && e
            == BuildError::EmptyValue),
{
    let norm = normalize_value(field, value);
    match field_class_exec(field) {
        FieldClass::Identity => Ok(LeafQuery::ExactTerm { field, term: norm }),
        FieldClass::Text => {
            let nv = chars_of(norm.as_str());
            let toks = tokenize(&nv);
            if toks.len() == 0 {
                proof {
                    assert(toks.deep_view() =~~= tokens_of(normalize_spec(field, value@)));
                }
                return Err(BuildError::EmptyValue);
            }
            let mut words: Vec<String> = Vec::new();
            let mut j: usize = 0;
            while j < toks.len()
                invariant
                    j <= toks.len(),
                    words@.len() == j,
                    forall|i: int| 0 <= i < j ==> (#[trigger] words@[i])@ == toks.deep_view()[i],
                decreases toks.len() - j,
            {
                let ghost old_words = words@;
                words.push(string_of(&toks[j]));
                proof {
                    assert(toks@[j as int].deep_view() =~= toks@[j as int]@);
                    assert forall|i: int| 0 <= i < j + 1 implies (#[trigger] words@[i])@
                        == toks.deep_view()[i] by {
                        if i < j {
                            assert(words@[i] == old_words[i]);
                        }
                    }
                }
                j = j + 1;
            }
            let lq = LeafQuery::TokenConjunction { field, tokens: words };
            proof {
                assert(words@.map_values(|t: String| t@) =~~= toks.deep_view());
                assert(lq@ =~~= leaf_of(ClauseView { field, value: value@ }));
            }
            Ok(lq)
        },
    }
}

/// Maps each clause to a leaf and combines the leaves into one boolean
/// expression; a single-clause query short-circuits to its leaf.
///
/// Returns `NoClauses` on an empty clause list and `EmptyValue` when a text
/// clause's normalized value has no words; succeeds exactly otherwise.
pub fn build_query(parsed: &ParsedQuery) -> (r: Result<IndexQuery, BuildError>)
    requires
        parsed@.wf(),
    ensures
        r is Ok <==> (parsed@.clauses.len() > 0 && all_leaves_ok(parsed@)),
        parsed@.clauses.len() == 0 ==> (r matches Err(e) && e == BuildError::NoClauses),
        parsed@.clauses.len() > 0 && !all_leaves_ok(parsed@) ==> (r matches Err(e) && e
            == BuildError::EmptyValue),
        r matches Ok(q) ==> q@ == build_spec(parsed@),
{
    if parsed.clauses.len() == 0 {
        return Err(BuildError::NoClauses);
    }
    let n = parsed.clauses.len();
    let mut children: Vec<QueryChild> = Vec::new();
    let mut idx: usize = 0;
    while idx < n
        invariant
            idx <= n,
            n == parsed@.clauses.len(),
            parsed@.wf(),
            children@.len() == idx,
            forall|i: int| 0 <= i < idx ==> (#[trigger] children@[i])@ == (ChildView {
                combinator: combinator_for(parsed@, i),
                leaf: leaf_of(parsed@.clauses[i]),
            }),
            forall|i: int| 0 <= i < idx ==> leaf_ok(#[trigger] parsed@.clauses[i]),
        decreases n - idx,
    {
        let clause = &parsed.clauses[idx];
        proof {
            assert(clause@ == parsed@.clauses[idx as int]);
        }
        let leaf = match build_leaf(clause.field, clause.value.as_str()) {
            Ok(l) => l,
            Err(e) => {
                proof {
                    assert(!leaf_ok(parsed@.clauses[idx as int]));
                }
                return Err(e);
            },
        };
        let comb = if idx == 0 {
            Combinator::Must
        } else {
            match parsed.ops[idx - 1] {
                QueryOp::And => Combinator::Must,
                QueryOp::Or => Combinator::Should,
            }
        };
        let ghost old_children = children@;
        children.push(QueryChild { combinator: comb, leaf });
        proof {
            assert forall|i: int| 0 <= i < idx + 1 implies (#[trigger] children@[i])@ == (ChildView {
                combinator: combinator_for(parsed@, i),
                leaf: leaf_of(parsed@.clauses[i]),
            }) by {
                if i < idx {
                    assert(children@[i] == old_children[i]);
                }
            }
        }
        idx = idx + 1;
    }
    if children.len() == 1 {
        let c = children.remove(0);
        proof {
            assert(c@ == ChildView {
                combinator: combinator_for(parsed@, 0),
                leaf: leaf_of(parsed@.clauses[0]),
            });
        }
        Ok(IndexQuery::Leaf(c.leaf))
    } else {
        let q = IndexQuery::Boolean(children);
        proof {
            assert(q@ =~~= build_spec(parsed@));
        }
        Ok(q)
    }
}

} // verus!
