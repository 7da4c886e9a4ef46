//! The clause parser: raw query strings to clauses and operators.
//!
//! The grammar: clauses of the form `field:value`, joined by
//! whitespace-delimited `AND` / `OR` (case-insensitive) or commas (sugar for
//! `AND`); the default operator between clauses is `AND` when none is
//! spelled out.

use vstd::prelude::*;
use crate::chars::append_chars;
use crate::chars::chars_of;
use crate::chars::lower_chars;
use crate::chars::lower_of;
use crate::chars::lowercase;
use crate::chars::replace_commas;
use crate::chars::replace_commas_exec;
use crate::chars::string_of;
use crate::chars::subvec;
use crate::chars::tokenize;
use crate::chars::tokens_of;
use crate::chars::trim;
use crate::chars::trim_chars;
use crate::fields::FieldName;
use crate::fields::field_of_chars;
use crate::fields::lookup_field;
use crate::fields::lowered_equals;

verus! {

/// A boolean connective between two clauses.
#[derive(Clone, Copy, Debug, PartialEq, Eq, Structural)]
pub enum QueryOp {
    And,
    Or,
}

/// One `field:value` clause.
#[derive(Clone, Debug)]
pub struct QueryClause {
    pub field: FieldName,
    pub value: String,
}

/// The mathematical shape of a clause: a field and the value's characters.
#[verifier::ext_equal]
pub struct ClauseView {
    pub field: FieldName,
    pub value: Seq<char>,
}

impl View for QueryClause {
    type V = ClauseView;

    open spec fn view(&self) -> ClauseView {
        ClauseView { field: self.field, value: self.value@ }
    }
}

/// A parsed query: `ops[i]` connects `clauses[i]` and `clauses[i + 1]`.
#[derive(Clone, Debug)]
pub struct ParsedQuery {
    pub clauses: Vec<QueryClause>,
    pub ops: Vec<QueryOp>,
}

/// The mathematical shape of a parsed query.
#[verifier::ext_equal]
pub struct ParsedQueryView {
    pub clauses: Seq<ClauseView>,
    pub ops: Seq<QueryOp>,
}

impl ParsedQueryView {
    /// The structural invariant: one operator between each adjacent pair of
    /// clauses, none otherwise.
    pub open spec fn wf(self) -> bool {
        if self.clauses.len() == 0 {
            self.ops.len() == 0
        } else {
            self.ops.len() == self.clauses.len() - 1
        }
    }
}

/// The views of a sequence of clauses.
pub open spec fn clause_views(v: Seq<QueryClause>) -> Seq<ClauseView> {
    v.map_values(|c: QueryClause| c@)
}

impl View for ParsedQuery {
    type V = ParsedQueryView;

    open spec fn view(&self) -> ParsedQueryView {
        ParsedQueryView { clauses: clause_views(self.clauses@), ops: self.ops@ }
    }
}

/// Why a query string was rejected.
#[derive(Clone, Debug, PartialEq, Eq)]
pub enum ParseError {
    /// No clause survived parsing.
    EmptyQuery,
    /// A clause is not `field:value` with a known field; the offending
    /// clause text is carried along.
    InvalidClause(String),
}

/// The index of the first colon, or the length when there is none.
pub open spec fn first_colon(s: Seq<char>) -> int
    decreases s.len(),
{
    if s.len() == 0 {
        0
    } else if s[0] == ':' {
        0
    } else {
        1 + first_colon(s.drop_first())
    }
}

proof fn lemma_first_colon_at(s: Seq<char>, k: int)
    requires
        0 <= k <= s.len(),
        forall|j: int| 0 <= j < k ==> s[j] != ':',
        k < s.len() ==> s[k] == ':',
    ensures
        first_colon(s) == k,
    decreases k,
{
    if k > 0 {
        lemma_first_colon_at(s.drop_first(), k - 1);
    }
}

/// Finalizing a clause buffer: split at the first colon; the left side,
/// trimmed and lower-cased (with the engine's Unicode folding, named
/// [`lower_of`]), must name a known field; the right side, trimmed, is the
/// raw value.
pub open spec fn clause_of(buf: Seq<char>) -> Option<ClauseView> {
    let t = trim(buf);
    let k = first_colon(t);
    if k == t.len() {
        None
    } else {
        let left = lower_of(trim(t.take(k)));
        let right = trim(t.skip(k + 1));
        match field_of_chars(left) {
            Some(f) => Some(ClauseView { field: f, value: right }),
            None => None,
        }
    }
}

/// A token that acts as a boolean operator (case-insensitive).
pub open spec fn is_op_token(t: Seq<char>) -> bool {
    lower_chars(t) == "and"@ || lower_chars(t) == "or"@
}

/// Which operator an operator token denotes.
pub open spec fn op_of_token(t: Seq<char>) -> QueryOp {
    if lower_chars(t) == "and"@ {
        QueryOp::And
    } else {
        QueryOp::Or
    }
}

/// The operators emitted when a clause is finalized: none for the first
/// clause, otherwise the pending operator, defaulting to `AND` when none was
/// spelled out between the clauses.
pub open spec fn ops_emitted(pending: Option<QueryOp>, prev_clauses: nat) -> Seq<QueryOp> {
    if prev_clauses == 0 {
        Seq::empty()
    } else {
        match pending {
            Some(op) => seq![op],
            None => seq![QueryOp::And],
        }
    }
}

/// What scanning the token stream produces.
#[verifier::ext_equal]
pub enum ScanResult {
    /// The accumulated clauses and connectives.
    Done { clauses: Seq<ClauseView>, ops: Seq<QueryOp> },
    /// A clause buffer that does not finalize; parsing stops there.
    Bad { text: Seq<char> },
}

/// The token scan: words accumulate into the current clause buffer (joined
/// by single spaces); an operator token finalizes the buffer and becomes
/// pending until the next clause is finalized.
pub open spec fn scan(
    tokens: Seq<Seq<char>>,
    buf: Seq<char>,
    pending: Option<QueryOp>,
    clauses: Seq<ClauseView>,
    ops: Seq<QueryOp>,
) -> ScanResult
    decreases tokens.len(),
{
    if tokens.len() == 0 {
        if buf.len() == 0 {
            ScanResult::Done { clauses, ops }
        } else {
            match clause_of(buf) {
                Some(c) => ScanResult::Done {
                    clauses: clauses.push(c),
                    ops: ops + ops_emitted(pending, clauses.len()),
                },
                None => ScanResult::Bad { text: buf },
            }
        }
    } else {
        let t = tokens[0];
        let rest = tokens.drop_first();
        if is_op_token(t) {
            let op = op_of_token(t);
            if buf.len() == 0 {
                scan(rest, Seq::empty(), Some(op), clauses, ops)
            } else {
                match clause_of(buf) {
                    Some(c) => scan(
                        rest,
                        Seq::empty(),
                        Some(op),
                        clauses.push(c),
                        ops + ops_emitted(pending, clauses.len()),
                    ),
                    None => ScanResult::Bad { text: buf },
                }
            }
        } else {
            let buf2 = if buf.len() == 0 {
                t
            } else {
                buf + seq![' '] + t
            };
            scan(rest, buf2, pending, clauses, ops)
        }
    }
}

/// What parsing a whole query string means: replace commas by `AND`,
/// tokenize on whitespace, scan.
pub open spec fn parse_spec(s: Seq<char>) -> ScanResult {
    scan(tokens_of(replace_commas(s)), Seq::empty(), None, Seq::empty(), Seq::empty())
}

/// Executable clause finalization.
fn finalize_clause(buf: &Vec<char>) -> (r: Option<QueryClause>)
    ensures
        match clause_of(buf@) {
            Some(cv) => r matches Some(c) && c@ == cv,
            None => r is None,
        },
{
    let t = trim_chars(buf);
    let mut k: usize = 0;
    while k < t.len() && t[k] != ':'
        invariant
            k <= t@.len(),
            forall|j: int| 0 <= j < k ==> t@[j] != ':',
        decreases t.len() - k,
    {
        k = k + 1;
    }
    proof {
        lemma_first_colon_at(t@, k as int);
    }
    if k == t.len() {
        return None;
    }
    let left_raw = subvec(&t, 0, k);
    let left_trimmed = trim_chars(&left_raw);
    let left_str = string_of(&left_trimmed);
    let left = chars_of(lowercase(left_str.as_str()).as_str());
    let right_raw = subvec(&t, k + 1, t.len());
    let right = trim_chars(&right_raw);
    proof {
        assert(t@.subrange(0, k as int) =~= t@.take(k as int));
        assert(t@.subrange(k + 1 as int, t@.len() as int) =~= t@.skip(k + 1 as int));
    }
    match lookup_field(&left) {
        Some(f) => Some(QueryClause { field: f, value: string_of(&right) }),
        None => None,
    }
}

/// Parses a raw query string into clauses and operators.
///
/// Returns the clauses in order with one connective between each adjacent
/// pair; rejects a query in which no clause survives (`EmptyQuery`) and a
/// clause that is not `field:value` with a known field (`InvalidClause`).
pub fn parse(query_str: &str) -> (r: Result<ParsedQuery, ParseError>)
    ensures
        match parse_spec(query_str@) {
            ScanResult::Bad { text } => r matches Err(e) && e matches ParseError::InvalidClause(s)
                && s@ == text,
            ScanResult::Done { clauses, ops } => {
                if clauses.len() == 0 {
                    r matches Err(e) && e is EmptyQuery
                } else {
                    r matches Ok(pq) && pq@.clauses == clauses && pq@.ops == ops
                }
            },
        },
        r matches Ok(pq) ==> pq@.wf(),
        r matches Ok(pq) ==> pq@.clauses.len() > 0,
{
    let v = chars_of(query_str);
    let replaced = replace_commas_exec(&v);
    let tokens = tokenize(&replaced);
    let ghost toks = tokens.deep_view();

    let mut clauses: Vec<QueryClause> = Vec::new();
    let mut ops: Vec<QueryOp> = Vec::new();
    let mut buf: Vec<char> = Vec::new();
    let mut pending: Option<QueryOp> = None;
    let mut i: usize = 0;

    let and_word = vec!['a', 'n', 'd'];
    let or_word = vec!['o', 'r'];
    proof {
        reveal_strlit("and");
        reveal_strlit("or");
        assert(and_word@ =~= "and"@);
        assert(or_word@ =~= "or"@);
        assert(toks.skip(0) =~~= toks);
        assert(clause_views(clauses@) =~= Seq::<ClauseView>::empty());
    }

    while i < tokens.len()
        invariant
            i <= tokens.len(),
            toks == tokens.deep_view(),
            tokens@.len() == toks.len(),
            and_word@ == "and"@,
            or_word@ == "or"@,
            parse_spec(query_str@) == scan(
                toks.skip(i as int),
                buf@,
                pending,
                clause_views(clauses@),
                ops@,
            ),
            clauses@.len() == 0 ==> ops@.len() == 0,
            clauses@.len() > 0 ==> ops@.len() == clauses@.len() - 1,
        decreases tokens.len() - i,
    {
        let t = &tokens[i];
        proof {
            assert(tokens@[i as int].deep_view() =~= tokens@[i as int]@);
            assert(toks.skip(i as int)[0] == toks[i as int]);
            assert(toks.skip(i as int).drop_first() =~~= toks.skip(i + 1 as int));
        }
        let is_and = lowered_equals(t, &and_word);
        let is_or = lowered_equals(t, &or_word);
        if is_and || is_or {
            let op = if is_and {
                QueryOp::And
            } else {
                QueryOp::Or
            };
            if buf.len() > 0 {
                match finalize_clause(&buf) {
                    Some(c) => {
                        let ghost old_views = clause_views(clauses@);
                        let ghost old_ops = ops@;
                        if clauses.len() > 0 {
                            let p = match pending {
                                Some(o) => o,
                                None => QueryOp::And,
                            };
                            ops.push(p);
                        }
                        proof {
                            assert(ops@ =~= old_ops + ops_emitted(pending, old_views.len()));
                        }
                        let ghost cv = c@;
                        clauses.push(c);
                        proof {
                            assert(clause_views(clauses@) =~= old_views.push(cv));
                        }
                        buf = Vec::new();
                    },
                    None => {
                        return Err(ParseError::InvalidClause(string_of(&buf)));
                    },
                }
            } else {
                proof {
                    assert(buf@ =~= Seq::<char>::empty());
                }
            }
            pending = Some(op);
        } else {
            let ghost old_buf = buf@;
            if buf.len() > 0 {
                buf.push(' ');
                append_chars(&mut buf, t);
                proof {
                    assert(buf@ =~= old_buf + seq![' '] + t@);
                }
            } else {
                append_chars(&mut buf, t);
                proof {
                    assert(old_buf =~= Seq::<char>::empty());
                    assert(buf@ =~= t@);
                }
            }
        }
        i = i + 1;
    }

    proof {
        assert(toks.skip(toks.len() as int) =~~= Seq::<Seq<char>>::empty());
    }

    if buf.len() > 0 {
        match finalize_clause(&buf) {
            Some(c) => {
                let ghost old_views = clause_views(clauses@);
                let ghost old_ops = ops@;
                if clauses.len() > 0 {
                    let p = match pending {
                        Some(o) => o,
                        None => QueryOp::And,
                    };
                    ops.push(p);
                }
                proof {
                    assert(ops@ =~= old_ops + ops_emitted(pending, old_views.len()));
                }
                let ghost cv = c@;
                clauses.push(c);
                proof {
                    assert(clause_views(clauses@) =~= old_views.push(cv));
                }
            },
            None => {
                return Err(ParseError::InvalidClause(string_of(&buf)));
            },
        }
    } else {
        proof {
            assert(buf@ =~= Seq::<char>::empty());
        }
    }

    if clauses.len() == 0 {
        Err(ParseError::EmptyQuery)
    } else {
        Ok(ParsedQuery { clauses, ops })
    }
}

} // verus!
