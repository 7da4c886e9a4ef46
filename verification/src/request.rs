//! Structured search requests and their translation to query strings.
//!
//! A request carries one optional value per field and an optional `filter`
//! choosing the operator placed between all provided fields (`AND` unless
//! it selects `OR`, case-insensitively).  At least one field must be
//! non-empty after trimming, or the request is rejected.

use vstd::prelude::*;
use vstd::string::StringExecFns;
use crate::chars::chars_of;
use crate::chars::lower_chars;
use crate::chars::trim;
use crate::chars::trim_str;
use crate::fields::lowered_equals;

verus! {

/// A structured search request: one optional value per field, and the
/// operator selection.
#[derive(Debug)]
pub struct SearchRequest {
    pub name: Option<String>,
    pub fname: Option<String>,
    pub address: Option<String>,
    pub mobile: Option<String>,
    pub alt: Option<String>,
    pub master_id: Option<String>,
    pub email: Option<String>,
    /// `"AND"` or `"OR"`; the default is `AND`.
    pub filter: Option<String>,
}

/// The characters of an optional string.
pub open spec fn opt_view(o: Option<String>) -> Option<Seq<char>> {
    match o {
        Some(s) => Some(s@),
        None => None,
    }
}

/// The mathematical shape of a request.
#[verifier::ext_equal]
pub struct RequestView {
    pub name: Option<Seq<char>>,
    pub fname: Option<Seq<char>>,
    pub address: Option<Seq<char>>,
    pub mobile: Option<Seq<char>>,
    pub alt: Option<Seq<char>>,
    pub master_id: Option<Seq<char>>,
    pub email: Option<Seq<char>>,
    pub filter: Option<Seq<char>>,
}

impl View for SearchRequest {
    type V = RequestView;

    open spec fn view(&self) -> RequestView {
        RequestView {
            name: opt_view(self.name),
            fname: opt_view(self.fname),
            address: opt_view(self.address),
            mobile: opt_view(self.mobile),
            alt: opt_view(self.alt),
            master_id: opt_view(self.master_id),
            email: opt_view(self.email),
            filter: opt_view(self.filter),
        }
    }
}

/// Why a request was rejected.
#[derive(Clone, Copy, Debug, PartialEq, Eq, Structural)]
pub enum RequestError {
    /// No field held a non-empty value.
    NoFields,
}

/// The clause a provided field contributes: `label:trimmed-value`, or
/// nothing when the field is absent or blank.
pub open spec fn part_of(label: Seq<char>, o: Option<Seq<char>>) -> Seq<Seq<char>> {
    match o {
        Some(v) => if trim(v).len() > 0 {
            seq![label + ":"@ + trim(v)]
        } else {
            Seq::empty()
        },
        None => Seq::empty(),
    }
}

/// The clauses of a request, in the fixed field order.
pub open spec fn request_parts(rv: RequestView) -> Seq<Seq<char>> {
    part_of("name"@, rv.name) + part_of("fname"@, rv.fname) + part_of("address"@, rv.address)
        + part_of("mobile"@, rv.mobile) + part_of("alt"@, rv.alt) + part_of(
        "master_id"@,
        rv.master_id,
    ) + part_of("email"@, rv.email)
}

/// Whether the request selects `OR` (case-insensitively) between its
/// clauses.
pub open spec fn or_selected(rv: RequestView) -> bool {
    match rv.filter {
        Some(f) => lower_chars(f) == "or"@,
        None => false,
    }
}

/// The parts joined by the separator.
pub open spec fn joined(parts: Seq<Seq<char>>, sep: Seq<char>) -> Seq<char>
    decreases parts.len(),
{
    if parts.len() == 0 {
        Seq::empty()
    } else if parts.len() == 1 {
        parts[0]
    } else {
        parts[0] + sep + joined(parts.drop_first(), sep)
    }
}

proof fn lemma_joined_snoc(parts: Seq<Seq<char>>, sep: Seq<char>, x: Seq<char>)
    ensures
        joined(parts.push(x), sep) == if parts.len() == 0 {
            x
        } else {
            joined(parts, sep) + sep + x
        },
    decreases parts.len(),
{
    if parts.len() == 0 {
        assert(parts.push(x)[0] == x);
    } else {
        lemma_joined_snoc(parts.drop_first(), sep, x);
        assert(parts.push(x).drop_first() =~~= parts.drop_first().push(x));
        assert(parts.push(x)[0] == parts[0]);
        if parts.len() == 1 {
            assert(joined(parts, sep) == parts[0]);
        }
    }
}

/// Appends the clause of one field, if the field contributes one.
fn push_part(parts: &mut Vec<String>, label: &str, v: &Option<String>)
    ensures
        final(parts)@.map_values(|s: String| s@) == old(parts)@.map_values(|s: String| s@) + part_of(
            label@,
            opt_view(*v),
        ),
{
    let ghost old_map = parts@.map_values(|s: String| s@);
    match v {
        Some(s) => {
            let t = trim_str(s.as_str());
            if t.as_str().unicode_len() > 0 {
                let mut p = String::from_str(label);
                p.append(":");
                p.append(t.as_str());
                let ghost pv = p@;
                parts.push(p);
                proof {
                    assert(parts@.map_values(|s: String| s@) =~~= old_map + seq![pv]);
                    assert(pv =~= label@ + ":"@ + trim(s@));
                    assert(old_map + seq![pv] =~~= old_map + part_of(label@, opt_view(*v)));
                }
            } else {
                proof {
                    assert(parts@.map_values(|s: String| s@) =~~= old_map + part_of(
                        label@,
                        opt_view(*v),
                    ));
                }
            }
        },
        None => {
            proof {
                assert(parts@.map_values(|s: String| s@) =~~= old_map + part_of(
                    label@,
                    opt_view(*v),
                ));
            }
        },
    }
}

/// Turns a structured request into a query string: one `field:value`
/// clause per provided non-blank field, joined by the selected operator;
/// rejects a request in which no field contributes a clause.
pub fn build_query_string(req: &SearchRequest) -> (r: Result<String, RequestError>)
    ensures
        request_parts(req@).len() == 0 ==> (r matches Err(e) && e == RequestError::NoFields),
        request_parts(req@).len() > 0 ==> (r matches Ok(s) && s@ == joined(
            request_parts(req@),
            if or_selected(req@) {
                " OR "@
            } else {
                " AND "@
            },
        )),
{
    let mut parts: Vec<String> = Vec::new();
    proof {
        assert(parts@.map_values(|s: String| s@) =~~= Seq::<Seq<char>>::empty());
    }
    push_part(&mut parts, "name", &req.name);
    push_part(&mut parts, "fname", &req.fname);
    push_part(&mut parts, "address", &req.address);
    push_part(&mut parts, "mobile", &req.mobile);
    push_part(&mut parts, "alt", &req.alt);
    push_part(&mut parts, "master_id", &req.master_id);
    push_part(&mut parts, "email", &req.email);
    let ghost pv = parts@.map_values(|s: String| s@);
    proof {
        assert(pv =~~= request_parts(req@));
    }
    if parts.len() == 0 {
        return Err(RequestError::NoFields);
    }
    let is_or = match &req.filter {
        Some(f) => {
            let fv = chars_of(f.as_str());
            let or_word = vec!['o', 'r'];
            proof {
                reveal_strlit("or");
                assert(or_word@ =~= "or"@);
            }
            lowered_equals(&fv, &or_word)
        },
        None => false,
    };
    let sep: &str = if is_or {
        " OR "
    } else {
        " AND "
    };
    let ghost sepv = sep@;
    let mut out = String::from_str(parts[0].as_str());
    let mut j: usize = 1;
    proof {
        assert(pv.take(1) =~~= seq![pv[0]]);
        assert(joined(pv.take(1), sepv) == pv[0]);
    }
    while j < parts.len()
        invariant
            1 <= j <= parts@.len(),
            pv == parts@.map_values(|s: String| s@),
            sepv == sep@,
            out@ == joined(pv.take(j as int), sepv),
        decreases parts.len() - j,
    {
        let ghost out_before = out@;
        out.append(sep);
        out.append(parts[j].as_str());
        proof {
            assert(parts@[j as int]@ == pv[j as int]);
            assert(out@ =~= out_before + sepv + pv[j as int]);
            assert(pv.take(j + 1 as int) =~~= pv.take(j as int).push(pv[j as int]));
            lemma_joined_snoc(pv.take(j as int), sepv, pv[j as int]);
            assert(pv.take(j as int).len() == j);
            assert(joined(pv.take(j + 1 as int), sepv) == joined(pv.take(j as int), sepv) + sepv
                + pv[j as int]);
            assert(out@ == joined(pv.take(j + 1 as int), sepv));
        }
        j = j + 1;
    }
    proof {
        assert(pv.take(pv.len() as int) =~~= pv);
    }
    Ok(out)
}

} // verus!
