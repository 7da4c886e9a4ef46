//! The fixed set of record fields and their classification.
//!
//! Every record carries the same seven fields.  Identity fields are queried
//! by exact, whitespace/case-normalized match; text fields are queried via
//! tokenized, case-insensitive matching.  The classification is fixed, not
//! configurable.

use vstd::prelude::*;
use crate::chars::chars_eq;
use crate::chars::lower_chars_exec;

verus! {

/// One of the seven known record fields.
#[derive(Clone, Copy, Debug, PartialEq, Eq, Structural)]
pub enum FieldName {
    MasterId,
    Mobile,
    Alt,
    Name,
    Fname,
    Address,
    Email,
}

/// How a field is queried.
#[derive(Clone, Copy, Debug, PartialEq, Eq, Structural)]
pub enum FieldClass {
    /// Exact match on the whole (normalized) value.
    Identity,
    /// Tokenized, case-insensitive, order-independent match.
    Text,
}

/// The fixed classification of each field.
pub open spec fn field_class(f: FieldName) -> FieldClass {
    match f {
        FieldName::MasterId => FieldClass::Identity,
        FieldName::Mobile => FieldClass::Identity,
        FieldName::Alt => FieldClass::Identity,
        FieldName::Name => FieldClass::Text,
        FieldName::Fname => FieldClass::Text,
        FieldName::Address => FieldClass::Text,
        FieldName::Email => FieldClass::Text,
    }
}

/// Executable twin of [`field_class`].
pub fn field_class_exec(f: FieldName) -> (r: FieldClass)
    ensures
        r == field_class(f),
{
    match f {
        FieldName::MasterId => FieldClass::Identity,
        FieldName::Mobile => FieldClass::Identity,
        FieldName::Alt => FieldClass::Identity,
        FieldName::Name => FieldClass::Text,
        FieldName::Fname => FieldClass::Text,
        FieldName::Address => FieldClass::Text,
        FieldName::Email => FieldClass::Text,
    }
}

/// The lower-case spelling of each field name in query strings.
pub open spec fn field_name_chars(f: FieldName) -> Seq<char> {
    match f {
        FieldName::MasterId => "master_id"@,
        FieldName::Mobile => "mobile"@,
        FieldName::Alt => "alt"@,
        FieldName::Name => "name"@,
        FieldName::Fname => "fname"@,
        FieldName::Address => "address"@,
        FieldName::Email => "email"@,
    }
}

/// The field a (lower-cased) spelling denotes, if any.
pub open spec fn field_of_chars(s: Seq<char>) -> Option<FieldName> {
    if s == field_name_chars(FieldName::MasterId) {
        Some(FieldName::MasterId)
    } else if s == field_name_chars(FieldName::Mobile) {
        Some(FieldName::Mobile)
    } else if s == field_name_chars(FieldName::Alt) {
        Some(FieldName::Alt)
    } else if s == field_name_chars(FieldName::Name) {
        Some(FieldName::Name)
    } else if s == field_name_chars(FieldName::Fname) {
        Some(FieldName::Fname)
    } else if s == field_name_chars(FieldName::Address) {
        Some(FieldName::Address)
    } else if s == field_name_chars(FieldName::Email) {
        Some(FieldName::Email)
    } else {
        None
    }
}

/// A field's name as a vector of characters.
pub fn field_name_vec(f: FieldName) -> (r: Vec<char>)
    ensures
        r@ == field_name_chars(f),
{
    match f {
        FieldName::MasterId => {
            let r = vec!['m', 'a', 's', 't', 'e', 'r', '_', 'i', 'd'];
            proof {
                reveal_strlit("master_id");
                assert(r@ =~= "master_id"@);
            }
            r
        },
        FieldName::Mobile => {
            let r = vec!['m', 'o', 'b', 'i', 'l', 'e'];
            proof {
                reveal_strlit("mobile");
                assert(r@ =~= "mobile"@);
            }
            r
        },
        FieldName::Alt => {
            let r = vec!['a', 'l', 't'];
            proof {
                reveal_strlit("alt");
                assert(r@ =~= "alt"@);
            }
            r
        },
        FieldName::Name => {
            let r = vec!['n', 'a', 'm', 'e'];
            proof {
                reveal_strlit("name");
                assert(r@ =~= "name"@);
            }
            r
        },
        FieldName::Fname => {
            let r = vec!['f', 'n', 'a', 'm', 'e'];
            proof {
                reveal_strlit("fname");
                assert(r@ =~= "fname"@);
            }
            r
        },
        FieldName::Address => {
            let r = vec!['a', 'd', 'd', 'r', 'e', 's', 's'];
            proof {
                reveal_strlit("address");
                assert(r@ =~= "address"@);
            }
            r
        },
        FieldName::Email => {
            let r = vec!['e', 'm', 'a', 'i', 'l'];
            proof {
                reveal_strlit("email");
                assert(r@ =~= "email"@);
            }
            r
        },
    }
}

/// A field's name as an owned string.
pub fn field_name_string(f: FieldName) -> (r: String)
    ensures
        r@ == field_name_chars(f),
{
    let v = field_name_vec(f);
    crate::chars::string_of(&v)
}

/// Looks a (lower-cased) spelling up in the fixed field set.
pub fn lookup_field(s: &Vec<char>) -> (r: Option<FieldName>)
    ensures
        r == field_of_chars(s@),
{
    let master_id = field_name_vec(FieldName::MasterId);
    if chars_eq(s, &master_id) {
        return Some(FieldName::MasterId);
    }
    let mobile = field_name_vec(FieldName::Mobile);
    if chars_eq(s, &mobile) {
        return Some(FieldName::Mobile);
    }
    let alt = field_name_vec(FieldName::Alt);
    if chars_eq(s, &alt) {
        return Some(FieldName::Alt);
    }
    let name = field_name_vec(FieldName::Name);
    if chars_eq(s, &name) {
        return Some(FieldName::Name);
    }
    let fname = field_name_vec(FieldName::Fname);
    if chars_eq(s, &fname) {
        return Some(FieldName::Fname);
    }
    let address = field_name_vec(FieldName::Address);
    if chars_eq(s, &address) {
        return Some(FieldName::Address);
    }
    let email = field_name_vec(FieldName::Email);
    if chars_eq(s, &email) {
        return Some(FieldName::Email);
    }
    None
}

/// Case-insensitive comparison of a token against a field-name-sized word.
pub fn lowered_equals(t: &Vec<char>, w: &Vec<char>) -> (r: bool)
    ensures
        r == (crate::chars::lower_chars(t@) == w@),
{
    let lowered = lower_chars_exec(t);
    chars_eq(&lowered, w)
}

} // verus!
