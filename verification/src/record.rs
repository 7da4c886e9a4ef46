//! A retrieved record: the seven stored fields, projected to plain strings.
//!
//! Records live in the index engine; the core only reads them.  A missing
//! stored field is projected to the empty string by the caller that fetches
//! the document.

use vstd::prelude::*;
use crate::fields::FieldName;

verus! {

/// One record of the identity table.
#[derive(Debug)]
pub struct Record {
    pub master_id: String,
    pub mobile: String,
    pub alt: String,
    pub name: String,
    pub fname: String,
    pub address: String,
    pub email: String,
}

/// The mathematical shape of a record.
#[verifier::ext_equal]
pub struct RecordView {
    pub master_id: Seq<char>,
    pub mobile: Seq<char>,
    pub alt: Seq<char>,
    pub name: Seq<char>,
    pub fname: Seq<char>,
    pub address: Seq<char>,
    pub email: Seq<char>,
}

impl View for Record {
    type V = RecordView;

    open spec fn view(&self) -> RecordView {
        RecordView {
            master_id: self.master_id@,
            mobile: self.mobile@,
            alt: self.alt@,
            name: self.name@,
            fname: self.fname@,
            address: self.address@,
            email: self.email@,
        }
    }
}

/// The value a record holds in the given field.
pub open spec fn record_field(r: RecordView, f: FieldName) -> Seq<char> {
    match f {
        FieldName::MasterId => r.master_id,
        FieldName::Mobile => r.mobile,
        FieldName::Alt => r.alt,
        FieldName::Name => r.name,
        FieldName::Fname => r.fname,
        FieldName::Address => r.address,
        FieldName::Email => r.email,
    }
}

/// Executable twin of [`record_field`].
pub fn field_value<'a>(r: &'a Record, f: FieldName) -> (v: &'a String)
    ensures
        v@ == record_field(r@, f),
{
    match f {
        FieldName::MasterId => &r.master_id,
        FieldName::Mobile => &r.mobile,
        FieldName::Alt => &r.alt,
        FieldName::Name => &r.name,
        FieldName::Fname => &r.fname,
        FieldName::Address => &r.address,
        FieldName::Email => &r.email,
    }
}

/// The views of a sequence of records.
pub open spec fn record_views(s: Seq<Record>) -> Seq<RecordView> {
    s.map_values(|r: Record| r@)
}

} // verus!
