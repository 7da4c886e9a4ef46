//! The value normalizer: canonicalizing clause values per field semantics.
//!
//! Identity fields are compared exactly, so their values lose all
//! whitespace and are lower-cased.  Text fields are tokenized later by the
//! index engine, so their values are only lower-cased and keep their
//! whitespace.  Lower-casing is the standard library's Unicode folding,
//! named [`lower_of`]; on ASCII values it is provably the character-wise
//! ASCII fold, and the idempotence law below is proved of that form.

use vstd::prelude::*;
use crate::chars::ascii_only;
use crate::chars::chars_of;
use crate::chars::is_space;
use crate::chars::is_space_exec;
use crate::chars::lemma_lower_char_stable;
use crate::chars::lemma_lower_chars_ascii;
use crate::chars::lemma_lower_chars_idempotent;
use crate::chars::lower_char;
use crate::chars::lower_chars;
use crate::chars::lower_of;
use crate::chars::lowercase;
use crate::chars::string_of;
use crate::fields::FieldClass;
use crate::fields::FieldName;
use crate::fields::field_class;
use crate::fields::field_class_exec;

verus! {

/// The sequence with every whitespace character removed.
pub open spec fn strip_space(s: Seq<char>) -> Seq<char>
    decreases s.len(),
{
    if s.len() == 0 {
        s
    } else if is_space(s[0]) {
        strip_space(s.drop_first())
    } else {
        seq![s[0]] + strip_space(s.drop_first())
    }
}

/// The canonical form of a value for the given field: identity values lose
/// all whitespace and are lower-cased, text values are lower-cased only.
pub open spec fn normalize_spec(field: FieldName, s: Seq<char>) -> Seq<char> {
    match field_class(field) {
        FieldClass::Identity => lower_of(strip_space(s)),
        FieldClass::Text => lower_of(s),
    }
}

/// What the normalizer computes on ASCII values, where the Unicode fold is
/// the character-wise ASCII fold.
pub open spec fn normalize_ascii(field: FieldName, s: Seq<char>) -> Seq<char> {
    match field_class(field) {
        FieldClass::Identity => lower_chars(strip_space(s)),
        FieldClass::Text => lower_chars(s),
    }
}

/// A stripped value holds no whitespace at all.
proof fn lemma_strip_space_no_space(s: Seq<char>)
    ensures
        forall|i: int| 0 <= i < strip_space(s).len() ==> !is_space(#[trigger] strip_space(s)[i]),
    decreases s.len(),
{
    if s.len() > 0 {
        lemma_strip_space_no_space(s.drop_first());
        let rest = strip_space(s.drop_first());
        if is_space(s[0]) {
            assert forall|i: int| 0 <= i < strip_space(s).len() implies !is_space(
                strip_space(s)[i],
            ) by {
                assert(strip_space(s)[i] == rest[i]);
            }
        } else {
            assert(strip_space(s) == seq![s[0]] + rest);
            assert forall|i: int| 0 <= i < strip_space(s).len() implies !is_space(
                strip_space(s)[i],
            ) by {
                if i > 0 {
                    assert(strip_space(s)[i] == rest[i - 1]);
                }
            }
        }
    }
}

/// Stripping a sequence without whitespace changes nothing.
proof fn lemma_strip_space_of_spaceless(s: Seq<char>)
    requires
        forall|i: int| 0 <= i < s.len() ==> !is_space(#[trigger] s[i]),
    ensures
        strip_space(s) == s,
    decreases s.len(),
{
    if s.len() > 0 {
        lemma_strip_space_of_spaceless(s.drop_first());
        assert(seq![s[0]] + s.drop_first() =~= s);
    }
}

/// Stripping keeps ASCII sequences ASCII.
proof fn lemma_strip_space_ascii(s: Seq<char>)
    requires
        ascii_only(s),
    ensures
        ascii_only(strip_space(s)),
    decreases s.len(),
{
    if s.len() > 0 {
        assert(ascii_only(s.drop_first()));
        lemma_strip_space_ascii(s.drop_first());
        let rest = strip_space(s.drop_first());
        if is_space(s[0]) {
            assert forall|i: int| 0 <= i < strip_space(s).len() implies ((#[trigger] strip_space(
                s,
            )[i]) as u32) < 128 by {
                assert(strip_space(s)[i] == rest[i]);
            }
        } else {
            assert(strip_space(s) == seq![s[0]] + rest);
            assert forall|i: int| 0 <= i < strip_space(s).len() implies ((#[trigger] strip_space(
                s,
            )[i]) as u32) < 128 by {
                if i > 0 {
                    assert(strip_space(s)[i] == rest[i - 1]);
                }
            }
        }
    }
}

/// Normalization is idempotent: on ASCII values, where the fold is the
/// provable character-wise one, normalizing a normalized value is the
/// identity for every field, and the result stays ASCII.  The normalizer's
/// contract ties [`normalize_ascii`] to what it returns on exactly these
/// values; outside ASCII, idempotence rests on the engine's Unicode
/// folding, of which this crate states nothing.
pub proof fn lemma_normalize_idempotent(field: FieldName, s: Seq<char>)
    requires
        ascii_only(s),
    ensures
        normalize_ascii(field, normalize_ascii(field, s)) == normalize_ascii(field, s),
        ascii_only(normalize_ascii(field, s)),
{
    match field_class(field) {
        FieldClass::Identity => {
            let t = strip_space(s);
            lemma_strip_space_ascii(s);
            lemma_lower_chars_ascii(t);
            lemma_strip_space_no_space(s);
            assert forall|i: int| 0 <= i < lower_chars(t).len() implies !is_space(
                #[trigger] lower_chars(t)[i],
            ) by {
                lemma_lower_char_stable(t[i]);
            }
            lemma_strip_space_of_spaceless(lower_chars(t));
            lemma_lower_chars_idempotent(t);
        },
        FieldClass::Text => {
            lemma_lower_chars_ascii(s);
            lemma_lower_chars_idempotent(s);
        },
    }
}

/// Canonicalizes a clause value for the given field: identity fields lose
/// all whitespace and are lower-cased, text fields are lower-cased only.
/// On ASCII values the result is exactly [`normalize_ascii`].
pub fn normalize_value(field: FieldName, value: &str) -> (r: String)
    ensures
        r@ == normalize_spec(field, value@),
        ascii_only(value@) ==> r@ == normalize_ascii(field, value@),
{
    match field_class_exec(field) {
        FieldClass::Identity => {
            let v = chars_of(value);
            let mut out: Vec<char> = Vec::new();
            let mut i: usize = 0;
            proof {
                assert(v@.skip(0) =~= v@);
                assert(out@ + strip_space(v@) =~= strip_space(v@));
            }
            while i < v.len()
                invariant
                    i <= v.len(),
                    strip_space(v@) == out@ + strip_space(v@.skip(i as int)),
                decreases v.len() - i,
            {
                let ghost old_out = out@;
                proof {
                    assert(v@.skip(i as int)[0] == v@[i as int]);
                    assert(v@.skip(i as int).drop_first() =~= v@.skip(i + 1 as int));
                }
                if !is_space_exec(v[i]) {
                    out.push(v[i]);
                    proof {
                        assert(out@ =~= old_out + seq![v@[i as int]]);
                        assert(old_out + (seq![v@[i as int]] + strip_space(v@.skip(i + 1 as int)))
                            =~= out@ + strip_space(v@.skip(i + 1 as int)));
                    }
                }
                i = i + 1;
            }
            proof {
                assert(v@.skip(v@.len() as int) =~= Seq::<char>::empty());
                assert(out@ + strip_space(Seq::<char>::empty()) =~= out@);
                if ascii_only(value@) {
                    lemma_strip_space_ascii(value@);
                }
            }
            let stripped = string_of(&out);
            lowercase(stripped.as_str())
        },
        FieldClass::Text => lowercase(value),
    }
}

} // verus!
