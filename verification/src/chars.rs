//! Character- and string-level helpers shared by the query pipeline.
//!
//! Whitespace is the full Unicode `White_Space` list, as the standard
//! library's `char::is_whitespace` defines it.  Case folding comes in two
//! forms: the boolean operators of the grammar are compared ASCII
//! case-insensitively, while clause values and field names are folded with
//! the standard library's Unicode lower-casing, reached through the one
//! trusted wrapper of this crate and named [`lower_of`]; on ASCII input
//! that folding is the character-wise [`lower_char`] below.

use vstd::prelude::*;
use vstd::string::StrSliceExecFns;
use vstd::string::StringExecFns;

verus! {

/// Whitespace as the query grammar understands it: the Unicode
/// `White_Space` code points, exactly the list `char::is_whitespace`
/// accepts.
pub open spec fn is_space(c: char) -> bool {
    ||| c == '\u{0009}'
    ||| c == '\u{000A}'
    ||| c == '\u{000B}'
    ||| c == '\u{000C}'
    ||| c == '\u{000D}'
    ||| c == ' '
    ||| c == '\u{0085}'
    ||| c == '\u{00A0}'
    ||| c == '\u{1680}'
    ||| c == '\u{2000}'
    ||| c == '\u{2001}'
    ||| c == '\u{2002}'
    ||| c == '\u{2003}'
    ||| c == '\u{2004}'
    ||| c == '\u{2005}'
    ||| c == '\u{2006}'
    ||| c == '\u{2007}'
    ||| c == '\u{2008}'
    ||| c == '\u{2009}'
    ||| c == '\u{200A}'
    ||| c == '\u{2028}'
    ||| c == '\u{2029}'
    ||| c == '\u{202F}'
    ||| c == '\u{205F}'
    ||| c == '\u{3000}'
}

/// A sequence of ASCII characters only.
pub open spec fn ascii_only(s: Seq<char>) -> bool {
    forall|i: int| 0 <= i < s.len() ==> ((#[trigger] s[i]) as u32) < 128
}

/// ASCII lower-casing of one character; anything else is unchanged.
pub open spec fn lower_char(c: char) -> char {
    match c {
        'A' => 'a', 'B' => 'b', 'C' => 'c', 'D' => 'd', 'E' => 'e',
        'F' => 'f', 'G' => 'g', 'H' => 'h', 'I' => 'i', 'J' => 'j',
        'K' => 'k', 'L' => 'l', 'M' => 'm', 'N' => 'n', 'O' => 'o',
        'P' => 'p', 'Q' => 'q', 'R' => 'r', 'S' => 's', 'T' => 't',
        'U' => 'u', 'V' => 'v', 'W' => 'w', 'X' => 'x', 'Y' => 'y',
        'Z' => 'z',
        _ => c,
    }
}

/// Lower-casing a sequence character by character.
pub open spec fn lower_chars(s: Seq<char>) -> Seq<char> {
    s.map_values(|c: char| lower_char(c))
}

/// Lower-casing never produces an upper-case letter, so folding twice is
/// folding once; it maps whitespace to itself; and it keeps ASCII
/// characters ASCII.
pub proof fn lemma_lower_char_stable(c: char)
    ensures
        lower_char(lower_char(c)) == lower_char(c),
        is_space(lower_char(c)) == is_space(c),
        (c as u32) < 128 ==> (lower_char(c) as u32) < 128,
{
}

/// ASCII folding of a whole sequence keeps it ASCII.
pub proof fn lemma_lower_chars_ascii(s: Seq<char>)
    requires
        ascii_only(s),
    ensures
        ascii_only(lower_chars(s)),
{
    assert forall|i: int| 0 <= i < lower_chars(s).len() implies ((#[trigger] lower_chars(
        s,
    )[i]) as u32) < 128 by {
        lemma_lower_char_stable(s[i]);
    }
}

pub proof fn lemma_lower_chars_idempotent(s: Seq<char>)
    ensures
        lower_chars(lower_chars(s)) == lower_chars(s),
{
    assert(lower_chars(lower_chars(s)) =~= lower_chars(s));
}

/// Executable twin of [`lower_char`].
pub fn lower_char_exec(c: char) -> (r: char)
    ensures
        r == lower_char(c),
{
    match c {
        'A' => 'a', 'B' => 'b', 'C' => 'c', 'D' => 'd', 'E' => 'e',
        'F' => 'f', 'G' => 'g', 'H' => 'h', 'I' => 'i', 'J' => 'j',
        'K' => 'k', 'L' => 'l', 'M' => 'm', 'N' => 'n', 'O' => 'o',
        'P' => 'p', 'Q' => 'q', 'R' => 'r', 'S' => 's', 'T' => 't',
        'U' => 'u', 'V' => 'v', 'W' => 'w', 'X' => 'x', 'Y' => 'y',
        'Z' => 'z',
        _ => c,
    }
}

/// Executable twin of [`is_space`].
pub fn is_space_exec(c: char) -> (r: bool)
    ensures
        r == is_space(c),
{
    c == '\u{0009}' || c == '\u{000A}' || c == '\u{000B}' || c == '\u{000C}'
        || c == '\u{000D}' || c == ' ' || c == '\u{0085}' || c == '\u{00A0}'
        || c == '\u{1680}' || c == '\u{2000}' || c == '\u{2001}' || c == '\u{2002}'
        || c == '\u{2003}' || c == '\u{2004}' || c == '\u{2005}' || c == '\u{2006}'
        || c == '\u{2007}' || c == '\u{2008}' || c == '\u{2009}' || c == '\u{200A}'
        || c == '\u{2028}' || c == '\u{2029}' || c == '\u{202F}' || c == '\u{205F}'
        || c == '\u{3000}'
}

/// The Unicode lower-casing of a character sequence, as the standard
/// library's `str::to_lowercase` computes it.  The full mapping takes
/// tables to state; this name stands for it, and the trusted wrapper
/// [`lowercase`] is its one point of contact with the running code.
pub uninterp spec fn lower_of(s: Seq<char>) -> Seq<char>;

/// Relies on `str::to_lowercase`: returns the lower-case equivalent of the
/// string, per the Unicode `Lowercase` property.  The result depends on
/// the characters alone; on ASCII input the documentation's examples and
/// the contrast drawn by `str::to_ascii_lowercase` fix it as the
/// character-wise ASCII fold.
#[verifier::external_body]
pub(crate) fn lowercase(s: &str) -> (r: String)
    ensures
        r@ == lower_of(s@),
        ascii_only(s@) ==> r@ == lower_chars(s@),
{
    s.to_lowercase()
}

/// Executable lower-casing of a character vector.
pub fn lower_chars_exec(v: &Vec<char>) -> (r: Vec<char>)
    ensures
        r@ == lower_chars(v@),
{
    let mut out: Vec<char> = Vec::new();
    let mut i: usize = 0;
    while i < v.len()
        invariant
            i <= v.len(),
            out@ == lower_chars(v@.take(i as int)),
        decreases v.len() - i,
    {
        out.push(lower_char_exec(v[i]));
        proof {
            assert(lower_chars(v@.take(i + 1 as int)) =~= lower_chars(
                v@.take(i as int),
            ).push(lower_char(v@[i as int])));
        }
        i = i + 1;
    }
    proof {
        assert(v@.take(v@.len() as int) =~= v@);
    }
    out
}

/// The characters of a string slice, in order.
pub fn chars_of(s: &str) -> (r: Vec<char>)
    ensures
        r@ == s@,
{
    let n = s.unicode_len();
    let mut out: Vec<char> = Vec::new();
    let mut i: usize = 0;
    while i < n
        invariant
            i <= n,
            n == s@.len(),
            out@ == s@.take(i as int),
        decreases n - i,
    {
        out.push(s.get_char(i));
        proof {
            assert(s@.take(i + 1 as int) =~= s@.take(i as int).push(s@[i as int]));
        }
        i = i + 1;
    }
    proof {
        assert(s@.take(s@.len() as int) =~= s@);
    }
    out
}

/// Relies on `String::push`: appends the given character to the end of the
/// string.
#[verifier::external_body]
pub(crate) fn push_char(s: &mut String, c: char)
    ensures
        final(s)@ == old(s)@.push(c),
{
    s.push(c);
}

/// A `String` holding exactly the given characters.
pub fn string_of(v: &Vec<char>) -> (r: String)
    ensures
        r@ == v@,
{
    let mut out = String::new();
    let mut i: usize = 0;
    while i < v.len()
        invariant
            i <= v.len(),
            out@ == v@.take(i as int),
        decreases v.len() - i,
    {
        push_char(&mut out, v[i]);
        proof {
            assert(v@.take(i + 1 as int) =~= v@.take(i as int).push(v@[i as int]));
        }
        i = i + 1;
    }
    proof {
        assert(v@.take(v@.len() as int) =~= v@);
    }
    out
}

/// Character-wise equality of two vectors.
pub fn chars_eq(a: &Vec<char>, b: &Vec<char>) -> (r: bool)
    ensures
        r == (a@ == b@),
{
    if a.len() != b.len() {
        return false;
    }
    let mut i: usize = 0;
    while i < a.len()
        invariant
            i <= a.len(),
            a.len() == b.len(),
            forall|j: int| 0 <= j < i ==> a@[j] == b@[j],
        decreases a.len() - i,
    {
        if a[i] != b[i] {
            return false;
        }
        i = i + 1;
    }
    proof {
        assert(a@ =~= b@);
    }
    true
}

/// Character-wise equality of two string slices.
pub fn str_eq(a: &str, b: &str) -> (r: bool)
    ensures
        r == (a@ == b@),
{
    let na = a.unicode_len();
    let nb = b.unicode_len();
    if na != nb {
        return false;
    }
    let mut i: usize = 0;
    while i < na
        invariant
            i <= na,
            na == a@.len(),
            na == b@.len(),
            forall|j: int| 0 <= j < i ==> a@[j] == b@[j],
        decreases na - i,
    {
        if a.get_char(i) != b.get_char(i) {
            return false;
        }
        i = i + 1;
    }
    proof {
        assert(a@ =~= b@);
    }
    true
}

/// Appends all characters of `t` to `buf`.
pub fn append_chars(buf: &mut Vec<char>, t: &Vec<char>)
    ensures
        final(buf)@ == old(buf)@ + t@,
{
    let ghost orig = buf@;
    let mut i: usize = 0;
    while i < t.len()
        invariant
            i <= t.len(),
            buf@ == orig + t@.take(i as int),
        decreases t.len() - i,
    {
        buf.push(t[i]);
        proof {
            assert(orig + t@.take(i + 1 as int) =~= (orig + t@.take(i as int)).push(t@[i as int]));
        }
        i = i + 1;
    }
    proof {
        assert(orig + t@.take(t@.len() as int) =~= orig + t@);
    }
}

/// A copy of the characters in positions `lo..hi`.
pub fn subvec(v: &Vec<char>, lo: usize, hi: usize) -> (r: Vec<char>)
    requires
        lo <= hi <= v@.len(),
    ensures
        r@ == v@.subrange(lo as int, hi as int),
{
    let mut out: Vec<char> = Vec::new();
    let mut i: usize = lo;
    while i < hi
        invariant
            lo <= i <= hi <= v@.len(),
            out@ == v@.subrange(lo as int, i as int),
        decreases hi - i,
    {
        out.push(v[i]);
        proof {
            assert(v@.subrange(lo as int, i + 1 as int) =~= v@.subrange(
                lo as int,
                i as int,
            ).push(v@[i as int]));
        }
        i = i + 1;
    }
    out
}

/// Whether some string in the vector has exactly these characters.
pub fn contains_str(v: &Vec<String>, s: &str) -> (r: bool)
    ensures
        r == (exists|k: int| 0 <= k < v@.len() && (#[trigger] v@[k])@ == s@),
{
    let mut k: usize = 0;
    while k < v.len()
        invariant
            k <= v@.len(),
            forall|j: int| 0 <= j < k ==> (#[trigger] v@[j])@ != s@,
        decreases v.len() - k,
    {
        if str_eq(v[k].as_str(), s) {
            return true;
        }
        k = k + 1;
    }
    false
}

/// The sequence without its leading whitespace.
pub open spec fn trim_start(s: Seq<char>) -> Seq<char>
    decreases s.len(),
{
    if s.len() == 0 {
        s
    } else if is_space(s[0]) {
        trim_start(s.drop_first())
    } else {
        s
    }
}

/// The sequence without its trailing whitespace.
pub open spec fn trim_end(s: Seq<char>) -> Seq<char>
    decreases s.len(),
{
    if s.len() == 0 {
        s
    } else if is_space(s.last()) {
        trim_end(s.drop_last())
    } else {
        s
    }
}

/// The sequence without leading or trailing whitespace.
pub open spec fn trim(s: Seq<char>) -> Seq<char> {
    trim_end(trim_start(s))
}

/// When every character before `lo` is whitespace and the one at `lo` (if
/// any) is not, trimming the start is skipping to `lo`.
proof fn lemma_trim_start_skip(s: Seq<char>, lo: int)
    requires
        0 <= lo <= s.len(),
        forall|j: int| 0 <= j < lo ==> is_space(s[j]),
        lo < s.len() ==> !is_space(s[lo]),
    ensures
        trim_start(s) == s.skip(lo),
    decreases lo,
{
    if lo == 0 {
        assert(s.skip(0) =~= s);
    } else {
        lemma_trim_start_skip(s.drop_first(), lo - 1);
        assert(s.drop_first().skip(lo - 1) =~= s.skip(lo));
    }
}

/// When every character from `hi` on is whitespace and the one before `hi`
/// (if any) is not, trimming the end is taking `hi` characters.
proof fn lemma_trim_end_take(s: Seq<char>, hi: int)
    requires
        0 <= hi <= s.len(),
        forall|j: int| hi <= j < s.len() ==> is_space(s[j]),
        0 < hi ==> !is_space(s[hi - 1]),
    ensures
        trim_end(s) == s.take(hi),
    decreases s.len(),
{
    if hi == s.len() {
        if s.len() == 0 {
            assert(s.take(0) =~= s);
        } else if !is_space(s.last()) {
            assert(s.take(hi) =~= s);
        } else {
            // hi == s.len() and s.last() is whitespace: then hi > 0 forces
            // s[hi - 1] == s.last() not to be whitespace, a contradiction,
            // so this branch needs hi == 0 and the sequence is empty.
            assert(false);
        }
    } else {
        lemma_trim_end_take(s.drop_last(), hi);
        assert(s.drop_last().take(hi) =~= s.take(hi));
    }
}

/// Executable trim over a character vector.
pub fn trim_chars(v: &Vec<char>) -> (r: Vec<char>)
    ensures
        r@ == trim(v@),
{
    let mut lo: usize = 0;
    while lo < v.len() && is_space_exec(v[lo])
        invariant
            lo <= v.len(),
            forall|j: int| 0 <= j < lo ==> is_space(v@[j]),
        decreases v.len() - lo,
    {
        lo = lo + 1;
    }
    if lo == v.len() {
        // all whitespace
        proof {
            lemma_trim_start_skip(v@, lo as int);
            assert(v@.skip(lo as int) =~= Seq::<char>::empty());
        }
        return Vec::new();
    }
    let mut hi: usize = v.len();
    while hi > lo && is_space_exec(v[hi - 1])
        invariant
            lo <= hi <= v.len(),
            lo < v.len(),
            !is_space(v@[lo as int]),
            forall|j: int| hi <= j < v.len() ==> is_space(v@[j]),
        decreases hi,
    {
        hi = hi - 1;
    }
    let mut out: Vec<char> = Vec::new();
    let mut i: usize = lo;
    while i < hi
        invariant
            lo <= i <= hi <= v.len(),
            out@ == v@.subrange(lo as int, i as int),
        decreases hi - i,
    {
        out.push(v[i]);
        proof {
            assert(v@.subrange(lo as int, i + 1 as int) =~= v@.subrange(
                lo as int,
                i as int,
            ).push(v@[i as int]));
        }
        i = i + 1;
    }
    proof {
        lemma_trim_start_skip(v@, lo as int);
        lemma_trim_end_take(v@.skip(lo as int), hi - lo as int);
        assert(v@.skip(lo as int).take(hi - lo as int) =~= v@.subrange(lo as int, hi as int));
    }
    out
}

/// Trim over a string slice, producing an owned string.
pub fn trim_str(s: &str) -> (r: String)
    ensures
        r@ == trim(s@),
{
    let v = chars_of(s);
    let t = trim_chars(&v);
    string_of(&t)
}

/// Tokenization on whitespace, carried out left to right with the current
/// word as accumulator.
pub open spec fn tokens_acc(s: Seq<char>, cur: Seq<char>) -> Seq<Seq<char>>
    decreases s.len(),
{
    if s.len() == 0 {
        if cur.len() > 0 {
            seq![cur]
        } else {
            Seq::empty()
        }
    } else if is_space(s[0]) {
        if cur.len() > 0 {
            seq![cur] + tokens_acc(s.drop_first(), Seq::empty())
        } else {
            tokens_acc(s.drop_first(), Seq::empty())
        }
    } else {
        tokens_acc(s.drop_first(), cur.push(s[0]))
    }
}

/// The whitespace-delimited words of a sequence, in order.
pub open spec fn tokens_of(s: Seq<char>) -> Seq<Seq<char>> {
    tokens_acc(s, Seq::empty())
}

/// Executable tokenizer.
pub fn tokenize(v: &Vec<char>) -> (r: Vec<Vec<char>>)
    ensures
        r.deep_view() == tokens_of(v@),
{
    let mut out: Vec<Vec<char>> = Vec::new();
    let mut cur: Vec<char> = Vec::new();
    let mut i: usize = 0;
    proof {
        assert(v@.skip(0) =~= v@);
        assert(out.deep_view() + tokens_acc(v@, Seq::empty()) =~~= tokens_of(v@));
    }
    while i < v.len()
        invariant
            i <= v.len(),
            tokens_of(v@) == out.deep_view() + tokens_acc(v@.skip(i as int), cur@),
        decreases v.len() - i,
    {
        let c = v[i];
        proof {
            assert(v@.skip(i as int).len() > 0);
            assert(v@.skip(i as int)[0] == v@[i as int]);
            assert(v@.skip(i as int).drop_first() =~= v@.skip(i + 1 as int));
        }
        if is_space_exec(c) {
            if cur.len() > 0 {
                let ghost old_out = out.deep_view();
                let ghost cur_view = cur@;
                out.push(cur);
                cur = Vec::new();
                proof {
                    assert(out.deep_view() =~~= old_out + seq![cur_view]);
                    assert(old_out + (seq![cur_view] + tokens_acc(
                        v@.skip(i + 1 as int),
                        Seq::empty(),
                    )) =~~= out.deep_view() + tokens_acc(v@.skip(i + 1 as int), Seq::empty()));
                }
            } else {
                proof {
                    assert(cur@ =~= Seq::<char>::empty());
                }
            }
        } else {
            cur.push(c);
        }
        i = i + 1;
    }
    proof {
        assert(v@.skip(v@.len() as int) =~= Seq::<char>::empty());
    }
    if cur.len() > 0 {
        let ghost old_out = out.deep_view();
        let ghost cur_view = cur@;
        out.push(cur);
        proof {
            assert(out.deep_view() =~~= old_out + seq![cur_view]);
            assert(tokens_of(v@) =~~= out.deep_view());
        }
    } else {
        proof {
            assert(tokens_of(v@) =~~= out.deep_view());
        }
    }
    out
}

/// The padded conjunction word a comma stands for.
pub open spec fn and_padded() -> Seq<char> {
    seq![' ', 'A', 'N', 'D', ' ']
}

/// Every comma replaced by the padded conjunction word, so that a comma
/// separates clauses exactly as an `AND` operator does.
pub open spec fn replace_commas(s: Seq<char>) -> Seq<char>
    decreases s.len(),
{
    if s.len() == 0 {
        s
    } else {
        (if s[0] == ',' {
            and_padded()
        } else {
            seq![s[0]]
        }) + replace_commas(s.drop_first())
    }
}

/// Executable comma replacement.
pub fn replace_commas_exec(v: &Vec<char>) -> (r: Vec<char>)
    ensures
        r@ == replace_commas(v@),
{
    let mut out: Vec<char> = Vec::new();
    let mut i: usize = 0;
    proof {
        assert(v@.skip(0) =~= v@);
        assert(out@ + replace_commas(v@) =~= replace_commas(v@));
    }
    while i < v.len()
        invariant
            i <= v.len(),
            replace_commas(v@) == out@ + replace_commas(v@.skip(i as int)),
        decreases v.len() - i,
    {
        let ghost old_out = out@;
        proof {
            assert(v@.skip(i as int).len() > 0);
            assert(v@.skip(i as int)[0] == v@[i as int]);
            assert(v@.skip(i as int).drop_first() =~= v@.skip(i + 1 as int));
        }
        if v[i] == ',' {
            out.push(' ');
            out.push('A');
            out.push('N');
            out.push('D');
            out.push(' ');
            proof {
                assert(out@ =~= old_out + and_padded());
                assert(old_out + (and_padded() + replace_commas(v@.skip(i + 1 as int))) =~= out@
                    + replace_commas(v@.skip(i + 1 as int)));
            }
        } else {
            out.push(v[i]);
            proof {
                assert(out@ =~= old_out + seq![v@[i as int]]);
                assert(old_out + (seq![v@[i as int]] + replace_commas(v@.skip(i + 1 as int)))
                    =~= out@ + replace_commas(v@.skip(i + 1 as int)));
            }
        }
        i = i + 1;
    }
    proof {
        assert(v@.skip(v@.len() as int) =~= Seq::<char>::empty());
        assert(out@ =~= out@ + replace_commas(Seq::<char>::empty()));
    }
    out
}

} // verus!
