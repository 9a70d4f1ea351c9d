//! Names as text: the normal form of a name and the order in which names are listed.

use vstd::prelude::*;
use vstd::utf8::{encode_scalar, encode_utf8, is_char_boundary};

verus! {

/// The upper-case form that the standard library gives to a text.
pub uninterp spec fn uppercase_of(s: Seq<char>) -> Seq<char>;

/// Calls `str::to_uppercase`. Trusted: the result depends on the text alone.
#[verifier::external_body]
pub(crate) fn to_uppercase(s: &str) -> (r: String)
    ensures
        r@ == uppercase_of(s@),
{
    s.to_uppercase()
}

/// Ordinal order of texts: by the first character that differs, compared by
/// code point; a proper prefix comes first.
pub open spec fn lex_lt(a: Seq<char>, b: Seq<char>) -> bool
    decreases a.len(),
{
    if b.len() == 0 {
        false
    } else if a.len() == 0 {
        true
    } else if a[0] != b[0] {
        (a[0] as u32) < (b[0] as u32)
    } else {
        lex_lt(a.drop_first(), b.drop_first())
    }
}

/// Calls `<` of the standard library on two strings. Trusted: strings are
/// ordered lexicographically by their bytes, which orders them by code point.
#[verifier::external_body]
pub(crate) fn string_lt(a: &String, b: &String) -> (r: bool)
    ensures
        r == lex_lt(a@, b@),
{
    a < b
}

/// Of two different texts one comes before the other.
pub proof fn lemma_lex_lt_total(a: Seq<char>, b: Seq<char>)
    requires
        a != b,
    ensures
        lex_lt(a, b) || lex_lt(b, a),
    decreases a.len(),
{
    if a.len() == 0 {
        assert(b.len() != 0) by {
            if b.len() == 0 {
                assert(a =~= b);
            }
        }
    } else if b.len() == 0 {
    } else if a[0] == b[0] {
        assert(a.drop_first() != b.drop_first()) by {
            if a.drop_first() == b.drop_first() {
                assert(a =~= seq![a[0]] + a.drop_first());
                assert(b =~= seq![b[0]] + b.drop_first());
            }
        }
        lemma_lex_lt_total(a.drop_first(), b.drop_first());
    } else {
        let x: u32 = a[0] as u32;
        let y: u32 = b[0] as u32;
        vstd::utf8::char_u32_cast(a[0], x);
        vstd::utf8::char_u32_cast(b[0], y);
    }
}

/// The order of texts is transitive.
pub proof fn lemma_lex_lt_transitive(a: Seq<char>, b: Seq<char>, c: Seq<char>)
    requires
        lex_lt(a, b),
        lex_lt(b, c),
    ensures
        lex_lt(a, c),
    decreases a.len(),
{
    if a.len() > 0 && a[0] == b[0] && b[0] == c[0] {
        lemma_lex_lt_transitive(a.drop_first(), b.drop_first(), c.drop_first());
    }
}

/// The first character of the upper-case form that the standard library
/// gives to a character, if that form has one.
pub uninterp spec fn uppercase_head(c: char) -> Option<char>;

/// Calls `char::to_uppercase` and takes the first character it yields.
/// Trusted: the result depends on the character alone.
#[verifier::external_body]
pub(crate) fn char_uppercase_head(c: char) -> (r: Option<char>)
    ensures
        r == uppercase_head(c),
{
    c.to_uppercase().next()
}

/// Calls `char::len_utf8`. Trusted: it is the number of bytes of the
/// character's UTF-8 encoding, between one and four.
#[verifier::external_body]
pub(crate) fn char_len(c: char) -> (n: usize)
    ensures
        n == encode_scalar(c as u32).len(),
        1 <= n <= 4,
{
    c.len_utf8()
}

/// Calls `String::insert`. Trusted: the character's encoding is put at byte
/// `idx`, between the bytes before and the bytes from there on.
#[verifier::external_body]
pub(crate) fn insert_char(s: &mut String, idx: usize, c: char)
    requires
        is_char_boundary(encode_utf8(old(s)@), idx as int),
    ensures
        encode_utf8(final(s)@) == inserted_bytes(encode_utf8(old(s)@), idx as int, c),
{
    s.insert(idx, c)
}

/// Calls `String::remove`. Trusted: the character that starts at byte `idx`
/// is taken out and returned, and the bytes around it stay.
#[verifier::external_body]
pub(crate) fn remove_char(s: &mut String, idx: usize) -> (c: char)
    requires
        idx < encode_utf8(old(s)@).len(),
        is_char_boundary(encode_utf8(old(s)@), idx as int),
    ensures
        encode_utf8(old(s)@) == inserted_bytes(encode_utf8(final(s)@), idx as int, c),
{
    s.remove(idx)
}

/// The bytes of a text after the encoding of `c` was put in at byte `idx`.
pub open spec fn inserted_bytes(bytes: Seq<u8>, idx: int, c: char) -> Seq<u8> {
    bytes.subrange(0, idx) + encode_scalar(c as u32) + bytes.subrange(idx, bytes.len() as int)
}

/// The start of the last character that begins at or before byte `from`.
pub open spec fn char_start(bytes: Seq<u8>, from: int) -> int
    decreases from,
{
    if from <= 0 {
        0
    } else if is_char_boundary(bytes, from) {
        from
    } else {
        char_start(bytes, from - 1)
    }
}

} // verus!
