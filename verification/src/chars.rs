//! Character classes that the lexer and the transliterator use, and the NFKC
//! normal form.
use vstd::prelude::*;
use unicode_normalization::UnicodeNormalization;

verus! {

/// The `White_Space` property of Unicode (PropList.txt), which `char::is_whitespace`
/// documents as its definition.
pub open spec fn white_space_spec(c: char) -> bool {
    ('\u{0009}' <= c && c <= '\u{000D}') || c == '\u{0020}' || c == '\u{0085}' || c == '\u{00A0}'
        || c == '\u{1680}' || ('\u{2000}' <= c && c <= '\u{200A}') || c == '\u{2028}' || c
        == '\u{2029}' || c == '\u{202F}' || c == '\u{205F}' || c == '\u{3000}'
}

/// Whether `c` has the Unicode `White_Space` property.
pub fn is_white_space(c: char) -> (r: bool)
    ensures
        r == white_space_spec(c),
{
    ('\u{0009}' <= c && c <= '\u{000D}') || c == '\u{0020}' || c == '\u{0085}' || c == '\u{00A0}'
        || c == '\u{1680}' || ('\u{2000}' <= c && c <= '\u{200A}') || c == '\u{2028}' || c
        == '\u{2029}' || c == '\u{202F}' || c == '\u{205F}' || c == '\u{3000}'
}

/// Whether `c` has the Unicode `Alphabetic` property (the result of
/// `char::is_alphabetic`).
pub uninterp spec fn unicode_alphabetic(c: char) -> bool;

/// Whether `c` is alphabetic or numeric in Unicode (the result of
/// `char::is_alphanumeric`).
pub uninterp spec fn unicode_alphanumeric(c: char) -> bool;

/// The NFKC normal form of a character sequence (the result of
/// `unicode_normalization`'s `nfkc`).
pub uninterp spec fn nfkc_spec(s: Seq<char>) -> Seq<char>;

/// Trusted: calls `char::is_alphabetic`. The contract says that the answer is
/// the Unicode `Alphabetic` property of `c`, which the std documentation gives
/// as its definition, and that among ASCII characters exactly the letters have
/// it; the property's table beyond ASCII is not written out.
#[verifier::external_body]
pub(crate) fn is_alphabetic(c: char) -> (r: bool)
    ensures
        r == unicode_alphabetic(c),
        c <= '\u{7F}' ==> (r <==> (('a' <= c <= 'z') || ('A' <= c <= 'Z'))),
{
    c.is_alphabetic()
}

/// Trusted: calls `char::is_alphanumeric`. The contract says that the answer
/// is a function of `c` (alphabetic or numeric in Unicode) and that among ASCII
/// characters exactly the letters and digits are such; the tables beyond ASCII
/// are not written out.
#[verifier::external_body]
pub(crate) fn is_alphanumeric(c: char) -> (r: bool)
    ensures
        r == unicode_alphanumeric(c),
        c <= '\u{7F}' ==> (r <==> (('a' <= c <= 'z') || ('A' <= c <= 'Z') || ('0' <= c <= '9'))),
{
    c.is_alphanumeric()
}

/// Trusted: calls `UnicodeNormalization::nfkc` of the `unicode-normalization`
/// crate and collects the characters. The contract says that the result is the
/// NFKC form of `s`, a function of `s` alone; the normalization tables are not
/// written out.
#[verifier::external_body]
pub(crate) fn nfkc(s: &str) -> (r: String)
    ensures
        r@ == nfkc_spec(s@),
{
    s.nfkc().collect()
}

} // verus!
