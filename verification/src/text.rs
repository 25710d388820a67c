//! Operations on text that the standard library performs for the bot.
use vstd::prelude::*;

verus! {

/// Whether two string slices hold the same characters (`<str as PartialEq>::eq`).
#[verifier::external_body]
pub(crate) fn str_eq(a: &str, b: &str) -> (r: bool)
    ensures
        r == (a@ == b@),
{
    a == b
}

/// What `String::from_utf8_lossy` makes of a byte sequence: invalid sequences
/// are replaced by U+FFFD.
pub uninterp spec fn utf8_lossy(bytes: Seq<u8>) -> Seq<char>;

/// Decodes bytes as UTF-8, replacing invalid sequences
/// (`String::from_utf8_lossy`, taken as an owned string).
/// Its documentation promises that valid UTF-8 is decoded unchanged;
/// what replaces an invalid sequence is left to the name `utf8_lossy`.
#[verifier::external_body]
pub(crate) fn decode_lossy(bytes: &[u8]) -> (r: String)
    ensures
        r@ == utf8_lossy(bytes@),
        vstd::utf8::valid_utf8(bytes@) ==> r@ == vstd::utf8::decode_utf8(bytes@),
{
    String::from_utf8_lossy(bytes).into_owned()
}

/// The characters with the Unicode `White_Space` property, which
/// `char::is_whitespace` recognises.
pub open spec fn is_white_space(c: char) -> bool {
    ||| '\u{0009}' <= c <= '\u{000D}'
    ||| c == '\u{0020}'
    ||| c == '\u{0085}'
    ||| c == '\u{00A0}'
    ||| c == '\u{1680}'
    ||| '\u{2000}' <= c <= '\u{200A}'
    ||| c == '\u{2028}'
    ||| c == '\u{2029}'
    ||| c == '\u{202F}'
    ||| c == '\u{205F}'
    ||| c == '\u{3000}'
}

/// The number of white-space characters `s` starts with.
pub open spec fn leading_white_space(s: Seq<char>) -> nat
    decreases s.len(),
{
    if s.len() > 0 && is_white_space(s[0]) {
        1 + leading_white_space(s.drop_first())
    } else {
        0
    }
}

/// `s` without the white space it starts with.
pub open spec fn without_leading_whitespace(s: Seq<char>) -> Seq<char> {
    s.skip(leading_white_space(s) as int)
}

/// A string made of white space alone has nothing left once its leading
/// white space is removed.
pub proof fn lemma_only_white_space_trims_to_empty(s: Seq<char>)
    requires
        forall|i: int| 0 <= i < s.len() ==> is_white_space(#[trigger] s[i]),
    ensures
        leading_white_space(s) == s.len(),
        without_leading_whitespace(s).len() == 0,
    decreases s.len(),
{
    if s.len() > 0 {
        let t = s.drop_first();
        assert forall|i: int| 0 <= i < t.len() implies is_white_space(#[trigger] t[i]) by {
            assert(t[i] == s[i + 1]);
        }
        lemma_only_white_space_trims_to_empty(t);
    }
}

/// Removes leading white space (`str::trim_start`, taken as an owned string).
/// Its documentation defines white space as the Unicode `White_Space`
/// property, the characters of `is_white_space`, and keeps the rest.
#[verifier::external_body]
pub(crate) fn trim_leading_whitespace(s: &str) -> (r: String)
    ensures
        r@ == without_leading_whitespace(s@),
{
    s.trim_start().to_string()
}

} // verus!
