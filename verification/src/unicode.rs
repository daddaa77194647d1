use vstd::prelude::*;
use crate::chars::is_ascii_alnum;

verus! {

/// Whether `c` is in the Unicode `\w` class that regex's word boundaries use
/// (Alphabetic, Join_Control, Decimal_Number, Mark, Connector_Punctuation).
pub uninterp spec fn word_char(c: char) -> bool;

/// Whether `c` has the Unicode White_Space property (PropList.txt): tab to carriage
/// return, space, next line, no-break space, ogham space mark, en quad to hair space,
/// the line and paragraph separators, narrow no-break space, medium mathematical
/// space and ideographic space.
pub open spec fn white_space(c: char) -> bool {
    let u = c as u32;
    ||| 0x09 <= u <= 0x0D
    ||| u == 0x20
    ||| u == 0x85
    ||| u == 0xA0
    ||| u == 0x1680
    ||| 0x2000 <= u <= 0x200A
    ||| u == 0x2028
    ||| u == 0x2029
    ||| u == 0x202F
    ||| u == 0x205F
    ||| u == 0x3000
}

/// Calls `regex_syntax::is_word_character`, the class behind regex's `\b`.
/// Claimed: the result is `word_char(c)`, a fixed property of the char; on ASCII,
/// the class holds exactly the letters, the digits and `_` (as the crate's
/// documentation of the class says).
#[verifier::external_body]
pub(crate) fn is_word_char(c: char) -> (r: bool)
    ensures
        r == word_char(c),
        (c as u32) < 128 ==> (r == (is_ascii_alnum(c) || c == '_')),
{
    regex_syntax::is_word_character(c)
}

/// Whether `c` has the White_Space property, as `char::is_whitespace` answers.
pub(crate) fn is_white(c: char) -> (r: bool)
    ensures
        r == white_space(c),
{
    let u = c as u32;
    (0x09 <= u && u <= 0x0D) || u == 0x20 || u == 0x85 || u == 0xA0 || u == 0x1680
        || (0x2000 <= u && u <= 0x200A) || u == 0x2028 || u == 0x2029 || u == 0x202F || u == 0x205F
        || u == 0x3000
}

} // verus!
