//! Character classification for the XML 1.1 grammar: restricted code points,
//! valid document characters, whitespace and name characters.

use vstd::prelude::*;

verus! {

/// A code point inside one of the XML 1.1 restricted ranges:
/// `[#x1-#x8]`, `[#xB-#xC]`, `[#xE-#x1F]`, `[#x7F-#x84]`, `[#x86-#x9F]`,
/// and the sixteen supplementary-plane noncharacter pairs `#xnFFFE-#xnFFFF`.
pub open spec fn spec_is_restricted(c: char) -> bool {
    let u = c as u32;
    ||| (0x1 <= u && u <= 0x8)
    ||| (0xB <= u && u <= 0xC)
    ||| (0xE <= u && u <= 0x1F)
    ||| (0x7F <= u && u <= 0x84)
    ||| (0x86 <= u && u <= 0x9F)
    ||| (0x1FFFE <= u && u <= 0x1FFFF)
    ||| (0x2FFFE <= u && u <= 0x2FFFF)
    ||| (0x3FFFE <= u && u <= 0x3FFFF)
    ||| (0x4FFFE <= u && u <= 0x4FFFF)
    ||| (0x5FFFE <= u && u <= 0x5FFFF)
    ||| (0x6FFFE <= u && u <= 0x6FFFF)
    ||| (0x7FFFE <= u && u <= 0x7FFFF)
    ||| (0x8FFFE <= u && u <= 0x8FFFF)
    ||| (0x9FFFE <= u && u <= 0x9FFFF)
    ||| (0xAFFFE <= u && u <= 0xAFFFF)
    ||| (0xBFFFE <= u && u <= 0xBFFFF)
    ||| (0xCFFFE <= u && u <= 0xCFFFF)
    ||| (0xDFFFE <= u && u <= 0xDFFFF)
    ||| (0xEFFFE <= u && u <= 0xEFFFF)
    ||| (0xFFFFE <= u && u <= 0xFFFFF)
    ||| (0x10FFFE <= u && u <= 0x10FFFF)
}

/// A code point the XML 1.1 `Char` production admits:
/// `[#x1-#xD7FF] | [#xE000-#xFFFD] | [#x10000-#x10FFFF]`.
pub open spec fn spec_is_xml_char(c: char) -> bool {
    let u = c as u32;
    ||| (0x1 <= u && u <= 0xD7FF)
    ||| (0xE000 <= u && u <= 0xFFFD)
    ||| (0x10000 <= u && u <= 0x10FFFF)
}

/// The reader flags a character when it is either explicitly restricted or
/// falls outside the `Char` production altogether.
pub open spec fn spec_is_flagged(c: char) -> bool {
    spec_is_restricted(c) || !spec_is_xml_char(c)
}

/// XML whitespace: space, tab, carriage return or line feed.
pub open spec fn spec_is_whitespace(c: char) -> bool {
    c == ' ' || c == '\t' || c == '\r' || c == '\n'
}

/// Characters that end a text run in the tokenizer because they begin or
/// continue a markup delimiter.
pub open spec fn spec_is_delimiter(c: char) -> bool {
    ||| c == '<'
    ||| c == '>'
    ||| c == '='
    ||| c == '"'
    ||| c == '\''
    ||| c == '&'
    ||| c == '%'
    ||| c == '?'
    ||| c == ']'
    ||| c == '-'
    ||| c == '/'
}

/// A character that may open an element or attribute name: an ASCII letter,
/// `_`, `:`, or any unflagged code point beyond ASCII.
pub open spec fn spec_is_name_start(c: char) -> bool {
    ||| ('a' <= c && c <= 'z')
    ||| ('A' <= c && c <= 'Z')
    ||| c == '_'
    ||| c == ':'
    ||| (c as u32 >= 0x80 && !spec_is_flagged(c))
}

/// A character that may continue a name: a name-start character, an ASCII
/// digit, `-` or `.`.
pub open spec fn spec_is_name_char(c: char) -> bool {
    ||| spec_is_name_start(c)
    ||| ('0' <= c && c <= '9')
    ||| c == '-'
    ||| c == '.'
}

/// Decides membership in the XML 1.1 restricted ranges.
pub fn is_restricted_char(c: char) -> (r: bool)
    ensures
        r == spec_is_restricted(c),
{
    let u = c as u32;
    (0x1 <= u && u <= 0x8) || (0xB <= u && u <= 0xC) || (0xE <= u && u <= 0x1F) || (0x7F <= u
        && u <= 0x84) || (0x86 <= u && u <= 0x9F) || (u >= 0x1FFFE && (0x1FFFE <= u && u <= 0x1FFFF
        || 0x2FFFE <= u && u <= 0x2FFFF || 0x3FFFE <= u && u <= 0x3FFFF || 0x4FFFE <= u
        && u <= 0x4FFFF || 0x5FFFE <= u && u <= 0x5FFFF || 0x6FFFE <= u && u <= 0x6FFFF || 0x7FFFE
        <= u && u <= 0x7FFFF || 0x8FFFE <= u && u <= 0x8FFFF || 0x9FFFE <= u && u <= 0x9FFFF
        || 0xAFFFE <= u && u <= 0xAFFFF || 0xBFFFE <= u && u <= 0xBFFFF || 0xCFFFE <= u
        && u <= 0xCFFFF || 0xDFFFE <= u && u <= 0xDFFFF || 0xEFFFE <= u && u <= 0xEFFFF || 0xFFFFE
        <= u && u <= 0xFFFFF || 0x10FFFE <= u && u <= 0x10FFFF))
}

/// Decides the XML 1.1 `Char` production.
pub fn is_xml_char(c: char) -> (r: bool)
    ensures
        r == spec_is_xml_char(c),
{
    let u = c as u32;
    (0x1 <= u && u <= 0xD7FF) || (0xE000 <= u && u <= 0xFFFD) || (0x10000 <= u && u <= 0x10FFFF)
}

/// Decides whether the reader flags this character.
pub fn is_flagged(c: char) -> (r: bool)
    ensures
        r == spec_is_flagged(c),
{
    is_restricted_char(c) || !is_xml_char(c)
}

/// Decides XML whitespace.
pub fn is_whitespace(c: char) -> (r: bool)
    ensures
        r == spec_is_whitespace(c),
{
    c == ' ' || c == '\t' || c == '\r' || c == '\n'
}

/// Decides whether a character ends a text run in the tokenizer.
pub fn is_delimiter(c: char) -> (r: bool)
    ensures
        r == spec_is_delimiter(c),
{
    c == '<' || c == '>' || c == '=' || c == '"' || c == '\'' || c == '&' || c == '%' || c == '?'
        || c == ']' || c == '-' || c == '/'
}

/// Decides whether a character may open a name.
pub fn is_name_start(c: char) -> (r: bool)
    ensures
        r == spec_is_name_start(c),
{
    ('a' <= c && c <= 'z') || ('A' <= c && c <= 'Z') || c == '_' || c == ':' || (c as u32 >= 0x80
        && !is_flagged(c))
}

/// Decides whether a character may continue a name.
pub fn is_name_char(c: char) -> (r: bool)
    ensures
        r == spec_is_name_char(c),
{
    is_name_start(c) || ('0' <= c && c <= '9') || c == '-' || c == '.'
}

/// Appends one character to a string.
///
/// Relies on `String::push`: the standard library documents that it appends
/// the given `char` to the end of the `String`.
#[verifier::external_body]
pub(crate) fn push_char(s: &mut String, c: char)
    ensures
        final(s)@ == old(s)@.push(c),
{
    s.push(c);
}

} // verus!
