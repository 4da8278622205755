//! Laws of the character reader, stated over its mathematical model.

use vstd::prelude::*;

use crate::chars::spec_is_flagged;
use crate::chars::spec_is_restricted;
use crate::lexer::read_step;
use crate::lexer::Character;

verus! {

/// A character that begins one of the multi-form line endings the reader
/// folds: `\r` (also as `\r\n` and `\r` U+0085), U+0085 and U+2028.
pub open spec fn spec_is_newline_start(c: char) -> bool {
    c == '\r' || c == '\u{85}' || c == '\u{2028}'
}

/// Reading across any of the folded line-ending encodings yields exactly one
/// `Char('\n')` classification, increments the line by one and resets the
/// column to zero.
pub proof fn lemma_newline_normalization(s: Seq<char>, pos: int, line: int, col: int)
    requires
        0 <= pos < s.len(),
        spec_is_newline_start(s[pos]),
    ensures
        ({
            let m = read_step(s, pos, line, col);
            m.chr == Character::Char('\n') && m.line == line + 1 && m.col == 0
        }),
{
}

/// The ordinary character immediately after a folded line ending is
/// attributed column 1 on the incremented line.
pub proof fn lemma_column_after_newline(s: Seq<char>, pos: int, line: int, col: int)
    requires
        0 <= pos < s.len(),
        spec_is_newline_start(s[pos]),
        ({
            let m = read_step(s, pos, line, col);
            m.pos < s.len() && !spec_is_newline_start(s[m.pos]) && !spec_is_flagged(s[m.pos])
        }),
    ensures
        ({
            let m = read_step(s, pos, line, col);
            let t = read_step(s, m.pos, m.line, m.col);
            t.chr == Character::Char(s[m.pos]) && t.line == line + 1 && t.col == 1
        }),
{
}

/// Reading a restricted (or otherwise flagged) code point classifies it as
/// `RestrictedChar`, consumes it, and still advances the column by one while
/// leaving the line unchanged.
pub proof fn lemma_restricted_advances_column(s: Seq<char>, pos: int, line: int, col: int)
    requires
        0 <= pos < s.len(),
        spec_is_flagged(s[pos]),
    ensures
        ({
            let m = read_step(s, pos, line, col);
            m.chr == Character::RestrictedChar && m.pos == pos + 1 && m.line == line && m.col == col
                + 1
        }),
{
}

/// Both boundaries of every documented restricted range are restricted: the
/// five ranges below U+00A0 and the supplementary-plane noncharacter pairs.
pub proof fn lemma_restricted_range_boundaries()
    ensures
        spec_is_restricted('\u{1}') && spec_is_restricted('\u{8}'),
        spec_is_restricted('\u{B}') && spec_is_restricted('\u{C}'),
        spec_is_restricted('\u{E}') && spec_is_restricted('\u{1F}'),
        spec_is_restricted('\u{7F}') && spec_is_restricted('\u{84}'),
        spec_is_restricted('\u{86}') && spec_is_restricted('\u{9F}'),
        spec_is_restricted('\u{1FFFE}') && spec_is_restricted('\u{1FFFF}'),
        spec_is_restricted('\u{2FFFE}') && spec_is_restricted('\u{2FFFF}'),
        spec_is_restricted('\u{3FFFE}') && spec_is_restricted('\u{3FFFF}'),
        spec_is_restricted('\u{4FFFE}') && spec_is_restricted('\u{4FFFF}'),
        spec_is_restricted('\u{5FFFE}') && spec_is_restricted('\u{5FFFF}'),
        spec_is_restricted('\u{6FFFE}') && spec_is_restricted('\u{6FFFF}'),
        spec_is_restricted('\u{7FFFE}') && spec_is_restricted('\u{7FFFF}'),
        spec_is_restricted('\u{8FFFE}') && spec_is_restricted('\u{8FFFF}'),
        spec_is_restricted('\u{9FFFE}') && spec_is_restricted('\u{9FFFF}'),
        spec_is_restricted('\u{AFFFE}') && spec_is_restricted('\u{AFFFF}'),
        spec_is_restricted('\u{BFFFE}') && spec_is_restricted('\u{BFFFF}'),
        spec_is_restricted('\u{CFFFE}') && spec_is_restricted('\u{CFFFF}'),
        spec_is_restricted('\u{DFFFE}') && spec_is_restricted('\u{DFFFF}'),
        spec_is_restricted('\u{EFFFE}') && spec_is_restricted('\u{EFFFF}'),
        spec_is_restricted('\u{FFFFE}') && spec_is_restricted('\u{FFFFF}'),
        spec_is_restricted('\u{10FFFE}') && spec_is_restricted('\u{10FFFF}'),
{
}

} // verus!
