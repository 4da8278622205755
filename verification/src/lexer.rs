//! The position-tracking character reader and the tokenizer built on it.
//!
//! The reader normalizes every XML 1.1 line ending (`\r`, `\r\n`, `\r` U+0085,
//! U+0085, U+2028) to a single `\n`, classifies each code point as ordinary,
//! restricted or end of stream, and tracks a 1-based line and 0-based column.
//! The tokenizer pulls one markup token per call, coalescing whitespace runs
//! and disambiguating `<`-delimiters by exact-position-restoring lookahead.

use vstd::prelude::*;
use vstd::string::StringExecFns;
use vstd::string::StrSliceExecFns;

use crate::chars::push_char;
use crate::chars::spec_is_delimiter;
use crate::chars::spec_is_flagged;
use crate::chars::spec_is_whitespace;
use crate::chars::is_delimiter;
use crate::chars::is_flagged;
use crate::chars::is_whitespace;
use crate::error::plain_err;
use crate::error::err_view;
use crate::error::errs_view;
use crate::error::ErrModel;
use crate::error::XmlError;
use crate::error::XmlErrorKind;

verus! {

/// One classified character pulled from the stream.
#[derive(Clone, Copy, Debug, PartialEq, Eq)]
pub enum Character {
    /// An ordinary (possibly normalized) character.
    Char(char),
    /// A restricted code point; it was consumed and the column advanced.
    RestrictedChar,
    /// The end of the stream.
    EndFile,
}

/// One lexical unit of markup.
#[derive(Clone, Debug, PartialEq, Eq)]
pub enum XmlToken {
    /// Symbol `<`
    LeftBracket,
    /// Symbol `>`, also emitted for a self-closing `/>`
    RightBracket,
    /// Symbol `=`
    Equal,
    /// Symbol `</`
    EndTag,
    /// A run of name or text characters, or a quoted literal
    Text(String),
    /// A maximal run of whitespace
    WhiteSpace,
    /// Start of a processing instruction, `<?`
    PIStart,
    /// End of a processing instruction, `?>`
    PIEnd,
    /// Start of a CDATA block, `<![CDATA[`
    CDataStart,
    /// End of a CDATA block, `]]>`
    CDataEnd,
    /// Start of a DOCTYPE block, `<!DOCTYPE`
    DoctypeStart,
    /// End of a DOCTYPE block, `>`
    DoctypeEnd,
    /// Comment start, `<!--`
    CommentStart,
    /// Comment end, `-->`
    CommentEnd,
    /// Entity reference marker, `&`
    EntityRef,
    /// Parameter entity reference marker, `%`
    PERef,
    /// Character reference marker, `&#`
    CharRef,
    /// The value of an `encoding` pair in the XML declaration
    Encoding(String),
    /// The value of a `standalone` pair in the XML declaration
    Standalone(bool),
    /// The end of the input
    EndOfFile,
}

/// A string paired with the ordered errors met while producing it.
#[derive(Clone, Debug, PartialEq, Eq)]
pub struct XmlResult {
    /// The accepted characters, in order.
    pub data: String,
    /// Every error encountered, in order.
    pub errors: Vec<XmlError>,
}

/// The predicate a bounded read scans with.
#[derive(Clone, Copy, Debug, PartialEq, Eq)]
pub enum CharFilter {
    /// Accepts ordinary whitespace characters.
    IsWhitespace,
    /// Accepts ordinary characters that neither are whitespace nor begin a
    /// markup delimiter.
    IsText,
    /// Accepts every ordinary character except the given one.
    NotChar(char),
}

/// What a filter accepts. Restricted characters and the end of the stream
/// never satisfy a filter.
pub open spec fn filter_holds(f: CharFilter, c: Character) -> bool {
    match c {
        Character::Char(v) => match f {
            CharFilter::IsWhitespace => spec_is_whitespace(v),
            CharFilter::IsText => !spec_is_whitespace(v) && !spec_is_delimiter(v),
            CharFilter::NotChar(q) => v != q,
        },
        Character::RestrictedChar => false,
        Character::EndFile => false,
    }
}

/// Decides a filter on a classified character.
pub fn eval_filter(f: CharFilter, c: Character) -> (r: bool)
    ensures
        r == filter_holds(f, c),
{
    match c {
        Character::Char(v) => match f {
            CharFilter::IsWhitespace => is_whitespace(v),
            CharFilter::IsText => !is_whitespace(v) && !is_delimiter(v),
            CharFilter::NotChar(q) => v != q,
        },
        Character::RestrictedChar => false,
        Character::EndFile => false,
    }
}

/// The outcome of reading one normalized character: the classification and
/// the stream position afterwards.
pub ghost struct ReadOut {
    pub chr: Character,
    pub pos: int,
    pub line: int,
    pub col: int,
}

/// One normalized read from position `pos` of `s`.
///
/// A `\r` folds a following `\n` or U+0085 into itself; `\r`, U+0085 and
/// U+2028 surface as `\n` with the line incremented and the column reset.
/// A bare `\n` passes through as an ordinary character. Restricted code
/// points surface as `RestrictedChar` and still advance the column.
pub open spec fn read_step(s: Seq<char>, pos: int, line: int, col: int) -> ReadOut {
    if !(0 <= pos < s.len()) {
        ReadOut { chr: Character::EndFile, pos, line, col }
    } else {
        let c = s[pos];
        if c == '\r' {
            let np = if pos + 1 < s.len() && (s[pos + 1] == '\n' || s[pos + 1] == '\u{85}') {
                pos + 2
            } else {
                pos + 1
            };
            ReadOut { chr: Character::Char('\n'), pos: np, line: line + 1, col: 0 }
        } else if c == '\u{85}' || c == '\u{2028}' {
            ReadOut { chr: Character::Char('\n'), pos: pos + 1, line: line + 1, col: 0 }
        } else if spec_is_flagged(c) {
            ReadOut { chr: Character::RestrictedChar, pos: pos + 1, line, col: col + 1 }
        } else {
            ReadOut { chr: Character::Char(c), pos: pos + 1, line, col: col + 1 }
        }
    }
}

/// The outcome of a bounded read: the accepted characters, the errors in
/// order, and the stream position afterwards.
pub ghost struct StrOut {
    pub data: Seq<char>,
    pub errs: Seq<ErrModel>,
    pub pos: int,
    pub line: int,
    pub col: int,
}

/// A bounded read of `n` normalized characters with accumulators: restricted
/// characters are skipped with an `IllegalCharacter` error each, and a
/// premature end of stream appends one `UnexpectedEndOfFile` error and stops.
pub open spec fn read_str_model(
    s: Seq<char>,
    pos: int,
    line: int,
    col: int,
    n: nat,
    data: Seq<char>,
    errs: Seq<ErrModel>,
) -> StrOut
    decreases n,
{
    if n == 0 {
        StrOut { data, errs, pos, line, col }
    } else {
        let st = read_step(s, pos, line, col);
        match st.chr {
            Character::EndFile => StrOut {
                data,
                errs: errs.push(plain_err(st.line, st.col, XmlErrorKind::UnexpectedEndOfFile)),
                pos: st.pos,
                line: st.line,
                col: st.col,
            },
            Character::RestrictedChar => read_str_model(
                s,
                st.pos,
                st.line,
                st.col,
                (n - 1) as nat,
                data,
                errs.push(plain_err(st.line, st.col, XmlErrorKind::IllegalCharacter)),
            ),
            Character::Char(a) => read_str_model(
                s,
                st.pos,
                st.line,
                st.col,
                (n - 1) as nat,
                data.push(a),
                errs,
            ),
        }
    }
}

/// A bounded read of `n` normalized characters from a given position.
pub open spec fn read_chars(s: Seq<char>, pos: int, line: int, col: int, n: nat) -> StrOut {
    read_str_model(s, pos, line, col, n, Seq::empty(), Seq::empty())
}

/// The outcome of a predicate-bounded read: the accepted characters and the
/// position as of the last accepted character.
pub ghost struct UntilOut {
    pub data: Seq<char>,
    pub pos: int,
    pub line: int,
    pub col: int,
}

/// A predicate-bounded read with an accumulator: characters are consumed
/// while the filter accepts them; the first failing character is pushed back
/// so that position and bookkeeping reflect the last accepted character.
pub open spec fn read_until_model(
    s: Seq<char>,
    pos: int,
    line: int,
    col: int,
    f: CharFilter,
    data: Seq<char>,
) -> UntilOut
    decreases s.len() - pos,
{
    let st = read_step(s, pos, line, col);
    if st.chr is EndFile {
        UntilOut { data, pos, line, col }
    } else if !filter_holds(f, st.chr) {
        UntilOut { data, pos, line, col }
    } else {
        let next = match st.chr {
            Character::Char(a) => data.push(a),
            _ => data,
        };
        read_until_model(s, st.pos, st.line, st.col, f, next)
    }
}

/// A predicate-bounded read from a given position.
pub open spec fn read_until_from(s: Seq<char>, pos: int, line: int, col: int, f: CharFilter)
    -> UntilOut {
    read_until_model(s, pos, line, col, f, Seq::empty())
}

/// The position-tracking, newline-normalizing character reader, and the
/// tokenizer built on it.
pub struct XmlLexer {
    /// 1-based line of the last consumed character.
    pub line: usize,
    /// 0-based column of the last consumed character.
    pub col: usize,
    /// The most recent token the tokenizer produced, if the last pull
    /// succeeded.
    pub token: Option<XmlToken>,
    /// The characters of the source.
    pub source: Vec<char>,
    /// The index of the next character to consume.
    pub pos: usize,
    /// Whether the tokenizer is inside an XML text declaration `<?xml ... ?>`.
    pub in_decl: bool,
}

impl XmlLexer {
    /// The reader is well formed: the cursor is inside the source, the
    /// position bookkeeping is consistent with it, and the source leaves room
    /// for the arithmetic of position updates.
    pub open spec fn wf(&self) -> bool {
        &&& self.pos <= self.source@.len()
        &&& 1 <= self.line
        &&& self.line - 1 + self.col <= self.pos
        &&& self.source@.len() + 2 <= usize::MAX
    }

    /// Constructs a lexer over the given characters, at line 1, column 0.
    pub fn from_reader(data: Vec<char>) -> (l: XmlLexer)
        requires
            data@.len() + 2 <= usize::MAX,
        ensures
            l.wf(),
            l.source@ == data@,
            l.pos == 0,
            l.line == 1,
            l.col == 0,
            l.token is None,
            !l.in_decl,
    {
        XmlLexer { line: 1, col: 0, token: None, source: data, pos: 0, in_decl: false }
    }

    /// Consumes one raw character without updating line or column.
    fn raw_read(&mut self) -> (c: char)
        requires
            old(self).pos < old(self).source@.len(),
            old(self).source@.len() + 2 <= usize::MAX,
        ensures
            c == old(self).source@[old(self).pos as int],
            *final(self) == (XmlLexer { pos: (old(self).pos + 1) as usize, ..*old(self) }),
    {
        let c = self.source[self.pos];
        self.pos = self.pos + 1;
        c
    }

    /// Pushes the last raw character back without updating line or column.
    fn raw_unread(&mut self)
        requires
            old(self).pos >= 1,
        ensures
            *final(self) == (XmlLexer { pos: (old(self).pos - 1) as usize, ..*old(self) }),
    {
        self.pos = self.pos - 1;
    }

    /// Pulls exactly one normalized character and classifies it.
    ///
    /// All five multi-form line endings collapse to one `Ordinary('\n')` that
    /// increments the line and resets the column; every other consumed
    /// character, restricted ones included, advances the column by one.
    pub fn read(&mut self) -> (c: Character)
        requires
            old(self).wf(),
        ensures
            final(self).wf(),
            final(self).source == old(self).source,
            final(self).token == old(self).token,
            final(self).in_decl == old(self).in_decl,
            ({
                let m = read_step(
                    old(self).source@,
                    old(self).pos as int,
                    old(self).line as int,
                    old(self).col as int,
                );
                c == m.chr && final(self).pos == m.pos && final(self).line == m.line
                    && final(self).col == m.col
            }),
    {
        if self.pos >= self.source.len() {
            return Character::EndFile;
        }
        let chr = self.raw_read();
        if chr == '\r' {
            self.line = self.line + 1;
            self.col = 0;
            if self.pos < self.source.len() {
                let peeked = self.raw_read();
                if !(peeked == '\u{85}' || peeked == '\n') {
                    self.raw_unread();
                }
            }
            Character::Char('\n')
        } else if chr == '\u{85}' || chr == '\u{2028}' {
            self.line = self.line + 1;
            self.col = 0;
            Character::Char('\n')
        } else if is_flagged(chr) {
            self.col = self.col + 1;
            Character::RestrictedChar
        } else {
            self.col = self.col + 1;
            Character::Char(chr)
        }
    }

    /// Builds an error stamped with the current position, without context or
    /// secondary mark.
    pub fn get_error(&self, kind: XmlErrorKind) -> (e: XmlError)
        ensures
            e == (XmlError { line: self.line, col: self.col, kind, context: None, mark: None }),
    {
        XmlError { line: self.line, col: self.col, kind, context: None, mark: None }
    }

    /// Reads exactly `len` normalized characters, skipping restricted ones.
    ///
    /// Every restricted character appends an `IllegalCharacter` error and a
    /// premature end of stream appends an `UnexpectedEndOfFile` error, so the
    /// returned string holds only accepted characters and may be shorter than
    /// `len`.
    pub fn read_str(&mut self, len: usize) -> (r: XmlResult)
        requires
            old(self).wf(),
        ensures
            final(self).wf(),
            final(self).source == old(self).source,
            final(self).token == old(self).token,
            final(self).in_decl == old(self).in_decl,
            ({
                let m = read_chars(
                    old(self).source@,
                    old(self).pos as int,
                    old(self).line as int,
                    old(self).col as int,
                    len as nat,
                );
                &&& r.data@ == m.data
                &&& errs_view(r.errors@) == m.errs
                &&& forall|i: int|
                    0 <= i < r.errors@.len() ==> (#[trigger] r.errors@[i]).context is None
                        && r.errors@[i].mark is None
                &&& final(self).pos == m.pos
                &&& final(self).line == m.line
                &&& final(self).col == m.col
            }),
    {
        let ghost s = self.source@;
        let ghost p0 = self.pos as int;
        let ghost l0 = self.line as int;
        let ghost c0 = self.col as int;
        let mut data: String = String::new();
        let mut errors: Vec<XmlError> = Vec::new();
        let mut l: usize = 0;
        let mut eof = false;
        proof {
            assert(errs_view(errors@) =~= Seq::<ErrModel>::empty());
        }
        while l < len && !eof
            invariant
                self.wf(),
                self.source == old(self).source,
                self.source@ == s,
                self.token == old(self).token,
                self.in_decl == old(self).in_decl,
                l <= len,
                !eof ==> read_chars(s, p0, l0, c0, len as nat) == read_str_model(
                    s,
                    self.pos as int,
                    self.line as int,
                    self.col as int,
                    (len - l) as nat,
                    data@,
                    errs_view(errors@),
                ),
                eof ==> read_chars(s, p0, l0, c0, len as nat) == (StrOut {
                    data: data@,
                    errs: errs_view(errors@),
                    pos: self.pos as int,
                    line: self.line as int,
                    col: self.col as int,
                }),
                forall|i: int|
                    0 <= i < errors@.len() ==> (#[trigger] errors@[i]).context is None
                        && errors@[i].mark is None,
            decreases len - l,
        {
            let ghost pre_errs = errs_view(errors@);
            let chr = self.read();
            l = l + 1;
            match chr {
                Character::Char(a) => {
                    push_char(&mut data, a);
                },
                Character::EndFile => {
                    let e = self.get_error(XmlErrorKind::UnexpectedEndOfFile);
                    errors.push(e);
                    eof = true;
                    proof {
                        assert(errs_view(errors@) =~= pre_errs.push(err_view(e)));
                    }
                },
                Character::RestrictedChar => {
                    let e = self.get_error(XmlErrorKind::IllegalCharacter);
                    errors.push(e);
                    proof {
                        assert(errs_view(errors@) =~= pre_errs.push(err_view(e)));
                    }
                },
            }
        }
        XmlResult { data, errors }
    }

    /// Reads `len` normalized characters ahead and restores the line, column
    /// and stream position to their pre-call values: peeking is fully
    /// transparent.
    pub fn peek_str(&mut self, len: usize) -> (r: String)
        requires
            old(self).wf(),
        ensures
            *final(self) == *old(self),
            r@ == read_chars(
                old(self).source@,
                old(self).pos as int,
                old(self).line as int,
                old(self).col as int,
                len as nat,
            ).data,
    {
        let col = self.col;
        let line = self.line;
        let pos = self.pos;
        let peeked = self.read_str(len);
        self.col = col;
        self.line = line;
        self.pos = pos;
        peeked.data
    }

    /// Reads characters while the filter accepts them, accumulating the
    /// ordinary ones, and pushes the first failing character back so the
    /// caller can re-inspect it. Line and column afterwards reflect the last
    /// accepted character.
    pub fn read_until(&mut self, f: CharFilter) -> (r: String)
        requires
            old(self).wf(),
        ensures
            final(self).wf(),
            final(self).source == old(self).source,
            final(self).token == old(self).token,
            final(self).in_decl == old(self).in_decl,
            ({
                let m = read_until_from(
                    old(self).source@,
                    old(self).pos as int,
                    old(self).line as int,
                    old(self).col as int,
                    f,
                );
                &&& r@ == m.data
                &&& final(self).pos == m.pos
                &&& final(self).line == m.line
                &&& final(self).col == m.col
            }),
    {
        let ghost s = self.source@;
        let ghost p0 = self.pos as int;
        let ghost l0 = self.line as int;
        let ghost c0 = self.col as int;
        let mut data: String = String::new();
        loop
            invariant_except_break
                read_until_from(s, p0, l0, c0, f) == read_until_model(
                    s,
                    self.pos as int,
                    self.line as int,
                    self.col as int,
                    f,
                    data@,
                ),
            invariant
                self.wf(),
                self.source == old(self).source,
                self.source@ == s,
                self.token == old(self).token,
                self.in_decl == old(self).in_decl,
            ensures
                read_until_from(s, p0, l0, c0, f) == (UntilOut {
                    data: data@,
                    pos: self.pos as int,
                    line: self.line as int,
                    col: self.col as int,
                }),
            decreases s.len() - self.pos,
        {
            let save_pos = self.pos;
            let save_line = self.line;
            let save_col = self.col;
            let chr = self.read();
            if matches!(chr, Character::EndFile) {
                break;
            }
            if !eval_filter(f, chr) {
                self.pos = save_pos;
                self.line = save_line;
                self.col = save_col;
                break;
            }
            match chr {
                Character::Char(a) => {
                    push_char(&mut data, a);
                },
                _ => {},
            }
        }
        data
    }
}


/// The mathematical image of a token.
pub ghost enum TokModel {
    LeftBracket,
    RightBracket,
    Equal,
    EndTag,
    Text(Seq<char>),
    WhiteSpace,
    PIStart,
    PIEnd,
    CDataStart,
    CDataEnd,
    DoctypeStart,
    DoctypeEnd,
    CommentStart,
    CommentEnd,
    EntityRef,
    PERef,
    CharRef,
    Encoding(Seq<char>),
    Standalone(bool),
    EndOfFile,
}

/// Maps a token to its image.
pub open spec fn tok_view(t: XmlToken) -> TokModel {
    match t {
        XmlToken::LeftBracket => TokModel::LeftBracket,
        XmlToken::RightBracket => TokModel::RightBracket,
        XmlToken::Equal => TokModel::Equal,
        XmlToken::EndTag => TokModel::EndTag,
        XmlToken::Text(s) => TokModel::Text(s@),
        XmlToken::WhiteSpace => TokModel::WhiteSpace,
        XmlToken::PIStart => TokModel::PIStart,
        XmlToken::PIEnd => TokModel::PIEnd,
        XmlToken::CDataStart => TokModel::CDataStart,
        XmlToken::CDataEnd => TokModel::CDataEnd,
        XmlToken::DoctypeStart => TokModel::DoctypeStart,
        XmlToken::DoctypeEnd => TokModel::DoctypeEnd,
        XmlToken::CommentStart => TokModel::CommentStart,
        XmlToken::CommentEnd => TokModel::CommentEnd,
        XmlToken::EntityRef => TokModel::EntityRef,
        XmlToken::PERef => TokModel::PERef,
        XmlToken::CharRef => TokModel::CharRef,
        XmlToken::Encoding(s) => TokModel::Encoding(s@),
        XmlToken::Standalone(b) => TokModel::Standalone(b),
        XmlToken::EndOfFile => TokModel::EndOfFile,
    }
}

/// Maps a pull outcome to its image.
pub open spec fn tok_res_view(r: Result<XmlToken, XmlError>) -> Result<TokModel, ErrModel> {
    match r {
        Ok(t) => Ok(tok_view(t)),
        Err(e) => Err(err_view(e)),
    }
}

/// The outcome of pulling one token: the token or lexical error, the stream
/// position afterwards, and whether the tokenizer is then inside the XML
/// text declaration.
pub ghost struct TokOut {
    pub tok: Result<TokModel, ErrModel>,
    pub pos: int,
    pub line: int,
    pub col: int,
    pub in_decl: bool,
}

/// The token pulled after a leading `<`, disambiguated by fixed-length
/// normalized lookahead: `?` begins a processing instruction (and begins the
/// XML text declaration when `xml` follows), `/` a closing tag, `!--` a
/// comment, `![CDATA[` a CDATA block and `!DOCTYPE` a DOCTYPE block; anything
/// else leaves a plain `LeftBracket`.
pub open spec fn left_bracket_model(s: Seq<char>, pos: int, line: int, col: int, in_decl: bool)
    -> TokOut {
    let p1 = read_chars(s, pos, line, col, 1);
    let p3 = read_chars(s, pos, line, col, 3);
    let p8 = read_chars(s, pos, line, col, 8);
    if p1.data == "?"@ {
        let d3 = read_chars(s, p1.pos, p1.line, p1.col, 3);
        TokOut {
            tok: Ok(TokModel::PIStart),
            pos: p1.pos,
            line: p1.line,
            col: p1.col,
            in_decl: d3.data == "xml"@,
        }
    } else if p1.data == "/"@ {
        TokOut { tok: Ok(TokModel::EndTag), pos: p1.pos, line: p1.line, col: p1.col, in_decl }
    } else if p3.data == "!--"@ {
        TokOut { tok: Ok(TokModel::CommentStart), pos: p3.pos, line: p3.line, col: p3.col, in_decl }
    } else if p8.data == "![CDATA["@ {
        TokOut { tok: Ok(TokModel::CDataStart), pos: p8.pos, line: p8.line, col: p8.col, in_decl }
    } else if p8.data == "!DOCTYPE"@ {
        TokOut { tok: Ok(TokModel::DoctypeStart), pos: p8.pos, line: p8.line, col: p8.col, in_decl }
    } else {
        TokOut { tok: Ok(TokModel::LeftBracket), pos, line, col, in_decl }
    }
}

/// A quoted literal after its opening quote `q`: the raw characters up to the
/// matching quote become one `Text` token; a restricted character or the end
/// of the stream before the closing quote is a lexical error.
pub open spec fn quoted_model(s: Seq<char>, pos: int, line: int, col: int, q: char, in_decl: bool)
    -> TokOut {
    let v = read_until_from(s, pos, line, col, CharFilter::NotChar(q));
    let t = read_step(s, v.pos, v.line, v.col);
    match t.chr {
        Character::Char(_) => TokOut {
            tok: Ok(TokModel::Text(v.data)),
            pos: t.pos,
            line: t.line,
            col: t.col,
            in_decl,
        },
        Character::RestrictedChar => TokOut {
            tok: Err(plain_err(t.line, t.col, XmlErrorKind::IllegalCharacter)),
            pos: t.pos,
            line: t.line,
            col: t.col,
            in_decl,
        },
        Character::EndFile => TokOut {
            tok: Err(plain_err(t.line, t.col, XmlErrorKind::UnexpectedEndOfFile)),
            pos: t.pos,
            line: t.line,
            col: t.col,
            in_decl,
        },
    }
}

/// A `name="value"` pair inside the XML text declaration, after the `=` was
/// consumed: the value must be quoted, `encoding` yields its value and
/// `standalone` must carry `yes` or `no`; any other name there is an error.
pub open spec fn decl_value_model(
    s: Seq<char>,
    pos: int,
    line: int,
    col: int,
    name: Seq<char>,
    in_decl: bool,
) -> TokOut {
    let q = read_step(s, pos, line, col);
    match q.chr {
        Character::Char(d) => if d == '"' || d == '\'' {
            let v = read_until_from(s, q.pos, q.line, q.col, CharFilter::NotChar(d));
            let t = read_step(s, v.pos, v.line, v.col);
            match t.chr {
                Character::Char(_) => if name == "encoding"@ {
                    TokOut {
                        tok: Ok(TokModel::Encoding(v.data)),
                        pos: t.pos,
                        line: t.line,
                        col: t.col,
                        in_decl,
                    }
                } else if name == "standalone"@ {
                    if v.data == "yes"@ {
                        TokOut {
                            tok: Ok(TokModel::Standalone(true)),
                            pos: t.pos,
                            line: t.line,
                            col: t.col,
                            in_decl,
                        }
                    } else if v.data == "no"@ {
                        TokOut {
                            tok: Ok(TokModel::Standalone(false)),
                            pos: t.pos,
                            line: t.line,
                            col: t.col,
                            in_decl,
                        }
                    } else {
                        TokOut {
                            tok: Err(plain_err(t.line, t.col, XmlErrorKind::MalformedDelimiter)),
                            pos: t.pos,
                            line: t.line,
                            col: t.col,
                            in_decl,
                        }
                    }
                } else {
                    TokOut {
                        tok: Err(plain_err(t.line, t.col, XmlErrorKind::UnexpectedToken)),
                        pos: t.pos,
                        line: t.line,
                        col: t.col,
                        in_decl,
                    }
                },
                Character::RestrictedChar => TokOut {
                    tok: Err(plain_err(t.line, t.col, XmlErrorKind::IllegalCharacter)),
                    pos: t.pos,
                    line: t.line,
                    col: t.col,
                    in_decl,
                },
                Character::EndFile => TokOut {
                    tok: Err(plain_err(t.line, t.col, XmlErrorKind::UnexpectedEndOfFile)),
                    pos: t.pos,
                    line: t.line,
                    col: t.col,
                    in_decl,
                },
            }
        } else {
            TokOut {
                tok: Err(plain_err(q.line, q.col, XmlErrorKind::MalformedDelimiter)),
                pos: q.pos,
                line: q.line,
                col: q.col,
                in_decl,
            }
        },
        Character::RestrictedChar => TokOut {
            tok: Err(plain_err(q.line, q.col, XmlErrorKind::IllegalCharacter)),
            pos: q.pos,
            line: q.line,
            col: q.col,
            in_decl,
        },
        Character::EndFile => TokOut {
            tok: Err(plain_err(q.line, q.col, XmlErrorKind::UnexpectedEndOfFile)),
            pos: q.pos,
            line: q.line,
            col: q.col,
            in_decl,
        },
    }
}

/// A run of text characters after its first character `c`. Inside the XML
/// text declaration a name immediately followed by `=` is an attribute of
/// the declaration; everywhere else the run is a plain `Text` token.
pub open spec fn text_model(s: Seq<char>, pos: int, line: int, col: int, c: char, in_decl: bool)
    -> TokOut {
    let run = read_until_from(s, pos, line, col, CharFilter::IsText);
    let full = seq![c] + run.data;
    let p1 = read_chars(s, run.pos, run.line, run.col, 1);
    if in_decl && p1.data == "="@ {
        decl_value_model(s, p1.pos, p1.line, p1.col, full, in_decl)
    } else {
        TokOut { tok: Ok(TokModel::Text(full)), pos: run.pos, line: run.line, col: run.col, in_decl }
    }
}

/// One pull of the tokenizer from a given reader state: the end of the
/// stream is the `EndOfFile` token, a restricted character is a lexical
/// error, whitespace coalesces into one `WhiteSpace` token, `<` and the
/// closing delimiters are disambiguated by bounded lookahead, quotes open
/// quoted literals, and anything else opens a text run.
pub open spec fn next_token_model(s: Seq<char>, pos: int, line: int, col: int, in_decl: bool)
    -> TokOut {
    let st = read_step(s, pos, line, col);
    match st.chr {
        Character::EndFile => TokOut {
            tok: Ok(TokModel::EndOfFile),
            pos: st.pos,
            line: st.line,
            col: st.col,
            in_decl,
        },
        Character::RestrictedChar => TokOut {
            tok: Err(plain_err(st.line, st.col, XmlErrorKind::IllegalCharacter)),
            pos: st.pos,
            line: st.line,
            col: st.col,
            in_decl,
        },
        Character::Char(c) => {
            if spec_is_whitespace(c) {
                let w = read_until_from(s, st.pos, st.line, st.col, CharFilter::IsWhitespace);
                TokOut {
                    tok: Ok(TokModel::WhiteSpace),
                    pos: w.pos,
                    line: w.line,
                    col: w.col,
                    in_decl,
                }
            } else if c == '<' {
                left_bracket_model(s, st.pos, st.line, st.col, in_decl)
            } else if c == '>' {
                TokOut {
                    tok: Ok(TokModel::RightBracket),
                    pos: st.pos,
                    line: st.line,
                    col: st.col,
                    in_decl,
                }
            } else if c == '=' {
                TokOut { tok: Ok(TokModel::Equal), pos: st.pos, line: st.line, col: st.col, in_decl }
            } else if c == '%' {
                TokOut { tok: Ok(TokModel::PERef), pos: st.pos, line: st.line, col: st.col, in_decl }
            } else if c == '&' {
                let p1 = read_chars(s, st.pos, st.line, st.col, 1);
                if p1.data == "#"@ {
                    TokOut {
                        tok: Ok(TokModel::CharRef),
                        pos: p1.pos,
                        line: p1.line,
                        col: p1.col,
                        in_decl,
                    }
                } else {
                    TokOut {
                        tok: Ok(TokModel::EntityRef),
                        pos: st.pos,
                        line: st.line,
                        col: st.col,
                        in_decl,
                    }
                }
            } else if c == '?' {
                let p1 = read_chars(s, st.pos, st.line, st.col, 1);
                if p1.data == ">"@ {
                    TokOut {
                        tok: Ok(TokModel::PIEnd),
                        pos: p1.pos,
                        line: p1.line,
                        col: p1.col,
                        in_decl: false,
                    }
                } else {
                    text_model(s, st.pos, st.line, st.col, c, in_decl)
                }
            } else if c == ']' {
                let p2 = read_chars(s, st.pos, st.line, st.col, 2);
                if p2.data == "]>"@ {
                    TokOut {
                        tok: Ok(TokModel::CDataEnd),
                        pos: p2.pos,
                        line: p2.line,
                        col: p2.col,
                        in_decl,
                    }
                } else {
                    text_model(s, st.pos, st.line, st.col, c, in_decl)
                }
            } else if c == '-' {
                let p2 = read_chars(s, st.pos, st.line, st.col, 2);
                let p1 = read_chars(s, st.pos, st.line, st.col, 1);
                if p2.data == "->"@ {
                    TokOut {
                        tok: Ok(TokModel::CommentEnd),
                        pos: p2.pos,
                        line: p2.line,
                        col: p2.col,
                        in_decl,
                    }
                } else if p1.data == "-"@ {
                    TokOut {
                        tok: Err(plain_err(p1.line, p1.col, XmlErrorKind::MalformedDelimiter)),
                        pos: p1.pos,
                        line: p1.line,
                        col: p1.col,
                        in_decl,
                    }
                } else {
                    text_model(s, st.pos, st.line, st.col, c, in_decl)
                }
            } else if c == '/' {
                let p1 = read_chars(s, st.pos, st.line, st.col, 1);
                if p1.data == ">"@ {
                    TokOut {
                        tok: Ok(TokModel::RightBracket),
                        pos: p1.pos,
                        line: p1.line,
                        col: p1.col,
                        in_decl,
                    }
                } else {
                    text_model(s, st.pos, st.line, st.col, c, in_decl)
                }
            } else if c == '"' || c == '\'' {
                quoted_model(s, st.pos, st.line, st.col, c, in_decl)
            } else {
                text_model(s, st.pos, st.line, st.col, c, in_decl)
            }
        },
    }
}


impl XmlToken {
    /// An exact copy of the token.
    pub fn dup(&self) -> (t: XmlToken)
        ensures
            t == *self,
    {
        match self {
            XmlToken::LeftBracket => XmlToken::LeftBracket,
            XmlToken::RightBracket => XmlToken::RightBracket,
            XmlToken::Equal => XmlToken::Equal,
            XmlToken::EndTag => XmlToken::EndTag,
            XmlToken::Text(s) => XmlToken::Text(s.clone()),
            XmlToken::WhiteSpace => XmlToken::WhiteSpace,
            XmlToken::PIStart => XmlToken::PIStart,
            XmlToken::PIEnd => XmlToken::PIEnd,
            XmlToken::CDataStart => XmlToken::CDataStart,
            XmlToken::CDataEnd => XmlToken::CDataEnd,
            XmlToken::DoctypeStart => XmlToken::DoctypeStart,
            XmlToken::DoctypeEnd => XmlToken::DoctypeEnd,
            XmlToken::CommentStart => XmlToken::CommentStart,
            XmlToken::CommentEnd => XmlToken::CommentEnd,
            XmlToken::EntityRef => XmlToken::EntityRef,
            XmlToken::PERef => XmlToken::PERef,
            XmlToken::CharRef => XmlToken::CharRef,
            XmlToken::Encoding(s) => XmlToken::Encoding(s.clone()),
            XmlToken::Standalone(b) => XmlToken::Standalone(*b),
            XmlToken::EndOfFile => XmlToken::EndOfFile,
        }
    }
}

impl XmlLexer {
    /// Disambiguates the token that a `<` opens, by transparent lookahead.
    fn lt_token(&mut self) -> (res: Result<XmlToken, XmlError>)
        requires
            old(self).wf(),
        ensures
            final(self).wf(),
            final(self).source == old(self).source,
            final(self).token == old(self).token,
            ({
                let m = left_bracket_model(
                    old(self).source@,
                    old(self).pos as int,
                    old(self).line as int,
                    old(self).col as int,
                    old(self).in_decl,
                );
                &&& tok_res_view(res) == m.tok
                &&& final(self).pos == m.pos
                &&& final(self).line == m.line
                &&& final(self).col == m.col
                &&& final(self).in_decl == m.in_decl
            }),
    {
        let p1 = self.peek_str(1);
        if p1 == "?".to_owned() {
            let _consumed = self.read_str(1);
            let d3 = self.peek_str(3);
            self.in_decl = d3 == "xml".to_owned();
            Ok(XmlToken::PIStart)
        } else if p1 == "/".to_owned() {
            let _consumed = self.read_str(1);
            Ok(XmlToken::EndTag)
        } else {
            let p3 = self.peek_str(3);
            if p3 == "!--".to_owned() {
                let _consumed = self.read_str(3);
                Ok(XmlToken::CommentStart)
            } else {
                let p8 = self.peek_str(8);
                if p8 == "![CDATA[".to_owned() {
                    let _consumed = self.read_str(8);
                    Ok(XmlToken::CDataStart)
                } else if p8 == "!DOCTYPE".to_owned() {
                    let _consumed = self.read_str(8);
                    Ok(XmlToken::DoctypeStart)
                } else {
                    Ok(XmlToken::LeftBracket)
                }
            }
        }
    }

    /// Scans a quoted literal after its opening quote.
    fn quoted_token(&mut self, qc: char) -> (res: Result<XmlToken, XmlError>)
        requires
            old(self).wf(),
        ensures
            final(self).wf(),
            final(self).source == old(self).source,
            final(self).token == old(self).token,
            ({
                let m = quoted_model(
                    old(self).source@,
                    old(self).pos as int,
                    old(self).line as int,
                    old(self).col as int,
                    qc,
                    old(self).in_decl,
                );
                &&& tok_res_view(res) == m.tok
                &&& final(self).pos == m.pos
                &&& final(self).line == m.line
                &&& final(self).col == m.col
                &&& final(self).in_decl == m.in_decl
            }),
    {
        let v = self.read_until(CharFilter::NotChar(qc));
        let t = self.read();
        match t {
            Character::Char(_) => Ok(XmlToken::Text(v)),
            Character::RestrictedChar => Err(self.get_error(XmlErrorKind::IllegalCharacter)),
            Character::EndFile => Err(self.get_error(XmlErrorKind::UnexpectedEndOfFile)),
        }
    }

    /// Scans the quoted value of a declaration attribute after its `=`.
    fn decl_value_token(&mut self, name: String) -> (res: Result<XmlToken, XmlError>)
        requires
            old(self).wf(),
        ensures
            final(self).wf(),
            final(self).source == old(self).source,
            final(self).token == old(self).token,
            ({
                let m = decl_value_model(
                    old(self).source@,
                    old(self).pos as int,
                    old(self).line as int,
                    old(self).col as int,
                    name@,
                    old(self).in_decl,
                );
                &&& tok_res_view(res) == m.tok
                &&& final(self).pos == m.pos
                &&& final(self).line == m.line
                &&& final(self).col == m.col
                &&& final(self).in_decl == m.in_decl
            }),
    {
        let q = self.read();
        match q {
            Character::Char(d) => {
                if d == '"' || d == '\'' {
                    let v = self.read_until(CharFilter::NotChar(d));
                    let t = self.read();
                    match t {
                        Character::Char(_) => {
                            if name == "encoding".to_owned() {
                                Ok(XmlToken::Encoding(v))
                            } else if name == "standalone".to_owned() {
                                if v == "yes".to_owned() {
                                    Ok(XmlToken::Standalone(true))
                                } else if v == "no".to_owned() {
                                    Ok(XmlToken::Standalone(false))
                                } else {
                                    Err(self.get_error(XmlErrorKind::MalformedDelimiter))
                                }
                            } else {
                                Err(self.get_error(XmlErrorKind::UnexpectedToken))
                            }
                        },
                        Character::RestrictedChar => Err(
                            self.get_error(XmlErrorKind::IllegalCharacter),
                        ),
                        Character::EndFile => Err(
                            self.get_error(XmlErrorKind::UnexpectedEndOfFile),
                        ),
                    }
                } else {
                    Err(self.get_error(XmlErrorKind::MalformedDelimiter))
                }
            },
            Character::RestrictedChar => Err(self.get_error(XmlErrorKind::IllegalCharacter)),
            Character::EndFile => Err(self.get_error(XmlErrorKind::UnexpectedEndOfFile)),
        }
    }

    /// Scans a text run after its first character.
    fn text_token(&mut self, c: char) -> (res: Result<XmlToken, XmlError>)
        requires
            old(self).wf(),
        ensures
            final(self).wf(),
            final(self).source == old(self).source,
            final(self).token == old(self).token,
            ({
                let m = text_model(
                    old(self).source@,
                    old(self).pos as int,
                    old(self).line as int,
                    old(self).col as int,
                    c,
                    old(self).in_decl,
                );
                &&& tok_res_view(res) == m.tok
                &&& final(self).pos == m.pos
                &&& final(self).line == m.line
                &&& final(self).col == m.col
                &&& final(self).in_decl == m.in_decl
            }),
    {
        let run = self.read_until(CharFilter::IsText);
        let mut full = String::new();
        push_char(&mut full, c);
        full.append(run.as_str());
        proof {
            assert(full@ =~= seq![c] + run@);
        }
        if self.in_decl {
            let p1 = self.peek_str(1);
            if p1 == "=".to_owned() {
                let _consumed = self.read_str(1);
                self.decl_value_token(full)
            } else {
                Ok(XmlToken::Text(full))
            }
        } else {
            Ok(XmlToken::Text(full))
        }
    }

    /// Pulls one token from the stream.
    ///
    /// Whitespace runs coalesce into one `WhiteSpace` token, `<` and the
    /// closing delimiters are disambiguated by transparent lookahead, quotes
    /// open quoted literals, a restricted character surfaces as one lexical
    /// error, and the end of the input is the `EndOfFile` token. A failed
    /// pull does not wedge the tokenizer: the next pull resumes from the
    /// reader's current position.
    pub fn next(&mut self) -> (r: Option<Result<XmlToken, XmlError>>)
        requires
            old(self).wf(),
        ensures
            final(self).wf(),
            final(self).source == old(self).source,
            r is Some,
            ({
                let m = next_token_model(
                    old(self).source@,
                    old(self).pos as int,
                    old(self).line as int,
                    old(self).col as int,
                    old(self).in_decl,
                );
                &&& match r {
                    Some(t) => tok_res_view(t) == m.tok,
                    None => false,
                }
                &&& final(self).pos == m.pos
                &&& final(self).line == m.line
                &&& final(self).col == m.col
                &&& final(self).in_decl == m.in_decl
            }),
            final(self).token == (match r {
                Some(Ok(t)) => Some(t),
                _ => None,
            }),
    {
        let chr = self.read();
        let tok: Result<XmlToken, XmlError> = match chr {
            Character::EndFile => Ok(XmlToken::EndOfFile),
            Character::RestrictedChar => Err(self.get_error(XmlErrorKind::IllegalCharacter)),
            Character::Char(c) => {
                if is_whitespace(c) {
                    let run = self.read_until(CharFilter::IsWhitespace);
                    Ok(XmlToken::WhiteSpace)
                } else if c == '<' {
                    self.lt_token()
                } else if c == '>' {
                    Ok(XmlToken::RightBracket)
                } else if c == '=' {
                    Ok(XmlToken::Equal)
                } else if c == '%' {
                    Ok(XmlToken::PERef)
                } else if c == '&' {
                    let p1 = self.peek_str(1);
                    if p1 == "#".to_owned() {
                        let _consumed = self.read_str(1);
                        Ok(XmlToken::CharRef)
                    } else {
                        Ok(XmlToken::EntityRef)
                    }
                } else if c == '?' {
                    let p1 = self.peek_str(1);
                    if p1 == ">".to_owned() {
                        let _consumed = self.read_str(1);
                        self.in_decl = false;
                        Ok(XmlToken::PIEnd)
                    } else {
                        self.text_token(c)
                    }
                } else if c == ']' {
                    let p2 = self.peek_str(2);
                    if p2 == "]>".to_owned() {
                        let _consumed = self.read_str(2);
                        Ok(XmlToken::CDataEnd)
                    } else {
                        self.text_token(c)
                    }
                } else if c == '-' {
                    let p2 = self.peek_str(2);
                    if p2 == "->".to_owned() {
                        let _consumed = self.read_str(2);
                        Ok(XmlToken::CommentEnd)
                    } else {
                        let p1 = self.peek_str(1);
                        if p1 == "-".to_owned() {
                            let _consumed = self.read_str(1);
                            Err(self.get_error(XmlErrorKind::MalformedDelimiter))
                        } else {
                            self.text_token(c)
                        }
                    }
                } else if c == '/' {
                    let p1 = self.peek_str(1);
                    if p1 == ">".to_owned() {
                        let _consumed = self.read_str(1);
                        Ok(XmlToken::RightBracket)
                    } else {
                        self.text_token(c)
                    }
                } else if c == '"' || c == '\'' {
                    self.quoted_token(c)
                } else {
                    self.text_token(c)
                }
            },
        };
        self.token = match &tok {
            Ok(t) => Some(t.dup()),
            Err(_) => None,
        };
        Some(tok)
    }
}


/// A bounded read never moves backwards and never leaves the source.
pub proof fn lemma_read_chars_bounds(
    s: Seq<char>,
    pos: int,
    line: int,
    col: int,
    n: nat,
    data: Seq<char>,
    errs: Seq<ErrModel>,
)
    requires
        0 <= pos <= s.len(),
    ensures
        pos <= read_str_model(s, pos, line, col, n, data, errs).pos <= s.len(),
    decreases n,
{
    if n > 0 {
        let st = read_step(s, pos, line, col);
        match st.chr {
            Character::EndFile => {},
            Character::RestrictedChar => {
                lemma_read_chars_bounds(
                    s,
                    st.pos,
                    st.line,
                    st.col,
                    (n - 1) as nat,
                    data,
                    errs.push(plain_err(st.line, st.col, XmlErrorKind::IllegalCharacter)),
                );
            },
            Character::Char(a) => {
                lemma_read_chars_bounds(
                    s,
                    st.pos,
                    st.line,
                    st.col,
                    (n - 1) as nat,
                    data.push(a),
                    errs,
                );
            },
        }
    }
}

/// A predicate-bounded read never moves backwards and never leaves the
/// source.
pub proof fn lemma_read_until_bounds(
    s: Seq<char>,
    pos: int,
    line: int,
    col: int,
    f: CharFilter,
    data: Seq<char>,
)
    requires
        0 <= pos <= s.len(),
    ensures
        pos <= read_until_model(s, pos, line, col, f, data).pos <= s.len(),
    decreases s.len() - pos,
{
    let st = read_step(s, pos, line, col);
    if !(st.chr is EndFile) && filter_holds(f, st.chr) {
        match st.chr {
            Character::Char(a) => {
                lemma_read_until_bounds(s, st.pos, st.line, st.col, f, data.push(a));
            },
            _ => {
                lemma_read_until_bounds(s, st.pos, st.line, st.col, f, data);
            },
        }
    }
}

/// A text run never moves backwards and never leaves the source.
proof fn lemma_text_model_bounds(s: Seq<char>, pos: int, line: int, col: int, c: char, d: bool)
    requires
        0 <= pos <= s.len(),
    ensures
        pos <= text_model(s, pos, line, col, c, d).pos <= s.len(),
{
    lemma_read_until_bounds(s, pos, line, col, CharFilter::IsText, Seq::empty());
    let run = read_until_from(s, pos, line, col, CharFilter::IsText);
    lemma_read_chars_bounds(s, run.pos, run.line, run.col, 1, Seq::empty(), Seq::empty());
    let p1 = read_chars(s, run.pos, run.line, run.col, 1);
    let q = read_step(s, p1.pos, p1.line, p1.col);
    match q.chr {
        Character::Char(dq) => {
            lemma_read_until_bounds(s, q.pos, q.line, q.col, CharFilter::NotChar(dq), Seq::empty());
        },
        _ => {},
    }
}

/// Pulling one token never moves backwards, never leaves the source, and
/// consumes at least one character unless the stream has ended.
pub proof fn lemma_next_token_advances(s: Seq<char>, pos: int, line: int, col: int, d: bool)
    requires
        0 <= pos <= s.len(),
    ensures
        ({
            let t = next_token_model(s, pos, line, col, d);
            &&& pos <= t.pos <= s.len()
            &&& (t.tok != Ok::<TokModel, ErrModel>(TokModel::EndOfFile) ==> t.pos > pos)
        }),
{
    let st = read_step(s, pos, line, col);
    match st.chr {
        Character::EndFile => {},
        Character::RestrictedChar => {},
        Character::Char(c) => {
            if spec_is_whitespace(c) {
                lemma_read_until_bounds(
                    s,
                    st.pos,
                    st.line,
                    st.col,
                    CharFilter::IsWhitespace,
                    Seq::empty(),
                );
            } else if c == '<' {
                lemma_read_chars_bounds(s, st.pos, st.line, st.col, 1, Seq::empty(), Seq::empty());
                lemma_read_chars_bounds(s, st.pos, st.line, st.col, 3, Seq::empty(), Seq::empty());
                lemma_read_chars_bounds(s, st.pos, st.line, st.col, 8, Seq::empty(), Seq::empty());
            } else if c == '"' || c == '\'' {
                lemma_read_until_bounds(
                    s,
                    st.pos,
                    st.line,
                    st.col,
                    CharFilter::NotChar(c),
                    Seq::empty(),
                );
            } else {
                lemma_read_chars_bounds(s, st.pos, st.line, st.col, 1, Seq::empty(), Seq::empty());
                lemma_read_chars_bounds(s, st.pos, st.line, st.col, 2, Seq::empty(), Seq::empty());
                lemma_text_model_bounds(s, st.pos, st.line, st.col, c, d);
            }
        },
    }
}

/// The declared encoding and standalone values found in a scan.
pub ghost struct DeclOut {
    pub enc: Option<Seq<char>>,
    pub sa: Option<bool>,
}

/// Maps an optional string to its image.
pub open spec fn opt_string_view(o: Option<String>) -> Option<Seq<char>> {
    match o {
        Some(s) => Some(s@),
        None => None,
    }
}

/// Scans tokens from a position, keeping the last `Encoding` and
/// `Standalone` values pulled, until the stream ends.
pub open spec fn decl_scan_model(
    s: Seq<char>,
    pos: int,
    line: int,
    col: int,
    d: bool,
    enc: Option<Seq<char>>,
    sa: Option<bool>,
) -> DeclOut
    decreases s.len() - pos
    via decl_scan_model_decreases
{
    if !(0 <= pos <= s.len()) {
        DeclOut { enc, sa }
    } else {
        let t = next_token_model(s, pos, line, col, d);
        if t.tok == Ok::<TokModel, ErrModel>(TokModel::EndOfFile) {
            DeclOut { enc, sa }
        } else {
            let enc2 = match t.tok {
                Ok(TokModel::Encoding(e)) => Some(e),
                _ => enc,
            };
            let sa2 = match t.tok {
                Ok(TokModel::Standalone(b)) => Some(b),
                _ => sa,
            };
            decl_scan_model(s, t.pos, t.line, t.col, t.in_decl, enc2, sa2)
        }
    }
}

#[via_fn]
proof fn decl_scan_model_decreases(
    s: Seq<char>,
    pos: int,
    line: int,
    col: int,
    d: bool,
    enc: Option<Seq<char>>,
    sa: Option<bool>,
) {
    if 0 <= pos <= s.len() {
        lemma_next_token_advances(s, pos, line, col, d);
    }
}

/// The declaration metadata a processing instruction's content carries: when
/// the target is `xml`, the `encoding` and `standalone` pairs recognized by
/// the tokenizer's declaration scanning; nothing otherwise.
pub open spec fn decl_model(s: Seq<char>) -> DeclOut {
    let first = next_token_model(s, 0, 1, 0, true);
    if first.tok == Ok::<TokModel, ErrModel>(TokModel::Text("xml"@)) {
        decl_scan_model(s, first.pos, first.line, first.col, first.in_decl, None, None)
    } else {
        DeclOut { enc: None, sa: None }
    }
}

/// Collects the characters of a string.
fn string_to_chars(s: &String) -> (v: Vec<char>)
    ensures
        v@ == s@,
{
    let st = s.as_str();
    let n = st.unicode_len();
    let mut v: Vec<char> = Vec::new();
    let mut i: usize = 0;
    while i < n
        invariant
            i <= n,
            n == st@.len(),
            st@ == s@,
            v@.len() == i,
            forall|j: int| 0 <= j < i ==> v@[j] == s@[j],
        decreases n - i,
    {
        v.push(st.get_char(i));
        i = i + 1;
    }
    proof {
        assert(v@ =~= s@);
    }
    v
}


/// Classifies one pulled token for the declaration scan: whether it ends the
/// scan, and the encoding or standalone value it carries, if any.
fn decl_token_effect(t: &XmlToken) -> (r: (bool, Option<String>, Option<bool>))
    ensures
        r.0 == (tok_view(*t) == TokModel::EndOfFile),
        (match tok_view(*t) {
            TokModel::Encoding(e) => opt_string_view(r.1) == Some(e),
            _ => r.1 is None,
        }),
        (match tok_view(*t) {
            TokModel::Standalone(b) => r.2 == Some(b),
            _ => r.2 is None,
        }),
{
    match t {
        XmlToken::EndOfFile => (true, None, None),
        XmlToken::Encoding(e) => (false, Some(e.clone()), None),
        XmlToken::Standalone(b) => (false, None, Some(*b)),
        _ => (false, None, None),
    }
}

/// Scans the content of a processing instruction for declaration metadata:
/// when the target is `xml`, the last `encoding` value and the last
/// `standalone` value recognized there; lexical faults inside the scan leave
/// earlier findings intact.
#[verifier::rlimit(100)]
#[verifier::spinoff_prover]
pub fn scan_declaration(content: &String) -> (r: (Option<String>, Option<bool>))
    requires
        content@.len() + 2 <= usize::MAX,
    ensures
        ({
            let dd = decl_model(content@);
            &&& opt_string_view(r.0) == dd.enc
            &&& r.1 == dd.sa
        }),
{
    let ghost s = content@;
    let chars = string_to_chars(content);
    let mut lx = XmlLexer::from_reader(chars);
    lx.in_decl = true;
    let first = lx.next();
    let is_decl = match &first {
        Some(Ok(XmlToken::Text(t))) => *t == "xml".to_owned(),
        _ => false,
    };
    if !is_decl {
        return (None, None);
    }
    let mut enc: Option<String> = None;
    let mut sa: Option<bool> = None;
    loop
        invariant
            lx.wf(),
            lx.source@ == s,
            s == content@,
            decl_model(s) == decl_scan_model(
                s,
                lx.pos as int,
                lx.line as int,
                lx.col as int,
                lx.in_decl,
                opt_string_view(enc),
                sa,
            ),
        decreases s.len() - lx.pos,
    {
        proof {
            lemma_next_token_advances(s, lx.pos as int, lx.line as int, lx.col as int, lx.in_decl);
        }
        let t = lx.next();
        match t {
            Some(res) => match res {
                Ok(tok) => {
                    let effect = decl_token_effect(&tok);
                    if effect.0 {
                        return (enc, sa);
                    }
                    match effect.1 {
                        Some(v) => {
                            enc = Some(v);
                        },
                        None => {},
                    }
                    match effect.2 {
                        Some(v) => {
                            sa = Some(v);
                        },
                        None => {},
                    }
                },
                Err(_) => {},
            },
            None => {
                return (enc, sa);
            },
        }
    }
}

} // verus!
