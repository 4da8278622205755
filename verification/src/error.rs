//! The position-stamped error value shared by the reader, the tokenizer and
//! the parser. Errors are values that accumulate in lists; nothing is thrown.

use vstd::prelude::*;

verus! {

/// The fault a single error reports.
#[derive(Clone, Copy, Debug, PartialEq, Eq)]
pub enum XmlErrorKind {
    /// The stream ended while more input was required.
    UnexpectedEndOfFile,
    /// A restricted code point was consumed.
    IllegalCharacter,
    /// A delimiter was malformed: a bare `--` inside a comment, a missing
    /// quote around an attribute value, a broken `<![CDATA[` opening.
    MalformedDelimiter,
    /// Input that is not valid in the current parse state.
    UnexpectedToken,
    /// A closing tag named a different element than the innermost open one.
    TagMismatch,
    /// An element carried two attributes with the same name.
    DuplicateAttribute,
}

/// A secondary position attached to an error, e.g. where a block started.
#[derive(Clone, Copy, Debug, PartialEq, Eq)]
pub struct Mark {
    pub line: usize,
    pub col: usize,
}

/// A position-stamped error value.
#[derive(Clone, Debug, PartialEq, Eq)]
pub struct XmlError {
    /// 1-based line of the fault.
    pub line: usize,
    /// 0-based column of the fault.
    pub col: usize,
    /// What went wrong.
    pub kind: XmlErrorKind,
    /// An optional fragment of the offending input.
    pub context: Option<String>,
    /// An optional secondary position, e.g. where the enclosing block started.
    pub mark: Option<Mark>,
}

/// The mathematical image of an error: its positions and kind.
pub ghost struct ErrModel {
    pub line: int,
    pub col: int,
    pub kind: XmlErrorKind,
    pub mark: Option<(int, int)>,
}

/// Maps an error value to its mathematical image.
pub open spec fn err_view(e: XmlError) -> ErrModel {
    ErrModel {
        line: e.line as int,
        col: e.col as int,
        kind: e.kind,
        mark: match e.mark {
            Some(m) => Some((m.line as int, m.col as int)),
            None => None,
        },
    }
}

/// Maps an error list to its mathematical image.
pub open spec fn errs_view(v: Seq<XmlError>) -> Seq<ErrModel> {
    v.map_values(|e: XmlError| err_view(e))
}

/// An error without a secondary mark, as the reader reports them.
pub open spec fn plain_err(line: int, col: int, kind: XmlErrorKind) -> ErrModel {
    ErrModel { line, col, kind, mark: None }
}

impl XmlError {
    /// The canonical message for this error's kind.
    pub fn msg(&self) -> (m: &'static str)
        ensures
            m@ == spec_msg(self.kind),
    {
        match self.kind {
            XmlErrorKind::UnexpectedEndOfFile => "Unexpected end of file",
            XmlErrorKind::IllegalCharacter => "Illegal character",
            XmlErrorKind::MalformedDelimiter => "Malformed delimiter",
            XmlErrorKind::UnexpectedToken => "Unexpected token",
            XmlErrorKind::TagMismatch => "Tag mismatch",
            XmlErrorKind::DuplicateAttribute => "Duplicate attribute",
        }
    }
}

/// The canonical message for each error kind.
pub open spec fn spec_msg(kind: XmlErrorKind) -> Seq<char> {
    match kind {
        XmlErrorKind::UnexpectedEndOfFile => "Unexpected end of file"@,
        XmlErrorKind::IllegalCharacter => "Illegal character"@,
        XmlErrorKind::MalformedDelimiter => "Malformed delimiter"@,
        XmlErrorKind::UnexpectedToken => "Unexpected token"@,
        XmlErrorKind::TagMismatch => "Tag mismatch"@,
        XmlErrorKind::DuplicateAttribute => "Duplicate attribute"@,
    }
}


impl XmlError {
    /// An exact copy of the error.
    pub fn dup(&self) -> (e: XmlError)
        ensures
            e == *self,
    {
        XmlError {
            line: self.line,
            col: self.col,
            kind: self.kind,
            context: match &self.context {
                Some(c) => Some(c.clone()),
                None => None,
            },
            mark: self.mark,
        }
    }
}

} // verus!
