//! The finite-state parser: it consumes the reader's characters directly and
//! assembles elements, attributes and text/CDATA nodes into a tree while
//! accumulating position-stamped errors.

use vstd::prelude::*;
use vstd::string::StrSliceExecFns;

use crate::chars::push_char;
use crate::chars::is_flagged;
use crate::chars::is_name_char;
use crate::chars::is_name_start;
use crate::chars::is_restricted_char;
use crate::chars::is_whitespace;
use crate::chars::spec_is_flagged;
use crate::chars::spec_is_name_char;
use crate::chars::spec_is_name_start;
use crate::chars::spec_is_restricted;
use crate::chars::spec_is_whitespace;
use crate::error::plain_err;
use crate::lexer::decl_model;
use crate::lexer::opt_string_view;
use crate::lexer::scan_declaration;
use crate::error::err_view;
use crate::error::errs_view;
use crate::error::ErrModel;
use crate::error::XmlError;
use crate::error::XmlErrorKind;
use crate::node::attr_view;
use crate::node::has_attr_name;
use crate::node::attrs_contain;
use crate::node::lemma_nodes_view_push;
use crate::node::attrs_view;
use crate::node::elem_view;
use crate::node::node_view;
use crate::node::nodes_view;
use crate::node::AttrModel;
use crate::node::ElemModel;
use crate::node::NodeModel;
use crate::node::XmlAttr;
use crate::node::XmlDoc;
use crate::node::XmlElem;
use crate::node::XmlNode;

verus! {

/// One character pulled by the parser's reader: the parser sees normalized
/// newlines as a state of their own and reads every other code point through.
#[derive(Clone, Copy, Debug, PartialEq, Eq)]
pub enum Character {
    /// An ordinary character.
    Chars(char),
    /// One normalized line ending.
    NewLine,
}

/// The parse states of the finite-state machine. The state belongs to the
/// parser alone; it is exposed only so that the contracts can speak of it.
#[derive(Clone, Copy, Debug, PartialEq, Eq)]
pub enum State {
    OutsideTag,
    TagOpened,
    InProcessingInstructions,
    InTagName,
    InCloseTagName,
    InTag,
    InAttrName,
    InAttrValue,
    ExpectDelimiter,
    ExpectClose,
    ExpectSpaceOrClose,
    InExclamationMark,
    InCDATAOpening,
    InCDATA,
    InCommentOpening,
    InComment1,
    InComment2,
    InDoctype,
    Namespace,
}

/// The outcome of one read by the parser's reader.
pub ghost struct PReadOut {
    pub chr: Character,
    pub pos: int,
    pub line: int,
    pub col: int,
}

/// One read by the parser's reader: `\r` folds a following `\n` or U+0085
/// into itself, and `\r`, U+0085 and U+2028 surface as `NewLine` with the
/// line incremented and the column reset; every other character, restricted
/// ones included, reads through with the column advanced.
pub open spec fn parser_read_step(s: Seq<char>, pos: int, line: int, col: int) -> PReadOut {
    if !(0 <= pos < s.len()) {
        PReadOut { chr: Character::Chars(' '), pos, line, col }
    } else {
        let c = s[pos];
        if c == '\r' {
            let np = if pos + 1 < s.len() && (s[pos + 1] == '\n' || s[pos + 1] == '\u{85}') {
                pos + 2
            } else {
                pos + 1
            };
            PReadOut { chr: Character::NewLine, pos: np, line: line + 1, col: 0 }
        } else if c == '\u{85}' || c == '\u{2028}' {
            PReadOut { chr: Character::NewLine, pos: pos + 1, line: line + 1, col: 0 }
        } else {
            PReadOut { chr: Character::Chars(c), pos: pos + 1, line, col: col + 1 }
        }
    }
}

/// The tag-assembling parser.
pub struct XmlParser {
    /// 1-based line of the last consumed character.
    pub line: usize,
    /// 0-based column of the last consumed character.
    pub col: usize,
    /// The count of open, unclosed elements.
    pub depth: usize,
    /// The most recently completed element.
    pub elem: Option<XmlElem>,
    /// The characters of the source.
    pub source: Vec<char>,
    /// The index of the next character to consume.
    pub pos: usize,
    /// Text accumulated for the current node or value.
    pub buf: String,
    /// The name being accumulated for the current tag.
    pub name: String,
    /// The name being accumulated for the current attribute.
    pub attr_name: String,
    /// The attributes collected for the element being opened.
    pub attributes: Vec<XmlAttr>,
    /// The active quote delimiter of the attribute value being scanned.
    pub delim: char,
    /// The current parse state.
    pub state: State,
    /// The elements opened and not yet closed, outermost first.
    pub stack: Vec<XmlElem>,
    /// The completed root element, once one closed at depth zero.
    pub root: Option<XmlElem>,
    /// An auxiliary counter: pending hyphens or brackets, or DOCTYPE nesting.
    pub run: usize,
    /// Line where the tag being scanned started.
    pub mark_line: usize,
    /// Column where the tag being scanned started.
    pub mark_col: usize,
    /// Whether a fatal structural error ended the parse early.
    pub fatal: bool,
    /// The encoding declared in the XML text declaration, once scanned.
    pub encoding: Option<String>,
    /// The standalone value declared in the XML text declaration, once
    /// scanned.
    pub standalone: Option<bool>,
}

/// The mathematical image of the parser state.
pub ghost struct PModel {
    pub src: Seq<char>,
    pub pos: int,
    pub line: int,
    pub col: int,
    pub depth: int,
    pub buf: Seq<char>,
    pub name: Seq<char>,
    pub attr_name: Seq<char>,
    pub attrs: Seq<AttrModel>,
    pub delim: char,
    pub state: State,
    pub stack: Seq<ElemModel>,
    pub root: Option<ElemModel>,
    pub elem: Option<ElemModel>,
    pub run: int,
    pub mark_line: int,
    pub mark_col: int,
    pub fatal: bool,
    pub enc: Option<Seq<char>>,
    pub sa: Option<bool>,
}

/// Maps an open-element stack to its image.
pub open spec fn stack_view(s: Seq<XmlElem>) -> Seq<ElemModel> {
    s.map_values(|e: XmlElem| elem_view(e))
}

/// Maps an optional element to its image.
pub open spec fn opt_elem_view(e: Option<XmlElem>) -> Option<ElemModel> {
    match e {
        Some(x) => Some(elem_view(x)),
        None => None,
    }
}

/// Maps the parser to its image.
pub open spec fn pview(p: XmlParser) -> PModel {
    PModel {
        src: p.source@,
        pos: p.pos as int,
        line: p.line as int,
        col: p.col as int,
        depth: p.depth as int,
        buf: p.buf@,
        name: p.name@,
        attr_name: p.attr_name@,
        attrs: attrs_view(p.attributes@),
        delim: p.delim,
        state: p.state,
        stack: stack_view(p.stack@),
        root: opt_elem_view(p.root),
        elem: opt_elem_view(p.elem),
        run: p.run as int,
        mark_line: p.mark_line as int,
        mark_col: p.mark_col as int,
        fatal: p.fatal,
        enc: opt_string_view(p.encoding),
        sa: p.standalone,
    }
}

impl XmlParser {
    /// The parser is well formed: the cursor is inside the source, position
    /// bookkeeping and the auxiliary counter are consistent with it, the
    /// depth counts the open elements, and the source leaves room for the
    /// arithmetic of position updates.
    pub open spec fn wf(&self) -> bool {
        &&& self.pos <= self.source@.len()
        &&& 1 <= self.line
        &&& self.line - 1 + self.col <= self.pos
        &&& self.run <= self.pos
        &&& self.buf@.len() + self.run <= self.pos
        &&& self.depth == self.stack@.len()
        &&& self.depth <= self.pos
        &&& self.source@.len() + 2 <= usize::MAX
    }

    /// Constructs a parser over the given characters, at line 1, column 0,
    /// outside any tag.
    pub fn from_reader(data: Vec<char>) -> (p: XmlParser)
        requires
            data@.len() + 2 <= usize::MAX,
        ensures
            p.wf(),
            p.source@ == data@,
            p.pos == 0,
            p.line == 1,
            p.col == 0,
            p.depth == 0,
            p.state == State::OutsideTag,
            p.elem is None,
            p.root is None,
            !p.fatal,
            p.encoding is None,
            p.standalone is None,
            p.buf@ == Seq::<char>::empty(),
            p.name@ == Seq::<char>::empty(),
            p.attr_name@ == Seq::<char>::empty(),
            attrs_view(p.attributes@) == Seq::<AttrModel>::empty(),
            stack_view(p.stack@) == Seq::<ElemModel>::empty(),
    {
        let p = XmlParser {
            line: 1,
            col: 0,
            depth: 0,
            elem: None,
            source: data,
            pos: 0,
            buf: String::new(),
            name: String::new(),
            attr_name: String::new(),
            attributes: Vec::new(),
            delim: ' ',
            state: State::OutsideTag,
            stack: Vec::new(),
            root: None,
            run: 0,
            mark_line: 1,
            mark_col: 0,
            fatal: false,
            encoding: None,
            standalone: None,
        };
        proof {
            assert(attrs_view(p.attributes@) =~= Seq::<AttrModel>::empty());
            assert(stack_view(p.stack@) =~= Seq::<ElemModel>::empty());
        }
        p
    }

    /// Verifies whether the character is a restricted character of the
    /// XML 1.1 grammar.
    pub fn is_restricted(c: char) -> (r: bool)
        ensures
            r == spec_is_restricted(c),
    {
        is_restricted_char(c)
    }

    /// Consumes one raw character without updating line or column.
    fn raw_read(&mut self) -> (c: char)
        requires
            old(self).pos < old(self).source@.len(),
            old(self).source@.len() + 2 <= usize::MAX,
        ensures
            c == old(self).source@[old(self).pos as int],
            *final(self) == (XmlParser { pos: (old(self).pos + 1) as usize, ..*old(self) }),
    {
        let c = self.source[self.pos];
        self.pos = self.pos + 1;
        c
    }

    /// Pushes the last raw character back without updating line or column.
    fn raw_unread(&mut self)
        requires
            old(self).pos >= 1,
        ensures
            *final(self) == (XmlParser { pos: (old(self).pos - 1) as usize, ..*old(self) }),
    {
        self.pos = self.pos - 1;
    }

    /// Reads one character, folding multi-character line endings and
    /// surfacing every normalized newline as `NewLine`.
    ///
    /// The parser's `Character` has no states for the end of the stream or a
    /// restricted code point, so `read` requires the cursor inside the
    /// source and reads restricted code points through as ordinary
    /// characters; the machine checks the cursor before each step and
    /// classifies restricted code points itself, recording one
    /// `IllegalCharacter` error apiece.
    pub fn read(&mut self) -> (c: Character)
        requires
            old(self).wf(),
            old(self).pos < old(self).source@.len(),
        ensures
            final(self).wf(),
            *final(self) == (XmlParser {
                pos: final(self).pos,
                line: final(self).line,
                col: final(self).col,
                ..*old(self)
            }),
            ({
                let m = parser_read_step(
                    old(self).source@,
                    old(self).pos as int,
                    old(self).line as int,
                    old(self).col as int,
                );
                c == m.chr && final(self).pos == m.pos && final(self).line == m.line
                    && final(self).col == m.col
            }),
    {
        let chr = self.raw_read();
        if chr == '\r' {
            self.line = self.line + 1;
            self.col = 0;
            if self.pos < self.source.len() {
                let peeked = self.raw_read();
                if !(peeked == '\u{85}' || peeked == '\n') {
                    self.raw_unread();
                }
            }
            Character::NewLine
        } else if chr == '\u{85}' || chr == '\u{2028}' {
            self.line = self.line + 1;
            self.col = 0;
            Character::NewLine
        } else {
            self.col = self.col + 1;
            Character::Chars(chr)
        }
    }
}


/// Whether every character of the sequence is XML whitespace.
pub open spec fn all_ws(s: Seq<char>) -> bool {
    forall|i: int| 0 <= i < s.len() ==> spec_is_whitespace(s[i])
}

/// A run of `k` closing brackets.
pub open spec fn repeat_brackets(k: int) -> Seq<char> {
    Seq::new(k as nat, |i: int| ']')
}

/// The character expected at position `i` of the CDATA opening `CDATA[`.
pub open spec fn spec_cdata_char(i: int) -> char {
    if i == 0 {
        'C'
    } else if i == 1 {
        'D'
    } else if i == 2 {
        'A'
    } else if i == 3 {
        'T'
    } else if i == 4 {
        'A'
    } else {
        '['
    }
}

/// The outcome of one machine step: the machine afterwards, the node that
/// completed during the step, if one did, and the error the step recorded,
/// if it recorded one.
pub ghost struct StepModel {
    pub m: PModel,
    pub node: Option<NodeModel>,
    pub err: Option<ErrModel>,
}

/// Appends a node to the child list of the innermost open element.
pub open spec fn attach_child(m: PModel, nd: NodeModel) -> PModel {
    let t = m.stack.last();
    let t2 = ElemModel { children: t.children.push(nd), ..t };
    PModel { stack: m.stack.drop_last().push(t2), ..m }
}

/// Completes an element: it becomes a child of the innermost open element,
/// or the root when none is open and no root exists yet; a second element at
/// depth zero is an error and is dropped from the tree. The completed
/// element is remembered and reported as the step's node either way.
pub open spec fn complete_elem(b: PModel, e: ElemModel) -> StepModel {
    if b.stack.len() > 0 {
        StepModel {
            m: attach_child(PModel { elem: Some(e), ..b }, NodeModel::Element(e)),
            node: Some(NodeModel::Element(e)),
            err: None,
        }
    } else if b.root is None {
        StepModel {
            m: PModel { root: Some(e), elem: Some(e), ..b },
            node: Some(NodeModel::Element(e)),
            err: None,
        }
    } else {
        StepModel {
            m: PModel { elem: Some(e), ..b },
            node: Some(NodeModel::Element(e)),
            err: Some(plain_err(b.line, b.col, XmlErrorKind::UnexpectedToken)),
        }
    }
}

/// Opens the element whose name and attributes were accumulated: it is
/// pushed onto the open-element stack and scanning returns to text content.
pub open spec fn open_elem(b: PModel) -> PModel {
    PModel {
        stack: b.stack.push(ElemModel { name: b.name, attrs: b.attrs, children: Seq::empty() }),
        depth: b.depth + 1,
        name: Seq::empty(),
        attrs: Seq::empty(),
        state: State::OutsideTag,
        ..b
    }
}

/// Closes a tag by the accumulated closing name. A close with nothing open,
/// or naming anything but the innermost open element, is a fatal
/// `TagMismatch` anchored where the closing tag started; on a match the
/// element is popped and completed.
pub open spec fn close_tag(b: PModel) -> StepModel {
    if b.stack.len() == 0 {
        StepModel {
            m: PModel { fatal: true, ..b },
            node: None,
            err: Some(
                ErrModel {
                    line: b.mark_line,
                    col: b.mark_col,
                    kind: XmlErrorKind::TagMismatch,
                    mark: None,
                },
            ),
        }
    } else {
        let top = b.stack.last();
        if top.name != b.name {
            StepModel {
                m: PModel { fatal: true, ..b },
                node: None,
                err: Some(
                    ErrModel {
                        line: b.mark_line,
                        col: b.mark_col,
                        kind: XmlErrorKind::TagMismatch,
                        mark: None,
                    },
                ),
            }
        } else {
            let b2 = PModel {
                stack: b.stack.drop_last(),
                depth: b.depth - 1,
                name: Seq::empty(),
                state: State::OutsideTag,
                ..b
            };
            complete_elem(b2, top)
        }
    }
}

/// Completes a self-closing element at the `>` of a `/>`.
pub open spec fn self_close(b: PModel) -> StepModel {
    let e = ElemModel { name: b.name, attrs: b.attrs, children: Seq::empty() };
    let b2 = PModel {
        name: Seq::empty(),
        attrs: Seq::empty(),
        state: State::OutsideTag,
        ..b
    };
    complete_elem(b2, e)
}

/// One transition of the state machine on a consumed character `ch`; the
/// machine `b` already carries the position after the read.
pub open spec fn dispatch(b: PModel, ch: char) -> StepModel {
    match b.state {
        State::OutsideTag => {
            if ch == '<' {
                let b1 = PModel {
                    state: State::TagOpened,
                    buf: Seq::empty(),
                    mark_line: b.line,
                    mark_col: b.col,
                    ..b
                };
                if b.buf.len() == 0 {
                    StepModel { m: b1, node: None, err: None }
                } else if b.stack.len() > 0 {
                    let nd = NodeModel::Text(b.buf);
                    StepModel { m: attach_child(b1, nd), node: Some(nd), err: None }
                } else if all_ws(b.buf) {
                    StepModel { m: b1, node: None, err: None }
                } else {
                    StepModel {
                        m: b1,
                        node: None,
                        err: Some(plain_err(b.line, b.col, XmlErrorKind::UnexpectedToken)),
                    }
                }
            } else {
                StepModel { m: PModel { buf: b.buf.push(ch), ..b }, node: None, err: None }
            }
        },
        State::TagOpened => {
            if ch == '?' {
                StepModel {
                    m: PModel { state: State::InProcessingInstructions, run: 0, ..b },
                    node: None,
                    err: None,
                }
            } else if ch == '!' {
                StepModel { m: PModel { state: State::InExclamationMark, ..b }, node: None, err: None }
            } else if ch == '/' {
                StepModel {
                    m: PModel { state: State::InCloseTagName, name: Seq::empty(), ..b },
                    node: None,
                    err: None,
                }
            } else if spec_is_name_start(ch) {
                StepModel {
                    m: PModel {
                        state: State::InTagName,
                        name: seq![ch],
                        attrs: Seq::empty(),
                        attr_name: Seq::empty(),
                        ..b
                    },
                    node: None,
                    err: None,
                }
            } else {
                StepModel {
                    m: PModel { state: State::OutsideTag, ..b },
                    node: None,
                    err: Some(plain_err(b.line, b.col, XmlErrorKind::UnexpectedToken)),
                }
            }
        },
        State::InTagName => {
            if spec_is_whitespace(ch) {
                StepModel { m: PModel { state: State::InTag, ..b }, node: None, err: None }
            } else if ch == '/' {
                StepModel { m: PModel { state: State::ExpectClose, ..b }, node: None, err: None }
            } else if ch == '>' {
                StepModel { m: open_elem(b), node: None, err: None }
            } else if spec_is_name_char(ch) {
                StepModel { m: PModel { name: b.name.push(ch), ..b }, node: None, err: None }
            } else {
                StepModel {
                    m: b,
                    node: None,
                    err: Some(plain_err(b.line, b.col, XmlErrorKind::UnexpectedToken)),
                }
            }
        },
        State::InTag => {
            if spec_is_whitespace(ch) {
                StepModel { m: b, node: None, err: None }
            } else if ch == '/' {
                StepModel { m: PModel { state: State::ExpectClose, ..b }, node: None, err: None }
            } else if ch == '>' {
                StepModel { m: open_elem(b), node: None, err: None }
            } else if spec_is_name_start(ch) {
                StepModel {
                    m: PModel { state: State::InAttrName, attr_name: seq![ch], ..b },
                    node: None,
                    err: None,
                }
            } else {
                StepModel {
                    m: b,
                    node: None,
                    err: Some(plain_err(b.line, b.col, XmlErrorKind::UnexpectedToken)),
                }
            }
        },
        State::InAttrName => {
            if ch == '=' {
                StepModel { m: PModel { state: State::ExpectDelimiter, ..b }, node: None, err: None }
            } else if ch == ':' {
                StepModel {
                    m: PModel { state: State::Namespace, attr_name: b.attr_name.push(ch), ..b },
                    node: None,
                    err: None,
                }
            } else if spec_is_name_char(ch) {
                StepModel {
                    m: PModel { attr_name: b.attr_name.push(ch), ..b },
                    node: None,
                    err: None,
                }
            } else {
                StepModel {
                    m: PModel { state: State::InTag, attr_name: Seq::empty(), ..b },
                    node: None,
                    err: Some(plain_err(b.line, b.col, XmlErrorKind::UnexpectedToken)),
                }
            }
        },
        State::Namespace => {
            if ch == '=' {
                StepModel { m: PModel { state: State::ExpectDelimiter, ..b }, node: None, err: None }
            } else if spec_is_name_char(ch) {
                StepModel {
                    m: PModel { attr_name: b.attr_name.push(ch), ..b },
                    node: None,
                    err: None,
                }
            } else {
                StepModel {
                    m: PModel { state: State::InTag, attr_name: Seq::empty(), ..b },
                    node: None,
                    err: Some(plain_err(b.line, b.col, XmlErrorKind::UnexpectedToken)),
                }
            }
        },
        State::ExpectDelimiter => {
            if ch == '"' || ch == '\'' {
                StepModel {
                    m: PModel { state: State::InAttrValue, delim: ch, buf: Seq::empty(), ..b },
                    node: None,
                    err: None,
                }
            } else if spec_is_whitespace(ch) {
                StepModel { m: b, node: None, err: None }
            } else {
                StepModel {
                    m: PModel { state: State::InTag, attr_name: Seq::empty(), ..b },
                    node: None,
                    err: Some(plain_err(b.line, b.col, XmlErrorKind::MalformedDelimiter)),
                }
            }
        },
        State::InAttrValue => {
            if ch == b.delim {
                if has_attr_name(b.attrs, b.attr_name) {
                    StepModel {
                        m: PModel {
                            state: State::InTag,
                            attr_name: Seq::empty(),
                            buf: Seq::empty(),
                            ..b
                        },
                        node: None,
                        err: Some(plain_err(b.line, b.col, XmlErrorKind::DuplicateAttribute)),
                    }
                } else {
                    StepModel {
                        m: PModel {
                            state: State::InTag,
                            attrs: b.attrs.push(AttrModel { name: b.attr_name, value: b.buf }),
                            attr_name: Seq::empty(),
                            buf: Seq::empty(),
                            ..b
                        },
                        node: None,
                        err: None,
                    }
                }
            } else if ch == '\n' || ch == '<' {
                StepModel {
                    m: PModel { buf: b.buf.push(ch), ..b },
                    node: None,
                    err: Some(plain_err(b.line, b.col, XmlErrorKind::UnexpectedToken)),
                }
            } else {
                StepModel { m: PModel { buf: b.buf.push(ch), ..b }, node: None, err: None }
            }
        },
        State::ExpectClose => {
            if ch == '>' {
                self_close(b)
            } else {
                StepModel {
                    m: PModel {
                        state: State::OutsideTag,
                        name: Seq::empty(),
                        attrs: Seq::empty(),
                        ..b
                    },
                    node: None,
                    err: Some(plain_err(b.line, b.col, XmlErrorKind::UnexpectedToken)),
                }
            }
        },
        State::InCloseTagName => {
            if spec_is_whitespace(ch) {
                StepModel { m: PModel { state: State::ExpectSpaceOrClose, ..b }, node: None, err: None }
            } else if ch == '>' {
                close_tag(b)
            } else if spec_is_name_char(ch) {
                StepModel { m: PModel { name: b.name.push(ch), ..b }, node: None, err: None }
            } else {
                StepModel {
                    m: b,
                    node: None,
                    err: Some(plain_err(b.line, b.col, XmlErrorKind::UnexpectedToken)),
                }
            }
        },
        State::ExpectSpaceOrClose => {
            if spec_is_whitespace(ch) {
                StepModel { m: b, node: None, err: None }
            } else if ch == '>' {
                close_tag(b)
            } else {
                StepModel {
                    m: b,
                    node: None,
                    err: Some(plain_err(b.line, b.col, XmlErrorKind::UnexpectedToken)),
                }
            }
        },
        State::InExclamationMark => {
            if ch == '-' {
                StepModel { m: PModel { state: State::InCommentOpening, ..b }, node: None, err: None }
            } else if ch == '[' {
                StepModel {
                    m: PModel { state: State::InCDATAOpening, run: 0, ..b },
                    node: None,
                    err: None,
                }
            } else if ch == 'D' {
                StepModel { m: PModel { state: State::InDoctype, run: 0, ..b }, node: None, err: None }
            } else {
                StepModel {
                    m: PModel { state: State::OutsideTag, ..b },
                    node: None,
                    err: Some(plain_err(b.line, b.col, XmlErrorKind::UnexpectedToken)),
                }
            }
        },
        State::InCommentOpening => {
            if ch == '-' {
                StepModel { m: PModel { state: State::InComment1, run: 0, ..b }, node: None, err: None }
            } else {
                StepModel {
                    m: PModel { state: State::OutsideTag, ..b },
                    node: None,
                    err: Some(plain_err(b.line, b.col, XmlErrorKind::MalformedDelimiter)),
                }
            }
        },
        State::InComment1 => {
            if ch == '-' {
                StepModel { m: PModel { state: State::InComment2, run: 1, ..b }, node: None, err: None }
            } else {
                StepModel { m: b, node: None, err: None }
            }
        },
        State::InComment2 => {
            if ch == '-' {
                StepModel { m: PModel { run: b.run + 1, ..b }, node: None, err: None }
            } else if ch == '>' {
                if b.run >= 2 {
                    StepModel {
                        m: PModel { state: State::OutsideTag, run: 0, ..b },
                        node: None,
                        err: None,
                    }
                } else {
                    StepModel { m: PModel { state: State::InComment1, run: 0, ..b }, node: None, err: None }
                }
            } else {
                if b.run >= 2 {
                    StepModel {
                        m: PModel { state: State::InComment1, run: 0, ..b },
                        node: None,
                        err: Some(plain_err(b.line, b.col, XmlErrorKind::MalformedDelimiter)),
                    }
                } else {
                    StepModel { m: PModel { state: State::InComment1, run: 0, ..b }, node: None, err: None }
                }
            }
        },
        State::InCDATAOpening => {
            if b.run <= 5 && ch == spec_cdata_char(b.run) {
                if b.run == 5 {
                    StepModel {
                        m: PModel { state: State::InCDATA, run: 0, buf: Seq::empty(), ..b },
                        node: None,
                        err: None,
                    }
                } else {
                    StepModel { m: PModel { run: b.run + 1, ..b }, node: None, err: None }
                }
            } else {
                StepModel {
                    m: PModel { state: State::OutsideTag, run: 0, ..b },
                    node: None,
                    err: Some(plain_err(b.line, b.col, XmlErrorKind::MalformedDelimiter)),
                }
            }
        },
        State::InCDATA => {
            if ch == ']' {
                StepModel { m: PModel { run: b.run + 1, ..b }, node: None, err: None }
            } else if ch == '>' && b.run >= 2 {
                let content = b.buf + repeat_brackets(b.run - 2);
                let b2 = PModel { state: State::OutsideTag, run: 0, buf: Seq::empty(), ..b };
                if b.stack.len() > 0 {
                    StepModel {
                        m: attach_child(b2, NodeModel::CData(content)),
                        node: Some(NodeModel::CData(content)),
                        err: None,
                    }
                } else {
                    StepModel {
                        m: b2,
                        node: None,
                        err: Some(plain_err(b.line, b.col, XmlErrorKind::UnexpectedToken)),
                    }
                }
            } else {
                StepModel {
                    m: PModel { buf: (b.buf + repeat_brackets(b.run)).push(ch), run: 0, ..b },
                    node: None,
                    err: None,
                }
            }
        },
        State::InProcessingInstructions => {
            if ch == '?' {
                let nb = if b.run == 1 {
                    b.buf.push('?')
                } else {
                    b.buf
                };
                StepModel { m: PModel { buf: nb, run: 1, ..b }, node: None, err: None }
            } else if ch == '>' && b.run == 1 {
                let dd = decl_model(b.buf);
                StepModel {
                    m: PModel {
                        state: State::OutsideTag,
                        run: 0,
                        buf: Seq::empty(),
                        enc: match dd.enc {
                            Some(e) => Some(e),
                            None => b.enc,
                        },
                        sa: match dd.sa {
                            Some(x) => Some(x),
                            None => b.sa,
                        },
                        ..b
                    },
                    node: None,
                    err: None,
                }
            } else {
                let nb = if b.run == 1 {
                    b.buf.push('?').push(ch)
                } else {
                    b.buf.push(ch)
                };
                StepModel { m: PModel { buf: nb, run: 0, ..b }, node: None, err: None }
            }
        },
        State::InDoctype => {
            if ch == '<' {
                StepModel { m: PModel { run: b.run + 1, ..b }, node: None, err: None }
            } else if ch == '>' {
                if b.run == 0 {
                    StepModel { m: PModel { state: State::OutsideTag, ..b }, node: None, err: None }
                } else {
                    StepModel { m: PModel { run: b.run - 1, ..b }, node: None, err: None }
                }
            } else {
                StepModel { m: b, node: None, err: None }
            }
        },
    }
}

/// One machine step: one character is consumed; a flagged code point is
/// recorded as an `IllegalCharacter` error and skipped, a normalized newline
/// is handed to the machine as `\n`, and every other character drives the
/// transition of the current state.
pub open spec fn pstep(m: PModel) -> StepModel {
    let st = parser_read_step(m.src, m.pos, m.line, m.col);
    let base = PModel { pos: st.pos, line: st.line, col: st.col, ..m };
    match st.chr {
        Character::NewLine => dispatch(base, '\n'),
        Character::Chars(c) => {
            if spec_is_flagged(c) {
                StepModel {
                    m: base,
                    node: None,
                    err: Some(plain_err(st.line, st.col, XmlErrorKind::IllegalCharacter)),
                }
            } else {
                dispatch(base, c)
            }
        },
    }
}


/// The executable outcome of one machine step.
pub struct StepOut {
    /// The node that completed during the step, if one did.
    pub node: Option<XmlNode>,
    /// The error the step recorded, if it recorded one.
    pub err: Option<XmlError>,
}

/// Maps an optional node to its image.
pub open spec fn opt_node_view(n: Option<XmlNode>) -> Option<NodeModel> {
    match n {
        Some(x) => Some(node_view(x)),
        None => None,
    }
}

/// Maps an optional error to its image.
pub open spec fn opt_err_view(e: Option<XmlError>) -> Option<ErrModel> {
    match e {
        Some(x) => Some(err_view(x)),
        None => None,
    }
}

/// Decides whether every character of the string is XML whitespace.
pub fn str_all_whitespace(s: &String) -> (r: bool)
    ensures
        r == all_ws(s@),
{
    let st = s.as_str();
    let n = st.unicode_len();
    let mut i: usize = 0;
    while i < n
        invariant
            i <= n,
            n == st@.len(),
            st@ == s@,
            forall|j: int| 0 <= j < i ==> spec_is_whitespace(s@[j]),
        decreases n - i,
    {
        if !is_whitespace(st.get_char(i)) {
            return false;
        }
        i = i + 1;
    }
    true
}

/// The character expected at position `i` of the CDATA opening.
fn cdata_char_at(i: usize) -> (c: char)
    ensures
        c == spec_cdata_char(i as int),
{
    if i == 0 {
        'C'
    } else if i == 1 {
        'D'
    } else if i == 2 {
        'A'
    } else if i == 3 {
        'T'
    } else if i == 4 {
        'A'
    } else {
        '['
    }
}

/// Appends `k` closing brackets to the string.
fn push_brackets(s: &mut String, k: usize)
    ensures
        final(s)@ == old(s)@ + repeat_brackets(k as int),
{
    let mut i: usize = 0;
    proof {
        assert(s@ =~= old(s)@ + repeat_brackets(0));
    }
    while i < k
        invariant
            i <= k,
            s@ == old(s)@ + repeat_brackets(i as int),
        decreases k - i,
    {
        push_char(s, ']');
        i = i + 1;
        proof {
            assert(s@ =~= old(s)@ + repeat_brackets(i as int));
        }
    }
}

impl XmlParser {
    /// Appends a node to the child list of the innermost open element.
    fn attach_exec(&mut self, nd: XmlNode)
        requires
            old(self).wf(),
            old(self).stack@.len() > 0,
        ensures
            final(self).wf(),
            final(self).source == old(self).source,
            pview(*final(self)) == attach_child(pview(*old(self)), node_view(nd)),
    {
        let ghost old_stack = self.stack@;
        let ghost ndv = node_view(nd);
        let mut top = self.stack.pop().unwrap();
        let ghost t0 = top;
        top.children.push(nd);
        self.stack.push(top);
        proof {
            lemma_nodes_view_push(t0.children@, nd);
            assert(stack_view(self.stack@) =~= attach_child(
                pview(*old(self)),
                ndv,
            ).stack);
        }
    }

    /// Completes an element: attaches it, or makes it the root, remembers it
    /// and reports it as the step's node; a second element at depth zero is
    /// an error.
    fn complete_elem_exec(&mut self, e: XmlElem) -> (so: StepOut)
        requires
            old(self).wf(),
        ensures
            final(self).wf(),
            final(self).source == old(self).source,
            ({
                let sm = complete_elem(pview(*old(self)), elem_view(e));
                &&& pview(*final(self)) == sm.m
                &&& opt_node_view(so.node) == sm.node
                &&& opt_err_view(so.err) == sm.err
            }),
    {
        let out_node = XmlNode::Element(e.deep_copy());
        if self.stack.len() > 0 {
            let kept = e.deep_copy();
            self.elem = Some(kept);
            self.attach_exec(XmlNode::Element(e));
            StepOut { node: Some(out_node), err: None }
        } else if self.root.is_none() {
            let kept = e.deep_copy();
            self.elem = Some(kept);
            self.root = Some(e);
            StepOut { node: Some(out_node), err: None }
        } else {
            let err = XmlError {
                line: self.line,
                col: self.col,
                kind: XmlErrorKind::UnexpectedToken,
                context: None,
                mark: None,
            };
            self.elem = Some(e);
            StepOut { node: Some(out_node), err: Some(err) }
        }
    }
}


/// Takes the string out, leaving it empty.
fn take_string(s: &mut String) -> (r: String)
    ensures
        r == *old(s),
        final(s)@ == Seq::<char>::empty(),
{
    let mut t = String::new();
    core::mem::swap(&mut t, s);
    t
}

/// Takes the attribute list out, leaving it empty.
fn take_attrs(v: &mut Vec<XmlAttr>) -> (r: Vec<XmlAttr>)
    ensures
        r == *old(v),
        attrs_view(final(v)@) == Seq::<AttrModel>::empty(),
{
    let mut t: Vec<XmlAttr> = Vec::new();
    core::mem::swap(&mut t, v);
    proof {
        assert(attrs_view(t@) =~= attrs_view(t@));
        assert(attrs_view(v@) =~= Seq::<AttrModel>::empty());
    }
    t
}

impl XmlParser {
    /// Builds an error stamped with the current position.
    fn err_here(&self, kind: XmlErrorKind) -> (e: XmlError)
        ensures
            err_view(e) == plain_err(self.line as int, self.col as int, kind),
            e.context is None,
            e.mark is None,
    {
        XmlError { line: self.line, col: self.col, kind, context: None, mark: None }
    }

    /// Builds the fatal mismatch error anchored where the tag started.
    fn err_mark(&self) -> (e: XmlError)
        ensures
            err_view(e) == (ErrModel {
                line: self.mark_line as int,
                col: self.mark_col as int,
                kind: XmlErrorKind::TagMismatch,
                mark: None,
            }),
    {
        XmlError {
            line: self.mark_line,
            col: self.mark_col,
            kind: XmlErrorKind::TagMismatch,
            context: None,
            mark: None,
        }
    }

    /// Closes a tag by the accumulated closing name.
    fn close_tag_exec(&mut self) -> (so: StepOut)
        requires
            old(self).wf(),
        ensures
            final(self).wf(),
            final(self).source == old(self).source,
            ({
                let sm = close_tag(pview(*old(self)));
                &&& pview(*final(self)) == sm.m
                &&& opt_node_view(so.node) == sm.node
                &&& opt_err_view(so.err) == sm.err
            }),
    {
        if self.stack.len() == 0 {
            self.fatal = true;
            StepOut { node: None, err: Some(self.err_mark()) }
        } else {
            let n = self.stack.len();
            let names_match = self.stack[n - 1].name == self.name;
            if !names_match {
                self.fatal = true;
                StepOut { node: None, err: Some(self.err_mark()) }
            } else {
                let ghost old_stack = self.stack@;
                let top = self.stack.pop().unwrap();
                self.depth = self.depth - 1;
                let _dropped = take_string(&mut self.name);
                self.state = State::OutsideTag;
                proof {
                    assert(stack_view(self.stack@) =~= stack_view(old_stack).drop_last());
                }
                self.complete_elem_exec(top)
            }
        }
    }

    /// One transition of the state machine on a consumed character.
    #[verifier::rlimit(100)]
    #[verifier::spinoff_prover]
    fn dispatch_char(&mut self, ch: char) -> (so: StepOut)
        requires
            old(self).wf(),
            old(self).buf@.len() + old(self).run < old(self).pos,
            old(self).depth < old(self).pos,
        ensures
            final(self).wf(),
            final(self).source == old(self).source,
            ({
                let sm = dispatch(pview(*old(self)), ch);
                &&& pview(*final(self)) == sm.m
                &&& opt_node_view(so.node) == sm.node
                &&& opt_err_view(so.err) == sm.err
            }),
    {
        match self.state {
            State::OutsideTag => {
                if ch == '<' {
                    self.state = State::TagOpened;
                    self.mark_line = self.line;
                    self.mark_col = self.col;
                    let txt = take_string(&mut self.buf);
                    if txt.as_str().is_empty() {
                        StepOut { node: None, err: None }
                    } else if self.stack.len() > 0 {
                        let out = XmlNode::Text(txt.clone());
                        self.attach_exec(XmlNode::Text(txt));
                        StepOut { node: Some(out), err: None }
                    } else if str_all_whitespace(&txt) {
                        StepOut { node: None, err: None }
                    } else {
                        StepOut {
                            node: None,
                            err: Some(self.err_here(XmlErrorKind::UnexpectedToken)),
                        }
                    }
                } else {
                    push_char(&mut self.buf, ch);
                    StepOut { node: None, err: None }
                }
            },
            State::TagOpened => {
                if ch == '?' {
                    self.state = State::InProcessingInstructions;
                    self.run = 0;
                    StepOut { node: None, err: None }
                } else if ch == '!' {
                    self.state = State::InExclamationMark;
                    StepOut { node: None, err: None }
                } else if ch == '/' {
                    self.state = State::InCloseTagName;
                    let _dropped = take_string(&mut self.name);
                    StepOut { node: None, err: None }
                } else if is_name_start(ch) {
                    self.state = State::InTagName;
                    let _dropped = take_string(&mut self.name);
                    push_char(&mut self.name, ch);
                    let _dropped_attrs = take_attrs(&mut self.attributes);
                    let _dropped_an = take_string(&mut self.attr_name);
                    proof {
                        assert(self.name@ =~= seq![ch]);
                    }
                    StepOut { node: None, err: None }
                } else {
                    self.state = State::OutsideTag;
                    StepOut { node: None, err: Some(self.err_here(XmlErrorKind::UnexpectedToken)) }
                }
            },
            State::InTagName => {
                if is_whitespace(ch) {
                    self.state = State::InTag;
                    StepOut { node: None, err: None }
                } else if ch == '/' {
                    self.state = State::ExpectClose;
                    StepOut { node: None, err: None }
                } else if ch == '>' {
                    self.open_elem_exec();
                    StepOut { node: None, err: None }
                } else if is_name_char(ch) {
                    push_char(&mut self.name, ch);
                    StepOut { node: None, err: None }
                } else {
                    StepOut { node: None, err: Some(self.err_here(XmlErrorKind::UnexpectedToken)) }
                }
            },
            State::InTag => {
                if is_whitespace(ch) {
                    StepOut { node: None, err: None }
                } else if ch == '/' {
                    self.state = State::ExpectClose;
                    StepOut { node: None, err: None }
                } else if ch == '>' {
                    self.open_elem_exec();
                    StepOut { node: None, err: None }
                } else if is_name_start(ch) {
                    self.state = State::InAttrName;
                    let _dropped = take_string(&mut self.attr_name);
                    push_char(&mut self.attr_name, ch);
                    proof {
                        assert(self.attr_name@ =~= seq![ch]);
                    }
                    StepOut { node: None, err: None }
                } else {
                    StepOut { node: None, err: Some(self.err_here(XmlErrorKind::UnexpectedToken)) }
                }
            },
            State::InAttrName => {
                if ch == '=' {
                    self.state = State::ExpectDelimiter;
                    StepOut { node: None, err: None }
                } else if ch == ':' {
                    self.state = State::Namespace;
                    push_char(&mut self.attr_name, ch);
                    StepOut { node: None, err: None }
                } else if is_name_char(ch) {
                    push_char(&mut self.attr_name, ch);
                    StepOut { node: None, err: None }
                } else {
                    self.state = State::InTag;
                    let _dropped = take_string(&mut self.attr_name);
                    StepOut { node: None, err: Some(self.err_here(XmlErrorKind::UnexpectedToken)) }
                }
            },
            State::Namespace => {
                if ch == '=' {
                    self.state = State::ExpectDelimiter;
                    StepOut { node: None, err: None }
                } else if is_name_char(ch) {
                    push_char(&mut self.attr_name, ch);
                    StepOut { node: None, err: None }
                } else {
                    self.state = State::InTag;
                    let _dropped = take_string(&mut self.attr_name);
                    StepOut { node: None, err: Some(self.err_here(XmlErrorKind::UnexpectedToken)) }
                }
            },
            State::ExpectDelimiter => {
                if ch == '"' || ch == '\'' {
                    self.state = State::InAttrValue;
                    self.delim = ch;
                    let _dropped = take_string(&mut self.buf);
                    StepOut { node: None, err: None }
                } else if is_whitespace(ch) {
                    StepOut { node: None, err: None }
                } else {
                    self.state = State::InTag;
                    let _dropped = take_string(&mut self.attr_name);
                    StepOut {
                        node: None,
                        err: Some(self.err_here(XmlErrorKind::MalformedDelimiter)),
                    }
                }
            },
            State::InAttrValue => {
                if ch == self.delim {
                    if attrs_contain(&self.attributes, &self.attr_name) {
                        self.state = State::InTag;
                        let _dropped = take_string(&mut self.attr_name);
                        let _dropped_b = take_string(&mut self.buf);
                        StepOut {
                            node: None,
                            err: Some(self.err_here(XmlErrorKind::DuplicateAttribute)),
                        }
                    } else {
                        self.state = State::InTag;
                        let ghost old_attrs = self.attributes@;
                        let an = take_string(&mut self.attr_name);
                        let av = take_string(&mut self.buf);
                        let a = XmlAttr { name: an, value: av };
                        let ghost aview = attr_view(a);
                        self.attributes.push(a);
                        proof {
                            assert(attrs_view(self.attributes@) =~= attrs_view(old_attrs).push(
                                aview,
                            ));
                        }
                        StepOut { node: None, err: None }
                    }
                } else if ch == '\n' || ch == '<' {
                    push_char(&mut self.buf, ch);
                    StepOut { node: None, err: Some(self.err_here(XmlErrorKind::UnexpectedToken)) }
                } else {
                    push_char(&mut self.buf, ch);
                    StepOut { node: None, err: None }
                }
            },
            State::ExpectClose => {
                if ch == '>' {
                    let nm = take_string(&mut self.name);
                    let ats = take_attrs(&mut self.attributes);
                    let e = XmlElem { name: nm, attributes: ats, children: Vec::new() };
                    self.state = State::OutsideTag;
                    proof {
                        assert(nodes_view(e.children@) =~= Seq::<NodeModel>::empty());
                    }
                    self.complete_elem_exec(e)
                } else {
                    self.state = State::OutsideTag;
                    let _dropped = take_string(&mut self.name);
                    let _dropped_attrs = take_attrs(&mut self.attributes);
                    StepOut { node: None, err: Some(self.err_here(XmlErrorKind::UnexpectedToken)) }
                }
            },
            State::InCloseTagName => {
                if is_whitespace(ch) {
                    self.state = State::ExpectSpaceOrClose;
                    StepOut { node: None, err: None }
                } else if ch == '>' {
                    self.close_tag_exec()
                } else if is_name_char(ch) {
                    push_char(&mut self.name, ch);
                    StepOut { node: None, err: None }
                } else {
                    StepOut { node: None, err: Some(self.err_here(XmlErrorKind::UnexpectedToken)) }
                }
            },
            State::ExpectSpaceOrClose => {
                if is_whitespace(ch) {
                    StepOut { node: None, err: None }
                } else if ch == '>' {
                    self.close_tag_exec()
                } else {
                    StepOut { node: None, err: Some(self.err_here(XmlErrorKind::UnexpectedToken)) }
                }
            },
            State::InExclamationMark => {
                if ch == '-' {
                    self.state = State::InCommentOpening;
                    StepOut { node: None, err: None }
                } else if ch == '[' {
                    self.state = State::InCDATAOpening;
                    self.run = 0;
                    StepOut { node: None, err: None }
                } else if ch == 'D' {
                    self.state = State::InDoctype;
                    self.run = 0;
                    StepOut { node: None, err: None }
                } else {
                    self.state = State::OutsideTag;
                    StepOut { node: None, err: Some(self.err_here(XmlErrorKind::UnexpectedToken)) }
                }
            },
            State::InCommentOpening => {
                if ch == '-' {
                    self.state = State::InComment1;
                    self.run = 0;
                    StepOut { node: None, err: None }
                } else {
                    self.state = State::OutsideTag;
                    StepOut {
                        node: None,
                        err: Some(self.err_here(XmlErrorKind::MalformedDelimiter)),
                    }
                }
            },
            State::InComment1 => {
                if ch == '-' {
                    self.state = State::InComment2;
                    self.run = 1;
                    StepOut { node: None, err: None }
                } else {
                    StepOut { node: None, err: None }
                }
            },
            State::InComment2 => {
                if ch == '-' {
                    self.run = self.run + 1;
                    StepOut { node: None, err: None }
                } else if ch == '>' {
                    if self.run >= 2 {
                        self.state = State::OutsideTag;
                        self.run = 0;
                        StepOut { node: None, err: None }
                    } else {
                        self.state = State::InComment1;
                        self.run = 0;
                        StepOut { node: None, err: None }
                    }
                } else {
                    if self.run >= 2 {
                        self.state = State::InComment1;
                        self.run = 0;
                        StepOut {
                            node: None,
                            err: Some(self.err_here(XmlErrorKind::MalformedDelimiter)),
                        }
                    } else {
                        self.state = State::InComment1;
                        self.run = 0;
                        StepOut { node: None, err: None }
                    }
                }
            },
            State::InCDATAOpening => {
                if self.run <= 5 && ch == cdata_char_at(self.run) {
                    if self.run == 5 {
                        self.state = State::InCDATA;
                        self.run = 0;
                        let _dropped = take_string(&mut self.buf);
                        StepOut { node: None, err: None }
                    } else {
                        self.run = self.run + 1;
                        StepOut { node: None, err: None }
                    }
                } else {
                    self.state = State::OutsideTag;
                    self.run = 0;
                    StepOut {
                        node: None,
                        err: Some(self.err_here(XmlErrorKind::MalformedDelimiter)),
                    }
                }
            },
            State::InCDATA => {
                if ch == ']' {
                    self.run = self.run + 1;
                    StepOut { node: None, err: None }
                } else if ch == '>' && self.run >= 2 {
                    let mut content = take_string(&mut self.buf);
                    push_brackets(&mut content, self.run - 2);
                    self.run = 0;
                    self.state = State::OutsideTag;
                    if self.stack.len() > 0 {
                        let out = XmlNode::CData(content.clone());
                        self.attach_exec(XmlNode::CData(content));
                        StepOut { node: Some(out), err: None }
                    } else {
                        StepOut {
                            node: None,
                            err: Some(self.err_here(XmlErrorKind::UnexpectedToken)),
                        }
                    }
                } else {
                    push_brackets(&mut self.buf, self.run);
                    push_char(&mut self.buf, ch);
                    self.run = 0;
                    StepOut { node: None, err: None }
                }
            },
            State::InProcessingInstructions => {
                if ch == '?' {
                    if self.run == 1 {
                        push_char(&mut self.buf, '?');
                    }
                    self.run = 1;
                    StepOut { node: None, err: None }
                } else if ch == '>' && self.run == 1 {
                    let content = take_string(&mut self.buf);
                    let found = scan_declaration(&content);
                    match found.0 {
                        Some(v) => {
                            self.encoding = Some(v);
                        },
                        None => {},
                    }
                    match found.1 {
                        Some(x) => {
                            self.standalone = Some(x);
                        },
                        None => {},
                    }
                    self.state = State::OutsideTag;
                    self.run = 0;
                    StepOut { node: None, err: None }
                } else {
                    if self.run == 1 {
                        push_char(&mut self.buf, '?');
                    }
                    push_char(&mut self.buf, ch);
                    self.run = 0;
                    StepOut { node: None, err: None }
                }
            },
            State::InDoctype => {
                if ch == '<' {
                    self.run = self.run + 1;
                    StepOut { node: None, err: None }
                } else if ch == '>' {
                    if self.run == 0 {
                        self.state = State::OutsideTag;
                        StepOut { node: None, err: None }
                    } else {
                        self.run = self.run - 1;
                        StepOut { node: None, err: None }
                    }
                } else {
                    StepOut { node: None, err: None }
                }
            },
        }
    }

    /// Opens the accumulated element: pushes it onto the open-element stack.
    fn open_elem_exec(&mut self)
        requires
            old(self).wf(),
            old(self).depth < old(self).pos,
        ensures
            final(self).wf(),
            final(self).source == old(self).source,
            pview(*final(self)) == open_elem(pview(*old(self))),
    {
        let ghost old_stack = self.stack@;
        let nm = take_string(&mut self.name);
        let ats = take_attrs(&mut self.attributes);
        let e = XmlElem { name: nm, attributes: ats, children: Vec::new() };
        let ghost ev = elem_view(e);
        self.stack.push(e);
        self.depth = self.depth + 1;
        self.state = State::OutsideTag;
        proof {
            assert(nodes_view(Seq::<XmlNode>::empty()) =~= Seq::<NodeModel>::empty());
            assert(stack_view(self.stack@) =~= stack_view(old_stack).push(ev));
        }
    }

    /// One machine step: consumes one character and drives the transition,
    /// recording restricted code points as errors without a state change.
    fn step(&mut self) -> (so: StepOut)
        requires
            old(self).wf(),
            old(self).pos < old(self).source@.len(),
        ensures
            final(self).wf(),
            final(self).source == old(self).source,
            ({
                let sm = pstep(pview(*old(self)));
                &&& pview(*final(self)) == sm.m
                &&& opt_node_view(so.node) == sm.node
                &&& opt_err_view(so.err) == sm.err
            }),
    {
        let c = self.read();
        match c {
            Character::NewLine => self.dispatch_char('\n'),
            Character::Chars(ch) => {
                if is_flagged(ch) {
                    StepOut {
                        node: None,
                        err: Some(self.err_here(XmlErrorKind::IllegalCharacter)),
                    }
                } else {
                    self.dispatch_char(ch)
                }
            },
        }
    }
}


/// A singleton or empty error list.
pub open spec fn opt_err_seq(e: Option<ErrModel>) -> Seq<ErrModel> {
    match e {
        Some(x) => seq![x],
        None => Seq::empty(),
    }
}

/// The machine and the errors accumulated while running it.
pub ghost struct RunOut {
    pub m: PModel,
    pub errs: Seq<ErrModel>,
}

/// The machine advances one step at a time, collecting the recorded errors
/// in order, until the stream ends or a fatal error stops it.
pub open spec fn run_model(m: PModel) -> RunOut
    decreases m.src.len() - m.pos
    via run_model_decreases
{
    if m.fatal || !(0 <= m.pos < m.src.len()) {
        RunOut { m, errs: Seq::empty() }
    } else {
        let s = pstep(m);
        let r = run_model(s.m);
        RunOut { m: r.m, errs: opt_err_seq(s.err) + r.errs }
    }
}

/// One machine step consumes at least one character and never grows the
/// stream.
pub proof fn lemma_pstep_advances(m: PModel)
    requires
        0 <= m.pos < m.src.len(),
    ensures
        pstep(m).m.src == m.src,
        m.pos < pstep(m).m.pos,
        pstep(m).m.pos <= m.src.len(),
{
}

#[via_fn]
proof fn run_model_decreases(m: PModel) {
    if !(m.fatal || !(0 <= m.pos < m.src.len())) {
        lemma_pstep_advances(m);
    }
}

/// Pops every still-open element, attaching each to its parent; the
/// outermost becomes the root when none was completed before.
pub open spec fn unwind_model(m: PModel) -> PModel
    decreases m.stack.len(),
{
    if m.stack.len() == 0 {
        m
    } else {
        let top = m.stack.last();
        let m1 = PModel { stack: m.stack.drop_last(), depth: m.depth - 1, ..m };
        if m1.stack.len() > 0 {
            unwind_model(attach_child(m1, NodeModel::Element(top)))
        } else if m1.root is None {
            unwind_model(PModel { root: Some(top), ..m1 })
        } else {
            unwind_model(m1)
        }
    }
}

/// The machine, the errors and the root after the end of the stream: pending
/// text is flushed, a stream that ends mid-construct or with open elements
/// is an `UnexpectedEndOfFile`, and the open elements are unwound into the
/// partial tree.
pub ghost struct FinishOut {
    pub m: PModel,
    pub errs: Seq<ErrModel>,
    pub root: Option<ElemModel>,
}

/// Wraps up the machine at the end of the stream.
pub open spec fn finish_model(m: PModel) -> FinishOut {
    if m.fatal {
        let u = unwind_model(m);
        FinishOut { m: u, errs: Seq::empty(), root: u.root }
    } else {
        let flushed = if m.state == State::OutsideTag && m.buf.len() > 0 && m.stack.len() > 0 {
            attach_child(PModel { buf: Seq::empty(), ..m }, NodeModel::Text(m.buf))
        } else {
            PModel { buf: Seq::empty(), ..m }
        };
        let e1 = if m.state == State::OutsideTag && m.buf.len() > 0 && m.stack.len() == 0
            && !all_ws(m.buf) {
            seq![plain_err(m.line, m.col, XmlErrorKind::UnexpectedToken)]
        } else {
            Seq::<ErrModel>::empty()
        };
        let e2 = if m.state != State::OutsideTag || m.stack.len() > 0 || m.root is None {
            seq![plain_err(m.line, m.col, XmlErrorKind::UnexpectedEndOfFile)]
        } else {
            Seq::<ErrModel>::empty()
        };
        let u = unwind_model(flushed);
        FinishOut { m: u, errs: e1 + e2, root: u.root }
    }
}

/// The machine state and outcome of pulling one fully parsed node: steps are
/// taken until one completes a node or records an error; a stream that is
/// exhausted, or a machine stopped by a fatal error, reports
/// `UnexpectedEndOfFile`.
pub open spec fn next_model(m: PModel) -> (PModel, Result<NodeModel, ErrModel>)
    decreases m.src.len() - m.pos
    via next_model_decreases
{
    if m.fatal || !(0 <= m.pos < m.src.len()) {
        (m, Err(plain_err(m.line, m.col, XmlErrorKind::UnexpectedEndOfFile)))
    } else {
        let s = pstep(m);
        match s.err {
            Some(e) => (s.m, Err(e)),
            None => match s.node {
                Some(n) => (s.m, Ok(n)),
                None => next_model(s.m),
            },
        }
    }
}

#[via_fn]
proof fn next_model_decreases(m: PModel) {
    if !(m.fatal || !(0 <= m.pos < m.src.len())) {
        lemma_pstep_advances(m);
    }
}


impl XmlParser {
    /// Wraps up at the end of the stream: flushes pending text, reports a
    /// stream that ended mid-construct or with open elements, and unwinds
    /// the open elements into the partial tree.
    fn finish_exec(&mut self, errors: &mut Vec<XmlError>)
        requires
            old(self).wf(),
        ensures
            final(self).wf(),
            final(self).source == old(self).source,
            ({
                let fi = finish_model(pview(*old(self)));
                &&& pview(*final(self)) == fi.m
                &&& errs_view(final(errors)@) == errs_view(old(errors)@) + fi.errs
            }),
    {
        let ghost e0 = errs_view(errors@);
        if !self.fatal {
            let txt = take_string(&mut self.buf);
            if matches!(self.state, State::OutsideTag) && !txt.as_str().is_empty() {
                if self.stack.len() > 0 {
                    self.attach_exec(XmlNode::Text(txt));
                } else if !str_all_whitespace(&txt) {
                    errors.push(self.err_here(XmlErrorKind::UnexpectedToken));
                }
            }
            if !matches!(self.state, State::OutsideTag) || self.stack.len() > 0
                || self.root.is_none() {
                errors.push(self.err_here(XmlErrorKind::UnexpectedEndOfFile));
            }
        }
        let ghost flushed = pview(*self);
        proof {
            let fi = finish_model(pview(*old(self)));
            assert(errs_view(errors@) =~= e0 + fi.errs);
        }
        while self.stack.len() > 0
            invariant
                self.wf(),
                self.source == old(self).source,
                unwind_model(flushed) == unwind_model(pview(*self)),
                errs_view(errors@) == e0 + finish_model(pview(*old(self))).errs,
            decreases self.stack@.len(),
        {
            let ghost m_pre = pview(*self);
            let top = self.stack.pop().unwrap();
            self.depth = self.depth - 1;
            proof {
                assert(stack_view(self.stack@) =~= m_pre.stack.drop_last());
                assert(elem_view(top) == m_pre.stack.last());
            }
            if self.stack.len() > 0 {
                self.attach_exec(XmlNode::Element(top));
            } else if self.root.is_none() {
                self.root = Some(top);
            } else {
                let _dropped = top;
            }
        }
    }

    /// Parses the entire input into a tree, returning the document together
    /// with every error met along the way, in order. A fatal structural
    /// fault ends the parse early; the document then holds the partial tree
    /// built so far.
    pub fn parse_doc(&mut self) -> (r: (XmlDoc, Vec<XmlError>))
        requires
            old(self).wf(),
        ensures
            final(self).wf(),
            final(self).source == old(self).source,
            ({
                let ru = run_model(pview(*old(self)));
                let fi = finish_model(ru.m);
                &&& pview(*final(self)) == fi.m
                &&& errs_view(r.1@) == ru.errs + fi.errs
                &&& opt_elem_view(r.0.root) == fi.root
                &&& opt_string_view(r.0.encoding) == fi.m.enc
                &&& r.0.standalone == fi.m.sa
            }),
    {
        let mut errors: Vec<XmlError> = Vec::new();
        proof {
            assert(errs_view(errors@) =~= Seq::<ErrModel>::empty());
        }
        while !self.fatal && self.pos < self.source.len()
            invariant
                self.wf(),
                self.source == old(self).source,
                run_model(pview(*old(self))).m == run_model(pview(*self)).m,
                run_model(pview(*old(self))).errs == errs_view(errors@) + run_model(
                    pview(*self),
                ).errs,
            decreases self.source@.len() - self.pos,
        {
            let ghost m_pre = pview(*self);
            let ghost e_pre = errs_view(errors@);
            proof {
                lemma_pstep_advances(m_pre);
            }
            let so = self.step();
            match so.err {
                Some(e) => {
                    let ghost ev = err_view(e);
                    errors.push(e);
                    proof {
                        assert(errs_view(errors@) =~= e_pre.push(ev));
                        assert(e_pre.push(ev) + run_model(pview(*self)).errs =~= e_pre + (
                        opt_err_seq(pstep(m_pre).err) + run_model(pview(*self)).errs));
                    }
                },
                None => {
                    proof {
                        assert(e_pre + run_model(pview(*self)).errs =~= e_pre + (opt_err_seq(
                            pstep(m_pre).err,
                        ) + run_model(pview(*self)).errs));
                    }
                },
            }
        }
        proof {
            assert(errs_view(errors@) =~= errs_view(errors@) + run_model(pview(*self)).errs);
        }
        self.finish_exec(&mut errors);
        let doc_root: Option<XmlElem> = match &self.root {
            Some(e) => Some(e.deep_copy()),
            None => None,
        };
        let doc_encoding = match &self.encoding {
            Some(e) => Some(e.clone()),
            None => None,
        };
        let doc = XmlDoc { root: doc_root, encoding: doc_encoding, standalone: self.standalone };
        (doc, errors)
    }

    /// Pulls characters until one fully formed node completes, returning the
    /// node, or the first error met. Once the input is exhausted, or after a
    /// fatal fault, every further pull reports `UnexpectedEndOfFile`.
    pub fn next(&mut self) -> (r: Result<XmlNode, XmlError>)
        requires
            old(self).wf(),
        ensures
            final(self).wf(),
            final(self).source == old(self).source,
            ({
                let (mm, res) = next_model(pview(*old(self)));
                &&& pview(*final(self)) == mm
                &&& match (r, res) {
                    (Ok(n), Ok(nm)) => node_view(n) == nm,
                    (Err(e), Err(em)) => err_view(e) == em,
                    _ => false,
                }
            }),
    {
        loop
            invariant
                self.wf(),
                self.source == old(self).source,
                next_model(pview(*old(self))) == next_model(pview(*self)),
            decreases self.source@.len() - self.pos,
        {
            if self.fatal || self.pos >= self.source.len() {
                return Err(self.err_here(XmlErrorKind::UnexpectedEndOfFile));
            }
            proof {
                lemma_pstep_advances(pview(*self));
            }
            let so = self.step();
            match so.err {
                Some(e) => {
                    return Err(e);
                },
                None => {},
            }
            match so.node {
                Some(n) => {
                    return Ok(n);
                },
                None => {},
            }
        }
    }

    /// Parses the entire input exactly as `parse_doc` does, additionally
    /// handing every completed node and every error to the callback as they
    /// arise.
    pub fn parse_call<F: Fn(Result<XmlNode, XmlError>)>(&mut self, cb: &F) -> (r: (
        XmlDoc,
        Vec<XmlError>,
    ))
        requires
            old(self).wf(),
            forall|arg: Result<XmlNode, XmlError>| #[trigger] call_requires(*cb, (arg,)),
        ensures
            final(self).wf(),
            final(self).source == old(self).source,
            ({
                let ru = run_model(pview(*old(self)));
                let fi = finish_model(ru.m);
                &&& pview(*final(self)) == fi.m
                &&& errs_view(r.1@) == ru.errs + fi.errs
                &&& opt_elem_view(r.0.root) == fi.root
                &&& opt_string_view(r.0.encoding) == fi.m.enc
                &&& r.0.standalone == fi.m.sa
            }),
    {
        let mut errors: Vec<XmlError> = Vec::new();
        proof {
            assert(errs_view(errors@) =~= Seq::<ErrModel>::empty());
        }
        while !self.fatal && self.pos < self.source.len()
            invariant
                self.wf(),
                self.source == old(self).source,
                forall|arg: Result<XmlNode, XmlError>| #[trigger] call_requires(*cb, (arg,)),
                run_model(pview(*old(self))).m == run_model(pview(*self)).m,
                run_model(pview(*old(self))).errs == errs_view(errors@) + run_model(
                    pview(*self),
                ).errs,
            decreases self.source@.len() - self.pos,
        {
            let ghost m_pre = pview(*self);
            let ghost e_pre = errs_view(errors@);
            proof {
                lemma_pstep_advances(m_pre);
            }
            let so = self.step();
            match so.node {
                Some(n) => {
                    cb(Ok(n));
                },
                None => {},
            }
            match so.err {
                Some(e) => {
                    let ghost ev = err_view(e);
                    let copy = e.dup();
                    errors.push(e);
                    cb(Err(copy));
                    proof {
                        assert(errs_view(errors@) =~= e_pre.push(ev));
                        assert(e_pre.push(ev) + run_model(pview(*self)).errs =~= e_pre + (
                        opt_err_seq(pstep(m_pre).err) + run_model(pview(*self)).errs));
                    }
                },
                None => {
                    proof {
                        assert(e_pre + run_model(pview(*self)).errs =~= e_pre + (opt_err_seq(
                            pstep(m_pre).err,
                        ) + run_model(pview(*self)).errs));
                    }
                },
            }
        }
        proof {
            assert(errs_view(errors@) =~= errs_view(errors@) + run_model(pview(*self)).errs);
        }
        let before = errors.len();
        self.finish_exec(&mut errors);
        proof {
            assert(errs_view(errors@).len() == errors@.len());
        }
        let mut i: usize = before;
        #[verifier::loop_isolation(false)]
        while i < errors.len()
            invariant
                before <= i <= errors@.len(),
            decreases errors@.len() - i,
        {
            let copy = errors[i].dup();
            cb(Err(copy));
            i = i + 1;
        }
        let doc_root: Option<XmlElem> = match &self.root {
            Some(e) => Some(e.deep_copy()),
            None => None,
        };
        let doc_encoding = match &self.encoding {
            Some(e) => Some(e.clone()),
            None => None,
        };
        let doc = XmlDoc { root: doc_root, encoding: doc_encoding, standalone: self.standalone };
        (doc, errors)
    }
}


/// Whether an attribute list names each attribute at most once.
pub open spec fn attrs_unique(attrs: Seq<AttrModel>) -> bool {
    forall|i: int, j: int| 0 <= i < j < attrs.len() ==> attrs[i].name != attrs[j].name
}

/// Appending an attribute whose name is not yet present keeps the list
/// uniquely named.
proof fn lemma_push_unique(attrs: Seq<AttrModel>, a: AttrModel)
    requires
        attrs_unique(attrs),
        !has_attr_name(attrs, a.name),
    ensures
        attrs_unique(attrs.push(a)),
{
}

/// Attributes within one element have unique names: a machine step never
/// adds a second attribute of a name already collected for the element being
/// opened; the duplicate is dropped with a `DuplicateAttribute` error
/// instead.
pub proof fn lemma_step_keeps_attrs_unique(m: PModel)
    requires
        attrs_unique(m.attrs),
    ensures
        attrs_unique(pstep(m).m.attrs),
{
    if !has_attr_name(m.attrs, m.attr_name) {
        lemma_push_unique(m.attrs, AttrModel { name: m.attr_name, value: m.buf });
    }
}

} // verus!
