use xmlparse::error::XmlError;
use xmlparse::error::XmlErrorKind;
use xmlparse::lexer::CharFilter;
use xmlparse::lexer::Character;
use xmlparse::lexer::XmlLexer;
use xmlparse::lexer::XmlResult;
use xmlparse::lexer::XmlToken;

fn lex(s: &str) -> XmlLexer {
    XmlLexer::from_reader(s.chars().collect())
}

#[test]
fn test_whitespace() {
    let mut lexer = lex("   \t\n  a ");
    assert_eq!(Some(Ok(XmlToken::WhiteSpace)), lexer.next());
    assert_eq!(7usize, lexer.col);
    assert_eq!(1usize, lexer.line);
}

#[test]
fn test_peek_str() {
    let mut lexer = lex("as");
    assert_eq!("as".to_string(), lexer.peek_str(2));
    assert_eq!(0usize, lexer.col);
    assert_eq!(1usize, lexer.line);
    assert_eq!(
        XmlResult { data: "as".to_string(), errors: vec![] },
        lexer.read_str(2)
    );
    assert_eq!(2usize, lexer.col);
    assert_eq!(1usize, lexer.line);
}

#[test]
fn test_read_str() {
    let mut lexer = lex("as");
    assert_eq!(
        XmlResult { data: "as".to_string(), errors: vec![] },
        lexer.read_str(2)
    );
    let mut lexer = lex("as");
    let expected_err = XmlError {
        line: 1,
        col: 2,
        kind: XmlErrorKind::UnexpectedEndOfFile,
        context: None,
        mark: None,
    };
    assert_eq!("Unexpected end of file", expected_err.msg());
    assert_eq!(
        XmlResult { data: "as".to_string(), errors: vec![expected_err] },
        lexer.read_str(3)
    );
}

#[test]
fn test_eof() {
    let mut lexer = lex("a");
    assert_eq!(Character::Char('a'), lexer.read());
    assert_eq!(Character::EndFile, lexer.read());
}

#[test]
fn test_restricted_char() {
    let mut lexer = lex(
        "\u{1}\u{4}\u{8}a\u{B}\u{C}b\u{E}\u{10}\u{1F}c\u{7F}\u{80}\u{84}d\u{86}\u{90}\u{9F}",
    );
    assert_eq!(Character::RestrictedChar, lexer.read());
    assert_eq!(Character::RestrictedChar, lexer.read());
    assert_eq!(Character::RestrictedChar, lexer.read());
    assert_eq!(Character::Char('a'), lexer.read());
    assert_eq!(Character::RestrictedChar, lexer.read());
    assert_eq!(Character::RestrictedChar, lexer.read());
    assert_eq!(Character::Char('b'), lexer.read());
    assert_eq!(Character::RestrictedChar, lexer.read());
    assert_eq!(Character::RestrictedChar, lexer.read());
    assert_eq!(Character::RestrictedChar, lexer.read());
    assert_eq!(Character::Char('c'), lexer.read());
    assert_eq!(Character::RestrictedChar, lexer.read());
    assert_eq!(Character::RestrictedChar, lexer.read());
    assert_eq!(Character::RestrictedChar, lexer.read());
    assert_eq!(Character::Char('d'), lexer.read());
    assert_eq!(Character::RestrictedChar, lexer.read());
    assert_eq!(Character::RestrictedChar, lexer.read());
    assert_eq!(Character::RestrictedChar, lexer.read());
}

#[test]
fn xml_lexer_test_read_newline() {
    let mut lexer = lex("a\r\nt");
    assert_eq!(Character::Char('a'), lexer.read());
    assert_eq!(1, lexer.line);
    assert_eq!(1, lexer.col);
    assert_eq!(Character::Char('\n'), lexer.read());
    assert_eq!(2, lexer.line);
    assert_eq!(0, lexer.col);
    assert_eq!(Character::Char('t'), lexer.read());
    assert_eq!(2, lexer.line);
    assert_eq!(1, lexer.col);

    let mut lexer = lex("a\rt");
    assert_eq!(Character::Char('a'), lexer.read());
    assert_eq!(1, lexer.line);
    assert_eq!(1, lexer.col);
    assert_eq!(Character::Char('\n'), lexer.read());
    assert_eq!(2, lexer.line);
    assert_eq!(0, lexer.col);
    assert_eq!(Character::Char('t'), lexer.read());
    assert_eq!(2, lexer.line);
    assert_eq!(1, lexer.col);

    let mut lexer = lex("a\r\u{85}t");
    assert_eq!(Character::Char('a'), lexer.read());
    assert_eq!(1, lexer.line);
    assert_eq!(1, lexer.col);
    assert_eq!(Character::Char('\n'), lexer.read());
    assert_eq!(2, lexer.line);
    assert_eq!(0, lexer.col);
    assert_eq!(Character::Char('t'), lexer.read());
    assert_eq!(2, lexer.line);
    assert_eq!(1, lexer.col);

    let mut lexer = lex("a\u{85}t");
    assert_eq!(Character::Char('a'), lexer.read());
    assert_eq!(1, lexer.line);
    assert_eq!(1, lexer.col);
    assert_eq!(Character::Char('\n'), lexer.read());
    assert_eq!(2, lexer.line);
    assert_eq!(0, lexer.col);
    assert_eq!(Character::Char('t'), lexer.read());
    assert_eq!(2, lexer.line);
    assert_eq!(1, lexer.col);

    let mut lexer = lex("a\u{2028}t");
    assert_eq!(Character::Char('a'), lexer.read());
    assert_eq!(1, lexer.line);
    assert_eq!(1, lexer.col);
    assert_eq!(Character::Char('\n'), lexer.read());
    assert_eq!(2, lexer.line);
    assert_eq!(0, lexer.col);
    assert_eq!(Character::Char('t'), lexer.read());
    assert_eq!(2, lexer.line);
    assert_eq!(1, lexer.col);
}

#[test]
fn read_until_whitespace_fixture() {
    // read_until over the leading whitespace run leaves the reader anchored
    // at column 7, so that the following read yields the 'a'.
    let mut lexer = lex("   \t\n  a ");
    assert_eq!("   \t\n  ".to_string(), lexer.read_until(CharFilter::IsWhitespace));
    assert_eq!(1usize, lexer.line);
    assert_eq!(7usize, lexer.col);
    assert_eq!(Character::Char('a'), lexer.read());
    assert_eq!(8usize, lexer.col);
}

#[test]
fn peek_is_transparent() {
    // Peeking then reading yields the same string and the same end position
    // as reading alone.
    let mut peeked_then_read = lex("ab\r\ncd\u{1}e");
    let peeked = peeked_then_read.peek_str(7);
    let after_peek = (peeked_then_read.line, peeked_then_read.col);
    assert_eq!((1, 0), after_peek);
    let read = peeked_then_read.read_str(7);
    assert_eq!(peeked, read.data);

    let mut read_alone = lex("ab\r\ncd\u{1}e");
    let direct = read_alone.read_str(7);
    assert_eq!(direct, read);
    assert_eq!(read_alone.line, peeked_then_read.line);
    assert_eq!(read_alone.col, peeked_then_read.col);
    assert_eq!(read_alone.peek_str(1), peeked_then_read.peek_str(1));
}

#[test]
fn read_str_skips_restricted_chars() {
    // The restricted character is consumed and flagged but not copied out.
    let mut lexer = lex("x\u{1}y");
    let r = lexer.read_str(3);
    assert_eq!("xy".to_string(), r.data);
    assert_eq!(1, r.errors.len());
    assert_eq!(XmlErrorKind::IllegalCharacter, r.errors[0].kind);
    assert_eq!("Illegal character", r.errors[0].msg());
    assert_eq!(2, r.errors[0].col);
}

#[test]
fn restricted_read_advances_column() {
    let mut lexer = lex("\u{B}\u{10FFFE}z");
    assert_eq!(Character::RestrictedChar, lexer.read());
    assert_eq!(1usize, lexer.col);
    assert_eq!(Character::RestrictedChar, lexer.read());
    assert_eq!(2usize, lexer.col);
    assert_eq!(Character::Char('z'), lexer.read());
    assert_eq!(3usize, lexer.col);
    assert_eq!(1usize, lexer.line);
}

#[test]
fn get_error_stamps_position() {
    let mut lexer = lex("ab\ncd");
    let _ = lexer.read_str(4);
    let e = lexer.get_error(XmlErrorKind::MalformedDelimiter);
    assert_eq!(1, e.line);
    assert_eq!(4, e.col);
    assert_eq!(XmlErrorKind::MalformedDelimiter, e.kind);
    assert_eq!(None, e.context);
    assert_eq!(None, e.mark);
}
