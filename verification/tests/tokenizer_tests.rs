use xmlparse::error::XmlErrorKind;
use xmlparse::lexer::XmlLexer;
use xmlparse::lexer::XmlToken;

fn lex(s: &str) -> XmlLexer {
    XmlLexer::from_reader(s.chars().collect())
}

fn pull(lexer: &mut XmlLexer) -> XmlToken {
    lexer.next().expect("a token").expect("no lexical error")
}

#[test]
fn token_round_trip() {
    // Tokenizing a small document yields an unambiguous token sequence for
    // its element and attribute boundaries.
    let mut lexer = lex("<a x=\"1\"><b/></a>");
    assert_eq!(XmlToken::LeftBracket, pull(&mut lexer));
    assert_eq!(XmlToken::Text("a".to_string()), pull(&mut lexer));
    assert_eq!(XmlToken::WhiteSpace, pull(&mut lexer));
    assert_eq!(XmlToken::Text("x".to_string()), pull(&mut lexer));
    assert_eq!(XmlToken::Equal, pull(&mut lexer));
    assert_eq!(XmlToken::Text("1".to_string()), pull(&mut lexer));
    assert_eq!(XmlToken::RightBracket, pull(&mut lexer));
    assert_eq!(XmlToken::LeftBracket, pull(&mut lexer));
    assert_eq!(XmlToken::Text("b".to_string()), pull(&mut lexer));
    assert_eq!(XmlToken::RightBracket, pull(&mut lexer));
    assert_eq!(XmlToken::EndTag, pull(&mut lexer));
    assert_eq!(XmlToken::Text("a".to_string()), pull(&mut lexer));
    assert_eq!(XmlToken::RightBracket, pull(&mut lexer));
    assert_eq!(XmlToken::EndOfFile, pull(&mut lexer));
}

#[test]
fn token_delimiters() {
    let mut lexer = lex("<?pi?><!--c--><![CDATA[x]]><!DOCTYPE d>&e;&#65;%p;");
    assert_eq!(XmlToken::PIStart, pull(&mut lexer));
    assert_eq!(XmlToken::Text("pi".to_string()), pull(&mut lexer));
    assert_eq!(XmlToken::PIEnd, pull(&mut lexer));
    assert_eq!(XmlToken::CommentStart, pull(&mut lexer));
    assert_eq!(XmlToken::Text("c".to_string()), pull(&mut lexer));
    assert_eq!(XmlToken::CommentEnd, pull(&mut lexer));
    assert_eq!(XmlToken::CDataStart, pull(&mut lexer));
    assert_eq!(XmlToken::Text("x".to_string()), pull(&mut lexer));
    assert_eq!(XmlToken::CDataEnd, pull(&mut lexer));
    assert_eq!(XmlToken::DoctypeStart, pull(&mut lexer));
    assert_eq!(XmlToken::WhiteSpace, pull(&mut lexer));
    assert_eq!(XmlToken::Text("d".to_string()), pull(&mut lexer));
    assert_eq!(XmlToken::RightBracket, pull(&mut lexer));
    assert_eq!(XmlToken::EntityRef, pull(&mut lexer));
    assert_eq!(XmlToken::Text("e;".to_string()), pull(&mut lexer));
    assert_eq!(XmlToken::CharRef, pull(&mut lexer));
    assert_eq!(XmlToken::Text("65;".to_string()), pull(&mut lexer));
    assert_eq!(XmlToken::PERef, pull(&mut lexer));
    assert_eq!(XmlToken::Text("p;".to_string()), pull(&mut lexer));
    assert_eq!(XmlToken::EndOfFile, pull(&mut lexer));
}

#[test]
fn token_declaration() {
    // Inside <?xml ... ?> the encoding and standalone pairs become tokens of
    // their own.
    let mut lexer = lex("<?xml encoding=\"UTF-8\" standalone=\"yes\"?>");
    assert_eq!(XmlToken::PIStart, pull(&mut lexer));
    assert_eq!(XmlToken::Text("xml".to_string()), pull(&mut lexer));
    assert_eq!(XmlToken::WhiteSpace, pull(&mut lexer));
    assert_eq!(XmlToken::Encoding("UTF-8".to_string()), pull(&mut lexer));
    assert_eq!(XmlToken::WhiteSpace, pull(&mut lexer));
    assert_eq!(XmlToken::Standalone(true), pull(&mut lexer));
    assert_eq!(XmlToken::PIEnd, pull(&mut lexer));
}

#[test]
fn token_declaration_standalone_no() {
    let mut lexer = lex("<?xml standalone='no'?>");
    assert_eq!(XmlToken::PIStart, pull(&mut lexer));
    assert_eq!(XmlToken::Text("xml".to_string()), pull(&mut lexer));
    assert_eq!(XmlToken::WhiteSpace, pull(&mut lexer));
    assert_eq!(XmlToken::Standalone(false), pull(&mut lexer));
    assert_eq!(XmlToken::PIEnd, pull(&mut lexer));
}

#[test]
fn token_declaration_rejects_other_names() {
    // Any attribute name other than encoding or standalone inside the XML
    // text declaration is an error.
    let mut lexer = lex("<?xml foo=\"x\"?>");
    assert_eq!(XmlToken::PIStart, pull(&mut lexer));
    assert_eq!(XmlToken::Text("xml".to_string()), pull(&mut lexer));
    assert_eq!(XmlToken::WhiteSpace, pull(&mut lexer));
    let e = lexer.next().expect("a result").expect_err("an error");
    assert_eq!(XmlErrorKind::UnexpectedToken, e.kind);
    assert_eq!(XmlToken::PIEnd, pull(&mut lexer));
}

#[test]
fn token_double_hyphen_is_lexical_error() {
    // Two consecutive hyphens not followed by '>' are rejected.
    let mut lexer = lex("--x");
    let e = lexer.next().expect("a result").expect_err("an error");
    assert_eq!(XmlErrorKind::MalformedDelimiter, e.kind);
    // the pull after a failed one resumes from the reader's position
    assert_eq!(XmlToken::Text("x".to_string()), pull(&mut lexer));
}

#[test]
fn token_restricted_char_is_error() {
    let mut lexer = lex("\u{1}a");
    let e = lexer.next().expect("a result").expect_err("an error");
    assert_eq!(XmlErrorKind::IllegalCharacter, e.kind);
    assert_eq!(XmlToken::Text("a".to_string()), pull(&mut lexer));
}

#[test]
fn token_unterminated_quote() {
    let mut lexer = lex("\"ab");
    let e = lexer.next().expect("a result").expect_err("an error");
    assert_eq!(XmlErrorKind::UnexpectedEndOfFile, e.kind);
}

#[test]
fn token_field_remembers_last_token() {
    let mut lexer = lex("<a");
    assert_eq!(None, lexer.token);
    assert_eq!(XmlToken::LeftBracket, pull(&mut lexer));
    assert_eq!(Some(XmlToken::LeftBracket), lexer.token);
}
