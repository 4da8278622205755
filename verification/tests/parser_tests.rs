use std::cell::Cell;

use xmlparse::error::XmlErrorKind;
use xmlparse::node::XmlAttr;
use xmlparse::node::XmlDoc;
use xmlparse::node::XmlElem;
use xmlparse::node::XmlNode;
use xmlparse::parser::Character;
use xmlparse::parser::XmlParser;

fn parse(s: &str) -> XmlParser {
    XmlParser::from_reader(s.chars().collect())
}

#[test]
fn test_is_restricted() {
    assert_eq!(true, XmlParser::is_restricted('\u{B}'));
    assert_eq!(true, XmlParser::is_restricted('\u{2}'));
    assert_eq!(true, XmlParser::is_restricted('\u{C}'));
    assert_eq!(true, XmlParser::is_restricted('\u{F}'));
    assert_eq!(true, XmlParser::is_restricted('\u{1F}'));
    assert_eq!(true, XmlParser::is_restricted('\u{7F}'));
    assert_eq!(true, XmlParser::is_restricted('\u{84}'));
    assert_eq!(true, XmlParser::is_restricted('\u{86}'));
    assert_eq!(true, XmlParser::is_restricted('\u{9A}'));
    assert_eq!(true, XmlParser::is_restricted('\u{1FFFE}'));
    assert_eq!(true, XmlParser::is_restricted('\u{1FFFF}'));
    assert_eq!(true, XmlParser::is_restricted('\u{2FFFE}'));
    assert_eq!(true, XmlParser::is_restricted('\u{2FFFF}'));
    assert_eq!(true, XmlParser::is_restricted('\u{3FFFE}'));
    assert_eq!(true, XmlParser::is_restricted('\u{3FFFF}'));
    assert_eq!(true, XmlParser::is_restricted('\u{4FFFE}'));
    assert_eq!(true, XmlParser::is_restricted('\u{4FFFF}'));
    assert_eq!(true, XmlParser::is_restricted('\u{5FFFE}'));
    assert_eq!(true, XmlParser::is_restricted('\u{5FFFF}'));
    assert_eq!(true, XmlParser::is_restricted('\u{6FFFE}'));
    assert_eq!(true, XmlParser::is_restricted('\u{6FFFF}'));
    assert_eq!(true, XmlParser::is_restricted('\u{7FFFE}'));
    assert_eq!(true, XmlParser::is_restricted('\u{7FFFF}'));
    assert_eq!(true, XmlParser::is_restricted('\u{8FFFE}'));
    assert_eq!(true, XmlParser::is_restricted('\u{8FFFF}'));
    assert_eq!(true, XmlParser::is_restricted('\u{9FFFE}'));
    assert_eq!(true, XmlParser::is_restricted('\u{9FFFF}'));
    assert_eq!(true, XmlParser::is_restricted('\u{AFFFE}'));
    assert_eq!(true, XmlParser::is_restricted('\u{AFFFF}'));
    assert_eq!(true, XmlParser::is_restricted('\u{BFFFE}'));
    assert_eq!(true, XmlParser::is_restricted('\u{BFFFF}'));
    assert_eq!(true, XmlParser::is_restricted('\u{CFFFE}'));
    assert_eq!(true, XmlParser::is_restricted('\u{CFFFF}'));
    assert_eq!(true, XmlParser::is_restricted('\u{DFFFE}'));
    assert_eq!(true, XmlParser::is_restricted('\u{DFFFF}'));
    assert_eq!(true, XmlParser::is_restricted('\u{EFFFE}'));
    assert_eq!(true, XmlParser::is_restricted('\u{EFFFF}'));
    assert_eq!(true, XmlParser::is_restricted('\u{FFFFE}'));
    assert_eq!(true, XmlParser::is_restricted('\u{FFFFF}'));
}

#[test]
fn xml_parser_test_read_newline() {
    let mut parser = parse("a\r\nt");
    assert_eq!(Character::Chars('a'), parser.read());
    assert_eq!(1, parser.line);
    assert_eq!(1, parser.col);
    assert_eq!(Character::NewLine, parser.read());
    assert_eq!(2, parser.line);
    assert_eq!(0, parser.col);
    assert_eq!(Character::Chars('t'), parser.read());
    assert_eq!(2, parser.line);
    assert_eq!(1, parser.col);

    let mut parser = parse("a\rt");
    assert_eq!(Character::Chars('a'), parser.read());
    assert_eq!(1, parser.line);
    assert_eq!(1, parser.col);
    assert_eq!(Character::NewLine, parser.read());
    assert_eq!(2, parser.line);
    assert_eq!(0, parser.col);
    assert_eq!(Character::Chars('t'), parser.read());
    assert_eq!(2, parser.line);
    assert_eq!(1, parser.col);

    let mut parser = parse("a\r\u{85}t");
    assert_eq!(Character::Chars('a'), parser.read());
    assert_eq!(1, parser.line);
    assert_eq!(1, parser.col);
    assert_eq!(Character::NewLine, parser.read());
    assert_eq!(2, parser.line);
    assert_eq!(0, parser.col);
    assert_eq!(Character::Chars('t'), parser.read());
    assert_eq!(2, parser.line);
    assert_eq!(1, parser.col);

    let mut parser = parse("a\u{85}t");
    assert_eq!(Character::Chars('a'), parser.read());
    assert_eq!(1, parser.line);
    assert_eq!(1, parser.col);
    assert_eq!(Character::NewLine, parser.read());
    assert_eq!(2, parser.line);
    assert_eq!(0, parser.col);
    assert_eq!(Character::Chars('t'), parser.read());
    assert_eq!(2, parser.line);
    assert_eq!(1, parser.col);

    let mut parser = parse("a\u{2028}t");
    assert_eq!(Character::Chars('a'), parser.read());
    assert_eq!(1, parser.line);
    assert_eq!(1, parser.col);
    assert_eq!(Character::NewLine, parser.read());
    assert_eq!(2, parser.line);
    assert_eq!(0, parser.col);
    assert_eq!(Character::Chars('t'), parser.read());
    assert_eq!(2, parser.line);
    assert_eq!(1, parser.col);
}

#[test]
fn parse_nested_elements() {
    let mut parser = parse("<a><b>t</b></a>");
    let (doc, errors) = parser.parse_doc();
    assert!(errors.is_empty());
    let root = doc.root.expect("a root element");
    assert_eq!("a".to_string(), root.name);
    assert_eq!(1, root.children.len());
    match &root.children[0] {
        XmlNode::Element(b) => {
            assert_eq!("b".to_string(), b.name);
            assert_eq!(vec![XmlNode::Text("t".to_string())], b.children);
        },
        other => panic!("expected an element, got {:?}", other),
    }
}

#[test]
fn tag_mismatch_is_fatal_and_anchored() {
    // The close tag names c while b is the innermost open element: one
    // TagMismatch anchored where the close tag starts, and b is not closed
    // silently.
    let mut parser = parse("<a><b></c></a>");
    let (doc, errors) = parser.parse_doc();
    assert_eq!(1, errors.len());
    assert_eq!(XmlErrorKind::TagMismatch, errors[0].kind);
    assert_eq!(1, errors[0].line);
    assert_eq!(7, errors[0].col);
    // the partial tree still holds <a> with the unclosed <b> inside
    let root = doc.root.expect("a partial root");
    assert_eq!("a".to_string(), root.name);
    assert_eq!(1, root.children.len());
    match &root.children[0] {
        XmlNode::Element(b) => {
            assert_eq!("b".to_string(), b.name);
            assert!(b.children.is_empty());
        },
        other => panic!("expected an element, got {:?}", other),
    }
}

#[test]
fn duplicate_attribute_first_wins() {
    // Exactly one DuplicateAttribute error, and the element keeps exactly
    // one attribute of that name, with the first value.
    let mut parser = parse("<a attr=\"v\" attr=\"w\"/>");
    let (doc, errors) = parser.parse_doc();
    assert_eq!(1, errors.len());
    assert_eq!(XmlErrorKind::DuplicateAttribute, errors[0].kind);
    let root = doc.root.expect("a root element");
    assert_eq!("a".to_string(), root.name);
    assert_eq!(
        vec![XmlAttr { name: "attr".to_string(), value: "v".to_string() }],
        root.attributes
    );
}

#[test]
fn truncated_input_reports_end_of_file() {
    // An input ending mid-tag yields UnexpectedEndOfFile and an empty tree.
    let mut parser = parse("<a");
    let (doc, errors) = parser.parse_doc();
    assert_eq!(1, errors.len());
    assert_eq!(XmlErrorKind::UnexpectedEndOfFile, errors[0].kind);
    assert_eq!(None, doc.root);
}

#[test]
fn unclosed_element_reports_end_of_file() {
    let mut parser = parse("<a><b></b>");
    let (doc, errors) = parser.parse_doc();
    assert_eq!(1, errors.len());
    assert_eq!(XmlErrorKind::UnexpectedEndOfFile, errors[0].kind);
    let root = doc.root.expect("the unwound partial root");
    assert_eq!("a".to_string(), root.name);
}

#[test]
fn top_level_text_is_an_error() {
    let mut parser = parse("x<a/>");
    let (doc, errors) = parser.parse_doc();
    assert_eq!(1, errors.len());
    assert_eq!(XmlErrorKind::UnexpectedToken, errors[0].kind);
    assert_eq!("a".to_string(), doc.root.expect("a root").name);
}

#[test]
fn restricted_char_in_content_is_recorded() {
    let mut parser = parse("<a>\u{1}</a>");
    let (doc, errors) = parser.parse_doc();
    assert_eq!(1, errors.len());
    assert_eq!(XmlErrorKind::IllegalCharacter, errors[0].kind);
    assert!(doc.root.is_some());
}

#[test]
fn missing_quote_is_malformed_delimiter() {
    let mut parser = parse("<a b=v></a>");
    let (_doc, errors) = parser.parse_doc();
    assert!(errors
        .iter()
        .any(|e| e.kind == XmlErrorKind::MalformedDelimiter));
}

#[test]
fn cdata_becomes_a_node() {
    let mut parser = parse("<a><![CDATA[x]]y]]></a>");
    let (doc, errors) = parser.parse_doc();
    assert!(errors.is_empty());
    let root = doc.root.expect("a root");
    assert_eq!(vec![XmlNode::CData("x]]y".to_string())], root.children);
}

#[test]
fn comments_are_skipped_and_double_hyphen_rejected() {
    let mut parser = parse("<a><!-- fine --></a>");
    let (doc, errors) = parser.parse_doc();
    assert!(errors.is_empty());
    assert!(doc.root.expect("a root").children.is_empty());

    let mut parser = parse("<a><!-- a -- b --></a>");
    let (_doc, errors) = parser.parse_doc();
    assert_eq!(1, errors.len());
    assert_eq!(XmlErrorKind::MalformedDelimiter, errors[0].kind);
}

#[test]
fn doctype_internal_subset_is_skipped() {
    let mut parser = parse("<!DOCTYPE x [<y><z>]><a/>");
    let (doc, errors) = parser.parse_doc();
    assert!(errors.is_empty());
    assert_eq!("a".to_string(), doc.root.expect("a root").name);
}

#[test]
fn newline_inside_attribute_value_is_recorded() {
    let mut parser = parse("<a b=\"x\ny\"/>");
    let (doc, errors) = parser.parse_doc();
    assert_eq!(1, errors.len());
    assert_eq!(XmlErrorKind::UnexpectedToken, errors[0].kind);
    let root = doc.root.expect("a root");
    assert_eq!("x\ny".to_string(), root.attributes[0].value);
}

#[test]
fn next_pulls_one_node_at_a_time() {
    let mut parser = parse("<a>t</a>");
    match parser.next() {
        Ok(XmlNode::Text(t)) => assert_eq!("t".to_string(), t),
        other => panic!("expected the text node, got {:?}", other),
    }
    match parser.next() {
        Ok(XmlNode::Element(a)) => {
            assert_eq!("a".to_string(), a.name);
            assert_eq!(vec![XmlNode::Text("t".to_string())], a.children);
        },
        other => panic!("expected the element, got {:?}", other),
    }
    match parser.next() {
        Err(e) => assert_eq!(XmlErrorKind::UnexpectedEndOfFile, e.kind),
        other => panic!("expected exhaustion, got {:?}", other),
    }
}

#[test]
fn parse_call_reports_each_node() {
    let nodes = Cell::new(0usize);
    let faults = Cell::new(0usize);
    let mut parser = parse("<a>t<b/></a>");
    let (doc, errors) = parser.parse_call(&|r| match r {
        Ok(_) => nodes.set(nodes.get() + 1),
        Err(_) => faults.set(faults.get() + 1),
    });
    assert!(errors.is_empty());
    assert_eq!(0, faults.get());
    // the text node, the element b and the element a
    assert_eq!(3, nodes.get());
    assert_eq!("a".to_string(), doc.root.expect("a root").name);
}

#[test]
fn namespace_prefixed_attribute_passes_through() {
    let mut parser = parse("<a xmlns:n=\"u\"/>");
    let (doc, errors) = parser.parse_doc();
    assert!(errors.is_empty());
    let root = doc.root.expect("a root");
    assert_eq!(
        vec![XmlAttr { name: "xmlns:n".to_string(), value: "u".to_string() }],
        root.attributes
    );
}

#[test]
fn elem_field_remembers_last_completed_element() {
    let mut parser = parse("<a><b/></a>");
    let (_doc, errors) = parser.parse_doc();
    assert!(errors.is_empty());
    assert_eq!("a".to_string(), parser.elem.expect("an element").name);
    assert_eq!(0, parser.depth);
}

#[test]
fn document_builders() {
    let mut doc = XmlDoc::new();
    assert_eq!(None, doc.root);
    doc.set_encoding("UTF-8".to_string());
    doc.set_standalone(true);
    let mut e = XmlElem::new("r".to_string());
    assert!(e.append_attribute(XmlAttr { name: "k".to_string(), value: "1".to_string() }));
    assert!(!e.append_attribute(XmlAttr { name: "k".to_string(), value: "2".to_string() }));
    e.append_child(XmlNode::Text("t".to_string()));
    doc.set_root(e);
    let root = doc.root.expect("the root just set");
    assert_eq!(1, root.attributes.len());
    assert_eq!("1".to_string(), root.attributes[0].value);
    assert_eq!(vec![XmlNode::Text("t".to_string())], root.children);
    assert_eq!(Some("UTF-8".to_string()), doc.encoding);
    assert_eq!(Some(true), doc.standalone);
}

#[test]
fn declaration_metadata_is_captured() {
    // The encoding and standalone pairs of the XML text declaration end up
    // in the returned document.
    let mut parser = parse("<?xml version=\"1.0\" encoding=\"UTF-8\" standalone=\"yes\"?><a/>");
    let (doc, _errors) = parser.parse_doc();
    assert_eq!(Some("UTF-8".to_string()), doc.encoding);
    assert_eq!(Some(true), doc.standalone);
    assert_eq!("a".to_string(), doc.root.expect("a root").name);

    let mut parser = parse("<?xml standalone='no'?><a/>");
    let (doc, errors) = parser.parse_doc();
    assert!(errors.is_empty());
    assert_eq!(None, doc.encoding);
    assert_eq!(Some(false), doc.standalone);
}

#[test]
fn ordinary_pi_carries_no_metadata() {
    let mut parser = parse("<?other encoding=\"X\"?><a/>");
    let (doc, errors) = parser.parse_doc();
    assert!(errors.is_empty());
    assert_eq!(None, doc.encoding);
    assert_eq!(None, doc.standalone);
}

#[test]
fn empty_input_reports_missing_root() {
    let mut parser = parse("");
    let (doc, errors) = parser.parse_doc();
    assert_eq!(1, errors.len());
    assert_eq!(XmlErrorKind::UnexpectedEndOfFile, errors[0].kind);
    assert_eq!(None, doc.root);

    let mut parser = parse("  \n ");
    let (doc, errors) = parser.parse_doc();
    assert_eq!(1, errors.len());
    assert_eq!(XmlErrorKind::UnexpectedEndOfFile, errors[0].kind);
    assert_eq!(None, doc.root);
}

#[test]
fn parse_call_reports_wrap_up_errors() {
    // The error recorded when the stream ends with an element still open
    // reaches the callback too.
    let faults = Cell::new(0usize);
    let mut parser = parse("<a>");
    let (_doc, errors) = parser.parse_call(&|r| {
        if r.is_err() {
            faults.set(faults.get() + 1);
        }
    });
    assert_eq!(1, errors.len());
    assert_eq!(1, faults.get());
}

#[test]
fn parse_call_reports_node_beside_error() {
    // A second element at depth zero completes (and is reported) in the same
    // step that records the error about it.
    let nodes = Cell::new(0usize);
    let faults = Cell::new(0usize);
    let mut parser = parse("<a/><b/>");
    let (doc, errors) = parser.parse_call(&|r| match r {
        Ok(_) => nodes.set(nodes.get() + 1),
        Err(_) => faults.set(faults.get() + 1),
    });
    assert_eq!(1, errors.len());
    assert_eq!(XmlErrorKind::UnexpectedToken, errors[0].kind);
    assert_eq!(2, nodes.get());
    assert_eq!(1, faults.get());
    assert_eq!("a".to_string(), doc.root.expect("the first root").name);
}
