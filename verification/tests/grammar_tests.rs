// Whole-document inputs that must parse in full, scenario tests for the
// grammar's stated properties, and one failing input per error kind.

use alloy::parse;
use alloy::Body;
use alloy::Element;
use alloy::ErrorKind;
use alloy::IdOrClass;
use alloy::Ident;
use alloy::Node;
use alloy::StringInline;

fn parses_fully(input: &str) {
    let result = parse(input);
    assert!(
        result.is_ok(),
        "expected to parse {input}. Error: {:#?}",
        result
    );
    let (rest, _) = result.unwrap();
    assert_eq!(rest, "", "not rest on {input}");
}

#[test]
fn nochildren() {
    parses_fully("head {}");
}

#[test]
fn attributes_on_node() {
    parses_fully("meta(charset: UTF-8);");
}

#[test]
fn attributes_on_node_str() {
    parses_fully("meta(charset: 'UTF-8');");
}

#[test]
fn embedded() {
    parses_fully("head { link(rel: stylesheet, href: xyz); }");
}

#[test]
fn embedded1() {
    parses_fully("head { link(rel: stylesheet, href: xyz); style \"\" }");
}

#[test]
fn stylesheet1() {
    parses_fully("style {'{}'}");
}

#[test]
fn stylesheet2() {
    parses_fully("style '{}'");
}

#[test]
fn textnode1() {
    parses_fully("h1 'hello world'");
}

#[test]
fn textnode2() {
    parses_fully("h1(bold: true) 'hello world'");
}

#[test]
fn textnode3() {
    parses_fully("h1.bold 'hello world'");
}

#[test]
fn head1() {
    parses_fully(
        "
    head {
        /*
        meta(charset: UTF-8);
        link(
            rel: stylesheet,
            href: \"https://stackpath.bootstrapcdn.com/bootstrap/4.3.1/css/bootstrap.min.css\"
        );

        style {{
            .h-100 {
                height: 100%
            }
        }}
        */
    }
    ",
    );
}

#[test]
fn head2() {
    parses_fully(
        "
    head {
        meta(charset: UTF-8);
        link(
            rel: stylesheet,
            href: \"https://stackpath.bootstrapcdn.com/bootstrap/4.3.1/css/bootstrap.min.css\"
        );

        style '
            .h-100 {
                height: 100%
            }
        '
    }",
    );
}

#[test]
fn body_filled() {
    parses_fully(
        "
    body {
        div#header.w-100(style: 'height: 48px; margin-top: 8px') {
            h2.color-green 'Graphmasters'
            input(type: 'text');
        }
    }
    ",
    );
}

#[test]
fn body_filled1a() {
    parses_fully(
        "
        div#header.w-100(style: 'height: 48px; margin-top: 8px') {}
    ",
    );
}

#[test]
fn div_filled() {
    parses_fully(
        "
        div#header.w-100(style: 'height: 48px; margin-top: 8px') {
                                                    //   ________ <- Note how the opening and closing parens are still getting counted
            img(src: ../ressources/icon.png, onclick: goto('home'));

            h2.color-green { 'Graphmasters' }
            input(type: 'text');
        }
    ",
    );
}

#[test]
fn div_empty() {
    parses_fully(
        "
        div#header.w-100(style: 'height: 48px; margin-top: 8px') {}
    ",
    );
}

#[test]
fn div_empty2() {
    parses_fully(
        "
        div#header.w-100(style: 'height: 48px; margin-top: 8px');
    ",
    );
}

#[test]
fn image() {
    parses_fully(
        "
            img(src: ../ressources/icon.png, onclick: goto('home'));
    ",
    );
}

#[test]
fn body0() {
    parses_fully(
        "// hello
                        html {
                            head;,
                            body {}
                        }",
    );
}

#[test]
fn body1() {
    parses_fully(
        "// hello
                        html {
                            head;
                            body {}
                        }",
    );
}

#[test]
fn idsnclasses() {
    parses_fully("div#important.highlight.w-100;");
}

#[test]
fn bodywithcomment() {
    parses_fully(
        "html {
    head;
 } /* oi ya wee wanker */ ",
    );
}

#[test]
fn body2() {
    parses_fully(
        "html {
    head;
 }",
    );
}

#[test]
fn inputelem() {
    parses_fully("input(type: text);");
}

#[test]
fn div() {
    parses_fully("div() { h1 {} }");
}

// -- separator commas and whitespace inside a braced sequence ---------------

#[test]
fn comma_insensitive_sequences() {
    let (r1, b1) = Body::parse("{a; b;}").expect("semicolon separated");
    let (r2, b2) = Body::parse("{a;,b;}").expect("comma tolerated");
    assert_eq!(r1, "");
    assert_eq!(r2, "");
    assert_eq!(b1.0.len(), 2, "two elements");
    assert_eq!(b1, b2, "same sequence either way");
}

// -- nested-body sugar -------------------------------------------------------

#[test]
fn nested_body_sugar() {
    let sugar = parse("div p 'hello'").expect("bare nesting").1;
    let braced = parse("div { p { 'hello' } }").expect("braced nesting").1;
    assert_eq!(sugar, braced, "same tree either way");
}

// -- selector order and duplicates ------------------------------------------

#[test]
fn selector_order_preserved() {
    let node = Node::from_s("div#a.b#c;");
    assert_eq!(
        node.ids_and_classes,
        vec![
            IdOrClass::Id(Ident(String::from("a"))),
            IdOrClass::Class(Ident(String::from("b"))),
            IdOrClass::Id(Ident(String::from("c"))),
        ]
    );
}

// -- attribute with no value -------------------------------------------------

#[test]
fn attribute_without_value() {
    let node = Node::from_s("input(disabled);");
    let attrs = node.attributes.expect("attribute group present");
    assert_eq!(attrs.0.len(), 1);
    assert_eq!(attrs.0[0].key, Ident(String::from("disabled")));
    assert_eq!(attrs.0[0].value, None);
}

#[test]
fn empty_attribute_group_is_present_but_empty() {
    let node = Node::from_s("input();");
    let attrs = node.attributes.expect("attribute group present");
    assert_eq!(attrs.0.len(), 0);
    let bare = Node::from_s("input;");
    assert_eq!(bare.attributes, None, "no group at all when none is written");
}

// -- determinism --------------------------------------------------------------

#[test]
fn parse_is_deterministic() {
    let input = "div#a.b(x: 1) { p 'hi', img(src: a.png); }";
    let first = parse(input).expect("first parse");
    let second = parse(input).expect("second parse");
    assert_eq!(first, second, "structurally equal trees");
}

// -- comment permissiveness ---------------------------------------------------

#[test]
fn unterminated_block_comment_parses() {
    let (rest, body) = parse("/* comment").expect("unterminated comment is fine");
    assert_eq!(rest, "");
    assert_eq!(body.0.len(), 0, "empty document");
}

#[test]
fn line_comment_without_newline_parses() {
    let (rest, body) = parse("div; // no newline after this").expect("comment to end of input");
    assert_eq!(rest, "");
    assert_eq!(body.0.len(), 1);
}

// -- the empty document -------------------------------------------------------

#[test]
fn empty_input_is_empty_document() {
    let (rest, body) = parse("").expect("empty document");
    assert_eq!(rest, "");
    assert_eq!(body.0.len(), 0);
}

#[test]
fn two_top_level_siblings() {
    let (rest, body) = parse("head; body {}").expect("sibling elements");
    assert_eq!(rest, "");
    assert_eq!(body.0.len(), 2);
}

// -- one failing input per error kind ----------------------------------------

#[test]
fn error_expected_identifier() {
    let e = Ident::parse("!nope").unwrap_err();
    assert_eq!(e.kind, ErrorKind::ExpectedIdentifier);
    assert_eq!(e.at, 0);
}

#[test]
fn error_unterminated_string() {
    let e = parse("div 'abc").unwrap_err();
    assert_eq!(e.kind, ErrorKind::UnterminatedString);
}

#[test]
fn error_unbalanced_delimiter() {
    let e = StringInline::parse("(abc").unwrap_err();
    assert_eq!(e.kind, ErrorKind::UnbalancedDelimiter);
    assert_eq!(e.at, 0);
}

#[test]
fn error_expected_identifier_after_selector() {
    let e = parse("div#;").unwrap_err();
    assert_eq!(e.kind, ErrorKind::ExpectedIdentifierAfterSelector);
}

#[test]
fn error_expected_body() {
    let e = parse("div").unwrap_err();
    assert_eq!(e.kind, ErrorKind::ExpectedBody);
}

#[test]
fn error_trailing_input() {
    let e = parse("div; )").unwrap_err();
    assert_eq!(e.kind, ErrorKind::TrailingInput);
    assert_eq!(e.at, 5);
}

// -- the inline scanner's boundary behaviour ----------------------------------

#[test]
fn inline_value_stops_at_sibling_comma() {
    let (rest, v) = StringInline::parse("a, b").expect("scan to comma");
    assert_eq!(v.0, "a");
    assert_eq!(rest, ", b");
}

#[test]
fn inline_value_keeps_nested_comma() {
    let (rest, v) = StringInline::parse("f(a, b) tail").expect("nested comma is content");
    assert_eq!(v.0, "f(a, b) tail");
    assert_eq!(rest, "");
}

#[test]
fn inline_value_trimmed() {
    let a = alloy::Attribute::from_s("x: spaced value ,");
    assert_eq!(a.value, Some(String::from("spaced value")));
}

#[test]
fn quoted_delimiters_inside_group_are_opaque() {
    let (rest, v) = StringInline::parse("f('a)b')").expect("bracket inside quotes ignored");
    assert_eq!(v.0, "f('a)b')");
    assert_eq!(rest, "");
}

#[test]
fn keyword_eof_consumes_nothing() {
    let (rest, _eof) = alloy::KeywordEof::parse("tail").expect("always succeeds");
    assert_eq!(rest, "tail");
}

#[test]
fn element_parse_text_fragment() {
    let (rest, el) = Element::parse("'txt' more").expect("quoted fragment");
    assert_eq!(el, Element::Text(String::from("txt")));
    assert_eq!(rest, " more");
}

// -- commitment: once an element's prefix is consumed, a missing body aborts --

#[test]
fn bare_element_without_body_fails_in_sequence() {
    // Inside a braced sequence the last element still needs one of the four
    // body forms: after `b` is consumed the failure is committed, so no
    // outer alternative reinterprets `{a; b}`.
    let e = Body::parse("{a; b}").unwrap_err();
    assert_eq!(e.kind, ErrorKind::ExpectedBody);
}

// -- the `$` inline-quote marker ---------------------------------------------

#[test]
fn dollar_marks_inline_string() {
    let (rest, v) = StringInline::parse("$abc,").expect("dollar inline value");
    assert_eq!(v.0, "abc");
    assert_eq!(rest, ",");
}

// -- quoted attribute values are taken without their delimiters ---------------

#[test]
fn quoted_attribute_value_unwrapped() {
    let node = Node::from_s("input(type: 'text');");
    let attrs = node.attributes.expect("attributes present");
    assert_eq!(attrs.0[0].value, Some(String::from("text")));
}

// -- the three quote kinds ----------------------------------------------------

#[test]
fn three_quote_kinds() {
    for input in ["div 'x'", "div \"x\"", "div `x`"] {
        let (rest, body) = parse(input).expect("quoted body");
        assert_eq!(rest, "");
        let Element::Node(n) = &body.0[0] else {
            panic!("expected node");
        };
        assert_eq!(n.body.0, vec![Element::Text(String::from("x"))]);
    }
}

// -- the identifier character class, including its unusual members ------------

#[test]
fn identifier_class_extras() {
    let (rest, id) = Ident::parse("a$b%c\u{b0}d-e_f9 rest").unwrap();
    assert_eq!(id.0, "a$b%c\u{b0}d-e_f9");
    assert_eq!(rest, " rest");
}

#[test]
fn multibyte_characters_in_document() {
    let (rest, body) = parse("d\u{b0}v 'x'").expect("degree sign in a tag name");
    assert_eq!(rest, "");
    let Element::Node(n) = &body.0[0] else {
        panic!("expected node");
    };
    assert_eq!(n.kind, Ident(String::from("d\u{b0}v")));
}
