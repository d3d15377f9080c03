// The HTML emitter: exact expected output for small trees, the escaping
// rule, and the indentation helper.

use alloy::escape;
use alloy::indent;
use alloy::parse;
use alloy::to_html;
use alloy::to_html_node;
use alloy::Element;
use alloy::Node;
use alloy::OutputConfig;

#[test]
fn escape_quotes() {
    assert_eq!(escape("goto('home')"), "goto(\\'home\\')");
    assert_eq!(escape("plain"), "plain");
    assert_eq!(escape(""), "");
    assert_eq!(escape("'"), "\\'");
}

#[test]
fn indent_spaces() {
    assert_eq!(indent(0), "");
    assert_eq!(indent(3), "   ");
}

#[test]
fn html_single_element() {
    let node = Node::from_s("div#a.b.c(x: 1, y);");
    let config = OutputConfig { indent: 2 };
    let html = to_html_node(&Element::Node(node), 0, &config);
    assert_eq!(html, "<div id='a' class='b c' x='1' y>\n</div>\n");
}

#[test]
fn html_first_id_only() {
    let node = Node::from_s("div#a#b;");
    let config = OutputConfig { indent: 2 };
    let html = to_html_node(&Element::Node(node), 0, &config);
    assert_eq!(html, "<div id='a'>\n</div>\n");
}

#[test]
fn html_nested_with_indentation() {
    let (_, body) = parse("div p 'x'").expect("parse");
    let config = OutputConfig { indent: 2 };
    let html = to_html(&body.0, 0, &config);
    assert_eq!(html, "<div>\n  <p>\n    x\n  </p>\n</div>\n");
}

#[test]
fn html_escapes_attribute_values_and_text() {
    let (_, body) = parse("a(onclick: goto('x')) 'it''s'").expect("parse");
    assert_eq!(body.0.len(), 2, "the second literal is a top-level sibling");
    let config = OutputConfig { indent: 2 };
    let html = to_html(&body.0, 0, &config);
    assert_eq!(
        html,
        "<a onclick='goto(\\'x\\')'>\n  it\n</a>\ns\n"
    );
}

#[test]
fn html_level_offsets_indentation() {
    let node = Node::from_s("br;");
    let config = OutputConfig { indent: 3 };
    let html = to_html_node(&Element::Node(node), 2, &config);
    assert_eq!(html, "      <br>\n      </br>\n");
}

#[test]
fn html_text_fragment() {
    let config = OutputConfig { indent: 2 };
    let html = to_html_node(&Element::Text(String::from("hi")), 1, &config);
    assert_eq!(html, "  hi\n");
}
