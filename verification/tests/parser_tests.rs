use alloy::parse;
use alloy::Attribute;
use alloy::Attributes;
use alloy::Body;
use alloy::Element;
use alloy::IdOrClass;
use alloy::Ident;
use alloy::Node;
use alloy::StringInline;

#[test]
fn quick_syntax() {
    let input = "div p 'hello'";
    let expected = Node {
        kind: Ident(String::from("div")),
        body: Body::from_s("p {'hello'}"),
        ..Default::default()
    };

    let result = Node::from_s(input);

    assert_eq!(result, expected);
}

#[test]
fn identifiers() {
    let valid = [
        "max",
        "min-",
        "background-color",
        "backgroundColor",
        "background_color",
        "Ad0909-4324",
    ];
    for v in valid {
        assert!(Ident::parse(v).is_ok());
        assert_eq!(Ident::parse(v).unwrap().0, "", "nothing remains");
    }
}

#[test]
fn inline_str() {
    let valid = [
        "'hello world'",
        "  ()()()",
        "( )",
        "max",
        "min-",
        "background-color",
        "backgroundColor",
        "background_color",
        "Ad0909-4324",
        "  ({ })",
        "  ({})[]{}",
        "  ({'hello man'})",
        "open(7)",
    ];
    for v in valid {
        let result = StringInline::parse_trim(v);
        assert!(result.is_ok(), "parsing inline str {v}");
        let (rest, _) = result.unwrap();
        assert_eq!(rest, "", "nothing remains");
    }
}

#[test]
fn nodes() {
    let input = [
        "canvas#drawboard;",
        "input(type: text);",
        "input(type: 'text');",
        "h1() {'hello world'}",
    ];

    for i in input {
        let result = Node::parse(i);
        assert!(result.is_ok());
        let (rest, _) = result.unwrap();

        assert_eq!(rest, "", "not rest on {i}");
    }
}

#[test]
fn fullelement() {
    let input = "img(src: ../resources/icon.png, onclick: goto('home'));";
    let expected = Node {
        kind: Ident("img".to_string()),
        ids_and_classes: Vec::new(),
        attributes: Some(Attributes(vec![
            Attribute {
                key: Ident("src".to_string()),
                value: Some("../resources/icon.png".to_string()),
            },
            Attribute {
                key: Ident("onclick".to_string()),
                value: Some("goto('home')".to_string()),
            },
        ])),
        body: Body::default(),
    };

    let Ok((rest, mut result)) = parse(input) else {
        panic!("expected to parse input");
    };
    let Element::Node(result) = result.0.remove(0) else {
        panic!("expected node");
    };

    assert_eq!(rest, "");
    assert_eq!(expected.kind, result.kind, "same kind");
    assert_eq!(
        expected.ids_and_classes, result.ids_and_classes,
        "same ids and classes"
    );
    assert_eq!(expected.attributes, result.attributes, "same attributes");
    assert_eq!(expected.body, result.body, "same body");
}

#[test]
fn body_filled0() {
    let input = "
                div#header.w-100(style: 'height: 48px; margin-top: 8px') {
                                                            //   ________ <- Note how the opening and closing parens are still getting counted
                    img(src: ../ressources/icon.png, onclick: goto('home'));

                    h2.color-green { `Graphmasters` }
                    input(type: 'text');
                }";

    let (rest, _body) = Body::parse_trim(input).expect("parse body");
    assert_eq!(rest, "", "nothing remains of the input")
}

#[test]
fn body_filled2_img() {
    let input = "
                                                    //   ________ <- Note how the opening and closing parens are still getting counted
            img(src: ../ressources/icon.png, onclick: goto('home'));";

    let (rest, _node) = Node::parse_trim(input).unwrap();
    assert_eq!(rest, "");
}

#[test]
fn unusal_attributes1() {
    let input = "src: ../ressources/icon.png";
    let a = Attribute::from_s(input);
    assert_eq!(
        a,
        Attribute {
            key: Ident::from_s("src"),
            value: Some(String::from("../ressources/icon.png"))
        }
    );
}

#[test]
fn unusal_attributes2() {
    let input = "onclick: goto('home')";
    let a = Attribute::from_s(input);
    assert_eq!(
        a,
        Attribute {
            key: Ident::from_s("onclick"),
            value: Some(String::from("goto('home')"))
        }
    );
}

#[test]
fn odd_idents1() {
    let input = "../ressources/icon.png,";
    let expected = "../ressources/icon.png";
    let rest = ",";

    let (r, got) = StringInline::parse(input).expect("parse inline str");
    assert_eq!(got.0, expected);
    assert_eq!(r, rest);
}

#[test]
fn odd_idents2() {
    let input = "goto('home', x))";
    let expected = "goto('home', x)";
    let rest = ")";

    let (r, got) = StringInline::parse(input).expect("parse inline str");
    assert_eq!(got.0, expected);
    assert_eq!(r, rest);
}

#[test]
fn attributes_and_ids() {
    let input = "div#header.w-100(style: 'height: 48px; margin-top: 8px') {
        }";
    let expected = Node {
        kind: Ident::from_s("div"),
        ids_and_classes: vec![IdOrClass::from_s("#header"), IdOrClass::from_s(".w-100")],
        attributes: Some(Attributes(vec![Attribute {
            key: Ident::from_s("style"),
            value: Some(String::from("height: 48px; margin-top: 8px")),
        }])),
        body: Body::default(),
    };

    let result = Node::from_s(input);

    assert_eq!(result, expected);
}

#[test]
fn comments1() {
    let i = "// hello world\n canvas#drawboard;";

    let result = parse(i);
    assert!(result.is_ok(), "expected to parse {i}");
    let (rest, _) = result.unwrap();

    assert_eq!(rest, "", "not rest on {i}");
}

#[test]
fn inline_str2() {
    let i = "../../src/main.rs";

    let result = StringInline::parse(i);
    assert!(result.is_ok(), "expected to parse {i}");
    let (rest, r) = result.unwrap();
    assert_eq!(rest, "", "not rest on {i}");
    assert_eq!(r.0, i);
}

#[test]
fn comments2() {
    let i = "/* hello */ input(type: text); /* yeah */";

    let result = parse(i);
    assert!(
        result.is_ok(),
        "expected to parse {i}. Error: {:#?}",
        result.err()
    );
    let (rest, _) = result.unwrap();

    assert_eq!(rest, "", "not rest on {i}");
}

#[test]
fn parens() {
    let input = "(dhsjakdhsjkadhk   dsjakldjsla  )";
    let (rest, got) = alloy::anyparen(input).expect("parse str");

    assert_eq!(rest, "", "nothing remains");
    assert_eq!(got, "dhsjakdhsjkadhk   dsjakldjsla");
}

#[test]
fn anyparens() {
    let input = "(dhsjakdhsjkadhk   dsjakldjsla  )";
    let (rest, got) = alloy::anyparen(input).expect("parse str");

    assert_eq!(rest, "", "nothing remains");
    assert_eq!(got, "dhsjakdhsjkadhk   dsjakldjsla");
}
