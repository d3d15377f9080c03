use vstd::prelude::*;

verus! {

// ---------------------------------------------------------------------------
// The document tree.
//
// A parse produces a forest of elements.  An element is either a tagged node
// (tag name, `#id`/`.class` selectors, optional attribute list, body) or a
// plain text fragment.  A body is again a forest: the empty body, a braced
// sequence, a lone quoted string and a nested bare element all parse to a
// list of children.  Everything is built once by the parser and never
// mutated afterwards.
// ---------------------------------------------------------------------------

/// An identifier: a non-empty run of identifier characters.  Used for tag
/// names, attribute keys and selector names.
#[derive(Debug, Clone, PartialEq, Eq, Default)]
pub struct Ident(pub String);

/// One selector attached to an element: `#name` or `.name`.
#[derive(Debug, Clone, PartialEq, Eq)]
pub enum IdOrClass {
    Id(Ident),
    Class(Ident),
}

/// One attribute: a key, optionally followed by `:` and a value.  An
/// attribute written without `:` has no value (presence-only).
#[derive(Debug, Clone, PartialEq, Eq, Default)]
pub struct Attribute {
    pub key: Ident,
    pub value: Option<String>,
}

/// A parenthesized attribute list.  `None` at the element level means no
/// `( ... )` group was written; this struct present-but-empty means `()`.
#[derive(Debug, Clone, PartialEq, Eq, Default)]
pub struct Attributes(pub Vec<Attribute>);

/// A tagged element: tag name, selectors in source order, optional
/// attributes, and the body's children.
#[derive(Debug, PartialEq, Eq, Default)]
pub struct Node {
    pub kind: Ident,
    pub ids_and_classes: Vec<IdOrClass>,
    pub attributes: Option<Attributes>,
    pub body: Body,
}

/// One item of the tree: a tagged node or a text fragment.
#[derive(Debug, PartialEq, Eq)]
pub enum Element {
    Node(Node),
    Text(String),
}

/// The children of an element, or a whole parsed document: an ordered list
/// of elements.
#[derive(Debug, PartialEq, Eq, Default)]
pub struct Body(pub Vec<Element>);

/// The value recognized by the inline-value scanner: an attribute value or
/// bare text written without quoting.
#[derive(Debug, Clone, PartialEq, Eq)]
pub struct StringInline(pub String);

/// The trivial rule that matches end-of-input contexts: it consumes nothing
/// and always succeeds.
#[derive(Debug, Clone, PartialEq, Eq)]
pub struct KeywordEof;

// ---------------------------------------------------------------------------
// Mathematical images of the tree types: text as `Seq<char>`, lists as
// `Seq`.  The contracts of the parser speak about these.
// ---------------------------------------------------------------------------

/// Image of a selector.
pub enum SelV {
    Id(Seq<char>),
    Class(Seq<char>),
}

/// Image of an attribute.
pub struct AttrV {
    pub key: Seq<char>,
    pub value: Option<Seq<char>>,
}

/// Image of a tagged node.
pub struct NodeV {
    pub kind: Seq<char>,
    pub sels: Seq<SelV>,
    pub attrs: Option<Seq<AttrV>>,
    pub body: Seq<ElemV>,
}

/// Image of a tree item.
pub enum ElemV {
    Node(NodeV),
    Text(Seq<char>),
}

pub open spec fn sel_view(s: IdOrClass) -> SelV {
    match s {
        IdOrClass::Id(i) => SelV::Id(i.0@),
        IdOrClass::Class(i) => SelV::Class(i.0@),
    }
}

pub open spec fn sels_view(v: Seq<IdOrClass>) -> Seq<SelV> {
    Seq::new(v.len(), |i: int| sel_view(v[i]))
}

pub open spec fn attr_view(a: Attribute) -> AttrV {
    AttrV {
        key: a.key.0@,
        value: match a.value {
            Option::Some(s) => Option::Some(s@),
            Option::None => Option::None,
        },
    }
}

pub open spec fn attrs_view(v: Seq<Attribute>) -> Seq<AttrV> {
    Seq::new(v.len(), |i: int| attr_view(v[i]))
}

pub open spec fn elem_view(e: Element) -> ElemV
    decreases e,
{
    match e {
        Element::Node(n) => ElemV::Node(node_view(n)),
        Element::Text(t) => ElemV::Text(t@),
    }
}

pub open spec fn node_view(n: Node) -> NodeV
    decreases n,
{
    NodeV {
        kind: n.kind.0@,
        sels: sels_view(n.ids_and_classes@),
        attrs: match n.attributes {
            Option::Some(a) => Option::Some(attrs_view(a.0@)),
            Option::None => Option::None,
        },
        body: elems_view(n.body.0@),
    }
}

pub open spec fn elems_view(v: Seq<Element>) -> Seq<ElemV>
    decreases v,
{
    Seq::new(
        v.len(),
        |i: int| if 0 <= i < v.len() { elem_view(v[i]) } else { ElemV::Text(Seq::empty()) },
    )
}

impl View for Ident {
    type V = Seq<char>;

    open spec fn view(&self) -> Seq<char> {
        self.0@
    }
}

impl View for IdOrClass {
    type V = SelV;

    open spec fn view(&self) -> SelV {
        sel_view(*self)
    }
}

impl View for Attribute {
    type V = AttrV;

    open spec fn view(&self) -> AttrV {
        attr_view(*self)
    }
}

impl View for Attributes {
    type V = Seq<AttrV>;

    open spec fn view(&self) -> Seq<AttrV> {
        attrs_view(self.0@)
    }
}

impl View for Node {
    type V = NodeV;

    open spec fn view(&self) -> NodeV {
        node_view(*self)
    }
}

impl View for Element {
    type V = ElemV;

    open spec fn view(&self) -> ElemV {
        elem_view(*self)
    }
}

impl View for Body {
    type V = Seq<ElemV>;

    open spec fn view(&self) -> Seq<ElemV> {
        elems_view(self.0@)
    }
}

impl View for StringInline {
    type V = Seq<char>;

    open spec fn view(&self) -> Seq<char> {
        self.0@
    }
}

impl Default for IdOrClass {
    /// The default selector, as the tree types' other defaults: an empty id.
    fn default() -> (r: Self)
        ensures
            r matches IdOrClass::Id(i) && i@ == Seq::<char>::empty(),
    {
        IdOrClass::Id(Ident(String::new()))
    }
}

impl Default for Element {
    /// The default tree item: a node with an empty tag and nothing else.
    fn default() -> (r: Self)
        ensures
            r matches Element::Node(n) && n@.kind == Seq::<char>::empty() && n@.sels
                == Seq::<SelV>::empty() && n@.attrs is None && n@.body == Seq::<ElemV>::empty(),
    {
        Element::Node(
            Node {
                kind: Ident(String::new()),
                ids_and_classes: Vec::new(),
                attributes: Option::None,
                body: Body(Vec::new()),
            },
        )
    }
}

} // verus!
