use vstd::prelude::*;

use crate::ast::Attribute;
use crate::ast::Attributes;
use crate::ast::AttrV;
use crate::ast::Body;
use crate::ast::ElemV;
use crate::ast::Element;
use crate::ast::Ident;
use crate::ast::IdOrClass;
use crate::ast::Node;
use crate::ast::SelV;
use crate::ast::attr_view;
use crate::ast::attrs_view;
use crate::ast::elem_view;
use crate::ast::elems_view;
use crate::ast::sel_view;
use crate::ast::sels_view;
use crate::error::ErrorKind;
use crate::error::Parsed;
use crate::error::ParseError;
use crate::grammar::spec_attr;
use crate::grammar::spec_attr_items;
use crate::grammar::spec_attrs;
use crate::grammar::spec_block_items;
use crate::grammar::spec_body;
use crate::grammar::spec_document;
use crate::grammar::spec_element;
use crate::grammar::spec_ident;
use crate::grammar::spec_node;
use crate::grammar::spec_node_tail;
use crate::grammar::spec_sel;
use crate::grammar::spec_sels;
use crate::scan::p_inline;
use crate::scan::p_str_lit;
use crate::scan::run_end_ident;
use crate::scan::skip_trivia_from;

verus! {

// ---------------------------------------------------------------------------
// The grammar's executable rules above the character level.  Each computes
// exactly its specification function.
// ---------------------------------------------------------------------------

/// How an element's optional attribute group is seen by the specification.
pub open spec fn opt_attrs_view(a: Option<Attributes>) -> Option<Seq<AttrV>> {
    match a {
        Option::Some(x) => Option::Some(attrs_view(x.0@)),
        Option::None => Option::None,
    }
}

proof fn lemma_sels_view_cons(v: Seq<IdOrClass>, x: IdOrClass)
    ensures
        sels_view(v.insert(0, x)) == seq![sel_view(x)] + sels_view(v),
{
    assert(sels_view(v.insert(0, x)) =~= seq![sel_view(x)] + sels_view(v));
}

proof fn lemma_attrs_view_cons(v: Seq<Attribute>, x: Attribute)
    ensures
        attrs_view(v.insert(0, x)) == seq![attr_view(x)] + attrs_view(v),
{
    assert(attrs_view(v.insert(0, x)) =~= seq![attr_view(x)] + attrs_view(v));
}

proof fn lemma_elems_view_cons(v: Seq<Element>, x: Element)
    ensures
        elems_view(v.insert(0, x)) == seq![elem_view(x)] + elems_view(v),
{
    assert(elems_view(v.insert(0, x)) =~= seq![elem_view(x)] + elems_view(v));
}

/// An identifier's text.
pub(crate) fn p_ident_text(s: &str, pos: usize) -> (r: Result<(usize, String), ParseError>)
    requires
        pos <= s@.len(),
    ensures
        match r {
            Result::Ok((end, t)) => pos < end <= s@.len() && spec_ident(s@, pos as int)
                == (Parsed::Found { end: end as int, val: t@ }),
            Result::Err(e) => spec_ident(s@, pos as int) == (Parsed::<Seq<char>>::Fail {
                err: e@,
            }),
        },
{
    let e = run_end_ident(s, pos);
    if e > pos {
        let t = s.substring_char(pos, e).to_owned();
        Ok((e, t))
    } else {
        Err(ParseError { kind: ErrorKind::ExpectedIdentifier, at: pos, committed: false })
    }
}

/// One selector: `#name` or `.name`.
pub(crate) fn p_sel(s: &str, pos: usize) -> (r: Result<(usize, IdOrClass), ParseError>)
    requires
        pos <= s@.len(),
    ensures
        match r {
            Result::Ok((end, sel)) => pos < end <= s@.len() && spec_sel(s@, pos as int)
                == (Parsed::Found { end: end as int, val: sel@ }),
            Result::Err(e) => spec_sel(s@, pos as int) == (Parsed::<SelV>::Fail { err: e@ }),
        },
{
    let n = s.unicode_len();
    if pos < n && s.get_char(pos) == '#' {
        match p_ident_text(s, pos + 1) {
            Ok((end, t)) => Ok((end, IdOrClass::Id(Ident(t)))),
            Err(_e) => Err(
                ParseError {
                    kind: ErrorKind::ExpectedIdentifierAfterSelector,
                    at: pos + 1,
                    committed: true,
                },
            ),
        }
    } else if pos < n && s.get_char(pos) == '.' {
        match p_ident_text(s, pos + 1) {
            Ok((end, t)) => Ok((end, IdOrClass::Class(Ident(t)))),
            Err(_e) => Err(
                ParseError {
                    kind: ErrorKind::ExpectedIdentifierAfterSelector,
                    at: pos + 1,
                    committed: true,
                },
            ),
        }
    } else {
        Err(ParseError { kind: ErrorKind::ExpectedIdentifier, at: pos, committed: false })
    }
}

/// Zero or more selectors.
pub(crate) fn p_sels(s: &str, pos: usize) -> (r: Result<(usize, Vec<IdOrClass>), ParseError>)
    requires
        pos <= s@.len(),
    ensures
        match r {
            Result::Ok((end, v)) => pos <= end <= s@.len() && spec_sels(s@, pos as int)
                == (Parsed::Found { end: end as int, val: sels_view(v@) }),
            Result::Err(e) => spec_sels(s@, pos as int) == (Parsed::<Seq<SelV>>::Fail {
                err: e@,
            }),
        },
    decreases s@.len() - pos,
{
    let p = skip_trivia_from(s, pos);
    match p_sel(s, p) {
        Err(e) => {
            if e.committed {
                Err(e)
            } else {
                let v: Vec<IdOrClass> = Vec::new();
                proof {
                    assert(sels_view(v@) =~= Seq::<SelV>::empty());
                }
                Ok((pos, v))
            }
        },
        Ok((end, sel)) => match p_sels(s, end) {
            Err(e) => Err(e),
            Ok((e2, rest)) => {
                let ghost old_rest = rest@;
                let mut rest = rest;
                rest.insert(0, sel);
                proof {
                    lemma_sels_view_cons(old_rest, sel);
                }
                Ok((e2, rest))
            },
        },
    }
}

/// One attribute: key, optionally `:` and a value.
pub(crate) fn p_attr(s: &str, pos: usize) -> (r: Result<(usize, Attribute), ParseError>)
    requires
        pos <= s@.len(),
    ensures
        match r {
            Result::Ok((end, a)) => pos < end <= s@.len() && spec_attr(s@, pos as int)
                == (Parsed::Found { end: end as int, val: a@ }),
            Result::Err(e) => spec_attr(s@, pos as int) == (Parsed::<AttrV>::Fail { err: e@ }),
        },
{
    match p_ident_text(s, pos) {
        Err(e) => Err(e),
        Ok((e1, key)) => {
            let p2 = skip_trivia_from(s, e1);
            let n = s.unicode_len();
            if p2 < n && s.get_char(p2) == ':' {
                let p3 = skip_trivia_from(s, p2 + 1);
                match p_inline(s, p3) {
                    Ok((e2, v)) => Ok(
                        (e2, Attribute { key: Ident(key), value: Option::Some(v) }),
                    ),
                    Err(e) => Err(ParseError { kind: e.kind, at: e.at, committed: true }),
                }
            } else {
                Ok((e1, Attribute { key: Ident(key), value: Option::None }))
            }
        },
    }
}

/// Zero or more attributes with optional comma separators.
pub(crate) fn p_attr_items(s: &str, pos: usize) -> (r: Result<
    (usize, Vec<Attribute>),
    ParseError,
>)
    requires
        pos <= s@.len(),
    ensures
        match r {
            Result::Ok((end, v)) => pos <= end <= s@.len() && spec_attr_items(s@, pos as int)
                == (Parsed::Found { end: end as int, val: attrs_view(v@) }),
            Result::Err(e) => spec_attr_items(s@, pos as int) == (Parsed::<Seq<AttrV>>::Fail {
                err: e@,
            }),
        },
    decreases s@.len() - pos,
{
    let p = skip_trivia_from(s, pos);
    match p_attr(s, p) {
        Err(e) => {
            if e.committed {
                Err(e)
            } else {
                let v: Vec<Attribute> = Vec::new();
                proof {
                    assert(attrs_view(v@) =~= Seq::<AttrV>::empty());
                }
                Ok((pos, v))
            }
        },
        Ok((e, a)) => {
            let pc = skip_trivia_from(s, e);
            let n = s.unicode_len();
            let e2: usize = if pc < n && s.get_char(pc) == ',' {
                pc + 1
            } else {
                e
            };
            match p_attr_items(s, e2) {
                Err(err) => Err(err),
                Ok((e3, rest)) => {
                    let ghost old_rest = rest@;
                    let mut rest = rest;
                    rest.insert(0, a);
                    proof {
                        lemma_attrs_view_cons(old_rest, a);
                    }
                    Ok((e3, rest))
                },
            }
        },
    }
}

/// A parenthesized attribute list.
pub(crate) fn p_attrs(s: &str, pos: usize) -> (r: Result<(usize, Attributes), ParseError>)
    requires
        pos <= s@.len(),
    ensures
        match r {
            Result::Ok((end, a)) => pos < end <= s@.len() && spec_attrs(s@, pos as int)
                == (Parsed::Found { end: end as int, val: a@ }),
            Result::Err(e) => spec_attrs(s@, pos as int) == (Parsed::<Seq<AttrV>>::Fail {
                err: e@,
            }),
        },
{
    let n = s.unicode_len();
    if pos < n && s.get_char(pos) == '(' {
        match p_attr_items(s, pos + 1) {
            Err(e) => Err(e),
            Ok((e, items)) => {
                let p = skip_trivia_from(s, e);
                if p < n && s.get_char(p) == ')' {
                    Ok((p + 1, Attributes(items)))
                } else {
                    Err(
                        ParseError {
                            kind: ErrorKind::UnbalancedDelimiter,
                            at: p,
                            committed: false,
                        },
                    )
                }
            },
        }
    } else {
        Err(ParseError { kind: ErrorKind::ExpectedIdentifier, at: pos, committed: false })
    }
}

/// The element tail after selectors and attributes: trivia, then the body,
/// whose failure is committed.
pub(crate) fn p_node_tail(
    s: &str,
    Ghost(pos): Ghost<int>,
    cur: usize,
    kind: Ident,
    sels: Vec<IdOrClass>,
    attrs: Option<Attributes>,
) -> (r: Result<(usize, Node), ParseError>)
    requires
        0 <= pos < cur <= s@.len(),
    ensures
        match r {
            Result::Ok((end, node)) => pos < end <= s@.len() && spec_node_tail(
                s@,
                pos,
                cur as int,
                kind@,
                sels_view(sels@),
                opt_attrs_view(attrs),
            ) == (Parsed::Found { end: end as int, val: node@ }),
            Result::Err(e) => spec_node_tail(
                s@,
                pos,
                cur as int,
                kind@,
                sels_view(sels@),
                opt_attrs_view(attrs),
            ) == (Parsed::<crate::ast::NodeV>::Fail { err: e@ }),
        },
    decreases s@.len() - pos, 0int,
{
    let p = skip_trivia_from(s, cur);
    match p_body(s, p) {
        Ok((end, items)) => Ok(
            (
                end,
                Node { kind, ids_and_classes: sels, attributes: attrs, body: Body(items) },
            ),
        ),
        Err(e) => Err(ParseError { kind: e.kind, at: e.at, committed: true }),
    }
}

/// A tagged element: identifier, selectors, optional attributes, body.
pub(crate) fn p_node(s: &str, pos: usize) -> (r: Result<(usize, Node), ParseError>)
    requires
        pos <= s@.len(),
    ensures
        match r {
            Result::Ok((end, node)) => pos < end <= s@.len() && spec_node(s@, pos as int)
                == (Parsed::Found { end: end as int, val: node@ }),
            Result::Err(e) => spec_node(s@, pos as int) == (Parsed::<crate::ast::NodeV>::Fail {
                err: e@,
            }),
        },
    decreases s@.len() - pos, 1int,
{
    match p_ident_text(s, pos) {
        Err(e) => Err(e),
        Ok((e1, kind)) => match p_sels(s, e1) {
            Err(e) => Err(e),
            Ok((e2, sels)) => {
                let p3 = skip_trivia_from(s, e2);
                match p_attrs(s, p3) {
                    Err(e) => {
                        if e.committed {
                            Err(e)
                        } else {
                            p_node_tail(
                                s,
                                Ghost(pos as int),
                                e2,
                                Ident(kind),
                                sels,
                                Option::None,
                            )
                        }
                    },
                    Ok((e3, items)) => p_node_tail(
                        s,
                        Ghost(pos as int),
                        e3,
                        Ident(kind),
                        sels,
                        Option::Some(items),
                    ),
                }
            },
        },
    }
}

/// One sequence item: a tagged element or a quoted text fragment.
pub(crate) fn p_element(s: &str, pos: usize) -> (r: Result<(usize, Element), ParseError>)
    requires
        pos <= s@.len(),
    ensures
        match r {
            Result::Ok((end, el)) => pos < end <= s@.len() && spec_element(s@, pos as int)
                == (Parsed::Found { end: end as int, val: el@ }),
            Result::Err(e) => spec_element(s@, pos as int) == (Parsed::<ElemV>::Fail {
                err: e@,
            }),
        },
    decreases s@.len() - pos, 2int,
{
    match p_node(s, pos) {
        Ok((end, node)) => Ok((end, Element::Node(node))),
        Err(e) => {
            if e.committed {
                Err(e)
            } else {
                match p_str_lit(s, pos) {
                    Ok((end, t)) => Ok((end, Element::Text(t))),
                    Err(e2) => Err(e2),
                }
            }
        },
    }
}

/// Zero or more sequence items with optional comma separators.
pub(crate) fn p_block_items(s: &str, pos: usize) -> (r: Result<
    (usize, Vec<Element>),
    ParseError,
>)
    requires
        pos <= s@.len(),
    ensures
        match r {
            Result::Ok((end, v)) => pos <= end <= s@.len() && spec_block_items(s@, pos as int)
                == (Parsed::Found { end: end as int, val: elems_view(v@) }),
            Result::Err(e) => spec_block_items(s@, pos as int) == (Parsed::<Seq<ElemV>>::Fail {
                err: e@,
            }),
        },
    decreases s@.len() - pos, 3int,
{
    let p = skip_trivia_from(s, pos);
    match p_element(s, p) {
        Err(e) => {
            if e.committed {
                Err(e)
            } else {
                let v: Vec<Element> = Vec::new();
                proof {
                    assert(elems_view(v@) =~= Seq::<ElemV>::empty());
                }
                Ok((pos, v))
            }
        },
        Ok((e, el)) => {
            let pc = skip_trivia_from(s, e);
            let n = s.unicode_len();
            let e2: usize = if pc < n && s.get_char(pc) == ',' {
                pc + 1
            } else {
                e
            };
            match p_block_items(s, e2) {
                Err(err) => Err(err),
                Ok((e3, rest)) => {
                    let ghost old_rest = rest@;
                    let mut rest = rest;
                    rest.insert(0, el);
                    proof {
                        lemma_elems_view_cons(old_rest, el);
                    }
                    Ok((e3, rest))
                },
            }
        },
    }
}

/// A body, by the first of the four alternatives to match.
pub(crate) fn p_body(s: &str, pos: usize) -> (r: Result<(usize, Vec<Element>), ParseError>)
    requires
        pos <= s@.len(),
    ensures
        match r {
            Result::Ok((end, v)) => pos < end <= s@.len() && spec_body(s@, pos as int)
                == (Parsed::Found { end: end as int, val: elems_view(v@) }),
            Result::Err(e) => spec_body(s@, pos as int) == (Parsed::<Seq<ElemV>>::Fail {
                err: e@,
            }),
        },
    decreases s@.len() - pos, 4int,
{
    let n = s.unicode_len();
    if pos < n && s.get_char(pos) == '{' {
        match p_block_items(s, pos + 1) {
            Err(e) => Err(e),
            Ok((e, items)) => {
                let p = skip_trivia_from(s, e);
                if p < n && s.get_char(p) == '}' {
                    Ok((p + 1, items))
                } else {
                    Err(ParseError { kind: ErrorKind::ExpectedBody, at: pos, committed: false })
                }
            },
        }
    } else if pos < n && s.get_char(pos) == ';' {
        let v: Vec<Element> = Vec::new();
        proof {
            assert(elems_view(v@) =~= Seq::<ElemV>::empty());
        }
        Ok((pos + 1, v))
    } else {
        match p_str_lit(s, pos) {
            Ok((end, t)) => {
                let mut v: Vec<Element> = Vec::new();
                v.push(Element::Text(t));
                proof {
                    assert(elems_view(v@) =~= seq![ElemV::Text(t@)]);
                }
                Ok((end, v))
            },
            Err(e) => {
                if e.committed {
                    Err(e)
                } else {
                    match p_node(s, pos) {
                        Ok((end, node)) => {
                            let ghost nv = node@;
                            let mut v: Vec<Element> = Vec::new();
                            v.push(Element::Node(node));
                            proof {
                                assert(elems_view(v@) =~= seq![ElemV::Node(nv)]);
                            }
                            Ok((end, v))
                        },
                        Err(e2) => {
                            if e2.committed {
                                Err(e2)
                            } else {
                                Err(
                                    ParseError {
                                        kind: ErrorKind::ExpectedBody,
                                        at: pos,
                                        committed: false,
                                    },
                                )
                            }
                        },
                    }
                }
            },
        }
    }
}

/// A whole document: trivia, a forest of items, trivia, end-of-input.
pub(crate) fn p_document(s: &str) -> (r: Result<(usize, Vec<Element>), ParseError>)
    ensures
        match r {
            Result::Ok((end, v)) => end == s@.len() && spec_document(s@) == (Parsed::Found {
                end: end as int,
                val: elems_view(v@),
            }),
            Result::Err(e) => spec_document(s@) == (Parsed::<Seq<ElemV>>::Fail { err: e@ }),
        },
{
    match p_block_items(s, 0) {
        Err(e) => Err(e),
        Ok((e, items)) => {
            let p = skip_trivia_from(s, e);
            let n = s.unicode_len();
            if p == n {
                Ok((p, items))
            } else {
                Err(ParseError { kind: ErrorKind::TrailingInput, at: p, committed: true })
            }
        },
    }
}

} // verus!
