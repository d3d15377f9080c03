use vstd::prelude::*;

use crate::ast::AttrV;
use crate::ast::ElemV;
use crate::ast::Element;
use crate::ast::NodeV;
use crate::ast::SelV;
use crate::ast::elem_view;
use crate::ast::elems_view;

verus! {

// ---------------------------------------------------------------------------
// The HTML emitter: a pure rendering of a parsed tree to text.  Each element
// becomes an opening tag built from its tag name, its first `#id` selector,
// its `.class` selectors joined into one `class` attribute and its
// attributes (values escaped), then its rendered children one level deeper,
// then a closing tag.  Text children are escaped and emitted on their own
// line.  The specification functions below say exactly which characters
// come out; the executable functions compute them.
// ---------------------------------------------------------------------------

/// Options of the emitter: how many spaces one indentation level is.
#[derive(Debug)]
pub struct OutputConfig {
    pub indent: usize,
}

/// `n` spaces.
pub open spec fn spaces(n: int) -> Seq<char>
    decreases n,
{
    if n <= 0 {
        Seq::empty()
    } else {
        spaces(n - 1).push(' ')
    }
}

/// How one character is escaped: a single quote gains a backslash, every
/// other character stands as itself.
pub open spec fn escape_char(c: char) -> Seq<char> {
    if c == '\'' {
        seq!['\\', '\'']
    } else {
        seq![c]
    }
}

/// The escaped form of `t[i..]`.
pub open spec fn escape_from(t: Seq<char>, i: int) -> Seq<char>
    decreases t.len() - i,
{
    if !(0 <= i < t.len()) {
        Seq::empty()
    } else {
        escape_char(t[i]) + escape_from(t, i + 1)
    }
}

/// The escaped form of `t`.
pub open spec fn escape_seq(t: Seq<char>) -> Seq<char> {
    escape_from(t, 0)
}

/// The first `#id` selector's name at or after `i`, if any: the emitter
/// renders only the first as the `id` attribute.
pub open spec fn first_id_from(sels: Seq<SelV>, i: int) -> Option<Seq<char>>
    decreases sels.len() - i,
{
    if !(0 <= i < sels.len()) {
        Option::None
    } else {
        match sels[i] {
            SelV::Id(name) => Option::Some(name),
            SelV::Class(_) => first_id_from(sels, i + 1),
        }
    }
}

/// Whether any `.class` selector stands at or after `i`.
pub open spec fn any_class_from(sels: Seq<SelV>, i: int) -> bool
    decreases sels.len() - i,
{
    if !(0 <= i < sels.len()) {
        false
    } else {
        match sels[i] {
            SelV::Class(_) => true,
            SelV::Id(_) => any_class_from(sels, i + 1),
        }
    }
}

/// The class names at or after `i`, joined by single spaces; `first` says
/// whether nothing has been emitted yet (no space before the first name).
pub open spec fn classes_from(sels: Seq<SelV>, i: int, first: bool) -> Seq<char>
    decreases sels.len() - i,
{
    if !(0 <= i < sels.len()) {
        Seq::empty()
    } else {
        match sels[i] {
            SelV::Class(name) => (if first {
                name
            } else {
                seq![' '] + name
            }) + classes_from(sels, i + 1, false),
            SelV::Id(_) => classes_from(sels, i + 1, first),
        }
    }
}

/// The ` id='...'` fragment of an opening tag, if any.
pub open spec fn id_frag(sels: Seq<SelV>) -> Seq<char> {
    match first_id_from(sels, 0) {
        Option::Some(name) => seq![' ', 'i', 'd', '=', '\''] + name + seq!['\''],
        Option::None => Seq::empty(),
    }
}

/// The ` class='...'` fragment of an opening tag, if any.
pub open spec fn class_frag(sels: Seq<SelV>) -> Seq<char> {
    if any_class_from(sels, 0) {
        seq![' ', 'c', 'l', 'a', 's', 's', '=', '\''] + classes_from(sels, 0, true) + seq!['\'']
    } else {
        Seq::empty()
    }
}

/// The attribute fragments of an opening tag from `i` on: ` key` for a
/// valueless attribute, ` key='value'` (value escaped) otherwise.
pub open spec fn attrs_frag_from(attrs: Seq<AttrV>, i: int) -> Seq<char>
    decreases attrs.len() - i,
{
    if !(0 <= i < attrs.len()) {
        Seq::empty()
    } else {
        seq![' '] + attrs[i].key + (match attrs[i].value {
            Option::Some(v) => seq!['=', '\''] + escape_seq(v) + seq!['\''],
            Option::None => Seq::empty(),
        }) + attrs_frag_from(attrs, i + 1)
    }
}

/// The attribute fragments of an element that may have no attribute group.
pub open spec fn attrs_frag_opt(attrs: Option<Seq<AttrV>>) -> Seq<char> {
    match attrs {
        Option::Some(a) => attrs_frag_from(a, 0),
        Option::None => Seq::empty(),
    }
}

/// A whole opening tag line: `<kind id class attributes>` and a newline.
pub open spec fn open_tag(n: NodeV) -> Seq<char> {
    seq!['<'] + n.kind + id_frag(n.sels) + class_frag(n.sels) + attrs_frag_opt(n.attrs) + seq![
        '>',
        '\n',
    ]
}

/// A closing tag line: `</kind>` and a newline.
pub open spec fn close_tag(n: NodeV) -> Seq<char> {
    seq!['<', '/'] + n.kind + seq!['>', '\n']
}

/// The rendering of one element at indentation `pad`, children one `unit`
/// deeper.
pub open spec fn elem_html(e: ElemV, pad: Seq<char>, unit: Seq<char>) -> Seq<char>
    decreases e, 0int,
{
    match e {
        ElemV::Text(t) => pad + escape_seq(t) + seq!['\n'],
        ElemV::Node(n) => pad + open_tag(n) + elems_html_from(n.body, 0, pad + unit, unit) + pad
            + close_tag(n),
    }
}

/// The renderings of the elements from `i` on, concatenated.
pub open spec fn elems_html_from(es: Seq<ElemV>, i: int, pad: Seq<char>, unit: Seq<char>) -> Seq<
    char,
>
    decreases es, es.len() - i,
{
    if !(0 <= i < es.len()) {
        Seq::empty()
    } else {
        elem_html(es[i], pad, unit) + elems_html_from(es, i + 1, pad, unit)
    }
}

/// `spaces` distributes over addition.
proof fn lemma_spaces_add(a: int, b: int)
    requires
        0 <= a,
        0 <= b,
    ensures
        spaces(a + b) == spaces(a) + spaces(b),
    decreases b,
{
    if b <= 0 {
        assert(spaces(a) + spaces(0) =~= spaces(a));
    } else {
        lemma_spaces_add(a, b - 1);
        assert(spaces(a) + spaces(b) =~= (spaces(a) + spaces(b - 1)).push(' '));
    }
}

/// Relies on `String::push`: appends the given character to the end of the
/// string.
#[verifier::external_body]
fn push_char(s: &mut String, c: char)
    ensures
        final(s)@ == old(s)@.push(c),
{
    s.push(c);
}

/// `times` spaces.
pub fn indent(times: usize) -> (r: String)
    ensures
        r@ == spaces(times as int),
{
    let mut out = String::new();
    let mut i: usize = 0;
    while i < times
        invariant
            i <= times,
            out@ == spaces(i as int),
        decreases times - i,
    {
        push_char(&mut out, ' ');
        i += 1;
    }
    out
}

/// The escaped form of `i`: every single quote gains a backslash.
pub fn escape(i: &str) -> (r: String)
    ensures
        r@ == escape_seq(i@),
{
    let n = i.unicode_len();
    let mut out = String::new();
    let mut j: usize = 0;
    while j < n
        invariant
            j <= n,
            n == i@.len(),
            out@ + escape_from(i@, j as int) == escape_from(i@, 0),
        decreases n - j,
    {
        let c = i.get_char(j);
        let ghost before = out@;
        if c == '\'' {
            push_char(&mut out, '\\');
            push_char(&mut out, '\'');
        } else {
            push_char(&mut out, c);
        }
        proof {
            assert(out@ =~= before + escape_char(i@[j as int]));
            assert((before + escape_char(i@[j as int])) + escape_from(i@, j + 1) =~= before + (
            escape_char(i@[j as int]) + escape_from(i@, j + 1)));
        }
        j += 1;
    }
    proof {
        assert(out@ + escape_from(i@, n as int) =~= out@);
    }
    out
}

/// The rendering of one element.
#[verifier::rlimit(60)]
fn render_elem(e: &Element, pad: &String, unit: &String) -> (r: String)
    ensures
        r@ == elem_html(elem_view(*e), pad@, unit@),
    decreases *e,
{
    match e {
        Element::Text(t) => {
            let mut out = pad.clone();
            let esc = escape(t.as_str());
            out.append(esc.as_str());
            push_char(&mut out, '\n');
            proof {
                assert(out@ =~= pad@ + escape_seq(t@) + seq!['\n']);
            }
            out
        },
        Element::Node(n) => {
            let ghost nv = crate::ast::node_view(*n);
            let ghost sv = crate::ast::sels_view(n.ids_and_classes@);
            let ghost av = crate::parsing::opt_attrs_view(n.attributes);
            let mut out = pad.clone();
            push_char(&mut out, '<');
            out.append(n.kind.0.as_str());

            // the first `#id` selector, if any
            let mut idn: Option<String> = Option::None;
            let mut j: usize = 0;
            while j < n.ids_and_classes.len()
                invariant
                    j <= n.ids_and_classes.len(),
                    sv == crate::ast::sels_view(n.ids_and_classes@),
                    match idn {
                        Option::Some(t) => first_id_from(sv, 0) == Option::Some(t@),
                        Option::None => first_id_from(sv, 0) == first_id_from(sv, j as int),
                    },
                decreases n.ids_and_classes@.len() - j,
            {
                if idn.is_none() {
                    match &n.ids_and_classes[j] {
                        crate::ast::IdOrClass::Id(name) => {
                            idn = Option::Some(name.0.clone());
                        },
                        crate::ast::IdOrClass::Class(_) => {},
                    }
                }
                j += 1;
            }
            let ghost out1 = out@;
            match &idn {
                Option::Some(t) => {
                    out.append(" id='");
                    out.append(t.as_str());
                    push_char(&mut out, '\'');
                    proof {
                        reveal_strlit(" id='");
                        assert(" id='"@ =~= seq![' ', 'i', 'd', '=', '\'']);
                        assert(out@ =~= out1 + id_frag(sv));
                    }
                },
                Option::None => {
                    proof {
                        assert(out@ =~= out1 + id_frag(sv));
                    }
                },
            }

            // the `.class` selectors, joined into one attribute
            let mut cls = String::new();
            let mut has = false;
            let mut k: usize = 0;
            while k < n.ids_and_classes.len()
                invariant
                    k <= n.ids_and_classes.len(),
                    sv == crate::ast::sels_view(n.ids_and_classes@),
                    cls@ + classes_from(sv, k as int, !has) == classes_from(sv, 0, true),
                    any_class_from(sv, 0) == (has || any_class_from(sv, k as int)),
                decreases n.ids_and_classes@.len() - k,
            {
                let ghost old_has = has;
                let ghost before = cls@;
                match &n.ids_and_classes[k] {
                    crate::ast::IdOrClass::Class(name) => {
                        if has {
                            push_char(&mut cls, ' ');
                        }
                        cls.append(name.0.as_str());
                        has = true;
                        proof {
                            assert(cls@ =~= before + (if !old_has {
                                name.0@
                            } else {
                                seq![' '] + name.0@
                            }));
                            assert((before + (if !old_has {
                                name.0@
                            } else {
                                seq![' '] + name.0@
                            })) + classes_from(sv, k + 1, false) =~= before + ((if !old_has {
                                name.0@
                            } else {
                                seq![' '] + name.0@
                            }) + classes_from(sv, k + 1, false)));
                        }
                    },
                    crate::ast::IdOrClass::Id(_) => {},
                }
                k += 1;
            }
            let ghost out2 = out@;
            if has {
                out.append(" class='");
                out.append(cls.as_str());
                push_char(&mut out, '\'');
                proof {
                    reveal_strlit(" class='");
                    assert(" class='"@ =~= seq![' ', 'c', 'l', 'a', 's', 's', '=', '\'']);
                    assert(cls@ + classes_from(sv, sv.len() as int, !has) =~= cls@);
                    assert(out@ =~= out2 + class_frag(sv));
                }
            } else {
                proof {
                    assert(out@ =~= out2 + class_frag(sv));
                }
            }

            // the attributes
            let ghost out3 = out@;
            match &n.attributes {
                Option::Some(attrs) => {
                    let ghost avv = crate::ast::attrs_view(attrs.0@);
                    let mut m: usize = 0;
                    while m < attrs.0.len()
                        invariant
                            m <= attrs.0.len(),
                            avv == crate::ast::attrs_view(attrs.0@),
                            out@ + attrs_frag_from(avv, m as int) == out3 + attrs_frag_from(
                                avv,
                                0,
                            ),
                        decreases attrs.0@.len() - m,
                    {
                        let ghost before = out@;
                        let a = &attrs.0[m];
                        push_char(&mut out, ' ');
                        out.append(a.key.0.as_str());
                        match &a.value {
                            Option::Some(v) => {
                                out.append("='");
                                let esc = escape(v.as_str());
                                out.append(esc.as_str());
                                push_char(&mut out, '\'');
                                proof {
                                    reveal_strlit("='");
                                    assert("='"@ =~= seq!['=', '\'']);
                                }
                            },
                            Option::None => {},
                        }
                        proof {
                            let frag = seq![' '] + avv[m as int].key + (match avv[
                                m as int
                            ].value {
                                Option::Some(v) => seq!['=', '\''] + escape_seq(v) + seq!['\''],
                                Option::None => Seq::empty(),
                            });
                            assert(out@ =~= before + frag);
                            assert((before + frag) + attrs_frag_from(avv, m + 1) =~= before + (
                            frag + attrs_frag_from(avv, m + 1)));
                        }
                        m += 1;
                    }
                    proof {
                        assert(out@ + attrs_frag_from(avv, attrs.0@.len() as int) =~= out@);
                        assert(out@ =~= out3 + attrs_frag_opt(av));
                    }
                },
                Option::None => {
                    proof {
                        assert(out@ =~= out3 + attrs_frag_opt(av));
                    }
                },
            }

            push_char(&mut out, '>');
            push_char(&mut out, '\n');
            proof {
                assert(out@ =~= pad@ + open_tag(nv));
            }

            // the children, one level deeper, then the closing tag
            let child_pad = pad.clone().concat(unit.as_str());
            let kids = render_elems(&n.body.0, &child_pad, unit);
            out.append(kids.as_str());
            out.append(pad.as_str());
            push_char(&mut out, '<');
            push_char(&mut out, '/');
            out.append(n.kind.0.as_str());
            push_char(&mut out, '>');
            push_char(&mut out, '\n');
            proof {
                assert(elem_view(*e) == ElemV::Node(nv));
                assert(out@ =~= pad@ + open_tag(nv) + elems_html_from(
                    nv.body,
                    0,
                    pad@ + unit@,
                    unit@,
                ) + pad@ + close_tag(nv));
            }
            out
        },
    }
}

/// The renderings of a list of elements, concatenated.
fn render_elems(elems: &Vec<Element>, pad: &String, unit: &String) -> (r: String)
    ensures
        r@ == elems_html_from(elems_view(elems@), 0, pad@, unit@),
    decreases *elems,
{
    let ghost ev = elems_view(elems@);
    let mut out = String::new();
    let mut i: usize = 0;
    while i < elems.len()
        invariant
            i <= elems.len(),
            ev == elems_view(elems@),
            out@ + elems_html_from(ev, i as int, pad@, unit@) == elems_html_from(
                ev,
                0,
                pad@,
                unit@,
            ),
        decreases elems@.len() - i,
    {
        let ghost before = out@;
        let piece = render_elem(&elems[i], pad, unit);
        out.append(piece.as_str());
        proof {
            assert((before + elem_html(ev[i as int], pad@, unit@)) + elems_html_from(
                ev,
                i + 1,
                pad@,
                unit@,
            ) =~= before + (elem_html(ev[i as int], pad@, unit@) + elems_html_from(
                ev,
                i + 1,
                pad@,
                unit@,
            )));
        }
        i += 1;
    }
    proof {
        assert(out@ + elems_html_from(ev, elems@.len() as int, pad@, unit@) =~= out@);
    }
    out
}

/// The indentation prefix of `level` levels of `ind` spaces each.
fn level_pad(level: usize, ind: usize) -> (r: String)
    ensures
        r@ == spaces(level as int * ind as int),
{
    let unit = indent(ind);
    let mut out = String::new();
    let mut i: usize = 0;
    while i < level
        invariant
            i <= level,
            unit@ == spaces(ind as int),
            out@ == spaces(i as int * ind as int),
        decreases level - i,
    {
        out.append(unit.as_str());
        proof {
            lemma_spaces_add(i as int * ind as int, ind as int);
            assert((i + 1) as int * ind as int == i as int * ind as int + ind as int)
                by (nonlinear_arith);
        }
        i += 1;
    }
    out
}

/// Render one element at the given indentation level.
pub fn to_html_node(node: &Element, level: usize, config: &OutputConfig) -> (r: String)
    ensures
        r@ == elem_html(
            node@,
            spaces(level as int * config.indent as int),
            spaces(config.indent as int),
        ),
{
    let unit = indent(config.indent);
    let pad = level_pad(level, config.indent);
    render_elem(node, &pad, &unit)
}

/// Render a forest of elements at the given indentation level.
pub fn to_html(nodes: &Vec<Element>, level: usize, config: &OutputConfig) -> (r: String)
    ensures
        r@ == elems_html_from(
            elems_view(nodes@),
            0,
            spaces(level as int * config.indent as int),
            spaces(config.indent as int),
        ),
{
    let unit = indent(config.indent);
    let pad = level_pad(level, config.indent);
    render_elems(nodes, &pad, &unit)
}

} // verus!
