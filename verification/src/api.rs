use vstd::prelude::*;
use vstd::pervasive::unreached;

use crate::ast::Attribute;
use crate::ast::Attributes;
use crate::ast::AttrV;
use crate::ast::Body;
use crate::ast::ElemV;
use crate::ast::Element;
use crate::ast::Ident;
use crate::ast::IdOrClass;
use crate::ast::KeywordEof;
use crate::ast::Node;
use crate::ast::NodeV;
use crate::ast::SelV;
use crate::ast::StringInline;
use crate::error::Parsed;
use crate::error::ParseError;
use crate::grammar::skip_trivia;
use crate::grammar::spec_attr;
use crate::grammar::spec_attrs;
use crate::grammar::spec_body;
use crate::grammar::spec_document;
use crate::grammar::spec_element;
use crate::grammar::spec_group;
use crate::grammar::spec_ident;
use crate::grammar::spec_inline;
use crate::grammar::spec_node;
use crate::grammar::spec_sel;
use crate::parsing::p_attr;
use crate::parsing::p_attrs;
use crate::parsing::p_body;
use crate::parsing::p_document;
use crate::parsing::p_element;
use crate::parsing::p_ident_text;
use crate::parsing::p_node;
use crate::parsing::p_sel;
use crate::scan::p_group;
use crate::scan::p_inline;
use crate::scan::skip_trivia_from;

verus! {

// ---------------------------------------------------------------------------
// The public face of the parser.  Each rule is offered on its type:
// `parse` applies the rule at the start of the input and returns the
// remaining input with the parsed value; `parse_trim` first skips comments
// and whitespace; `from_s` returns the value alone and asks its caller
// (through `requires`) for input the rule accepts.
// ---------------------------------------------------------------------------

/// The remaining input from `end` on, as an owned string.
fn remainder_from(s: &str, end: usize) -> (r: String)
    requires
        end <= s@.len(),
    ensures
        r@ == s@.subrange(end as int, s@.len() as int),
{
    s.substring_char(end, s.unicode_len()).to_owned()
}

impl Ident {
    /// An identifier at the start of `input`: the maximal non-empty run of
    /// identifier characters.
    pub fn parse(input: &str) -> (r: Result<(String, Ident), ParseError>)
        ensures
            match r {
                Result::Ok((rest, id)) => spec_ident(input@, 0) matches Parsed::Found {
                    end,
                    val,
                } && id@ == val && 0 <= end <= input@.len() && rest@ == input@.subrange(
                    end,
                    input@.len() as int,
                ),
                Result::Err(e) => spec_ident(input@, 0) == (Parsed::<Seq<char>>::Fail {
                    err: e@,
                }),
            },
    {
        match p_ident_text(input, 0) {
            Ok((end, t)) => Ok((remainder_from(input, end), Ident(t))),
            Err(e) => Err(e),
        }
    }

    /// As `parse`, after skipping comments and whitespace.
    pub fn parse_trim(input: &str) -> (r: Result<(String, Ident), ParseError>)
        ensures
            ({
                let p = skip_trivia(input@, 0);
                match r {
                    Result::Ok((rest, id)) => spec_ident(input@, p) matches Parsed::Found {
                        end,
                        val,
                    } && id@ == val && 0 <= end <= input@.len() && rest@ == input@.subrange(
                        end,
                        input@.len() as int,
                    ),
                    Result::Err(e) => spec_ident(input@, p) == (Parsed::<Seq<char>>::Fail {
                        err: e@,
                    }),
                }
            }),
    {
        let p = skip_trivia_from(input, 0);
        match p_ident_text(input, p) {
            Ok((end, t)) => Ok((remainder_from(input, end), Ident(t))),
            Err(e) => Err(e),
        }
    }

    /// The identifier alone, for input the rule accepts.
    pub fn from_s(input: &str) -> (r: Ident)
        requires
            spec_ident(input@, skip_trivia(input@, 0)) is Found,
        ensures
            spec_ident(input@, skip_trivia(input@, 0)) matches Parsed::Found { end, val } && r@
                == val,
    {
        let p = skip_trivia_from(input, 0);
        match p_ident_text(input, p) {
            Ok((_end, t)) => Ident(t),
            Err(_e) => unreached(),
        }
    }
}

impl IdOrClass {
    /// One selector at the start of `input`: `#name` or `.name`.
    pub fn parse(input: &str) -> (r: Result<(String, IdOrClass), ParseError>)
        ensures
            match r {
                Result::Ok((rest, sel)) => spec_sel(input@, 0) matches Parsed::Found {
                    end,
                    val,
                } && sel@ == val && 0 <= end <= input@.len() && rest@ == input@.subrange(
                    end,
                    input@.len() as int,
                ),
                Result::Err(e) => spec_sel(input@, 0) == (Parsed::<SelV>::Fail { err: e@ }),
            },
    {
        match p_sel(input, 0) {
            Ok((end, sel)) => Ok((remainder_from(input, end), sel)),
            Err(e) => Err(e),
        }
    }

    /// As `parse`, after skipping comments and whitespace.
    pub fn parse_trim(input: &str) -> (r: Result<(String, IdOrClass), ParseError>)
        ensures
            ({
                let p = skip_trivia(input@, 0);
                match r {
                    Result::Ok((rest, sel)) => spec_sel(input@, p) matches Parsed::Found {
                        end,
                        val,
                    } && sel@ == val && 0 <= end <= input@.len() && rest@ == input@.subrange(
                        end,
                        input@.len() as int,
                    ),
                    Result::Err(e) => spec_sel(input@, p) == (Parsed::<SelV>::Fail { err: e@ }),
                }
            }),
    {
        let p = skip_trivia_from(input, 0);
        match p_sel(input, p) {
            Ok((end, sel)) => Ok((remainder_from(input, end), sel)),
            Err(e) => Err(e),
        }
    }

    /// The selector alone, for input the rule accepts.
    pub fn from_s(input: &str) -> (r: IdOrClass)
        requires
            spec_sel(input@, skip_trivia(input@, 0)) is Found,
        ensures
            spec_sel(input@, skip_trivia(input@, 0)) matches Parsed::Found { end, val } && r@
                == val,
    {
        let p = skip_trivia_from(input, 0);
        match p_sel(input, p) {
            Ok((_end, sel)) => sel,
            Err(_e) => unreached(),
        }
    }
}

impl Attribute {
    /// One attribute at the start of `input`: a key, optionally `:` and a
    /// value.
    pub fn parse(input: &str) -> (r: Result<(String, Attribute), ParseError>)
        ensures
            match r {
                Result::Ok((rest, a)) => spec_attr(input@, 0) matches Parsed::Found {
                    end,
                    val,
                } && a@ == val && 0 <= end <= input@.len() && rest@ == input@.subrange(
                    end,
                    input@.len() as int,
                ),
                Result::Err(e) => spec_attr(input@, 0) == (Parsed::<AttrV>::Fail { err: e@ }),
            },
    {
        match p_attr(input, 0) {
            Ok((end, a)) => Ok((remainder_from(input, end), a)),
            Err(e) => Err(e),
        }
    }

    /// As `parse`, after skipping comments and whitespace.
    pub fn parse_trim(input: &str) -> (r: Result<(String, Attribute), ParseError>)
        ensures
            ({
                let p = skip_trivia(input@, 0);
                match r {
                    Result::Ok((rest, a)) => spec_attr(input@, p) matches Parsed::Found {
                        end,
                        val,
                    } && a@ == val && 0 <= end <= input@.len() && rest@ == input@.subrange(
                        end,
                        input@.len() as int,
                    ),
                    Result::Err(e) => spec_attr(input@, p) == (Parsed::<AttrV>::Fail {
                        err: e@,
                    }),
                }
            }),
    {
        let p = skip_trivia_from(input, 0);
        match p_attr(input, p) {
            Ok((end, a)) => Ok((remainder_from(input, end), a)),
            Err(e) => Err(e),
        }
    }

    /// The attribute alone, for input the rule accepts.
    pub fn from_s(input: &str) -> (r: Attribute)
        requires
            spec_attr(input@, skip_trivia(input@, 0)) is Found,
        ensures
            spec_attr(input@, skip_trivia(input@, 0)) matches Parsed::Found { end, val } && r@
                == val,
    {
        let p = skip_trivia_from(input, 0);
        match p_attr(input, p) {
            Ok((_end, a)) => a,
            Err(_e) => unreached(),
        }
    }
}

impl Attributes {
    /// A parenthesized attribute list at the start of `input`.
    pub fn parse(input: &str) -> (r: Result<(String, Attributes), ParseError>)
        ensures
            match r {
                Result::Ok((rest, a)) => spec_attrs(input@, 0) matches Parsed::Found {
                    end,
                    val,
                } && a@ == val && 0 <= end <= input@.len() && rest@ == input@.subrange(
                    end,
                    input@.len() as int,
                ),
                Result::Err(e) => spec_attrs(input@, 0) == (Parsed::<Seq<AttrV>>::Fail {
                    err: e@,
                }),
            },
    {
        match p_attrs(input, 0) {
            Ok((end, a)) => Ok((remainder_from(input, end), a)),
            Err(e) => Err(e),
        }
    }

    /// As `parse`, after skipping comments and whitespace.
    pub fn parse_trim(input: &str) -> (r: Result<(String, Attributes), ParseError>)
        ensures
            ({
                let p = skip_trivia(input@, 0);
                match r {
                    Result::Ok((rest, a)) => spec_attrs(input@, p) matches Parsed::Found {
                        end,
                        val,
                    } && a@ == val && 0 <= end <= input@.len() && rest@ == input@.subrange(
                        end,
                        input@.len() as int,
                    ),
                    Result::Err(e) => spec_attrs(input@, p) == (Parsed::<Seq<AttrV>>::Fail {
                        err: e@,
                    }),
                }
            }),
    {
        let p = skip_trivia_from(input, 0);
        match p_attrs(input, p) {
            Ok((end, a)) => Ok((remainder_from(input, end), a)),
            Err(e) => Err(e),
        }
    }
}

impl Node {
    /// A tagged element at the start of `input`.
    pub fn parse(input: &str) -> (r: Result<(String, Node), ParseError>)
        ensures
            match r {
                Result::Ok((rest, node)) => spec_node(input@, 0) matches Parsed::Found {
                    end,
                    val,
                } && node@ == val && 0 <= end <= input@.len() && rest@ == input@.subrange(
                    end,
                    input@.len() as int,
                ),
                Result::Err(e) => spec_node(input@, 0) == (Parsed::<NodeV>::Fail { err: e@ }),
            },
    {
        match p_node(input, 0) {
            Ok((end, node)) => Ok((remainder_from(input, end), node)),
            Err(e) => Err(e),
        }
    }

    /// As `parse`, after skipping comments and whitespace.
    pub fn parse_trim(input: &str) -> (r: Result<(String, Node), ParseError>)
        ensures
            ({
                let p = skip_trivia(input@, 0);
                match r {
                    Result::Ok((rest, node)) => spec_node(input@, p) matches Parsed::Found {
                        end,
                        val,
                    } && node@ == val && 0 <= end <= input@.len() && rest@ == input@.subrange(
                        end,
                        input@.len() as int,
                    ),
                    Result::Err(e) => spec_node(input@, p) == (Parsed::<NodeV>::Fail {
                        err: e@,
                    }),
                }
            }),
    {
        let p = skip_trivia_from(input, 0);
        match p_node(input, p) {
            Ok((end, node)) => Ok((remainder_from(input, end), node)),
            Err(e) => Err(e),
        }
    }

    /// The element alone, for input the rule accepts.
    pub fn from_s(input: &str) -> (r: Node)
        requires
            spec_node(input@, skip_trivia(input@, 0)) is Found,
        ensures
            spec_node(input@, skip_trivia(input@, 0)) matches Parsed::Found { end, val } && r@
                == val,
    {
        let p = skip_trivia_from(input, 0);
        match p_node(input, p) {
            Ok((_end, node)) => node,
            Err(_e) => unreached(),
        }
    }
}

impl Element {
    /// One sequence item at the start of `input`: a tagged element or a
    /// quoted text fragment.
    pub fn parse(input: &str) -> (r: Result<(String, Element), ParseError>)
        ensures
            match r {
                Result::Ok((rest, el)) => spec_element(input@, 0) matches Parsed::Found {
                    end,
                    val,
                } && el@ == val && 0 <= end <= input@.len() && rest@ == input@.subrange(
                    end,
                    input@.len() as int,
                ),
                Result::Err(e) => spec_element(input@, 0) == (Parsed::<ElemV>::Fail {
                    err: e@,
                }),
            },
    {
        match p_element(input, 0) {
            Ok((end, el)) => Ok((remainder_from(input, end), el)),
            Err(e) => Err(e),
        }
    }

    /// As `parse`, after skipping comments and whitespace.
    pub fn parse_trim(input: &str) -> (r: Result<(String, Element), ParseError>)
        ensures
            ({
                let p = skip_trivia(input@, 0);
                match r {
                    Result::Ok((rest, el)) => spec_element(input@, p) matches Parsed::Found {
                        end,
                        val,
                    } && el@ == val && 0 <= end <= input@.len() && rest@ == input@.subrange(
                        end,
                        input@.len() as int,
                    ),
                    Result::Err(e) => spec_element(input@, p) == (Parsed::<ElemV>::Fail {
                        err: e@,
                    }),
                }
            }),
    {
        let p = skip_trivia_from(input, 0);
        match p_element(input, p) {
            Ok((end, el)) => Ok((remainder_from(input, end), el)),
            Err(e) => Err(e),
        }
    }
}

impl Body {
    /// A body at the start of `input`, by the first of the four
    /// alternatives to match: `;`, a braced sequence, a lone quoted
    /// literal, or a nested bare element.
    pub fn parse(input: &str) -> (r: Result<(String, Body), ParseError>)
        ensures
            match r {
                Result::Ok((rest, b)) => spec_body(input@, 0) matches Parsed::Found {
                    end,
                    val,
                } && b@ == val && 0 <= end <= input@.len() && rest@ == input@.subrange(
                    end,
                    input@.len() as int,
                ),
                Result::Err(e) => spec_body(input@, 0) == (Parsed::<Seq<ElemV>>::Fail {
                    err: e@,
                }),
            },
    {
        match p_body(input, 0) {
            Ok((end, v)) => Ok((remainder_from(input, end), Body(v))),
            Err(e) => Err(e),
        }
    }

    /// As `parse`, after skipping comments and whitespace.
    pub fn parse_trim(input: &str) -> (r: Result<(String, Body), ParseError>)
        ensures
            ({
                let p = skip_trivia(input@, 0);
                match r {
                    Result::Ok((rest, b)) => spec_body(input@, p) matches Parsed::Found {
                        end,
                        val,
                    } && b@ == val && 0 <= end <= input@.len() && rest@ == input@.subrange(
                        end,
                        input@.len() as int,
                    ),
                    Result::Err(e) => spec_body(input@, p) == (Parsed::<Seq<ElemV>>::Fail {
                        err: e@,
                    }),
                }
            }),
    {
        let p = skip_trivia_from(input, 0);
        match p_body(input, p) {
            Ok((end, v)) => Ok((remainder_from(input, end), Body(v))),
            Err(e) => Err(e),
        }
    }

    /// The body alone, for input the rule accepts.
    pub fn from_s(input: &str) -> (r: Body)
        requires
            spec_body(input@, skip_trivia(input@, 0)) is Found,
        ensures
            spec_body(input@, skip_trivia(input@, 0)) matches Parsed::Found { end, val } && r@
                == val,
    {
        let p = skip_trivia_from(input, 0);
        match p_body(input, p) {
            Ok((_end, v)) => Body(v),
            Err(_e) => unreached(),
        }
    }
}

impl StringInline {
    /// An inline value at the start of `input`: a quoted literal's content,
    /// or the scanner's consumed span trimmed of surrounding whitespace.
    pub fn parse(input: &str) -> (r: Result<(String, StringInline), ParseError>)
        ensures
            match r {
                Result::Ok((rest, v)) => spec_inline(input@, 0) matches Parsed::Found {
                    end,
                    val,
                } && v@ == val && 0 <= end <= input@.len() && rest@ == input@.subrange(
                    end,
                    input@.len() as int,
                ),
                Result::Err(e) => spec_inline(input@, 0) == (Parsed::<Seq<char>>::Fail {
                    err: e@,
                }),
            },
    {
        match p_inline(input, 0) {
            Ok((end, v)) => Ok((remainder_from(input, end), StringInline(v))),
            Err(e) => Err(e),
        }
    }

    /// As `parse`, after skipping comments and whitespace.
    pub fn parse_trim(input: &str) -> (r: Result<(String, StringInline), ParseError>)
        ensures
            ({
                let p = skip_trivia(input@, 0);
                match r {
                    Result::Ok((rest, v)) => spec_inline(input@, p) matches Parsed::Found {
                        end,
                        val,
                    } && v@ == val && 0 <= end <= input@.len() && rest@ == input@.subrange(
                        end,
                        input@.len() as int,
                    ),
                    Result::Err(e) => spec_inline(input@, p) == (Parsed::<Seq<char>>::Fail {
                        err: e@,
                    }),
                }
            }),
    {
        let p = skip_trivia_from(input, 0);
        match p_inline(input, p) {
            Ok((end, v)) => Ok((remainder_from(input, end), StringInline(v))),
            Err(e) => Err(e),
        }
    }
}

impl KeywordEof {
    /// Consumes nothing and always succeeds; `parse` pairs it with the
    /// end-of-input check.
    pub fn parse(input: &str) -> (r: Result<(String, KeywordEof), ParseError>)
        ensures
            r matches Result::Ok(p) && p.0@ == input@,
    {
        Ok((input.to_owned(), KeywordEof))
    }
}

/// Parse a whole document: skip surrounding trivia, parse a forest of
/// top-level items, and require that nothing remains.  On success the
/// returned remainder is empty; any leftover input is a `TrailingInput`
/// failure instead.
pub fn parse(input: &str) -> (r: Result<(String, Body), ParseError>)
    ensures
        match r {
            Result::Ok((rest, b)) => spec_document(input@) matches Parsed::Found { end, val }
                && b@ == val && rest@.len() == 0,
            Result::Err(e) => spec_document(input@) == (Parsed::<Seq<ElemV>>::Fail { err: e@ }),
        },
{
    match p_document(input) {
        Ok((_end, items)) => Ok((String::new(), Body(items))),
        Err(e) => Err(e),
    }
}

/// A single balanced bracketed group at the start of `input`, as the
/// inline-value scanner sees it; the value is the interior with trailing
/// whitespace trimmed.
pub fn anyparen(input: &str) -> (r: Result<(String, String), ParseError>)
    ensures
        match r {
            Result::Ok((rest, v)) => spec_group(input@, 0) matches Parsed::Found { end, val }
                && v@ == val && 0 <= end <= input@.len() && rest@ == input@.subrange(
                end,
                input@.len() as int,
            ),
            Result::Err(e) => spec_group(input@, 0) == (Parsed::<Seq<char>>::Fail { err: e@ }),
        },
{
    match p_group(input, 0) {
        Ok((end, v)) => Ok((remainder_from(input, end), v)),
        Err(e) => Err(e),
    }
}

} // verus!
