use vstd::prelude::*;

use crate::ast::ElemV;
use crate::error::Parsed;
use crate::grammar::block_comment_end;
use crate::grammar::ident_class;
use crate::grammar::is_ident_char;
use crate::grammar::line_comment_end;
use crate::grammar::run_end;
use crate::grammar::skip_trivia;
use crate::grammar::spec_block_items;
use crate::grammar::spec_document;
use crate::grammar::spec_element;
use crate::grammar::spec_ident;
use crate::grammar::spec_node;
use crate::grammar::spec_str_lit;

verus! {

// ---------------------------------------------------------------------------
// Laws of the parser: properties that hold of all inputs, stated over the
// grammar's specification functions and proved here once and for all.
// ---------------------------------------------------------------------------

/// A run over characters that all satisfy the class reaches the end of the
/// input.
proof fn lemma_run_end_all(s: Seq<char>, pos: int, f: spec_fn(char) -> bool)
    requires
        0 <= pos <= s.len(),
        forall|i: int| pos <= i < s.len() ==> f(s[i]),
    ensures
        run_end(s, pos, f) == s.len(),
    decreases s.len() - pos,
{
    if pos < s.len() {
        lemma_run_end_all(s, pos + 1, f);
    }
}

/// Law: a whole valid identifier parses completely.  For every non-empty
/// sequence of identifier-class characters, the identifier rule consumes
/// all of it and returns it unchanged, leaving no remainder.
pub proof fn lemma_parse_identifier_complete(s: Seq<char>)
    requires
        s.len() > 0,
        forall|i: int| 0 <= i < s.len() ==> is_ident_char(s[i]),
    ensures
        spec_ident(s, 0) == (Parsed::Found { end: s.len() as int, val: s }),
{
    assert(forall|i: int| 0 <= i < s.len() ==> ident_class()(s[i]));
    lemma_run_end_all(s, 0, ident_class());
    assert(s.subrange(0, s.len() as int) =~= s);
}

/// Law: parsing is deterministic.  The outcome of a parse is a function of
/// the input characters alone, so parsing the same document twice yields
/// structurally equal trees (or the identical failure).
pub proof fn lemma_parse_deterministic(s1: Seq<char>, s2: Seq<char>)
    requires
        s1 == s2,
    ensures
        spec_document(s1) == spec_document(s2),
{
}

/// After `//` with no newline anywhere after it, the line comment runs to
/// the end of the input.
proof fn lemma_line_comment_end_all(s: Seq<char>, pos: int)
    requires
        0 <= pos <= s.len(),
        forall|i: int| pos <= i < s.len() ==> s[i] != '\n',
    ensures
        line_comment_end(s, pos) == s.len(),
    decreases s.len() - pos,
{
    if pos < s.len() {
        lemma_line_comment_end_all(s, pos + 1);
    }
}

/// After `/*` with no `*/` anywhere after it, the block comment runs to the
/// end of the input.
proof fn lemma_block_comment_end_all(s: Seq<char>, pos: int)
    requires
        0 <= pos <= s.len(),
        forall|i: int| pos <= i && i + 2 <= s.len() ==> !(#[trigger] s[i] == '*' && s[i + 1] == '/'),
    ensures
        block_comment_end(s, pos) == s.len(),
    decreases s.len() - pos,
{
    if pos + 2 <= s.len() {
        lemma_block_comment_end_all(s, pos + 1);
    }
}

/// Law (comment permissiveness, one half): a `//` comment with no trailing
/// newline consumes everything to the end of the input — running off the
/// end is "nothing more to skip", not an error.
pub proof fn lemma_line_comment_runs_to_end(s: Seq<char>, pos: int)
    requires
        0 <= pos,
        pos + 2 <= s.len(),
        s[pos] == '/',
        s[pos + 1] == '/',
        forall|i: int| pos + 2 <= i < s.len() ==> s[i] != '\n',
    ensures
        skip_trivia(s, pos) == s.len(),
{
    lemma_line_comment_end_all(s, pos + 2);
    assert(skip_trivia(s, s.len() as int) == s.len());
}

/// Law (comment permissiveness, the other half): an unterminated `/*`
/// comment at end-of-input is skipped in full, not an error.
pub proof fn lemma_unterminated_comment_skipped(s: Seq<char>, pos: int)
    requires
        0 <= pos,
        pos + 2 <= s.len(),
        s[pos] == '/',
        s[pos + 1] == '*',
        forall|i: int| pos + 2 <= i && i + 2 <= s.len() ==> !(#[trigger] s[i] == '*' && s[i + 1] == '/'),
    ensures
        skip_trivia(s, pos) == s.len(),
{
    lemma_block_comment_end_all(s, pos + 2);
    assert(skip_trivia(s, s.len() as int) == s.len());
}

/// Where the skipper consumes the whole input, no item can start: the item
/// list is empty and ends where it began.
proof fn lemma_block_items_at_trivia_end(s: Seq<char>, pos: int)
    requires
        0 <= pos <= s.len(),
        skip_trivia(s, pos) == s.len(),
    ensures
        spec_block_items(s, pos) == (Parsed::Found { end: pos, val: Seq::<ElemV>::empty() }),
{
    let n = s.len() as int;
    assert(run_end(s, n, ident_class()) == n);
    assert(spec_ident(s, n) is Fail);
    assert(spec_node(s, n) is Fail);
    assert(spec_str_lit(s, n) is Fail);
    assert(spec_element(s, n) is Fail);
}

/// Law (comment permissiveness at the document level): an input that is
/// nothing but one unterminated `/*` comment parses successfully, to the
/// empty document, with nothing left over.
pub proof fn lemma_unterminated_comment_is_empty_document(s: Seq<char>)
    requires
        2 <= s.len(),
        s[0] == '/',
        s[1] == '*',
        forall|i: int| 2 <= i && i + 2 <= s.len() ==> !(#[trigger] s[i] == '*' && s[i + 1] == '/'),
    ensures
        spec_document(s) == (Parsed::Found { end: s.len() as int, val: Seq::<ElemV>::empty() }),
{
    lemma_unterminated_comment_skipped(s, 0);
    lemma_block_items_at_trivia_end(s, 0);
}

} // verus!
