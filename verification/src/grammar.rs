use vstd::prelude::*;

use crate::ast::AttrV;
use crate::ast::ElemV;
use crate::ast::NodeV;
use crate::ast::SelV;
use crate::error::ErrInfo;
use crate::error::ErrorKind;
use crate::error::Parsed;
use crate::error::fail;

verus! {

// ---------------------------------------------------------------------------
// The grammar, as mathematics.
//
// Each rule is a function from the input (a sequence of characters) and a
// start position to a `Parsed` outcome.  The executable parser's contracts
// say that it computes exactly these functions.  A `Fail` outcome with
// `committed: false` lets an enclosing rule try another alternative; with
// `committed: true` the whole parse is aborted (the rule had consumed a
// distinguishing prefix, such as an opening quote or a selector marker).
//
// Recursive calls whose new position comes from another rule's outcome are
// guarded by bounds checks (`pos < end <= s.len()`), which double as the
// termination argument.  A rule that matches always ends within the input
// and past its start where it consumed anything, so the guards hold on
// every reachable path; the branches they cut off return placeholders that
// no caller observes.
// ---------------------------------------------------------------------------

// ------------------------- character classes -------------------------------

/// Whitespace skipped between tokens and trimmed from inline values.
pub open spec fn is_ws_char(c: char) -> bool {
    c == ' ' || c == '\n' || c == '\t' || c == '\r'
}

/// The identifier class: letters, digits, `-`, `_`, `$`, `%` and the degree
/// sign.
pub open spec fn is_ident_char(c: char) -> bool {
    let n = c as u32;
    (97 <= n && n <= 122)  // a-z
    || (65 <= n && n <= 90)  // A-Z
    || (48 <= n && n <= 57)  // 0-9
    || n == 45  // -
    || n == 95  // _
    || n == 36  // $
    || n == 37  // %
    || n == 176  // degree sign
}

/// The unquoted-text class of the inline-value scanner.  Commas and the
/// three bracket pairs are deliberately excluded: they are structural
/// terminators, not content.
pub open spec fn is_inline_char(c: char) -> bool {
    let n = c as u32;
    is_ident_char(c)
    || n == 32  // space
    || n == 10  // newline
    || n == 58  // :
    || n == 59  // ;
    || n == 46  // .
    || n == 47  // /
    || n == 92  // backslash
}

/// The three quoted-literal delimiters: `'`, `"` and the backtick.
pub open spec fn is_quote_char(c: char) -> bool {
    c == '\'' || c == '"' || c == '`'
}

pub open spec fn is_open_char(c: char) -> bool {
    c == '(' || c == '{' || c == '['
}

/// The identifier class as a function value, shared by specification and
/// implementation.
pub open spec fn ident_class() -> spec_fn(char) -> bool {
    |c: char| is_ident_char(c)
}

/// The unquoted-text class as a function value.
pub open spec fn inline_class() -> spec_fn(char) -> bool {
    |c: char| is_inline_char(c)
}

pub open spec fn is_close_char(c: char) -> bool {
    c == ')' || c == '}' || c == ']'
}

/// The closer matching an opener.
pub open spec fn close_for(c: char) -> char {
    if c == '(' {
        ')'
    } else if c == '{' {
        '}'
    } else {
        ']'
    }
}

// ------------------------- elementary scans --------------------------------

/// End of the maximal run of characters satisfying `f`, starting at `pos`.
pub open spec fn run_end(s: Seq<char>, pos: int, f: spec_fn(char) -> bool) -> int
    decreases s.len() - pos,
{
    if 0 <= pos < s.len() && f(s[pos]) {
        run_end(s, pos + 1, f)
    } else {
        pos
    }
}

/// Position just after the first `\n` at or after `pos`, or end-of-input if
/// no newline follows (a `//` comment with no trailing newline runs to the
/// end).
pub open spec fn line_comment_end(s: Seq<char>, pos: int) -> int
    decreases s.len() - pos,
{
    if !(0 <= pos < s.len()) {
        s.len() as int
    } else if s[pos] == '\n' {
        pos + 1
    } else {
        line_comment_end(s, pos + 1)
    }
}

/// Position just after the first `*/` at or after `pos`, or end-of-input if
/// the block comment is never terminated (deliberately permitted, not an
/// error).
pub open spec fn block_comment_end(s: Seq<char>, pos: int) -> int
    decreases s.len() - pos,
{
    if !(0 <= pos && pos + 2 <= s.len()) {
        s.len() as int
    } else if s[pos] == '*' && s[pos + 1] == '/' {
        pos + 2
    } else {
        block_comment_end(s, pos + 1)
    }
}

/// The comment/whitespace skipper, applied before every grammar rule:
/// repeatedly strip whitespace, `//` comments and `/* */` comments until
/// neither applies.
pub open spec fn skip_trivia(s: Seq<char>, pos: int) -> int
    decreases s.len() - pos,
{
    if 0 <= pos < s.len() && is_ws_char(s[pos]) {
        skip_trivia(s, pos + 1)
    } else if 0 <= pos && pos + 2 <= s.len() && s[pos] == '/' && s[pos + 1] == '/' {
        let e = line_comment_end(s, pos + 2);
        if pos < e <= s.len() {
            skip_trivia(s, e)
        } else {
            pos
        }
    } else if 0 <= pos && pos + 2 <= s.len() && s[pos] == '/' && s[pos + 1] == '*' {
        let e = block_comment_end(s, pos + 2);
        if pos < e <= s.len() {
            skip_trivia(s, e)
        } else {
            pos
        }
    } else {
        pos
    }
}

/// Position of the first occurrence of `c` at or after `pos`, or
/// end-of-input if there is none.
pub open spec fn find_char(s: Seq<char>, pos: int, c: char) -> int
    decreases s.len() - pos,
{
    if !(0 <= pos < s.len()) {
        s.len() as int
    } else if s[pos] == c {
        pos
    } else {
        find_char(s, pos + 1, c)
    }
}

/// `t` without its trailing whitespace.
pub open spec fn trim_end_seq(t: Seq<char>) -> Seq<char>
    decreases t.len(),
{
    if t.len() > 0 && is_ws_char(t[t.len() - 1]) {
        trim_end_seq(t.drop_last())
    } else {
        t
    }
}

/// `t` without its leading whitespace.
pub open spec fn trim_start_seq(t: Seq<char>) -> Seq<char>
    decreases t.len(),
{
    if t.len() > 0 && is_ws_char(t[0]) {
        trim_start_seq(t.drop_first())
    } else {
        t
    }
}

/// `t` without leading and trailing whitespace.
pub open spec fn trim_seq(t: Seq<char>) -> Seq<char> {
    trim_start_seq(trim_end_seq(t))
}

// ------------------------- quoted literals ---------------------------------

/// A quoted string literal: `'...'`, `"..."` or a backtick pair — the same
/// delimiter on both ends, the value being every character up to (not
/// including) the first matching closer, taken verbatim.  A `$` instead
/// introduces an inline-scanned value.  Once the opening delimiter is seen a
/// missing closer is a committed failure (`UnterminatedString`).
pub open spec fn spec_str_lit(s: Seq<char>, pos: int) -> Parsed<Seq<char>>
    decreases s.len() - pos, 2int,
{
    if 0 <= pos < s.len() && is_quote_char(s[pos]) {
        let close = find_char(s, pos + 1, s[pos]);
        if close < s.len() {
            Parsed::Found { end: close + 1, val: s.subrange(pos + 1, close) }
        } else {
            fail(ErrorKind::UnterminatedString, pos, true)
        }
    } else if 0 <= pos < s.len() && s[pos] == '$' {
        match spec_inline(s, pos + 1) {
            Parsed::Found { end, val } => Parsed::Found { end, val },
            Parsed::Fail { err } => if err.committed {
                Parsed::Fail { err }
            } else {
                fail(ErrorKind::ExpectedIdentifier, pos, false)
            },
        }
    } else {
        fail(ErrorKind::ExpectedIdentifier, pos, false)
    }
}

// ------------------------- the inline-value scanner ------------------------

/// Interior of a bracketed group inside inline-scanned content: everything
/// up to the first closer at this nesting level.  Quoted literals are
/// consumed atomically (their interior never counts toward balance), nested
/// brackets recurse, and any other character is content.  The outcome's
/// `end` rests on the closer (or on end-of-input, which the caller reports
/// as unbalanced).
pub open spec fn spec_interior(s: Seq<char>, pos: int) -> Parsed<()>
    decreases s.len() - pos, 4int,
{
    if !(0 <= pos < s.len()) {
        Parsed::Found { end: pos, val: () }
    } else {
        let c = s[pos];
        if is_close_char(c) {
            Parsed::Found { end: pos, val: () }
        } else if is_quote_char(c) {
            match spec_str_lit(s, pos) {
                Parsed::Fail { err } => Parsed::Fail { err },
                Parsed::Found { end, val } => if pos < end <= s.len() {
                    spec_interior(s, end)
                } else {
                    Parsed::Found { end: pos, val: () }
                },
            }
        } else if is_open_char(c) {
            match spec_group(s, pos) {
                Parsed::Fail { err } => Parsed::Fail { err },
                Parsed::Found { end, val } => if pos < end <= s.len() {
                    spec_interior(s, end)
                } else {
                    Parsed::Found { end: pos, val: () }
                },
            }
        } else {
            spec_interior(s, pos + 1)
        }
    }
}

/// A balanced bracketed group in inline-scanned content: an opener, its
/// interior, and the matching closer.  The value is the interior with
/// trailing whitespace trimmed.  A missing or mismatched closer is a
/// committed failure (`UnbalancedDelimiter`).
pub open spec fn spec_group(s: Seq<char>, pos: int) -> Parsed<Seq<char>>
    decreases s.len() - pos, 3int,
{
    if 0 <= pos < s.len() && is_open_char(s[pos]) {
        let close = close_for(s[pos]);
        match spec_interior(s, pos + 1) {
            Parsed::Fail { err } => Parsed::Fail { err },
            Parsed::Found { end, val } => if pos + 1 <= end < s.len() && s[end] == close {
                Parsed::Found { end: end + 1, val: trim_end_seq(s.subrange(pos + 1, end)) }
            } else {
                fail(ErrorKind::UnbalancedDelimiter, pos, true)
            },
        }
    } else {
        fail(ErrorKind::ExpectedIdentifier, pos, false)
    }
}

/// One unit of inline-scanned content: a bracketed group, a maximal run of
/// unquoted-text characters, or a quoted literal taken atomically.
pub open spec fn spec_scan_unit(s: Seq<char>, pos: int) -> Parsed<()>
    decreases s.len() - pos, 4int,
{
    if !(0 <= pos < s.len()) {
        fail(ErrorKind::ExpectedIdentifier, pos, false)
    } else {
        let c = s[pos];
        if is_open_char(c) {
            match spec_group(s, pos) {
                Parsed::Fail { err } => Parsed::Fail { err },
                Parsed::Found { end, val } => Parsed::Found { end, val: () },
            }
        } else if is_inline_char(c) {
            Parsed::Found { end: run_end(s, pos, inline_class()), val: () }
        } else if is_quote_char(c) {
            match spec_str_lit(s, pos) {
                Parsed::Fail { err } => Parsed::Fail { err },
                Parsed::Found { end, val } => Parsed::Found { end, val: () },
            }
        } else {
            fail(ErrorKind::ExpectedIdentifier, pos, false)
        }
    }
}

/// The scanner's consumed span: one unit, then as much more as further
/// units will give.  A failure of the continuation — even a committed one —
/// merely stops the scan; only the first unit's failure fails the scan.
pub open spec fn spec_scan(s: Seq<char>, pos: int) -> Parsed<()>
    decreases s.len() - pos, 5int,
{
    match spec_scan_unit(s, pos) {
        Parsed::Fail { err } => Parsed::Fail { err },
        Parsed::Found { end, val } => if pos < end <= s.len() {
            match spec_scan(s, end) {
                Parsed::Found { end: e2, val: v2 } => Parsed::Found { end: e2, val: () },
                Parsed::Fail { err } => Parsed::Found { end, val: () },
            }
        } else {
            Parsed::Found { end, val: () }
        },
    }
}

/// An inline value: a quoted literal's content, or the scanner's consumed
/// span trimmed of leading and trailing whitespace.  (A failed literal at
/// the same position is retried as scanned content; an unterminated quote
/// then fails committed through the scanner's first unit.)
pub open spec fn spec_inline(s: Seq<char>, pos: int) -> Parsed<Seq<char>>
    decreases s.len() - pos, 6int,
{
    match spec_str_lit(s, pos) {
        Parsed::Found { end, val } => Parsed::Found { end, val },
        Parsed::Fail { err } => match spec_scan(s, pos) {
            Parsed::Found { end, val } => if 0 <= pos <= end <= s.len() {
                Parsed::Found { end, val: trim_seq(s.subrange(pos, end)) }
            } else {
                fail(ErrorKind::ExpectedIdentifier, pos, false)
            },
            Parsed::Fail { err: e2 } => Parsed::Fail { err: e2 },
        },
    }
}

// ------------------------- identifiers and selectors -----------------------

/// An identifier: the maximal run of identifier characters, which must be
/// non-empty (`ExpectedIdentifier` otherwise, uncommitted).
pub open spec fn spec_ident(s: Seq<char>, pos: int) -> Parsed<Seq<char>> {
    let e = run_end(s, pos, ident_class());
    if 0 <= pos < e <= s.len() {
        Parsed::Found { end: e, val: s.subrange(pos, e) }
    } else {
        fail(ErrorKind::ExpectedIdentifier, pos, false)
    }
}

/// One selector: `#` or `.` followed by an identifier.  Once the marker is
/// seen, a missing identifier is a committed failure
/// (`ExpectedIdentifierAfterSelector`).
pub open spec fn spec_sel(s: Seq<char>, pos: int) -> Parsed<SelV> {
    if 0 <= pos < s.len() && s[pos] == '#' {
        match spec_ident(s, pos + 1) {
            Parsed::Found { end, val } => Parsed::Found { end, val: SelV::Id(val) },
            Parsed::Fail { err } => fail(ErrorKind::ExpectedIdentifierAfterSelector, pos + 1, true),
        }
    } else if 0 <= pos < s.len() && s[pos] == '.' {
        match spec_ident(s, pos + 1) {
            Parsed::Found { end, val } => Parsed::Found { end, val: SelV::Class(val) },
            Parsed::Fail { err } => fail(ErrorKind::ExpectedIdentifierAfterSelector, pos + 1, true),
        }
    } else {
        fail(ErrorKind::ExpectedIdentifier, pos, false)
    }
}

/// Zero or more selectors, comments and whitespace permitted before each.
/// Stops — without consuming the last skipped trivia — at the first
/// position where no selector starts; order and duplicates are preserved.
pub open spec fn spec_sels(s: Seq<char>, pos: int) -> Parsed<Seq<SelV>>
    decreases s.len() - pos,
{
    let p = skip_trivia(s, pos);
    if pos <= p <= s.len() {
        match spec_sel(s, p) {
            Parsed::Fail { err } => if err.committed {
                Parsed::Fail { err }
            } else {
                Parsed::Found { end: pos, val: Seq::empty() }
            },
            Parsed::Found { end, val } => if p < end <= s.len() {
                match spec_sels(s, end) {
                    Parsed::Found { end: e2, val: rest } => Parsed::Found {
                        end: e2,
                        val: seq![val] + rest,
                    },
                    Parsed::Fail { err } => Parsed::Fail { err },
                }
            } else {
                Parsed::Found { end: pos, val: Seq::empty() }
            },
        }
    } else {
        Parsed::Found { end: pos, val: Seq::empty() }
    }
}

// ------------------------- attributes --------------------------------------

/// One attribute: a key, optionally `:` and a value.  Without `:` the value
/// is absent.  After the `:` a missing value is a committed failure.
pub open spec fn spec_attr(s: Seq<char>, pos: int) -> Parsed<AttrV> {
    match spec_ident(s, pos) {
        Parsed::Fail { err } => Parsed::Fail { err },
        Parsed::Found { end: e1, val: key } => {
            let p2 = skip_trivia(s, e1);
            if e1 <= p2 < s.len() && s[p2] == ':' {
                let p3 = skip_trivia(s, p2 + 1);
                match spec_inline(s, p3) {
                    Parsed::Found { end: e2, val: v } => Parsed::Found {
                        end: e2,
                        val: AttrV { key, value: Option::Some(v) },
                    },
                    Parsed::Fail { err } => Parsed::Fail {
                        err: ErrInfo { kind: err.kind, at: err.at, committed: true },
                    },
                }
            } else {
                Parsed::Found { end: e1, val: AttrV { key, value: Option::None } }
            }
        },
    }
}

/// Zero or more attributes, each followed by an optional comma; consecutive
/// commas and missing separators are tolerated alike, since a comma is
/// itself skipped trivia away from the next key.  Stops before the first
/// position where no attribute starts.
pub open spec fn spec_attr_items(s: Seq<char>, pos: int) -> Parsed<Seq<AttrV>>
    decreases s.len() - pos,
{
    let p = skip_trivia(s, pos);
    if pos <= p <= s.len() {
        match spec_attr(s, p) {
            Parsed::Fail { err } => if err.committed {
                Parsed::Fail { err }
            } else {
                Parsed::Found { end: pos, val: Seq::empty() }
            },
            Parsed::Found { end: e, val: a } => {
                let pc = skip_trivia(s, e);
                let e2: int = if e <= pc < s.len() && s[pc] == ',' {
                    pc + 1
                } else {
                    e
                };
                if pos < e2 <= s.len() {
                    match spec_attr_items(s, e2) {
                        Parsed::Found { end: e3, val: rest } => Parsed::Found {
                            end: e3,
                            val: seq![a] + rest,
                        },
                        Parsed::Fail { err } => Parsed::Fail { err },
                    }
                } else {
                    Parsed::Found { end: pos, val: Seq::empty() }
                }
            },
        }
    } else {
        Parsed::Found { end: pos, val: Seq::empty() }
    }
}

/// A parenthesized attribute list: `(`, the attributes, `)`.  A missing
/// closing parenthesis is an uncommitted failure — the element then has no
/// attribute group and the `(` is left for the body parser to reject.
pub open spec fn spec_attrs(s: Seq<char>, pos: int) -> Parsed<Seq<AttrV>> {
    if 0 <= pos < s.len() && s[pos] == '(' {
        match spec_attr_items(s, pos + 1) {
            Parsed::Fail { err } => Parsed::Fail { err },
            Parsed::Found { end: e, val: items } => {
                let p = skip_trivia(s, e);
                if e <= p < s.len() && s[p] == ')' {
                    Parsed::Found { end: p + 1, val: items }
                } else {
                    fail(ErrorKind::UnbalancedDelimiter, p, false)
                }
            },
        }
    } else {
        fail(ErrorKind::ExpectedIdentifier, pos, false)
    }
}

// ------------------------- elements and bodies ------------------------------

/// The tail of an element after its selectors and attributes: skip trivia,
/// then the body, whose failure is committed (`cut`): once an element's
/// prefix is consumed no enclosing alternative may reinterpret it.
pub open spec fn spec_node_tail(
    s: Seq<char>,
    pos: int,
    cur: int,
    kind: Seq<char>,
    sels: Seq<SelV>,
    attrs: Option<Seq<AttrV>>,
) -> Parsed<NodeV>
    decreases s.len() - pos, 0int,
{
    let p = skip_trivia(s, cur);
    if pos < p <= s.len() {
        match spec_body(s, p) {
            Parsed::Found { end, val } => Parsed::Found {
                end,
                val: NodeV { kind, sels, attrs, body: val },
            },
            Parsed::Fail { err } => Parsed::Fail {
                err: ErrInfo { kind: err.kind, at: err.at, committed: true },
            },
        }
    } else {
        fail(ErrorKind::ExpectedBody, pos, true)
    }
}

/// A tagged element: identifier, selectors, optional attribute list, body.
pub open spec fn spec_node(s: Seq<char>, pos: int) -> Parsed<NodeV>
    decreases s.len() - pos, 1int,
{
    match spec_ident(s, pos) {
        Parsed::Fail { err } => Parsed::Fail { err },
        Parsed::Found { end: e1, val: kind } => match spec_sels(s, e1) {
            Parsed::Fail { err } => Parsed::Fail { err },
            Parsed::Found { end: e2, val: sels } => {
                let p3 = skip_trivia(s, e2);
                match spec_attrs(s, p3) {
                    Parsed::Fail { err } => if err.committed {
                        Parsed::Fail { err }
                    } else {
                        spec_node_tail(s, pos, e2, kind, sels, Option::None)
                    },
                    Parsed::Found { end: e3, val: items } => spec_node_tail(
                        s,
                        pos,
                        e3,
                        kind,
                        sels,
                        Option::Some(items),
                    ),
                }
            },
        },
    }
}

/// One item of a sequence: a tagged element, or a quoted literal as a text
/// fragment.
pub open spec fn spec_element(s: Seq<char>, pos: int) -> Parsed<ElemV>
    decreases s.len() - pos, 2int,
{
    match spec_node(s, pos) {
        Parsed::Found { end, val } => Parsed::Found { end, val: ElemV::Node(val) },
        Parsed::Fail { err } => if err.committed {
            Parsed::Fail { err }
        } else {
            match spec_str_lit(s, pos) {
                Parsed::Found { end, val } => Parsed::Found { end, val: ElemV::Text(val) },
                Parsed::Fail { err: e2 } => Parsed::Fail { err: e2 },
            }
        },
    }
}

/// Zero or more sequence items, each preceded by skipped trivia and
/// followed by an optional comma.  Stops — without consuming the last
/// skipped trivia — before the first position where no item starts.
pub open spec fn spec_block_items(s: Seq<char>, pos: int) -> Parsed<Seq<ElemV>>
    decreases s.len() - pos, 3int,
{
    let p = skip_trivia(s, pos);
    if pos <= p <= s.len() {
        match spec_element(s, p) {
            Parsed::Fail { err } => if err.committed {
                Parsed::Fail { err }
            } else {
                Parsed::Found { end: pos, val: Seq::empty() }
            },
            Parsed::Found { end: e, val: el } => {
                let pc = skip_trivia(s, e);
                let e2: int = if e <= pc < s.len() && s[pc] == ',' {
                    pc + 1
                } else {
                    e
                };
                if pos < e2 <= s.len() {
                    match spec_block_items(s, e2) {
                        Parsed::Found { end: e3, val: rest } => Parsed::Found {
                            end: e3,
                            val: seq![el] + rest,
                        },
                        Parsed::Fail { err } => Parsed::Fail { err },
                    }
                } else {
                    Parsed::Found { end: pos, val: Seq::empty() }
                }
            },
        }
    } else {
        Parsed::Found { end: pos, val: Seq::empty() }
    }
}

/// A body, by the first of four alternatives to match: `;` for the empty
/// body; `{ ... }` for a braced sequence; a lone quoted literal for a
/// single text child; a nested bare element for a single element child.
/// None matching is `ExpectedBody`, uncommitted here (the enclosing element
/// commits it).
pub open spec fn spec_body(s: Seq<char>, pos: int) -> Parsed<Seq<ElemV>>
    decreases s.len() - pos, 4int,
{
    if 0 <= pos < s.len() && s[pos] == '{' {
        match spec_block_items(s, pos + 1) {
            Parsed::Fail { err } => Parsed::Fail { err },
            Parsed::Found { end: e, val: items } => {
                let p = skip_trivia(s, e);
                if e <= p < s.len() && s[p] == '}' {
                    Parsed::Found { end: p + 1, val: items }
                } else {
                    fail(ErrorKind::ExpectedBody, pos, false)
                }
            },
        }
    } else if 0 <= pos < s.len() && s[pos] == ';' {
        Parsed::Found { end: pos + 1, val: Seq::empty() }
    } else {
        match spec_str_lit(s, pos) {
            Parsed::Found { end, val } => Parsed::Found { end, val: seq![ElemV::Text(val)] },
            Parsed::Fail { err } => if err.committed {
                Parsed::Fail { err }
            } else {
                match spec_node(s, pos) {
                    Parsed::Found { end, val } => Parsed::Found {
                        end,
                        val: seq![ElemV::Node(val)],
                    },
                    Parsed::Fail { err: e2 } => if e2.committed {
                        Parsed::Fail { err: e2 }
                    } else {
                        fail(ErrorKind::ExpectedBody, pos, false)
                    },
                }
            },
        }
    }
}

/// A whole document: leading trivia, a forest of sequence items, trailing
/// trivia, and nothing else — any leftover input is `TrailingInput`.  The
/// empty document parses to the empty forest.
pub open spec fn spec_document(s: Seq<char>) -> Parsed<Seq<ElemV>> {
    match spec_block_items(s, 0) {
        Parsed::Fail { err } => Parsed::Fail { err },
        Parsed::Found { end: e, val: items } => {
            let p = skip_trivia(s, e);
            if p == s.len() {
                Parsed::Found { end: p, val: items }
            } else {
                fail(ErrorKind::TrailingInput, p, true)
            }
        },
    }
}

// ------------------------- elementary lemmas -------------------------------

/// `run_end` stays within the input and never moves backwards; every
/// character of the run satisfies the class and the character after the run
/// (if any) does not.
pub proof fn lemma_run_end(s: Seq<char>, pos: int, f: spec_fn(char) -> bool)
    requires
        0 <= pos <= s.len(),
    ensures
        pos <= run_end(s, pos, f) <= s.len(),
        forall|i: int| pos <= i < run_end(s, pos, f) ==> f(s[i]),
        run_end(s, pos, f) < s.len() ==> !f(s[run_end(s, pos, f)]),
    decreases s.len() - pos,
{
    if pos < s.len() && f(s[pos]) {
        lemma_run_end(s, pos + 1, f);
    }
}

} // verus!
