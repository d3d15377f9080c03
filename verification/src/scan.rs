use vstd::prelude::*;

use crate::error::ErrorKind;
use crate::error::Parsed;
use crate::error::ParseError;
use crate::grammar::block_comment_end;
use crate::grammar::close_for;
use crate::grammar::find_char;
use crate::grammar::ident_class;
use crate::grammar::inline_class;
use crate::grammar::is_close_char;
use crate::grammar::is_ident_char;
use crate::grammar::is_inline_char;
use crate::grammar::is_open_char;
use crate::grammar::is_quote_char;
use crate::grammar::is_ws_char;
use crate::grammar::line_comment_end;
use crate::grammar::run_end;
use crate::grammar::skip_trivia;
use crate::grammar::spec_group;
use crate::grammar::spec_inline;
use crate::grammar::spec_interior;
use crate::grammar::spec_scan;
use crate::grammar::spec_scan_unit;
use crate::grammar::spec_str_lit;
use crate::grammar::trim_end_seq;
use crate::grammar::trim_seq;
use crate::grammar::trim_start_seq;

verus! {

// ---------------------------------------------------------------------------
// Character-level scanning: the executable counterparts of the grammar's
// elementary functions, each computing exactly its specification.
// ---------------------------------------------------------------------------

pub(crate) fn ws_char(c: char) -> (b: bool)
    ensures
        b == is_ws_char(c),
{
    c == ' ' || c == '\n' || c == '\t' || c == '\r'
}

pub(crate) fn ident_char(c: char) -> (b: bool)
    ensures
        b == is_ident_char(c),
{
    let n = c as u32;
    (97 <= n && n <= 122) || (65 <= n && n <= 90) || (48 <= n && n <= 57) || n == 45 || n == 95
        || n == 36 || n == 37 || n == 176
}

pub(crate) fn inline_char(c: char) -> (b: bool)
    ensures
        b == is_inline_char(c),
{
    let n = c as u32;
    ident_char(c) || n == 32 || n == 10 || n == 58 || n == 59 || n == 46 || n == 47 || n == 92
}

pub(crate) fn quote_char(c: char) -> (b: bool)
    ensures
        b == is_quote_char(c),
{
    c == '\'' || c == '"' || c == '`'
}

pub(crate) fn open_char(c: char) -> (b: bool)
    ensures
        b == is_open_char(c),
{
    c == '(' || c == '{' || c == '['
}

pub(crate) fn close_char(c: char) -> (b: bool)
    ensures
        b == is_close_char(c),
{
    c == ')' || c == '}' || c == ']'
}

pub(crate) fn closer_of(c: char) -> (r: char)
    ensures
        r == close_for(c),
{
    if c == '(' {
        ')'
    } else if c == '{' {
        '}'
    } else {
        ']'
    }
}

pub(crate) fn find_char_from(s: &str, pos: usize, c: char) -> (r: usize)
    requires
        pos <= s@.len(),
    ensures
        r as int == find_char(s@, pos as int, c),
        pos <= r <= s@.len(),
    decreases s@.len() - pos,
{
    let n = s.unicode_len();
    if pos >= n {
        n
    } else if s.get_char(pos) == c {
        pos
    } else {
        find_char_from(s, pos + 1, c)
    }
}

pub(crate) fn run_end_ident(s: &str, pos: usize) -> (r: usize)
    requires
        pos <= s@.len(),
    ensures
        r as int == run_end(s@, pos as int, ident_class()),
        pos <= r <= s@.len(),
    decreases s@.len() - pos,
{
    let n = s.unicode_len();
    if pos < n && ident_char(s.get_char(pos)) {
        run_end_ident(s, pos + 1)
    } else {
        pos
    }
}

pub(crate) fn run_end_inline(s: &str, pos: usize) -> (r: usize)
    requires
        pos <= s@.len(),
    ensures
        r as int == run_end(s@, pos as int, inline_class()),
        pos <= r <= s@.len(),
    decreases s@.len() - pos,
{
    let n = s.unicode_len();
    if pos < n && inline_char(s.get_char(pos)) {
        run_end_inline(s, pos + 1)
    } else {
        pos
    }
}

pub(crate) fn line_comment_end_from(s: &str, pos: usize) -> (r: usize)
    requires
        pos <= s@.len(),
    ensures
        r as int == line_comment_end(s@, pos as int),
        pos <= r <= s@.len(),
    decreases s@.len() - pos,
{
    let n = s.unicode_len();
    if pos >= n {
        n
    } else if s.get_char(pos) == '\n' {
        pos + 1
    } else {
        line_comment_end_from(s, pos + 1)
    }
}

pub(crate) fn block_comment_end_from(s: &str, pos: usize) -> (r: usize)
    requires
        pos <= s@.len(),
    ensures
        r as int == block_comment_end(s@, pos as int),
        pos <= r <= s@.len(),
    decreases s@.len() - pos,
{
    let n = s.unicode_len();
    if n - pos < 2 {
        n
    } else if s.get_char(pos) == '*' && s.get_char(pos + 1) == '/' {
        pos + 2
    } else {
        block_comment_end_from(s, pos + 1)
    }
}

/// The comment/whitespace skipper.
pub(crate) fn skip_trivia_from(s: &str, pos: usize) -> (r: usize)
    requires
        pos <= s@.len(),
    ensures
        r as int == skip_trivia(s@, pos as int),
        pos <= r <= s@.len(),
    decreases s@.len() - pos,
{
    let n = s.unicode_len();
    if pos < n && ws_char(s.get_char(pos)) {
        skip_trivia_from(s, pos + 1)
    } else if n - pos >= 2 && s.get_char(pos) == '/' && s.get_char(pos + 1) == '/' {
        let e = line_comment_end_from(s, pos + 2);
        skip_trivia_from(s, e)
    } else if n - pos >= 2 && s.get_char(pos) == '/' && s.get_char(pos + 1) == '*' {
        let e = block_comment_end_from(s, pos + 2);
        skip_trivia_from(s, e)
    } else {
        pos
    }
}

/// Index ending `s[from..to]` with its trailing whitespace removed.
pub(crate) fn rtrim_from(s: &str, from: usize, to: usize) -> (r: usize)
    requires
        from <= to <= s@.len(),
    ensures
        from <= r <= to,
        s@.subrange(from as int, r as int) == trim_end_seq(
            s@.subrange(from as int, to as int),
        ),
    decreases to - from,
{
    if to > from && ws_char(s.get_char(to - 1)) {
        proof {
            assert(s@.subrange(from as int, to as int).drop_last() =~= s@.subrange(
                from as int,
                to - 1,
            ));
        }
        rtrim_from(s, from, to - 1)
    } else {
        to
    }
}

/// Index starting `s[from..to]` with its leading whitespace removed.
pub(crate) fn ltrim_from(s: &str, from: usize, to: usize) -> (r: usize)
    requires
        from <= to <= s@.len(),
    ensures
        from <= r <= to,
        s@.subrange(r as int, to as int) == trim_start_seq(
            s@.subrange(from as int, to as int),
        ),
    decreases to - from,
{
    if to > from && ws_char(s.get_char(from)) {
        proof {
            assert(s@.subrange(from as int, to as int).drop_first() =~= s@.subrange(
                from + 1,
                to as int,
            ));
        }
        ltrim_from(s, from + 1, to)
    } else {
        from
    }
}

// ---------------------------------------------------------------------------
// Quoted literals and the inline-value scanner.
// ---------------------------------------------------------------------------

/// A quoted string literal (or, after `$`, an inline value).
pub(crate) fn p_str_lit(s: &str, pos: usize) -> (r: Result<(usize, String), ParseError>)
    requires
        pos <= s@.len(),
    ensures
        match r {
            Result::Ok((end, v)) => pos < end <= s@.len() && spec_str_lit(s@, pos as int)
                == (Parsed::Found { end: end as int, val: v@ }),
            Result::Err(e) => spec_str_lit(s@, pos as int) == (Parsed::<Seq<char>>::Fail {
                err: e@,
            }),
        },
    decreases s@.len() - pos, 2int,
{
    let n = s.unicode_len();
    if pos < n && quote_char(s.get_char(pos)) {
        let d = s.get_char(pos);
        let close = find_char_from(s, pos + 1, d);
        if close < n {
            let v = s.substring_char(pos + 1, close).to_owned();
            Ok((close + 1, v))
        } else {
            Err(ParseError { kind: ErrorKind::UnterminatedString, at: pos, committed: true })
        }
    } else if pos < n && s.get_char(pos) == '$' {
        match p_inline(s, pos + 1) {
            Ok((end, v)) => Ok((end, v)),
            Err(e) => if e.committed {
                Err(e)
            } else {
                Err(ParseError { kind: ErrorKind::ExpectedIdentifier, at: pos, committed: false })
            },
        }
    } else {
        Err(ParseError { kind: ErrorKind::ExpectedIdentifier, at: pos, committed: false })
    }
}

/// Interior of a bracketed group: consumed up to the first closer at this
/// nesting level.
pub(crate) fn p_interior(s: &str, pos: usize) -> (r: Result<usize, ParseError>)
    requires
        pos <= s@.len(),
    ensures
        match r {
            Result::Ok(end) => pos <= end <= s@.len() && spec_interior(s@, pos as int)
                == (Parsed::Found { end: end as int, val: () }),
            Result::Err(e) => spec_interior(s@, pos as int) == (Parsed::<()>::Fail { err: e@ }),
        },
    decreases s@.len() - pos, 4int,
{
    let n = s.unicode_len();
    if pos >= n {
        Ok(pos)
    } else {
        let c = s.get_char(pos);
        if close_char(c) {
            Ok(pos)
        } else if quote_char(c) {
            match p_str_lit(s, pos) {
                Err(e) => Err(e),
                Ok((end, _v)) => p_interior(s, end),
            }
        } else if open_char(c) {
            match p_group(s, pos) {
                Err(e) => Err(e),
                Ok((end, _v)) => p_interior(s, end),
            }
        } else {
            p_interior(s, pos + 1)
        }
    }
}

/// A balanced bracketed group; the value is the interior with trailing
/// whitespace trimmed.
pub(crate) fn p_group(s: &str, pos: usize) -> (r: Result<(usize, String), ParseError>)
    requires
        pos <= s@.len(),
    ensures
        match r {
            Result::Ok((end, v)) => pos < end <= s@.len() && spec_group(s@, pos as int)
                == (Parsed::Found { end: end as int, val: v@ }),
            Result::Err(e) => spec_group(s@, pos as int) == (Parsed::<Seq<char>>::Fail {
                err: e@,
            }),
        },
    decreases s@.len() - pos, 3int,
{
    let n = s.unicode_len();
    if pos < n && open_char(s.get_char(pos)) {
        let close = closer_of(s.get_char(pos));
        match p_interior(s, pos + 1) {
            Err(e) => Err(e),
            Ok(end) => {
                if end < n && s.get_char(end) == close {
                    let j = rtrim_from(s, pos + 1, end);
                    let v = s.substring_char(pos + 1, j).to_owned();
                    Ok((end + 1, v))
                } else {
                    Err(
                        ParseError {
                            kind: ErrorKind::UnbalancedDelimiter,
                            at: pos,
                            committed: true,
                        },
                    )
                }
            },
        }
    } else {
        Err(ParseError { kind: ErrorKind::ExpectedIdentifier, at: pos, committed: false })
    }
}

/// One unit of inline-scanned content.
pub(crate) fn p_scan_unit(s: &str, pos: usize) -> (r: Result<usize, ParseError>)
    requires
        pos <= s@.len(),
    ensures
        match r {
            Result::Ok(end) => pos < end <= s@.len() && spec_scan_unit(s@, pos as int)
                == (Parsed::Found { end: end as int, val: () }),
            Result::Err(e) => spec_scan_unit(s@, pos as int) == (Parsed::<()>::Fail { err: e@ }),
        },
    decreases s@.len() - pos, 4int,
{
    let n = s.unicode_len();
    if pos >= n {
        Err(ParseError { kind: ErrorKind::ExpectedIdentifier, at: pos, committed: false })
    } else {
        let c = s.get_char(pos);
        if open_char(c) {
            match p_group(s, pos) {
                Err(e) => Err(e),
                Ok((end, _v)) => Ok(end),
            }
        } else if inline_char(c) {
            let r = run_end_inline(s, pos);
            proof {
                crate::grammar::lemma_run_end(s@, pos + 1, inline_class());
            }
            Ok(r)
        } else if quote_char(c) {
            match p_str_lit(s, pos) {
                Err(e) => Err(e),
                Ok((end, _v)) => Ok(end),
            }
        } else {
            Err(ParseError { kind: ErrorKind::ExpectedIdentifier, at: pos, committed: false })
        }
    }
}

/// The scanner's consumed span: units as far as they will go.
pub(crate) fn p_scan(s: &str, pos: usize) -> (r: Result<usize, ParseError>)
    requires
        pos <= s@.len(),
    ensures
        match r {
            Result::Ok(end) => pos < end <= s@.len() && spec_scan(s@, pos as int)
                == (Parsed::Found { end: end as int, val: () }),
            Result::Err(e) => spec_scan(s@, pos as int) == (Parsed::<()>::Fail { err: e@ }),
        },
    decreases s@.len() - pos, 5int,
{
    match p_scan_unit(s, pos) {
        Err(e) => Err(e),
        Ok(end) => match p_scan(s, end) {
            Ok(e2) => Ok(e2),
            Err(_e) => Ok(end),
        },
    }
}

/// An inline value: literal content, or the trimmed scanned span.
pub(crate) fn p_inline(s: &str, pos: usize) -> (r: Result<(usize, String), ParseError>)
    requires
        pos <= s@.len(),
    ensures
        match r {
            Result::Ok((end, v)) => pos < end <= s@.len() && spec_inline(s@, pos as int)
                == (Parsed::Found { end: end as int, val: v@ }),
            Result::Err(e) => spec_inline(s@, pos as int) == (Parsed::<Seq<char>>::Fail {
                err: e@,
            }),
        },
    decreases s@.len() - pos, 6int,
{
    match p_str_lit(s, pos) {
        Ok((end, v)) => Ok((end, v)),
        Err(_e) => match p_scan(s, pos) {
            Err(e) => Err(e),
            Ok(end) => {
                let j = rtrim_from(s, pos, end);
                let i = ltrim_from(s, pos, j);
                let v = s.substring_char(i, j).to_owned();
                proof {
                    assert(trim_seq(s@.subrange(pos as int, end as int)) == s@.subrange(
                        i as int,
                        j as int,
                    ));
                }
                Ok((end, v))
            },
        },
    }
}

} // verus!
