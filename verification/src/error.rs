use vstd::prelude::*;

verus! {

/// The ways a parse can fail.  Every failure of the grammar is one of these;
/// the comment on each variant says when it arises.
#[derive(Debug, Clone, Copy, PartialEq, Eq, Structural)]
pub enum ErrorKind {
    /// An identifier (or an inline value) was required at a position where the
    /// character class did not match.
    ExpectedIdentifier,
    /// A quoted literal's opening delimiter was never matched by a closer
    /// before end-of-input.
    UnterminatedString,
    /// An opened `(`, `{` or `[` was never closed by its matching closer.
    UnbalancedDelimiter,
    /// `#` or `.` was seen without a following identifier.
    ExpectedIdentifierAfterSelector,
    /// None of the four body alternatives matched.
    ExpectedBody,
    /// Input remained after a successful top-level parse.
    TrailingInput,
}

/// A parse failure: what was missing, where (a character offset into the
/// input), and whether the failure is committed.  A committed failure aborts
/// the whole parse; an uncommitted one lets an enclosing rule try another
/// alternative.
#[derive(Debug, Clone, Copy, PartialEq, Eq, Structural)]
pub struct ParseError {
    pub kind: ErrorKind,
    pub at: usize,
    pub committed: bool,
}

/// Mathematical image of a `ParseError`: the offset as an unbounded integer.
pub struct ErrInfo {
    pub kind: ErrorKind,
    pub at: int,
    pub committed: bool,
}

impl View for ParseError {
    type V = ErrInfo;

    open spec fn view(&self) -> ErrInfo {
        ErrInfo { kind: self.kind, at: self.at as int, committed: self.committed }
    }
}

/// Outcome of a grammar rule at the specification level: either the rule
/// matched, ending (exclusive) at `end` with value `val`, or it failed.
pub enum Parsed<V> {
    Found { end: int, val: V },
    Fail { err: ErrInfo },
}

/// A failing `Parsed` outcome, in one word.
pub open spec fn fail<V>(kind: ErrorKind, at: int, committed: bool) -> Parsed<V> {
    Parsed::Fail { err: ErrInfo { kind, at, committed } }
}

} // verus!
