//! Source positions and the diagnostics attached to them.

use vstd::prelude::*;

verus! {

#[derive(Clone, Copy, Debug, PartialEq, Eq, Structural)]
pub enum Severity {
    Error,
    Warning,
    Info,
}

/// A place in a source file: byte offset, and one-based line and column.
#[derive(Clone, Copy, Debug, PartialEq, Eq, Structural)]
pub struct Pos {
    pub offset: usize,
    pub line: usize,
    pub col: usize,
}

impl Pos {
    pub open spec fn zero() -> Pos {
        Pos { offset: 0, line: 0, col: 0 }
    }
}

#[derive(Debug)]
pub struct SourceRange {
    pub file: String,
    pub start: Pos,
    pub end: Pos,
}

#[verifier::ext_equal]
pub struct RangeView {
    pub file: Seq<char>,
    pub start: Pos,
    pub end: Pos,
}

impl View for SourceRange {
    type V = RangeView;

    open spec fn view(&self) -> RangeView {
        RangeView { file: self.file@, start: self.start, end: self.end }
    }
}

impl Clone for SourceRange {
    fn clone(&self) -> (r: SourceRange)
        ensures
            r == *self,
    {
        SourceRange { file: self.file.clone(), start: self.start, end: self.end }
    }
}

/// The range of things that no source text declares.
pub open spec fn no_range() -> RangeView {
    RangeView { file: Seq::empty(), start: Pos::zero(), end: Pos::zero() }
}

impl Default for SourceRange {
    fn default() -> (r: SourceRange)
        ensures
            r@ == no_range(),
    {
        SourceRange {
            file: String::new(),
            start: Pos { offset: 0, line: 0, col: 0 },
            end: Pos { offset: 0, line: 0, col: 0 },
        }
    }
}

#[derive(Debug)]
pub struct Diagnostic {
    pub severity: Severity,
    pub code: String,
    pub message: String,
    pub range: SourceRange,
}

#[verifier::ext_equal]
pub struct DiagnosticView {
    pub severity: Severity,
    pub code: Seq<char>,
    pub message: Seq<char>,
    pub range: RangeView,
}

impl View for Diagnostic {
    type V = DiagnosticView;

    open spec fn view(&self) -> DiagnosticView {
        DiagnosticView {
            severity: self.severity,
            code: self.code@,
            message: self.message@,
            range: self.range@,
        }
    }
}

/// A list of values seen through their views.
pub open spec fn views<T: View>(s: Seq<T>) -> Seq<T::V> {
    s.map_values(|x: T| x@)
}

pub proof fn lemma_views_push<T: View>(s: Seq<T>, x: T)
    ensures
        views(s.push(x)) == views(s).push(x@),
{
    assert(views(s.push(x)) =~= views(s).push(x@));
}

} // verus!
