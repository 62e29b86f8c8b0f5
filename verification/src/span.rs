//! Source positions and ranges attached to tokens, tree nodes and errors.

use std::ops::Range;
use vstd::prelude::*;

verus! {

/// Where a span comes from: the path of the source file, when there is one.
#[derive(Debug)]
pub struct SpanContext {
    pub path: Option<String>,
}

impl Clone for SpanContext {
    fn clone(&self) -> (r: Self)
        ensures
            r == *self,
    {
        match &self.path {
            Some(p) => SpanContext { path: Some(p.clone()) },
            None => SpanContext { path: None },
        }
    }
}

impl Default for SpanContext {
    fn default() -> (r: Self)
        ensures
            r.path is None,
    {
        SpanContext { path: None }
    }
}

/// A position in a source file. Lines and columns are counted from one.
#[derive(Clone, Copy, Debug, PartialEq, Eq, Structural)]
pub struct SpanLocation {
    pub line: usize,
    pub column: usize,
}

impl SpanLocation {
    /// Lines and columns start at one; zero is not a position.
    pub open spec fn wf(self) -> bool {
        self.line >= 1 && self.column >= 1
    }

    /// The position with the given line and column, when both are at least one.
    pub fn new(line: usize, column: usize) -> (r: Option<Self>)
        ensures
            r is Some <==> line >= 1 && column >= 1,
            r is Some ==> r->0 == (SpanLocation { line, column }) && r->0.wf(),
    {
        if line >= 1 && column >= 1 {
            Some(SpanLocation { line, column })
        } else {
            None
        }
    }

    /// Whether `self` comes before `other` in the file, or is the same position.
    pub fn precedes(&self, other: &SpanLocation) -> (r: bool)
        ensures
            r == (self.line < other.line || (self.line == other.line && self.column
                <= other.column)),
    {
        self.line < other.line || (self.line == other.line && self.column <= other.column)
    }
}

impl Default for SpanLocation {
    fn default() -> (r: Self)
        ensures
            r == (SpanLocation { line: 1, column: 1 }),
            r.wf(),
    {
        SpanLocation { line: 1, column: 1 }
    }
}

/// A range of positions in one source file.
#[derive(Debug)]
pub struct Span {
    pub context: SpanContext,
    pub range: Range<SpanLocation>,
}

impl Clone for Span {
    fn clone(&self) -> (r: Self)
        ensures
            r == *self,
    {
        Span {
            context: self.context.clone(),
            range: Range { start: self.range.start, end: self.range.end },
        }
    }
}

impl Span {
    /// Both ends are positions.
    pub open spec fn wf(self) -> bool {
        self.range.start.wf() && self.range.end.wf()
    }

    /// The span of a range of positions in a file.
    pub fn new(context: SpanContext, range: Range<SpanLocation>) -> (r: Self)
        ensures
            r.context == context,
            r.range == range,
    {
        Span { context, range }
    }

    /// The file of the span.
    pub fn context(&self) -> (r: SpanContext)
        ensures
            r == self.context,
    {
        self.context.clone()
    }

    /// The position of the first character of the span.
    pub fn start(&self) -> (r: SpanLocation)
        ensures
            r == self.range.start,
    {
        self.range.start
    }

    /// The position after the last character of the span.
    pub fn end(&self) -> (r: SpanLocation)
        ensures
            r == self.range.end,
    {
        self.range.end
    }
}

impl Default for Span {
    fn default() -> (r: Self)
        ensures
            r.context.path is None,
            r.range.start == (SpanLocation { line: 1, column: 1 }),
            r.range.end == (SpanLocation { line: 1, column: 1 }),
            r.wf(),
    {
        Span {
            context: SpanContext { path: None },
            range: Range {
                start: SpanLocation { line: 1, column: 1 },
                end: SpanLocation { line: 1, column: 1 },
            },
        }
    }
}

/// A line and a column, both counted from zero.
#[derive(Clone, Copy, Debug)]
pub struct Position {
    pub line: usize,
    pub column: usize,
}

impl Default for Position {
    fn default() -> (r: Self)
        ensures
            r.line == 0,
            r.column == 0,
    {
        Position { line: 0, column: 0 }
    }
}

impl DeepView for Span {
    type V = Span;

    open spec fn deep_view(&self) -> Span {
        *self
    }
}

} // verus!
