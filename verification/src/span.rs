use vstd::prelude::*;
use vstd::std_specs::cmp::PartialEqSpec;

verus! {

/// A source location: the half-open range of character offsets `start..end`.
#[derive(Clone, Copy, Debug, PartialEq, Eq, Structural)]
pub struct Span {
    pub start: usize,
    pub end: usize,
}

/// The smallest span that covers both `a` and `b`.
pub open spec fn spec_union(a: Span, b: Span) -> Span {
    Span {
        start: if a.start <= b.start { a.start } else { b.start },
        end: if a.end >= b.end { a.end } else { b.end },
    }
}

impl Span {
    /// A span with the given bounds.
    pub fn new(start: usize, end: usize) -> (r: Span)
        ensures
            r == (Span { start, end }),
    {
        Span { start, end }
    }

    /// The span that covers nothing, at offset zero.
    pub fn empty() -> (r: Span)
        ensures
            r == (Span { start: 0, end: 0 }),
    {
        Span { start: 0, end: 0 }
    }

    /// The smallest span covering both `self` and `other`.
    pub fn union(self, other: Span) -> (r: Span)
        ensures
            r == spec_union(self, other),
    {
        Span {
            start: if self.start <= other.start { self.start } else { other.start },
            end: if self.end >= other.end { self.end } else { other.end },
        }
    }
}

} // verus!

verus! {

/// A node of the syntax tree together with the span of source it came from.
#[derive(Debug)]
pub struct SrcNode<T> {
    pub inner: Box<T>,
    pub span: Span,
}

impl<T> SrcNode<T> {
    /// A node holding `inner`, found at `span`.
    pub fn new(inner: T, span: Span) -> (r: SrcNode<T>)
        ensures
            *r.inner == inner,
            r.span == span,
    {
        SrcNode { inner: Box::new(inner), span }
    }

    /// The span of the node.
    pub fn span(&self) -> (r: Span)
        ensures
            r == self.span,
    {
        self.span
    }

    /// The value the node holds.
    pub fn inner(&self) -> (r: &T)
        ensures
            *r == *self.inner,
    {
        &self.inner
    }

    /// The value the node holds, without its span.
    pub fn into_inner(self) -> (r: T)
        ensures
            r == *self.inner,
    {
        *self.inner
    }
}

} // verus!

verus! {

/// Nodes compare by what they hold; their spans do not count.
impl<T: PartialEq> PartialEq for SrcNode<T> {
    fn eq(&self, other: &Self) -> (r: bool) {
        *self.inner == *other.inner
    }
}

impl<T: PartialEq> vstd::std_specs::cmp::PartialEqSpecImpl for SrcNode<T> {
    open spec fn obeys_eq_spec() -> bool {
        T::obeys_eq_spec()
    }

    open spec fn eq_spec(&self, other: &Self) -> bool {
        (*self.inner).eq_spec(&*other.inner)
    }
}

} // verus!
