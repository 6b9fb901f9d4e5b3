//! Points and ranges in a text buffer.
use vstd::prelude::*;

verus! {

/// A point in text: column and row, 0 indexed.
pub struct Point {
    x: usize,
    y: usize,
}

/// An actualized chunk of a buffer, from the point `l` to the point `r`,
/// where `r` lies at or after `l` in both coordinates.
pub struct Range {
    l: Point,
    r: Point,
}

impl View for Range {
    type V = ((usize, usize), (usize, usize));

    /// The two corners of the range, each as `(x, y)`.
    closed spec fn view(&self) -> ((usize, usize), (usize, usize)) {
        ((self.l.x, self.l.y), (self.r.x, self.r.y))
    }
}

/// Whether `r` lies at or after `l` in both coordinates.
pub open spec fn ordered(l: (usize, usize), r: (usize, usize)) -> bool {
    l.0 <= r.0 && l.1 <= r.1
}

/// Law: corners are ordered exactly when neither coordinate of the end lies
/// before that of the start; corners on one row or one column are ordered.
pub proof fn lemma_ordered_is_componentwise(l: (usize, usize), r: (usize, usize))
    ensures
        ordered(l, r) <==> (l.0 <= r.0 && l.1 <= r.1),
        l.1 == r.1 ==> (ordered(l, r) <==> l.0 <= r.0),
        l.0 == r.0 ==> (ordered(l, r) <==> l.1 <= r.1),
        ordered(l, l),
{
}

impl Range {
    #[verifier::type_invariant]
    spec fn corners_ordered(self) -> bool {
        self.l.x <= self.r.x && self.l.y <= self.r.y
    }

    /// Builds the range from `l` to `r`; there is none unless `r` lies at or
    /// after `l` in both coordinates.
    pub fn new(l: (usize, usize), r: (usize, usize)) -> (res: Option<Self>)
        ensures
            res is Some <==> (l.0 <= r.0 && l.1 <= r.1),
            res matches Some(range) ==> range@ == (l, r),
    {
        match (l, r) {
            ((lx, ly), (rx, ry)) if lx <= rx && ly <= ry => Some(
                Self { l: Point { x: lx, y: ly }, r: Point { x: rx, y: ry } },
            ),
            _ => None,
        }
    }

    /// The start corner of the range, as `(x, y)`.
    pub fn start(&self) -> (p: (usize, usize))
        ensures
            p == self@.0,
            p.0 <= self@.1.0 && p.1 <= self@.1.1,
    {
        proof {
            use_type_invariant(self);
        }
        (self.l.x, self.l.y)
    }

    /// The end corner of the range, as `(x, y)`.
    pub fn end(&self) -> (p: (usize, usize))
        ensures
            p == self@.1,
            self@.0.0 <= p.0 && self@.0.1 <= p.1,
    {
        proof {
            use_type_invariant(self);
        }
        (self.r.x, self.r.y)
    }
}

} // verus!
