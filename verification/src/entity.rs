//! Logical cell selectors and their resolution to concrete coordinates.

use vstd::prelude::*;

verus! {

/// A logical reference to one or more cells, resolved against the
/// current table shape. Ranges are half-open. Coordinates outside the
/// table are silently excluded on resolution, never an error.
#[derive(Debug)]
pub enum Entity {
    /// One cell, by (row, column).
    Cell(usize, usize),
    /// A full row.
    Row(usize),
    /// A full column.
    Column(usize),
    /// The rows of `[start, end)`, whole.
    Rows(usize, usize),
    /// The columns of `[start, end)`, whole.
    Columns(usize, usize),
    /// Every cell of the table.
    Global,
    /// The set union of two selections.
    Union(Box<Entity>, Box<Entity>),
}

/// Whether a selector targets the cell at (r, c), bounds aside.
pub open spec fn entity_matches(e: Entity, r: int, c: int) -> bool
    decreases e,
{
    match e {
        Entity::Cell(rr, cc) => r == rr && c == cc,
        Entity::Row(rr) => r == rr,
        Entity::Column(cc) => c == cc,
        Entity::Rows(a, b) => a <= r < b,
        Entity::Columns(a, b) => a <= c < b,
        Entity::Global => true,
        Entity::Union(a, b) => entity_matches(*a, r, c) || entity_matches(*b, r, c),
    }
}

/// Whether a selector targets the in-bounds cell (r, c) of a
/// `rows` x `cols` table.
pub open spec fn selects(e: Entity, rows: int, cols: int, r: int, c: int) -> bool {
    0 <= r < rows && 0 <= c < cols && entity_matches(e, r, c)
}

impl Entity {
    /// Whether this selector targets the cell at (r, c), bounds aside.
    pub fn matches_at(&self, r: usize, c: usize) -> (m: bool)
        ensures
            m == entity_matches(*self, r as int, c as int),
        decreases *self,
    {
        match self {
            Entity::Cell(rr, cc) => r == *rr && c == *cc,
            Entity::Row(rr) => r == *rr,
            Entity::Column(cc) => c == *cc,
            Entity::Rows(a, b) => *a <= r && r < *b,
            Entity::Columns(a, b) => *a <= c && c < *b,
            Entity::Global => true,
            Entity::Union(a, b) => a.matches_at(r, c) || b.matches_at(r, c),
        }
    }

    /// The union of this selection and another: a combinator for
    /// selecting several regions at once.
    pub fn and(self, other: Entity) -> (e: Entity)
        ensures
            e == Entity::Union(Box::new(self), Box::new(other)),
    {
        Entity::Union(Box::new(self), Box::new(other))
    }

    /// Resolves the selector against a `rows` x `cols` table: the
    /// row-major sequence of exactly the in-bounds cells it targets.
    pub fn resolve(&self, rows: usize, cols: usize) -> (ps: Vec<(usize, usize)>)
        ensures
            forall|r: int, c: int|
                ps@.contains((r as usize, c as usize)) <== selects(*self, rows as int, cols as int, r, c),
            forall|i: int| 0 <= i < ps@.len()
                ==> selects(*self, rows as int, cols as int, (#[trigger] ps@[i]).0 as int, ps@[i].1 as int),
            forall|i: int, j: int| 0 <= i < j < ps@.len() ==> ps@[i] != ps@[j],
    {
        let mut ps: Vec<(usize, usize)> = Vec::new();
        let mut r: usize = 0;
        while r < rows
            invariant
                r <= rows,
                forall|rr: int, cc: int|
                    (0 <= rr < r && 0 <= cc < cols && entity_matches(*self, rr, cc))
                        ==> ps@.contains((rr as usize, cc as usize)),
                forall|i: int| 0 <= i < ps@.len()
                    ==> selects(*self, rows as int, cols as int, (#[trigger] ps@[i]).0 as int, ps@[i].1 as int),
                forall|i: int| 0 <= i < ps@.len() ==> (#[trigger] ps@[i]).0 < r,
                forall|i: int, j: int| 0 <= i < j < ps@.len() ==> ps@[i] != ps@[j],
            decreases rows - r,
        {
            let mut c: usize = 0;
            while c < cols
                invariant
                    r < rows,
                    c <= cols,
                    forall|rr: int, cc: int|
                        (0 <= rr < r && 0 <= cc < cols && entity_matches(*self, rr, cc))
                            ==> ps@.contains((rr as usize, cc as usize)),
                    forall|cc: int|
                        (0 <= cc < c && entity_matches(*self, r as int, cc))
                            ==> ps@.contains((r as usize, cc as usize)),
                    forall|i: int| 0 <= i < ps@.len()
                        ==> selects(*self, rows as int, cols as int, (#[trigger] ps@[i]).0 as int, ps@[i].1 as int),
                    forall|i: int|
                        0 <= i < ps@.len() ==> ((#[trigger] ps@[i]).0 < r || (ps@[i].0 == r
                            && ps@[i].1 < c)),
                    forall|i: int, j: int| 0 <= i < j < ps@.len() ==> ps@[i] != ps@[j],
                decreases cols - c,
            {
                if self.matches_at(r, c) {
                    let ghost old_ps = ps@;
                    ps.push((r, c));
                    proof {
                        assert(ps@ == old_ps.push((r, c)));
                        assert forall|p: (usize, usize)| old_ps.contains(p) implies ps@.contains(p) by {
                            let i = choose|i: int| 0 <= i < old_ps.len() && old_ps[i] == p;
                            assert(ps@[i] == p);
                        }
                        assert(ps@[ps@.len() - 1] == (r, c));
                    }
                }
                c += 1;
            }
            r += 1;
        }
        ps
    }
}

} // verus!
