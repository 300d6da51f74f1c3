//! What the board asks the terminal to draw: one glyph per logical cell,
//! collected in batches. Which character and colour stand for a glyph is the
//! caller's choice.

use vstd::prelude::*;

verus! {

/// What a cell shows.
#[derive(Clone, Copy, Debug, PartialEq, Eq, Structural)]
pub enum GlyphKind {
    Border,
    SnakeHead,
    SnakeBody,
    Food,
    Empty,
    TextOverlay,
}

/// A request to show `glyph` at column `x`, row `y`.
#[derive(Clone, Copy, Debug, PartialEq, Eq, Structural)]
pub struct CellUpdate {
    pub x: u16,
    pub y: u16,
    pub glyph: GlyphKind,
}

/// One update per cell, in the cells' order, all with the same glyph.
pub open spec fn painted(cells: Seq<(u16, u16)>, glyph: GlyphKind) -> Seq<CellUpdate> {
    Seq::new(cells.len(), |i: int| CellUpdate { x: cells[i].0, y: cells[i].1, glyph })
}

/// The updates that draw a snake: the head glyph on the first cell, the body
/// glyph on every other.
pub open spec fn snake_painted(cells: Seq<(u16, u16)>) -> Seq<CellUpdate> {
    Seq::new(
        cells.len(),
        |i: int|
            CellUpdate {
                x: cells[i].0,
                y: cells[i].1,
                glyph: if i == 0 {
                    GlyphKind::SnakeHead
                } else {
                    GlyphKind::SnakeBody
                },
            },
    )
}

/// Turns a list of cells into a batch that shows `glyph` on each of them.
pub fn paint(cells: &Vec<(u16, u16)>, glyph: GlyphKind) -> (batch: Vec<CellUpdate>)
    ensures
        batch@ == painted(cells@, glyph),
{
    let mut batch: Vec<CellUpdate> = Vec::new();
    let mut i: usize = 0;
    while i < cells.len()
        invariant
            i <= cells@.len(),
            batch@ == painted(cells@.take(i as int), glyph),
        decreases cells@.len() - i,
    {
        let (x, y) = cells[i];
        batch.push(CellUpdate { x, y, glyph });
        assert(batch@ == painted(cells@.take(i + 1), glyph));
        i += 1;
    }
    assert(cells@.take(i as int) == cells@);
    batch
}

/// Appends every update of `more` to `batch`, keeping the order.
pub fn extend_batch(batch: &mut Vec<CellUpdate>, more: &Vec<CellUpdate>)
    ensures
        final(batch)@ == old(batch)@ + more@,
{
    let mut i: usize = 0;
    while i < more.len()
        invariant
            i <= more@.len(),
            batch@ == old(batch)@ + more@.take(i as int),
        decreases more@.len() - i,
    {
        batch.push(more[i]);
        assert(batch@ == old(batch)@ + more@.take(i + 1));
        i += 1;
    }
    assert(more@.take(i as int) == more@);
}

} // verus!
