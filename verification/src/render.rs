//! The renderer adapter: maps simulation state onto a rectangular display
//! region. Positions of the region that fall outside the board — which can
//! happen transiently right after a shrinking resize — come back blank
//! rather than causing an out-of-range access.

use vstd::prelude::*;

use crate::life::LifeSimulator;

verus! {

/// A rectangular target region of the display surface, in the same cell
/// units as the simulation.
#[derive(Clone, Copy, Debug)]
pub struct Region {
    /// Column of the region's left edge.
    pub x: u16,
    /// Row of the region's top edge.
    pub y: u16,
    /// Number of columns in the region.
    pub width: u16,
    /// Number of rows in the region.
    pub height: u16,
}

/// Whether the display position at column `x`, row `y` is painted with the
/// fill color: exactly when the position lies inside the board and its cell
/// is live. Every other position keeps the blank default appearance.
pub open spec fn painted(sim: LifeSimulator, x: int, y: int) -> bool {
    0 <= y < sim.spec_height() && 0 <= x < sim.spec_width() && sim.cells()[y][x]
}

/// Decides the appearance of the single display position at column `x`,
/// row `y`: true asks for the fill color, false for blank. The board is
/// read only after both bounds checks pass, so any position may be asked
/// about, far outside the board included.
pub fn paint_white(sim: &LifeSimulator, x: usize, y: usize) -> (b: bool)
    requires
        sim.wf(),
    ensures
        b == painted(*sim, x as int, y as int),
{
    y < sim.height() && x < sim.width() && sim.cell(y, x)
}

/// Decides the appearance of every position of a target region: entry
/// (dy, dx) of the result is the decision for the display position at
/// column `region.x + dx`, row `region.y + dy`. The region may exceed the
/// board's dimensions; the extra positions come back blank.
#[verifier::loop_isolation(false)]
pub fn fill_region(sim: &LifeSimulator, region: Region) -> (fills: Vec<Vec<bool>>)
    requires
        sim.wf(),
    ensures
        fills@.len() == region.height,
        forall|dy: int| 0 <= dy < region.height ==> (#[trigger] fills@[dy])@.len() == region.width,
        forall|dy: int, dx: int|
            0 <= dy < region.height && 0 <= dx < region.width ==> (#[trigger] fills@[dy]@[dx])
                == painted(*sim, region.x + dx, region.y + dy),
{
    let rows: usize = region.height as usize;
    let cols: usize = region.width as usize;
    let mut fills: Vec<Vec<bool>> = Vec::with_capacity(rows);
    let mut dy: usize = 0;
    while dy < rows
        invariant
            dy <= rows,
            fills@.len() == dy,
            forall|i: int| 0 <= i < dy ==> (#[trigger] fills@[i])@.len() == cols,
            forall|i: int, j: int|
                0 <= i < dy && 0 <= j < cols ==> (#[trigger] fills@[i]@[j]) == painted(
                    *sim,
                    region.x + j,
                    region.y + i,
                ),
        decreases rows - dy,
    {
        let mut row: Vec<bool> = Vec::with_capacity(cols);
        let mut dx: usize = 0;
        while dx < cols
            invariant
                dx <= cols,
                row@.len() == dx,
                forall|j: int|
                    0 <= j < dx ==> (#[trigger] row@[j]) == painted(
                        *sim,
                        region.x + j,
                        region.y + dy,
                    ),
            decreases cols - dx,
        {
            let gx: usize = region.x as usize + dx;
            let gy: usize = region.y as usize + dy;
            row.push(paint_white(sim, gx, gy));
            dx += 1;
        }
        fills.push(row);
        dy += 1;
    }
    fills
}

} // verus!
