//! The generation-update rule of the simulation, as pure specification:
//! neighbor lookups under the two boundary policies, the live-cell tally,
//! and the next state of a cell and of a whole board, together with the
//! laws that hold of the rule.

use vstd::prelude::*;

verus! {

/// How neighbor lookups behave at the border of the board.
///
/// The two policies are distinct automata and are never mixed: a board is
/// given its policy at construction and keeps it for its whole lifetime.
#[derive(Clone, Copy, Debug, PartialEq, Eq, Structural)]
pub enum BoundaryPolicy {
    /// The board is a torus: row and column lookups wrap around, so every
    /// cell has exactly eight neighbors, border cells included.
    Toroidal,
    /// Lookups outside the board are dropped: a corner cell has three
    /// neighbors and a non-corner border cell has five.
    Clamped,
}

/// Wrapped decrement: the index one step before `i` on a cycle of length `n`.
pub open spec fn wrap_dec(i: int, n: int) -> int {
    if i == 0 {
        n - 1
    } else {
        i - 1
    }
}

/// Wrapped increment: the index one step after `i` on a cycle of length `n`.
pub open spec fn wrap_inc(i: int, n: int) -> int {
    if i + 1 == n {
        0
    } else {
        i + 1
    }
}

/// A well-formed board is a row-major table with exactly `h` rows of
/// exactly `w` cells each.
pub open spec fn board_wf(b: Seq<Seq<bool>>, h: int, w: int) -> bool {
    &&& b.len() == h
    &&& forall|r: int| 0 <= r < h ==> (#[trigger] b[r]).len() == w
}

/// 1 if the cell at row `r`, column `c` is live, else 0.
pub open spec fn live(b: Seq<Seq<bool>>, r: int, c: int) -> int {
    if b[r][c] {
        1
    } else {
        0
    }
}

/// The number of live cells among the nine wraparound lookups for row `r`,
/// column `c`: the 3x3 neighborhood including the cell itself, where
/// lookups past the border wrap to the opposite side.
pub open spec fn toroidal_tally(b: Seq<Seq<bool>>, h: int, w: int, r: int, c: int) -> int {
    let rm: int = wrap_dec(r, h);
    let rp: int = wrap_inc(r, h);
    let cm: int = wrap_dec(c, w);
    let cp: int = wrap_inc(c, w);
    live(b, rm, cm) + live(b, rm, c) + live(b, rm, cp) + live(b, r, cm) + live(b, r, c) + live(
        b,
        r,
        cp,
    ) + live(b, rp, cm) + live(b, rp, c) + live(b, rp, cp)
}

/// Toroidal next state of the cell at (r, c): live exactly when the
/// self-inclusive tally is 3, or is 4 with the cell itself currently live.
/// This is the standard survival rule ("three live neighbors, or two live
/// neighbors and itself live") restated over a tally that counts the cell.
pub open spec fn toroidal_next(b: Seq<Seq<bool>>, h: int, w: int, r: int, c: int) -> bool {
    toroidal_tally(b, h, w, r, c) == 3 || (toroidal_tally(b, h, w, r, c) == 4 && b[r][c])
}

/// 1 if (r, c) lies inside an `h` by `w` board and holds a live cell, else 0:
/// lookups outside the border count as dead.
pub open spec fn clamped_live(b: Seq<Seq<bool>>, h: int, w: int, r: int, c: int) -> int {
    if 0 <= r && r < h && 0 <= c && c < w && b[r][c] {
        1
    } else {
        0
    }
}

/// The number of live cells among the eight neighbors of (r, c), with
/// lookups clipped to the board: the cell itself is not counted.
pub open spec fn clamped_tally(b: Seq<Seq<bool>>, h: int, w: int, r: int, c: int) -> int {
    clamped_live(b, h, w, r - 1, c - 1) + clamped_live(b, h, w, r - 1, c) + clamped_live(
        b,
        h,
        w,
        r - 1,
        c + 1,
    ) + clamped_live(b, h, w, r, c - 1) + clamped_live(b, h, w, r, c + 1) + clamped_live(
        b,
        h,
        w,
        r + 1,
        c - 1,
    ) + clamped_live(b, h, w, r + 1, c) + clamped_live(b, h, w, r + 1, c + 1)
}

/// Clamped next state of the cell at (r, c): live exactly when it has three
/// live in-board neighbors, or two live in-board neighbors and is itself live.
pub open spec fn clamped_next(b: Seq<Seq<bool>>, h: int, w: int, r: int, c: int) -> bool {
    clamped_tally(b, h, w, r, c) == 3 || (clamped_tally(b, h, w, r, c) == 2 && b[r][c])
}

/// Next state of the cell at (r, c) under the chosen boundary policy.
pub open spec fn next_cell(
    p: BoundaryPolicy,
    b: Seq<Seq<bool>>,
    h: int,
    w: int,
    r: int,
    c: int,
) -> bool {
    match p {
        BoundaryPolicy::Toroidal => toroidal_next(b, h, w, r, c),
        BoundaryPolicy::Clamped => clamped_next(b, h, w, r, c),
    }
}

/// The entire next generation, every cell computed from the same snapshot
/// of the current generation.
pub open spec fn step(p: BoundaryPolicy, b: Seq<Seq<bool>>, h: nat, w: nat) -> Seq<Seq<bool>> {
    Seq::new(h, |r: int| Seq::new(w, |c: int| next_cell(p, b, h as int, w as int, r, c)))
}

/// The board after `n` generations.
pub open spec fn evolve(p: BoundaryPolicy, b: Seq<Seq<bool>>, h: nat, w: nat, n: nat) -> Seq<
    Seq<bool>,
>
    decreases n,
{
    if n == 0 {
        b
    } else {
        step(p, evolve(p, b, h, w, (n - 1) as nat), h, w)
    }
}

/// The eight wraparound neighbor positions of (r, c), row by row, the cell
/// itself left out.
pub open spec fn toroidal_neighbors(h: int, w: int, r: int, c: int) -> Seq<(int, int)> {
    let rm: int = wrap_dec(r, h);
    let rp: int = wrap_inc(r, h);
    let cm: int = wrap_dec(c, w);
    let cp: int = wrap_inc(c, w);
    seq![(rm, cm), (rm, c), (rm, cp), (r, cm), (r, cp), (rp, cm), (rp, c), (rp, cp)]
}

/// Law: on a torus at least three cells tall and three cells wide, every
/// cell has exactly eight neighbors under the wraparound lookup — the eight
/// positions are in range, pairwise distinct, and none of them is the cell
/// itself — including at rows and columns 0, `h - 1` and `w - 1`.
pub proof fn lemma_toroidal_eight_neighbors(h: int, w: int, r: int, c: int)
    requires
        3 <= h,
        3 <= w,
        0 <= r < h,
        0 <= c < w,
    ensures
        toroidal_neighbors(h, w, r, c).len() == 8,
        forall|i: int|
            0 <= i < 8 ==> {
                let n = #[trigger] toroidal_neighbors(h, w, r, c)[i];
                0 <= n.0 < h && 0 <= n.1 < w
            },
        forall|i: int| 0 <= i < 8 ==> #[trigger] toroidal_neighbors(h, w, r, c)[i] != (r, c),
        toroidal_neighbors(h, w, r, c).no_duplicates(),
{
    let ns = toroidal_neighbors(h, w, r, c);
    let rm: int = wrap_dec(r, h);
    let rp: int = wrap_inc(r, h);
    let cm: int = wrap_dec(c, w);
    let cp: int = wrap_inc(c, w);
    assert(rm != r && rp != r && rm != rp);
    assert(cm != c && cp != c && cm != cp);
    assert(0 <= rm < h && 0 <= rp < h && 0 <= cm < w && 0 <= cp < w);
    assert(ns[0] == (rm, cm) && ns[1] == (rm, c) && ns[2] == (rm, cp));
    assert(ns[3] == (r, cm) && ns[4] == (r, cp));
    assert(ns[5] == (rp, cm) && ns[6] == (rp, c) && ns[7] == (rp, cp));
    assert forall|i: int, j: int| 0 <= i < j < 8 implies ns[i] != ns[j] by {
        assert(ns[i].0 == rm || ns[i].0 == r || ns[i].0 == rp);
    }
    assert(ns.no_duplicates());
}

/// Law: a cell all eight of whose wraparound neighbors are dead is dead
/// after the update, whatever its own state — in particular, a single live
/// cell surrounded by dead cells dies in one generation.
pub proof fn lemma_isolated_cell_dies(b: Seq<Seq<bool>>, h: int, w: int, r: int, c: int)
    requires
        board_wf(b, h, w),
        3 <= h,
        3 <= w,
        0 <= r < h,
        0 <= c < w,
        forall|i: int|
            0 <= i < 8 ==> {
                let n = #[trigger] toroidal_neighbors(h, w, r, c)[i];
                !b[n.0][n.1]
            },
    ensures
        !toroidal_next(b, h, w, r, c),
{
    let ns = toroidal_neighbors(h, w, r, c);
    let rm: int = wrap_dec(r, h);
    let rp: int = wrap_inc(r, h);
    let cm: int = wrap_dec(c, w);
    let cp: int = wrap_inc(c, w);
    assert(!b[ns[0].0][ns[0].1] && !b[ns[1].0][ns[1].1] && !b[ns[2].0][ns[2].1]);
    assert(!b[ns[3].0][ns[3].1] && !b[ns[4].0][ns[4].1]);
    assert(!b[ns[5].0][ns[5].1] && !b[ns[6].0][ns[6].1] && !b[ns[7].0][ns[7].1]);
    assert(toroidal_tally(b, h, w, r, c) == live(b, r, c));
}

/// Every cell of the board is dead.
pub open spec fn all_dead(b: Seq<Seq<bool>>) -> bool {
    forall|r: int, c: int| 0 <= r < b.len() && 0 <= c < b[r].len() ==> !(#[trigger] b[r][c])
}

/// Law: one update of an all-dead board yields the same all-dead board,
/// under either boundary policy: no live neighbors can appear anywhere.
pub proof fn lemma_dead_board_step(p: BoundaryPolicy, b: Seq<Seq<bool>>, h: nat, w: nat)
    requires
        board_wf(b, h as int, w as int),
        all_dead(b),
    ensures
        step(p, b, h, w) == b,
{
    let s = step(p, b, h, w);
    assert forall|r: int, c: int| 0 <= r < h && 0 <= c < w implies !next_cell(
        p,
        b,
        h as int,
        w as int,
        r,
        c,
    ) by {
        let rm: int = wrap_dec(r, h as int);
        let rp: int = wrap_inc(r, h as int);
        let cm: int = wrap_dec(c, w as int);
        let cp: int = wrap_inc(c, w as int);
        assert(0 <= rm < h && 0 <= rp < h && 0 <= cm < w && 0 <= cp < w);
        assert(toroidal_tally(b, h as int, w as int, r, c) == 0);
        assert(clamped_tally(b, h as int, w as int, r, c) == 0);
    }
    assert(s =~~= b);
}

/// Law: an all-dead board stays all-dead for any number of generations:
/// the dead state is a fixed point of the update rule.
pub proof fn lemma_dead_board_fixed_point(
    p: BoundaryPolicy,
    b: Seq<Seq<bool>>,
    h: nat,
    w: nat,
    n: nat,
)
    requires
        board_wf(b, h as int, w as int),
        all_dead(b),
    ensures
        evolve(p, b, h, w, n) == b,
    decreases n,
{
    if n > 0 {
        lemma_dead_board_fixed_point(p, b, h, w, (n - 1) as nat);
        lemma_dead_board_step(p, b, h, w);
    }
}

} // verus!

