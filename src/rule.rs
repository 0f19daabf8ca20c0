use vstd::prelude::*;

verus! {

/// The grid is rectangular: every one of its rows has `width` cells.
pub open spec fn is_grid(g: Seq<Seq<bool>>, width: nat) -> bool {
    forall|r: int| 0 <= r < g.len() ==> #[trigger] g[r].len() == width
}

/// Whether `(r, c)` lies inside `g` and holds a live cell; positions outside
/// the grid count as dead.
pub open spec fn alive_at(g: Seq<Seq<bool>>, r: int, c: int) -> bool {
    &&& 0 <= r < g.len()
    &&& 0 <= c < g[r].len()
    &&& g[r][c]
}

pub open spec fn count_of(b: bool) -> nat {
    if b { 1 } else { 0 }
}

/// The number of live cells among `(r + dr, c + dc)` for `dr, dc` in `{-1, 0}`.
pub open spec fn neighbors(g: Seq<Seq<bool>>, r: int, c: int) -> nat {
    count_of(alive_at(g, r - 1, c - 1)) + count_of(alive_at(g, r - 1, c))
        + count_of(alive_at(g, r, c - 1)) + count_of(alive_at(g, r, c))
}

/// The state of cell `(r, c)` in the generation after `g`.
pub open spec fn next_cell(g: Seq<Seq<bool>>, r: int, c: int) -> bool {
    2 <= neighbors(g, r, c) <= 3
}

/// The generation after `g`, every cell computed from `g` alone.
pub open spec fn next_generation(g: Seq<Seq<bool>>) -> Seq<Seq<bool>> {
    Seq::new(g.len(), |r: int| Seq::new(g[r].len(), |c: int| next_cell(g, r, c)))
}

/// Advancing is a function of the grid's contents: equal grids have equal
/// successors.
pub proof fn lemma_advance_deterministic(a: Seq<Seq<bool>>, b: Seq<Seq<bool>>)
    requires
        a == b,
    ensures
        next_generation(a) == next_generation(b),
{
}

/// Advancing keeps the grid's shape: as many rows, each as wide as before.
pub proof fn lemma_advance_keeps_shape(g: Seq<Seq<bool>>, width: nat)
    requires
        is_grid(g, width),
    ensures
        next_generation(g).len() == g.len(),
        is_grid(next_generation(g), width),
{
}

} // verus!
