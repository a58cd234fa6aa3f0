//! The mathematics of the game, on patterns: matrices of booleans that say
//! which positions are alive. Everything here is specification.

use vstd::prelude::*;

verus! {

/// The width of a pattern is the length of its first row, 0 if it has none.
pub open spec fn pattern_width(p: Seq<Seq<bool>>) -> nat {
    if p.len() > 0 {
        p[0].len()
    } else {
        0
    }
}

/// Whether every row of the pattern is as long as the first.
pub open spec fn rectangular(p: Seq<Seq<bool>>) -> bool {
    forall|r: int| 0 <= r < p.len() ==> (#[trigger] p[r]).len() == pattern_width(p)
}

/// Liveness of position `(r, c)`; a position outside the pattern is dead.
pub open spec fn live_at(p: Seq<Seq<bool>>, r: int, c: int) -> bool {
    0 <= r < p.len() && 0 <= c < p[r].len() && p[r][c]
}

/// 1 if `(r, c)` is a live cell of the pattern, 0 otherwise.
pub open spec fn live(p: Seq<Seq<bool>>, r: int, c: int) -> int {
    if live_at(p, r, c) {
        1
    } else {
        0
    }
}

/// The number of live cells among the eight positions around `(r, c)`.
/// Positions beyond an edge hold nothing: the grid does not wrap around.
pub open spec fn live_neighbours(p: Seq<Seq<bool>>, r: int, c: int) -> int {
    live(p, r - 1, c - 1) + live(p, r - 1, c) + live(p, r - 1, c + 1)
        + live(p, r, c - 1) + live(p, r, c + 1)
        + live(p, r + 1, c - 1) + live(p, r + 1, c) + live(p, r + 1, c + 1)
}

/// The classical rule: a live cell survives with two or three live
/// neighbours, a dead cell is born with exactly three.
pub open spec fn next_alive(alive: bool, n: int) -> bool {
    if alive {
        n == 2 || n == 3
    } else {
        n == 3
    }
}

/// The generation that follows `p`: every cell judged by the rule against
/// the neighbours it has in `p`.
pub open spec fn next_generation(p: Seq<Seq<bool>>) -> Seq<Seq<bool>> {
    Seq::new(
        p.len(),
        |r: int| Seq::new(p[r].len(), |c: int| next_alive(p[r][c], live_neighbours(p, r, c))),
    )
}

/// The glyph that stands for one cell in the text rendering.
pub open spec fn glyph(alive: bool) -> char {
    if alive {
        '\u{2588}'
    } else {
        '\u{2592}'
    }
}

/// One row of the rendering: a glyph per cell, then a line feed.
pub open spec fn row_text(row: Seq<bool>) -> Seq<char> {
    Seq::new(row.len(), |c: int| glyph(row[c])).push('\n')
}

/// The rendering of the first `n` rows of a pattern, one line per row.
pub open spec fn text_of(p: Seq<Seq<bool>>, n: int) -> Seq<char>
    decreases n,
{
    if n <= 0 {
        Seq::empty()
    } else {
        text_of(p, n - 1) + row_text(p[n - 1])
    }
}

} // verus!
