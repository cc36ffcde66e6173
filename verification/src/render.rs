//! What the renderer draws for a cell: the decision, per ruleset and state,
//! whether a cell gets a tile and of which kind. Colours, positions and the
//! drawing itself are the renderer's.

use vstd::prelude::*;

verus! {

/// The cellular automaton ruleset whose state is being rendered.
#[derive(Clone, Copy, Debug, PartialEq, Eq, Structural)]
pub enum Ruleset {
    Conway,
    BriansBrain,
}

/// The kinds of tile the renderer draws, one colour each.
#[derive(Clone, Copy, Debug, PartialEq, Eq, Structural)]
pub enum CellPaint {
    /// A live Conway cell (green).
    ConwayAlive,
    /// A live Brian's Brain cell (yellow).
    BrianAlive,
    /// A dying Brian's Brain cell (orange).
    BrianDying,
    /// A dead, marked Brian's Brain cell (translucent red).
    BrianDead,
}

/// The tile of a cell in `state` under `ruleset`; `None` where nothing is
/// drawn (empty cells, and under Conway every cell but a live one).
pub open spec fn paint_of(ruleset: Ruleset, state: i32) -> Option<CellPaint> {
    match ruleset {
        Ruleset::BriansBrain => {
            if state == 1 {
                Some(CellPaint::BrianAlive)
            } else if state == 2 {
                Some(CellPaint::BrianDying)
            } else if state == 3 {
                Some(CellPaint::BrianDead)
            } else {
                None
            }
        },
        Ruleset::Conway => {
            if state == 1 {
                Some(CellPaint::ConwayAlive)
            } else {
                None
            }
        },
    }
}

/// Which tile, if any, the renderer draws for a cell in `state` under
/// `ruleset`.
pub fn cell_paint(ruleset: Ruleset, state: i32) -> (paint: Option<CellPaint>)
    ensures
        paint == paint_of(ruleset, state),
{
    match (ruleset, state) {
        (Ruleset::BriansBrain, 1) => Some(CellPaint::BrianAlive),
        (Ruleset::BriansBrain, 2) => Some(CellPaint::BrianDying),
        (Ruleset::BriansBrain, 3) => Some(CellPaint::BrianDead),
        (Ruleset::BriansBrain, _) => None,
        (_, 1) => Some(CellPaint::ConwayAlive),
        (_, _) => None,
    }
}

} // verus!
