//! Pointer locks and confinements that clients ask for.

use crate::geometry::Point;
use crate::state::State;
use crate::windows::{find_window, surfaces};
use vstd::prelude::*;

verus! {

/// The pointer is over `surface`.
pub open spec fn is_over(focus: Option<u64>, surface: u64) -> bool {
    focus == Some(surface)
}

/// A constraint on `surface` takes effect at once when the pointer is over that surface.
pub fn constraint_takes_effect(focus: Option<u64>, surface: u64) -> (b: bool)
    ensures
        b == (focus == Some(surface)),
        b == is_over(focus, surface),
{
    match focus {
        Some(focused) => focused == surface,
        None => false,
    }
}

impl State {
    /// Where a hinted position is measured from.
    pub open spec fn hint_origin(self, surface: u64, active: bool, corner: Point) -> Option<
        Point,
    > {
        if !active {
            None
        } else if surfaces(self.space@).contains(surface) {
            Some(corner)
        } else {
            Some(Point { x: 0, y: 0 })
        }
    }

    /// Where the position a client hints at is measured from: the corner of its window, at
    /// `corner`, or the origin if `surface` is no mapped window. Without an active constraint
    /// the hint is ignored.
    pub fn cursor_hint_origin(&self, surface: u64, active: bool, corner: Point) -> (origin: Option<
        Point,
    >)
        ensures
            origin == (if !active {
                None
            } else if surfaces(self.space@).contains(surface) {
                Some(corner)
            } else {
                Some(Point { x: 0, y: 0 })
            }),
            origin == self.hint_origin(surface, active, corner),
    {
        if !active {
            return None;
        }
        match find_window(&self.space, surface) {
            Some(i) => {
                assert(surfaces(self.space@)[i as int] == surface);
                Some(corner)
            },
            None => {
                proof {
                    if surfaces(self.space@).contains(surface) {
                        let k = surfaces(self.space@).index_of(surface);
                        assert(self.space@[k].surface == surface);
                    }
                }
                Some(Point { x: 0, y: 0 })
            },
        }
    }
}

/// A hint counts only under an active constraint. It is measured from the corner of its window
/// if that is mapped, and from the origin otherwise.
pub proof fn law_a_hint_is_measured_from_a_mapped_window(
    state: State,
    surface: u64,
    active: bool,
    corner: Point,
)
    ensures
        state.hint_origin(surface, active, corner) is Some <==> active,
        active && (exists|i: int|
            0 <= i < state.space@.len() && (#[trigger] state.space@[i]).surface == surface)
            ==> state.hint_origin(surface, active, corner) == Some(corner),
        active && (forall|i: int|
            0 <= i < state.space@.len() ==> (#[trigger] state.space@[i]).surface != surface)
            ==> state.hint_origin(surface, active, corner) == Some(Point { x: 0, y: 0 }),
{
    if exists|i: int|
        0 <= i < state.space@.len() && (#[trigger] state.space@[i]).surface == surface {
        let i = choose|i: int|
            0 <= i < state.space@.len() && (#[trigger] state.space@[i]).surface == surface;
        assert(surfaces(state.space@)[i] == surface);
    }
    if surfaces(state.space@).contains(surface) {
        let k = surfaces(state.space@).index_of(surface);
        assert(state.space@[k].surface == surface);
    }
}

/// A constraint takes effect over its own surface: not over another, and not over none.
pub proof fn law_a_constraint_takes_effect_over_its_surface(surface: u64, other: u64)
    ensures
        is_over(Some(surface), surface),
        other != surface ==> !is_over(Some(other), surface),
        !is_over(None, surface),
{
}

} // verus!
