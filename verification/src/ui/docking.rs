//! Docking: panels take their place along the edges of the window, one
//! after the other, each out of what the panels before it left free.

use crate::scalar::Scalar;
use vstd::prelude::*;

verus! {

/// The edge of the free area that a panel is docked to.
#[derive(Clone, Copy, Debug, PartialEq, Eq)]
pub enum DockingDirection {
    Top,
    Bottom,
    Left,
    Right,
}

/// A rectangle, by its top left corner and its size. `y` grows downward.
#[derive(Copy, Debug, PartialEq)]
pub struct Rect<S> {
    pub x: S,
    pub y: S,
    pub width: S,
    pub height: S,
}

impl<S: Copy> Clone for Rect<S> {
    fn clone(&self) -> (r: Self)
        ensures
            r == *self,
    {
        *self
    }
}

/// The place of a panel of the given extent docked to an edge of `free`:
/// the full length of that edge, and `extent` deep.
pub open spec fn docked<S: Scalar>(free: Rect<S>, direction: DockingDirection, extent: S) -> Rect<
    S,
> {
    match direction {
        DockingDirection::Top => Rect { x: free.x, y: free.y, width: free.width, height: extent },
        DockingDirection::Bottom => Rect {
            x: free.x,
            y: free.height.spec_minus(extent).spec_plus(free.y),
            width: free.width,
            height: extent,
        },
        DockingDirection::Left => Rect { x: free.x, y: free.y, width: extent, height: free.height },
        DockingDirection::Right => Rect {
            x: free.width.spec_minus(extent).spec_plus(free.x),
            y: free.y,
            width: extent,
            height: free.height,
        },
    }
}

/// What a panel of the given extent docked to an edge of `free` leaves free.
pub open spec fn remaining<S: Scalar>(
    free: Rect<S>,
    direction: DockingDirection,
    extent: S,
) -> Rect<S> {
    match direction {
        DockingDirection::Top => Rect {
            x: free.x,
            y: free.y.spec_plus(extent),
            width: free.width,
            height: free.height.spec_minus(extent),
        },
        DockingDirection::Bottom => Rect {
            x: free.x,
            y: free.y,
            width: free.width,
            height: free.height.spec_minus(extent),
        },
        DockingDirection::Left => Rect {
            x: free.x.spec_plus(extent),
            y: free.y,
            width: free.width.spec_minus(extent),
            height: free.height,
        },
        DockingDirection::Right => Rect {
            x: free.x,
            y: free.y,
            width: free.width.spec_minus(extent),
            height: free.height,
        },
    }
}

/// What is free of `free` after the first `count` of `panels` are docked.
pub open spec fn free_after<S: Scalar>(
    free: Rect<S>,
    panels: Seq<(DockingDirection, S)>,
    count: int,
) -> Rect<S>
    decreases count,
{
    if count <= 0 {
        free
    } else {
        remaining(free_after(free, panels, count - 1), panels[count - 1].0, panels[count - 1].1)
    }
}

/// The places of `panels`, docked in their order into `free`.
pub open spec fn places<S: Scalar>(free: Rect<S>, panels: Seq<(DockingDirection, S)>) -> Seq<
    Rect<S>,
> {
    Seq::new(
        panels.len(),
        |i: int| docked(free_after(free, panels, i), panels[i].0, panels[i].1),
    )
}

/// Docks one panel: returns its place and takes it out of `free`.
pub fn dock<S: Scalar>(free: &mut Rect<S>, direction: DockingDirection, extent: S) -> (place: Rect<
    S,
>)
    ensures
        place == docked(*old(free), direction, extent),
        *final(free) == remaining(*old(free), direction, extent),
{
    match direction {
        DockingDirection::Top => {
            let y = free.y;
            free.y = free.y.plus(extent);
            free.height = free.height.minus(extent);
            Rect { x: free.x, y, width: free.width, height: extent }
        },
        DockingDirection::Bottom => {
            free.height = free.height.minus(extent);
            Rect { x: free.x, y: free.height.plus(free.y), width: free.width, height: extent }
        },
        DockingDirection::Left => {
            let x = free.x;
            free.x = free.x.plus(extent);
            free.width = free.width.minus(extent);
            Rect { x, y: free.y, width: extent, height: free.height }
        },
        DockingDirection::Right => {
            free.width = free.width.minus(extent);
            Rect { x: free.width.plus(free.x), y: free.y, width: extent, height: free.height }
        },
    }
}

/// Docks `panels` in their order into `free`, which is left with what no
/// panel took. A panel is an edge and an extent.
pub fn layout<S: Scalar>(free: &mut Rect<S>, panels: &[(DockingDirection, S)]) -> (r: Vec<Rect<S>>)
    ensures
        r@ == places(*old(free), panels@),
        *final(free) == free_after(*old(free), panels@, panels@.len() as int),
{
    let mut r: Vec<Rect<S>> = Vec::new();
    let mut i: usize = 0;
    while i < panels.len()
        invariant
            i <= panels@.len(),
            r@.len() == i,
            *free == free_after(*old(free), panels@, i as int),
            forall|j: int| 0 <= j < i ==> #[trigger] r@[j] == places(*old(free), panels@)[j],
        decreases panels@.len() - i,
    {
        let panel = panels[i];
        let place = dock(free, panel.0, panel.1);
        r.push(place);
        i += 1;
    }
    assert(r@ =~= places(*old(free), panels@));
    r
}

} // verus!
