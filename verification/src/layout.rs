//! Areas of the screen, and how they are divided.

use ratatui::layout as outside;
use vstd::prelude::*;

verus! {

/// An area of the screen, in cells.
#[derive(Clone, Copy, Debug, PartialEq, Eq, Structural)]
pub struct Rect {
    pub x: u16,
    pub y: u16,
    pub width: u16,
    pub height: u16,
}

/// The area that holds nothing.
pub open spec fn nowhere() -> Rect {
    Rect { x: 0, y: 0, width: 0, height: 0 }
}

impl Default for Rect {
    fn default() -> (r: Self)
        ensures
            r == nowhere(),
    {
        Rect { x: 0, y: 0, width: 0, height: 0 }
    }
}

/// Which way an area is divided.
#[derive(Clone, Copy, Debug, PartialEq, Eq, Structural)]
pub enum Direction {
    Vertical,
    Horizontal,
}

/// How large a part is to be.
#[derive(Clone, Copy, Debug, PartialEq, Eq, Structural)]
pub enum Constraint {
    /// So many cells.
    Length(u16),
    /// At least so many cells.
    Min(u16),
    /// So many hundredths of the whole.
    Percentage(u16),
}

/// Whether `part` spans `area` across the direction and lies inside it along the
/// direction.
pub open spec fn is_part(direction: Direction, area: Rect, part: Rect) -> bool {
    match direction {
        Direction::Vertical => {
            &&& part.x == area.x && part.width == area.width
            &&& area.y <= part.y && part.y + part.height <= area.y + area.height
        },
        Direction::Horizontal => {
            &&& part.y == area.y && part.height == area.height
            &&& area.x <= part.x && part.x + part.width <= area.x + area.width
        },
    }
}

/// Whether a layout with the given direction and constraints can divide `area`
/// into `parts`.
pub uninterp spec fn can_split(
    direction: Direction,
    constraints: Seq<Constraint>,
    area: Rect,
    parts: Seq<Rect>,
) -> bool;

/// `ratatui::layout::Layout::split` of a layout with the given direction and
/// constraints and otherwise default settings. There is one part for each
/// constraint; each spans the area across the direction, and lies inside it
/// along the direction, which the layout requires of its solver. Where exactly
/// the parts begin and end is not stated: the solver walks hash maps, and where
/// the constraints leave a choice its result can differ from run to run. So
/// only the relation between what goes in and what can come out has a name.
#[verifier::external_body]
pub(crate) fn split(
    direction: Direction,
    constraints: &Vec<Constraint>,
    area: Rect,
) -> (r: Vec<Rect>)
    ensures
        can_split(direction, constraints@, area, r@),
        r@.len() == constraints@.len(),
        forall|i: int| 0 <= i < r@.len() ==> is_part(direction, area, #[trigger] r@[i]),
{
    let direction = match direction {
        Direction::Vertical => outside::Direction::Vertical,
        Direction::Horizontal => outside::Direction::Horizontal,
    };
    let constraints = constraints.iter().map(|c| match c {
        Constraint::Length(n) => outside::Constraint::Length(*n),
        Constraint::Min(n) => outside::Constraint::Min(*n),
        Constraint::Percentage(n) => outside::Constraint::Percentage(*n),
    });
    let Rect { x, y, width, height } = area;
    let layout = outside::Layout::default().direction(direction).constraints(constraints);
    let parts = layout.split(outside::Rect { x, y, width, height });
    parts.iter().map(|p| Rect { x: p.x, y: p.y, width: p.width, height: p.height }).collect()
}

} // verus!
