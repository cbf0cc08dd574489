//! Whether an edit snaps to the grid, and to what.

use vstd::prelude::*;

use crate::time::beat_grid::{spec_round_to_multiple, BeatGrid, SnapResolution};
use crate::time::frames::Frames;

verus! {

/// Whether an edit snaps, and to what.
#[derive(Debug, Clone, Copy, PartialEq, Eq, Structural)]
pub enum Snap {
    /// Snap to a resolution of the grid.
    To(SnapResolution),
    /// Place exactly where asked.
    Off,
}

impl Snap {
    /// Where an edit asked for at `position` lands: the nearest multiple of
    /// the resolution on the grid, or the position itself when snapping is
    /// off or the resolution is a single sample.
    pub open spec fn landing(self, grid: BeatGrid, position: int) -> int {
        match self {
            Snap::Off => position,
            Snap::To(resolution) => match grid.spec_ticks_per_unit(resolution) {
                None => position,
                Some(unit) => grid.spec_frames_at(spec_round_to_multiple(grid.spec_ticks_at(position), unit)),
            },
        }
    }

    /// Where an edit asked for at `position` lands.
    pub fn apply(self, grid: &BeatGrid, position: Frames) -> (landed: Frames)
        requires
            grid.well_formed(),
        ensures
            landed.0 == self.landing(*grid, position.0 as int),
            match self {
                Snap::Off => landed == position,
                Snap::To(resolution) => match grid.spec_ticks_per_unit(resolution) {
                    None => landed == position,
                    Some(unit) => landed.0 == grid.spec_frames_at(
                        spec_round_to_multiple(grid.spec_ticks_at(position.0 as int), unit),
                    ),
                },
            },
    {
        match self {
            Snap::To(resolution) => grid.snap(position, resolution),
            Snap::Off => position,
        }
    }
}

} // verus!
