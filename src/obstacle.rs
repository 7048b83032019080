use vstd::prelude::*;

use crate::player::Player;

verus! {

/// Columns of the visible screen.
pub const SCREEN_WIDTH: i32 = 80;

/// Rows of the visible screen.
pub const SCREEN_HEIGHT: i32 = 50;

/// World columns between two consecutive obstacles: half a screen.
pub const OBSTACLE_SPACING: i32 = 40;

/// A vertical wall at world column `x` with a passable gap of `size` rows
/// centred on row `gap_y`.
#[derive(Debug, Clone, Copy, PartialEq, Eq, Structural)]
pub struct Obstacle {
    pub x: i32,
    pub gap_y: i32,
    pub size: i32,
}

impl Obstacle {
    pub open spec fn wf(self) -> bool {
        self.size > 0
    }

    /// First row of the gap band.
    pub open spec fn gap_top(self) -> int {
        self.gap_y - self.size / 2
    }

    /// Last row of the gap band.
    pub open spec fn gap_bottom(self) -> int {
        self.gap_y + self.size / 2
    }

    /// The player stands in this obstacle's column, above or below the gap.
    pub open spec fn hits(self, player: Player) -> bool {
        player.x == self.x && (player.y < self.gap_top() || player.y > self.gap_bottom())
    }

    /// The rows bounding the gap band: the top wall covers the rows before
    /// the first, the bottom wall those from the second on.
    pub fn gap_bounds(&self) -> (r: (i64, i64))
        requires
            self.wf(),
        ensures
            r.0 == self.gap_top(),
            r.1 == self.gap_bottom(),
    {
        let half: i64 = (self.size as u32 / 2) as i64;
        (self.gap_y as i64 - half, self.gap_y as i64 + half)
    }

    /// Whether the player collides with this obstacle.
    pub fn hit_obstacle(&self, player: &Player) -> (r: bool)
        requires
            self.wf(),
        ensures
            r == self.hits(*player),
    {
        let (top, bottom) = self.gap_bounds();
        let does_x_match = player.x == self.x;
        let above_gap = (player.y as i64) < top;
        let below_gap = (player.y as i64) > bottom;
        does_x_match && (above_gap || below_gap)
    }
}

/// Places obstacles at a fixed spacing, continuing from `next_x`.
#[derive(Debug, Clone, Copy, PartialEq, Eq, Structural)]
pub struct Generator {
    pub next_x: i32,
}

/// The obstacles that `rolls` of (gap row, gap size) become when placed from
/// world column `start` on.
pub open spec fn placed(start: int, rolls: Seq<(i32, i32)>) -> Seq<Obstacle> {
    Seq::new(
        rolls.len(),
        |i: int| Obstacle { x: (start + OBSTACLE_SPACING * i) as i32, gap_y: rolls[i].0, size: rolls[i].1 },
    )
}

impl Generator {
    /// A generator whose first obstacle stands at world column `x`.
    pub fn new(x: i32) -> (r: Generator)
        ensures
            r.next_x == x,
    {
        Generator { next_x: x }
    }

    /// The next obstacle, with the given gap; the one after it stands
    /// `OBSTACLE_SPACING` columns further.
    pub fn place(&mut self, gap_y: i32, size: i32) -> (r: Obstacle)
        requires
            old(self).next_x <= i32::MAX - OBSTACLE_SPACING,
        ensures
            r == (Obstacle { x: old(self).next_x, gap_y, size }),
            final(self).next_x == old(self).next_x + OBSTACLE_SPACING,
    {
        let r = Obstacle { x: self.next_x, gap_y, size };
        self.next_x = self.next_x + OBSTACLE_SPACING;
        r
    }
}

} // verus!
