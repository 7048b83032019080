use vstd::prelude::*;

verus! {

/// Velocity gained on each physics tick, in tenths of a row per tick.
pub const GRAVITY: i32 = 2;

/// Once the velocity reaches this value, gravity is no longer added.
pub const TERMINAL_VELOCITY: i32 = 20;

/// The velocity an accepted upward impulse sets (negative is upward).
pub const FLAP_VELOCITY: i32 = -20;

/// An impulse is refused while the velocity is above this value.
pub const MAX_FLAP_VELOCITY: i32 = 50;

/// Why an upward impulse was refused.
#[derive(Debug, Clone, Copy, PartialEq, Eq, Structural)]
pub enum PlayerError {
    AlreadyDead,
    FallingTooFast,
}

/// The controllable entity.
///
/// `x` is the horizontal distance travelled in world columns, `y` the row
/// (0 is the top of the screen), and `velocity` the vertical speed in tenths
/// of a row per tick, positive downward.
#[derive(Debug, Clone, Copy, PartialEq, Eq, Structural)]
pub struct Player {
    pub x: i32,
    pub y: i32,
    pub velocity: i32,
    pub alive: bool,
}

/// Whole rows covered in one tick at `velocity` tenths: truncated toward zero.
pub open spec fn rows_of(velocity: int) -> int {
    if velocity >= 0 {
        velocity / 10
    } else {
        -((-velocity) / 10)
    }
}

fn rows(velocity: i32) -> (r: i32)
    ensures
        r == rows_of(velocity as int),
{
    if velocity >= 0 {
        velocity / 10
    } else {
        let down: i64 = -(velocity as i64);
        (-(down / 10)) as i32
    }
}

impl Player {
    /// The velocity after gravity has been applied once.
    pub open spec fn accelerated(self) -> int {
        if self.velocity < TERMINAL_VELOCITY {
            self.velocity + GRAVITY
        } else {
            self.velocity as int
        }
    }

    /// Whether one physics tick stays within the range of `i32`.
    pub open spec fn can_advance(self) -> bool {
        self.alive ==> {
            &&& self.x < i32::MAX
            &&& i32::MIN <= self.y + rows_of(self.accelerated()) <= i32::MAX
        }
    }

    /// The player after one physics tick, and whether the move went through.
    pub open spec fn advanced(self) -> (Player, bool) {
        if !self.alive {
            (self, false)
        } else {
            let v = self.accelerated();
            let y = self.y + rows_of(v);
            if y < 0 {
                (Player { x: (self.x + 1) as i32, y: 0, velocity: v as i32, alive: false }, false)
            } else {
                (Player { x: (self.x + 1) as i32, y: y as i32, velocity: v as i32, alive: true }, true)
            }
        }
    }

    /// What an upward impulse yields: the new player, or why it was refused.
    pub open spec fn flapped(self) -> Result<Player, PlayerError> {
        if !self.alive {
            Err(PlayerError::AlreadyDead)
        } else if self.velocity > MAX_FLAP_VELOCITY {
            Err(PlayerError::FallingTooFast)
        } else {
            Ok(Player { velocity: FLAP_VELOCITY, ..self })
        }
    }

    /// Whether one physics tick stays within the range of `i32`.
    pub fn fits_advance(&self) -> (r: bool)
        ensures
            r == self.can_advance(),
    {
        if !self.alive {
            return true;
        }
        let v: i32 = if self.velocity < TERMINAL_VELOCITY {
            self.velocity + GRAVITY
        } else {
            self.velocity
        };
        let y: i64 = self.y as i64 + rows(v) as i64;
        self.x < i32::MAX && i32::MIN as i64 <= y && y <= i32::MAX as i64
    }

    /// A live player at rest at the given position.
    pub fn new(x: i32, y: i32) -> (r: Player)
        ensures
            r == (Player { x, y, velocity: 0, alive: true }),
    {
        Player { x, y, velocity: 0, alive: true }
    }

    /// One physics tick: gravity, one column forward, and the vertical move.
    ///
    /// Returns `None`, changing nothing, for a dead player; returns `None` and
    /// kills the player, pinned to row 0, when the move would leave the top.
    pub fn try_move(&mut self) -> (r: Option<()>)
        requires
            old(self).can_advance(),
        ensures
            (*final(self), r is Some) == old(self).advanced(),
            old(self).alive && old(self).velocity < TERMINAL_VELOCITY ==> final(self).velocity
                == old(self).velocity + GRAVITY,
            final(self).velocity >= old(self).velocity,
            !old(self).alive ==> r is None && *final(self) == *old(self),
    {
        if !self.alive {
            return None;
        }
        if self.velocity < TERMINAL_VELOCITY {
            self.velocity = self.velocity + GRAVITY;
        }
        self.x = self.x + 1;
        self.y = self.y + rows(self.velocity);
        if self.y < 0 {
            self.y = 0;
            self.alive = false;
            return None;
        }
        Some(())
    }

    /// Upward impulse: sets the velocity to `FLAP_VELOCITY`.
    ///
    /// Refused for a dead player and while falling faster than
    /// `MAX_FLAP_VELOCITY`; a refused impulse changes nothing.
    pub fn flap(&mut self) -> (r: Result<(), PlayerError>)
        ensures
            match old(self).flapped() {
                Ok(p) => r is Ok && *final(self) == p,
                Err(e) => r == Err::<(), PlayerError>(e) && *final(self) == *old(self),
            },
            r is Ok ==> final(self).velocity == FLAP_VELOCITY,
    {
        if !self.alive {
            return Err(PlayerError::AlreadyDead);
        }
        if self.velocity > MAX_FLAP_VELOCITY {
            return Err(PlayerError::FallingTooFast);
        }
        self.velocity = FLAP_VELOCITY;
        Ok(())
    }

    /// Puts the player back alive and at rest at the given position.
    pub fn reset(&mut self, x: i32, y: i32)
        ensures
            *final(self) == (Player { x, y, velocity: 0, alive: true }),
    {
        self.x = x;
        self.y = y;
        self.velocity = 0;
        self.alive = true;
    }

    /// The world column and the row.
    pub fn position(&self) -> (r: (i32, i32))
        ensures
            r == (self.x, self.y),
    {
        (self.x, self.y)
    }

    pub fn is_alive(&self) -> (r: bool)
        ensures
            r == self.alive,
    {
        self.alive
    }

    pub fn kill(&mut self)
        ensures
            *final(self) == (Player { alive: false, ..*old(self) }),
    {
        self.alive = false;
    }
}

/// A move that hits the top pins the player to row 0 and kills it, and any
/// further tick then leaves it as it is and reports the move blocked again.
pub proof fn lemma_blocked_is_final(p: Player)
    requires
        p.alive,
        p.y + rows_of(p.accelerated()) < 0,
    ensures
        p.advanced().0.y == 0,
        !p.advanced().0.alive,
        !p.advanced().1,
        p.advanced().0.advanced() == (p.advanced().0, false),
{
}

} // verus!
