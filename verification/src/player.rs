use vstd::prelude::*;
use crate::angle::{
    is_normal, lemma_normalized_fixed, lemma_normalized_in_range, lemma_turn_round_trip,
    normalize_wide, normalized,
};
use crate::fixed::{
    floor_div, is_near_unit, lemma_near_unit_mirrored, lemma_product_bound, lemma_quotient_bound,
    near_unit, Trig, TRIG_ONE,
};
use crate::raycast::COORD_MAX;

verus! {

/// Where the viewer stands and where it looks. `(dx, dy)` is the heading as
/// a fixed-point unit vector; `y` grows downward, so `dy` is minus the sine.
/// The vector changes only together with the angle.
#[derive(Clone, Copy, Debug, PartialEq, Eq, Structural)]
pub struct PlayerState {
    pub x: i64,
    pub y: i64,
    pub angle: i64,
    pub dx: i64,
    pub dy: i64,
}

/// A command of the input side. `None` stands for the configured magnitude.
#[derive(Clone, Copy, Debug, PartialEq, Eq, Structural)]
pub enum Command {
    MoveForward(Option<i64>),
    MoveBackward(Option<i64>),
    TurnLeft(Option<i64>),
    TurnRight(Option<i64>),
}

/// The magnitudes of a move and of a turn where a command names none.
#[derive(Clone, Copy, Debug, PartialEq, Eq, Structural)]
pub struct Controls {
    pub step: i64,
    pub turn: i64,
}

/// Whether a coordinate lies within the world.
pub open spec fn in_world(v: int) -> bool {
    -COORD_MAX <= v <= COORD_MAX
}

/// The part of a step of length `step` that falls on an axis on which the
/// heading has the component `d`, rounded down.
pub open spec fn component(d: int, step: int) -> int {
    (d * step) / (TRIG_ONE as int)
}

/// The magnitude that a command carries, or the configured one.
pub open spec fn magnitude_of(given: Option<i64>, configured: i64) -> i64 {
    match given {
        Some(m) => m,
        None => configured,
    }
}

impl PlayerState {
    /// The position lies within the world, the angle in `0..FULL_TURN`, and
    /// the heading is a unit vector, up to rounding.
    pub open spec fn wf(&self) -> bool {
        &&& in_world(self.x as int)
        &&& in_world(self.y as int)
        &&& is_normal(self.angle as int)
        &&& near_unit(self.dx as int, self.dy as int)
    }

    /// Whether the heading vector is the one of direction `t`.
    pub open spec fn faces(&self, t: Trig) -> bool {
        self.dx == t.cos && self.dy == -t.sin
    }

    /// The state after a turn by `delta` to the left, where `t` is the
    /// direction of the new angle.
    pub open spec fn turned(self, delta: int, t: Trig) -> PlayerState {
        PlayerState {
            x: self.x,
            y: self.y,
            angle: normalized(self.angle + delta) as i64,
            dx: t.cos,
            dy: (-t.sin) as i64,
        }
    }

    /// Whether a move by `step` along the heading stays within the world.
    pub open spec fn can_move(self, step: int) -> bool {
        in_world(self.x + component(self.dx as int, step)) && in_world(
            self.y + component(self.dy as int, step),
        )
    }

    /// Whether a move by `step` against the heading stays within the world.
    pub open spec fn can_move_back(self, step: int) -> bool {
        in_world(self.x - component(self.dx as int, step)) && in_world(
            self.y - component(self.dy as int, step),
        )
    }

    /// The state after a move by `step` along the heading: unchanged where
    /// the move would leave the world.
    pub open spec fn moved(self, step: int) -> PlayerState {
        if self.can_move(step) {
            PlayerState {
                x: (self.x + component(self.dx as int, step)) as i64,
                y: (self.y + component(self.dy as int, step)) as i64,
                angle: self.angle,
                dx: self.dx,
                dy: self.dy,
            }
        } else {
            self
        }
    }

    /// The state after a move by `step` against the heading: unchanged where
    /// the move would leave the world.
    pub open spec fn moved_back(self, step: int) -> PlayerState {
        if self.can_move_back(step) {
            PlayerState {
                x: (self.x - component(self.dx as int, step)) as i64,
                y: (self.y - component(self.dy as int, step)) as i64,
                angle: self.angle,
                dx: self.dx,
                dy: self.dy,
            }
        } else {
            self
        }
    }

    /// The state after `cmd`, where `t` is the direction of the angle that
    /// a turn leads to.
    pub open spec fn applied(self, cmd: Command, controls: Controls, t: Trig) -> PlayerState {
        match cmd {
            Command::MoveForward(m) => self.moved(magnitude_of(m, controls.step) as int),
            Command::MoveBackward(m) => self.moved_back(magnitude_of(m, controls.step) as int),
            Command::TurnLeft(m) => self.turned(magnitude_of(m, controls.turn) as int, t),
            Command::TurnRight(m) => self.turned(-(magnitude_of(m, controls.turn) as int), t),
        }
    }

    /// The angle after `cmd`.
    pub open spec fn angle_after_spec(self, cmd: Command, controls: Controls) -> int {
        match cmd {
            Command::MoveForward(_) => self.angle as int,
            Command::MoveBackward(_) => self.angle as int,
            Command::TurnLeft(m) => normalized(self.angle + magnitude_of(m, controls.turn)),
            Command::TurnRight(m) => normalized(self.angle - magnitude_of(m, controls.turn)),
        }
    }

    /// A viewer at `(x, y)` that looks along `angle`, whose direction is `t`.
    /// Refuses a position outside the world and a direction out of range.
    pub fn new(x: i64, y: i64, angle: i64, t: Trig) -> (r: Option<PlayerState>)
        ensures
            r.is_some() == (in_world(x as int) && in_world(y as int) && t.wf()),
            r.is_some() ==> {
                &&& r.unwrap().wf()
                &&& r.unwrap().x == x
                &&& r.unwrap().y == y
                &&& r.unwrap().angle == normalized(angle as int)
                &&& r.unwrap().faces(t)
            },
    {
        if x < -COORD_MAX || x > COORD_MAX || y < -COORD_MAX || y > COORD_MAX {
            return None;
        }
        if !is_near_unit(t.cos, t.sin) {
            return None;
        }
        proof {
            lemma_near_unit_mirrored(t.cos as int, t.sin as int);
        }
        Some(PlayerState { x, y, angle: normalize_wide(angle as i128), dx: t.cos, dy: -t.sin })
    }

    /// The coordinate `p` moved by the part of `step` that falls on its axis,
    /// along the heading or against it, where that lies within the world.
    fn shifted(p: i64, d: i64, step: i64, forward: bool) -> (r: Option<i64>)
        requires
            in_world(p as int),
            -TRIG_ONE <= d <= TRIG_ONE,
        ensures
            forward ==> r.is_some() == in_world(p + component(d as int, step as int)),
            forward && r.is_some() ==> r.unwrap() == p + component(d as int, step as int),
            !forward ==> r.is_some() == in_world(p - component(d as int, step as int)),
            !forward && r.is_some() ==> r.unwrap() == p - component(d as int, step as int),
    {
        proof {
            lemma_product_bound(d as int, step as int, 65536, 0x8000_0000_0000_0000);
            lemma_quotient_bound(d * step, 65536, 0x8000_0000_0000_0000);
        }
        let part: i128 = floor_div((d as i128) * (step as i128), TRIG_ONE as i128);
        let to: i128 = if forward { (p as i128) + part } else { (p as i128) - part };
        if -(COORD_MAX as i128) <= to && to <= COORD_MAX as i128 {
            Some(to as i64)
        } else {
            None
        }
    }

    /// Moves by `step` along the heading, through walls too. Leaves the
    /// state as it is, and says so, where the move would leave the world.
    pub fn move_forward(&mut self, step: i64) -> (ok: bool)
        requires
            old(self).wf(),
        ensures
            final(self).wf(),
            ok == old(self).can_move(step as int),
            *final(self) == old(self).moved(step as int),
    {
        let nx = Self::shifted(self.x, self.dx, step, true);
        let ny = Self::shifted(self.y, self.dy, step, true);
        match (nx, ny) {
            (Some(x), Some(y)) => {
                self.x = x;
                self.y = y;
                true
            },
            _ => false,
        }
    }

    /// Moves by `step` against the heading, through walls too. Leaves the
    /// state as it is, and says so, where the move would leave the world.
    pub fn move_backward(&mut self, step: i64) -> (ok: bool)
        requires
            old(self).wf(),
        ensures
            final(self).wf(),
            ok == old(self).can_move_back(step as int),
            *final(self) == old(self).moved_back(step as int),
    {
        let nx = Self::shifted(self.x, self.dx, step, false);
        let ny = Self::shifted(self.y, self.dy, step, false);
        match (nx, ny) {
            (Some(x), Some(y)) => {
                self.x = x;
                self.y = y;
                true
            },
            _ => false,
        }
    }

    /// Turns left by `delta` and takes `t`, the direction of the new angle,
    /// as the new heading vector.
    pub fn turn_left(&mut self, delta: i64, t: Trig)
        requires
            old(self).wf(),
            t.wf(),
        ensures
            final(self).wf(),
            *final(self) == old(self).turned(delta as int, t),
            final(self).angle == normalized(old(self).angle + delta),
            final(self).faces(t),
    {
        proof {
            lemma_near_unit_mirrored(t.cos as int, t.sin as int);
        }
        self.angle = normalize_wide((self.angle as i128) + (delta as i128));
        self.dx = t.cos;
        self.dy = -t.sin;
    }

    /// Turns right by `delta` and takes `t`, the direction of the new angle,
    /// as the new heading vector.
    pub fn turn_right(&mut self, delta: i64, t: Trig)
        requires
            old(self).wf(),
            t.wf(),
        ensures
            final(self).wf(),
            *final(self) == old(self).turned(-(delta as int), t),
            final(self).angle == normalized(old(self).angle - delta),
            final(self).faces(t),
    {
        proof {
            lemma_near_unit_mirrored(t.cos as int, t.sin as int);
        }
        self.angle = normalize_wide((self.angle as i128) - (delta as i128));
        self.dx = t.cos;
        self.dy = -t.sin;
    }

    /// The angle that the viewer has after `cmd`: the one whose direction
    /// `apply` is to be given.
    pub fn angle_after(&self, cmd: Command, controls: &Controls) -> (a: i64)
        requires
            self.wf(),
        ensures
            a == self.angle_after_spec(cmd, *controls),
            is_normal(a as int),
    {
        match cmd {
            Command::MoveForward(_) => self.angle,
            Command::MoveBackward(_) => self.angle,
            Command::TurnLeft(m) => {
                let d: i64 = match m {
                    Some(v) => v,
                    None => controls.turn,
                };
                normalize_wide((self.angle as i128) + (d as i128))
            },
            Command::TurnRight(m) => {
                let d: i64 = match m {
                    Some(v) => v,
                    None => controls.turn,
                };
                normalize_wide((self.angle as i128) - (d as i128))
            },
        }
    }

    /// Carries out `cmd`. `t` is the direction of `angle_after(cmd)`; a move
    /// does not read it. Returns `false` only for a move that would leave
    /// the world, which is not made.
    pub fn apply(&mut self, cmd: Command, controls: &Controls, t: Trig) -> (ok: bool)
        requires
            old(self).wf(),
            t.wf(),
        ensures
            final(self).wf(),
            *final(self) == old(self).applied(cmd, *controls, t),
            final(self).angle == old(self).angle_after_spec(cmd, *controls),
            ok == match cmd {
                Command::MoveForward(m) => old(self).can_move(magnitude_of(m, controls.step) as int),
                Command::MoveBackward(m) => old(self).can_move_back(magnitude_of(m, controls.step) as int),
                _ => true,
            },
    {
        match cmd {
            Command::MoveForward(m) => {
                let s: i64 = match m {
                    Some(v) => v,
                    None => controls.step,
                };
                self.move_forward(s)
            },
            Command::MoveBackward(m) => {
                let s: i64 = match m {
                    Some(v) => v,
                    None => controls.step,
                };
                self.move_backward(s)
            },
            Command::TurnLeft(m) => {
                let d: i64 = match m {
                    Some(v) => v,
                    None => controls.turn,
                };
                self.turn_left(d, t);
                true
            },
            Command::TurnRight(m) => {
                let d: i64 = match m {
                    Some(v) => v,
                    None => controls.turn,
                };
                self.turn_right(d, t);
                true
            },
        }
    }
}

/// A turn to the left by `delta` and then to the right by `delta` (or the
/// other way round, for a negative `delta`) brings back the angle and, given
/// the direction of the first angle again, the heading vector.
pub proof fn lemma_turn_there_and_back(p: PlayerState, delta: int, there: Trig, back: Trig)
    requires
        p.wf(),
        there.wf(),
        back.wf(),
        p.faces(back),
    ensures
        p.turned(delta, there).turned(-delta, back) == p,
{
    lemma_turn_round_trip(p.angle as int, delta);
    lemma_normalized_fixed(p.angle as int);
    lemma_normalized_in_range(p.angle + delta);
}

/// The state after the turns `deltas`, one after the other, where `trigs`
/// holds the direction after each.
pub open spec fn turned_all(p: PlayerState, deltas: Seq<int>, trigs: Seq<Trig>) -> PlayerState
    decreases deltas.len(),
{
    if deltas.len() == 0 || trigs.len() != deltas.len() {
        p
    } else {
        turned_all(p, deltas.drop_last(), trigs.drop_last()).turned(deltas.last(), trigs.last())
    }
}

/// After any sequence of turns the angle lies in `0..FULL_TURN`.
pub proof fn lemma_turns_keep_angle_normal(p: PlayerState, deltas: Seq<int>, trigs: Seq<Trig>)
    requires
        is_normal(p.angle as int),
    ensures
        is_normal(turned_all(p, deltas, trigs).angle as int),
    decreases deltas.len(),
{
    if deltas.len() != 0 && trigs.len() == deltas.len() {
        let before = turned_all(p, deltas.drop_last(), trigs.drop_last());
        lemma_normalized_in_range(before.angle + deltas.last());
    }
}

} // verus!
