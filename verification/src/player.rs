//! The player's ship: where it starts, and how it moves while staying in the
//! playfield.

use vstd::prelude::*;
use crate::shape::{Rectangle, RectangleView, Shape, ShapeView};
use crate::{HEIGHT, WIDTH};

verus! {

/// The player's ship.
pub struct Player {
    pub shape: Shape,
}

/// What one step does to one axis of the ship.
pub struct AxisStep {
    /// The coordinate after the step.
    pub position: int,
    /// The ship ran into an edge and loses its speed along this axis.
    pub stopped: bool,
}

/// One step along one axis. `position` is the ship's coordinate, `extent`
/// its size along the axis, `limit` the size of the playfield along it and
/// `speed` the distance to move.
///
/// The last coordinate that counts as free is `limit - 1 - extent - speed`.
/// A ship at a coordinate from 0 up to but not including that one moves by
/// `speed`. A ship left of 0 is put at 0 and stopped. Any other ship is put
/// one before the last free coordinate and stopped.
pub open spec fn axis_step(position: int, extent: int, limit: int, speed: int) -> AxisStep {
    let last = limit - 1 - extent - speed;
    if 0 <= position < last {
        AxisStep { position: position + speed, stopped: false }
    } else if position < 0 {
        AxisStep { position: 0, stopped: true }
    } else {
        AxisStep { position: last - 1, stopped: true }
    }
}

/// One step along one axis, in machine integers.
fn step_axis(position: i32, extent: u32, limit: u32, speed: i32) -> (step: (i32, bool))
    requires
        extent < limit <= i32::MAX,
        limit - 1 - extent - speed <= i32::MAX,
    ensures
        step.0 == axis_step(position as int, extent as int, limit as int, speed as int).position,
        step.1 == axis_step(position as int, extent as int, limit as int, speed as int).stopped,
{
    let last: i64 = limit as i64 - 1 - extent as i64 - speed as i64;
    if position >= 0 && (position as i64) < last {
        (position + speed, false)
    } else if position < 0 {
        (0, true)
    } else {
        ((last - 1) as i32, true)
    }
}

impl Player {
    /// The ship at its starting place for a sprite of the given size: a
    /// fifth of the playfield from the left and half of it from the top.
    pub fn from_sprite(sprite_width: u32, sprite_height: u32) -> (player: Player)
        ensures
            player.shape@ == ShapeView::Rectangle(
                RectangleView {
                    x: (WIDTH / 5) as int,
                    y: (HEIGHT / 2) as int,
                    width: sprite_width as int,
                    height: sprite_height as int,
                },
            ),
    {
        Player {
            shape: Shape::new_rectangle(
                (WIDTH / 5) as i32,
                (HEIGHT / 2) as i32,
                sprite_width,
                sprite_height,
            ),
        }
    }

    /// The ship fits the playfield and a step of `(vx, vy)` stays in the
    /// machine integers. A ship that is not a rectangle always can step.
    pub open spec fn can_step(&self, vx: int, vy: int) -> bool {
        self.shape@ matches ShapeView::Rectangle(rect) ==> {
            &&& rect.width < WIDTH
            &&& rect.height < HEIGHT
            &&& WIDTH - 1 - rect.width - vx <= i32::MAX
            &&& HEIGHT - 1 - rect.height - vy <= i32::MAX
        }
    }

    /// Whether the ship can step by `(vx, vy)`.
    pub fn can_apply_velocity(&self, vx: i32, vy: i32) -> (fits: bool)
        ensures
            fits == self.can_step(vx as int, vy as int),
    {
        match &self.shape {
            Shape::Rectangle(rect) => {
                rect.width < WIDTH && rect.height < HEIGHT && WIDTH as i64 - 1 - rect.width as i64
                    - vx as i64 <= 0x7fff_ffff && HEIGHT as i64 - 1 - rect.height as i64
                    - vy as i64 <= 0x7fff_ffff
            },
            _ => true,
        }
    }

    /// Moves a rectangular ship by `(vx, vy)`, each axis on its own as
    /// [`axis_step`] says, and reports for each axis whether the ship was
    /// stopped. A ship of another shape stays where it is and is not stopped.
    pub fn apply_velocity(&mut self, vx: i32, vy: i32) -> (stopped: (bool, bool))
        requires
            old(self).can_step(vx as int, vy as int),
        ensures
            match old(self).shape@ {
                ShapeView::Rectangle(rect) => {
                    let along = axis_step(rect.x, rect.width, WIDTH as int, vx as int);
                    let down = axis_step(rect.y, rect.height, HEIGHT as int, vy as int);
                    &&& final(self).shape@ == ShapeView::Rectangle(
                        RectangleView {
                            x: along.position,
                            y: down.position,
                            width: rect.width,
                            height: rect.height,
                        },
                    )
                    &&& stopped == (along.stopped, down.stopped)
                },
                _ => final(self).shape == old(self).shape && stopped == (false, false),
            },
    {
        match &mut self.shape {
            Shape::Rectangle(rect) => {
                let (x, stopped_x) = step_axis(rect.x, rect.width, WIDTH, vx);
                let (y, stopped_y) = step_axis(rect.y, rect.height, HEIGHT, vy);
                rect.x = x;
                rect.y = y;
                (stopped_x, stopped_y)
            },
            _ => (false, false),
        }
    }
}

} // verus!
