//! Projectiles: where they leave the firing ship, what they look like, and
//! whom they hurt.

use vstd::prelude::*;
use crate::collide::Collider;
use crate::shape::{Shape, ShapeView, CircleView, RectangleView};
use crate::{HEIGHT, WIDTH};

verus! {

/// The outline that a projectile takes from its sprite.
pub enum ProjShape {
    Rectangle,
    Circle,
}

/// The side that a projectile can damage.
#[derive(Eq, PartialEq, Debug)]
pub enum LethalTo {
    Player,
    Enemy,
}

/// A shot in flight.
pub struct Projectile {
    pub damage: u32,
    pub shape: Shape,
    pub lethal_to: LethalTo,
}

/// The damage that every projectile deals.
pub const PROJECTILE_DAMAGE: u32 = 10;

/// The point at which a projectile leaves `ship`. A projectile that flies
/// forward, toward growing `x`, leaves at the right side of the ship and one
/// that flies backward at the left side:
/// - a rectangle fires from the middle of that side, the half height rounded
///   down;
/// - a point fires from itself;
/// - a circle fires forward from the right end of its horizontal diameter,
///   and backward from the point one radius left of and two radii above its
///   center;
/// - a group fires forward from the middle of the right side of its bounding
///   box, and backward from the point half a box height above the box's
///   top-left corner.
pub open spec fn firing_origin(ship: ShapeView, forward: bool) -> (int, int) {
    match ship {
        ShapeView::Rectangle(rect) => (
            if forward {
                rect.x + rect.width
            } else {
                rect.x
            },
            rect.y + rect.height / 2,
        ),
        ShapeView::Point(p) => (p.x, p.y),
        ShapeView::Circle(c) => if forward {
            (c.x + c.r, c.y)
        } else {
            (c.x - c.r, c.y - 2 * c.r)
        },
        ShapeView::Compound(_) => {
            let bounds = ship.bounding_box();
            if forward {
                (bounds.x + bounds.width, bounds.y + bounds.height / 2)
            } else {
                (bounds.x, bounds.y - bounds.height / 2)
            }
        },
    }
}

/// `ship` can fire: its firing origin has machine coordinates and, for a
/// group, so has its bounding box.
pub open spec fn can_fire(ship: ShapeView, forward: bool) -> bool {
    let origin = firing_origin(ship, forward);
    &&& ship is Compound ==> ship.bounding_box().representable()
    &&& i32::MIN <= origin.0 <= i32::MAX
    &&& i32::MIN <= origin.1 <= i32::MAX
}

/// The outline of a projectile at `origin` for a sprite of the given size: a
/// rectangle of the sprite's size with its corner at the origin, or a circle
/// around the origin whose diameter is the sprite's width, rounded down to an
/// even number.
pub open spec fn outline_at(
    origin: (int, int),
    sprite_width: int,
    sprite_height: int,
    proj_shape: ProjShape,
) -> ShapeView {
    match proj_shape {
        ProjShape::Rectangle => ShapeView::Rectangle(
            RectangleView { x: origin.0, y: origin.1, width: sprite_width, height: sprite_height },
        ),
        ProjShape::Circle => ShapeView::Circle(
            CircleView { x: origin.0, y: origin.1, r: sprite_width / 2 },
        ),
    }
}

/// Narrows a coordinate pair to machine coordinates where both fit.
fn narrow(x: i64, y: i64) -> (origin: Option<(i32, i32)>)
    ensures
        origin is Some <==> i32::MIN <= x <= i32::MAX && i32::MIN <= y <= i32::MAX,
        origin is Some ==> origin->Some_0.0 == x && origin->Some_0.1 == y,
{
    if x < -0x8000_0000 || x > 0x7fff_ffff || y < -0x8000_0000 || y > 0x7fff_ffff {
        None
    } else {
        Some((x as i32, y as i32))
    }
}

impl Projectile {
    /// The point at which a projectile leaves `ship`, or `None` where the
    /// ship cannot fire.
    pub fn firing_origin(ship: &Shape, forward: bool) -> (origin: Option<(i32, i32)>)
        ensures
            origin is Some <==> can_fire(ship@, forward),
            origin is Some ==> (origin->Some_0.0 as int, origin->Some_0.1 as int) == firing_origin(
                ship@,
                forward,
            ),
    {
        match ship {
            Shape::Rectangle(rect) => {
                let x: i64 = if forward {
                    rect.x as i64 + rect.width as i64
                } else {
                    rect.x as i64
                };
                narrow(x, rect.y as i64 + (rect.height / 2) as i64)
            },
            Shape::Point(p) => Some((p.x, p.y)),
            Shape::Circle(c) => {
                if forward {
                    narrow(c.x as i64 + c.r as i64, c.y as i64)
                } else {
                    narrow(c.x as i64 - c.r as i64, c.y as i64 - 2 * (c.r as i64))
                }
            },
            Shape::Compound(_) => {
                match ship.try_get_box() {
                    None => None,
                    Some(bounds) => {
                        if forward {
                            narrow(
                                bounds.x as i64 + bounds.width as i64,
                                bounds.y as i64 + (bounds.height / 2) as i64,
                            )
                        } else {
                            narrow(bounds.x as i64, bounds.y as i64 - (bounds.height / 2) as i64)
                        }
                    },
                }
            },
        }
    }

    /// A projectile fired by `ship`, drawn with a sprite of the given size.
    pub fn from_sprite(
        sprite_width: u32,
        sprite_height: u32,
        ship: &Shape,
        forward: bool,
        proj_shape: ProjShape,
        lethal_to: LethalTo,
    ) -> (shot: Projectile)
        requires
            can_fire(ship@, forward),
        ensures
            shot.shape@ == outline_at(
                firing_origin(ship@, forward),
                sprite_width as int,
                sprite_height as int,
                proj_shape,
            ),
            shot.lethal_to == lethal_to,
            shot.damage == PROJECTILE_DAMAGE,
    {
        let (x, y) = Projectile::firing_origin(ship, forward).unwrap();
        Projectile {
            damage: PROJECTILE_DAMAGE,
            shape: match proj_shape {
                ProjShape::Rectangle => Shape::new_rectangle(x, y, sprite_width, sprite_height),
                ProjShape::Circle => Shape::new_circle(x, y, sprite_width / 2),
            },
            lethal_to,
        }
    }

    /// Moves the projectile by `(dx, dy)`.
    pub fn advance(&mut self, dx: i32, dy: i32)
        requires
            old(self).shape@.translate(dx as int, dy as int).representable(),
        ensures
            final(self).shape@ == old(self).shape@.translate(dx as int, dy as int),
            final(self).lethal_to == old(self).lethal_to,
            final(self).damage == old(self).damage,
    {
        self.shape.advance(dx, dy);
    }

    pub fn is_in_screen(&self) -> (visible: bool)
        ensures
            visible == self.shape@.in_screen(WIDTH as int, HEIGHT as int),
    {
        self.shape.is_in_screen()
    }

    pub fn lethal_to_enemy(&self) -> (lethal: bool)
        ensures
            lethal == (self.lethal_to == LethalTo::Enemy),
    {
        match self.lethal_to {
            LethalTo::Enemy => true,
            LethalTo::Player => false,
        }
    }

    pub fn lethal_to_player(&self) -> (lethal: bool)
        ensures
            lethal == (self.lethal_to == LethalTo::Player),
    {
        match self.lethal_to {
            LethalTo::Player => true,
            LethalTo::Enemy => false,
        }
    }
}

impl Collider for Projectile {
    open spec fn outline(&self) -> ShapeView {
        self.shape@
    }

    fn collide(&self, other: &Shape) -> (hit: bool) {
        self.shape.collide(other)
    }

    fn is_in_screen(&self) -> (visible: bool) {
        self.shape.is_in_screen()
    }
}

} // verus!
