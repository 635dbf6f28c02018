//! Enemy ships: where they appear, and whether they are still in play.

use vstd::prelude::*;
use std::time::Instant;
use crate::chance::random_in_range;
use crate::collide::Collider;
use crate::projectile::{LethalTo, Projectile};
use crate::shape::{RectangleView, Shape, ShapeView};
use crate::{HEIGHT, WIDTH};

verus! {

/// `std::time::Instant`, a moment on the monotonic clock. The library only
/// stores it.
#[verifier::external_type_specification]
#[verifier::external_body]
pub struct ExInstant(Instant);

/// An enemy ship.
pub struct Enemy {
    pub alive: bool,
    pub shape: Shape,
    /// The pause between two shots, in milliseconds.
    pub shoot_freq: u64,
    /// When the enemy last fired, if it has.
    pub last_shot: Option<Instant>,
}

/// The pause between two shots of a new enemy, in milliseconds.
pub const ENEMY_SHOOT_FREQ: u64 = 2000;

impl Enemy {
    /// The outline of a new enemy at height `y` for a sprite of the given
    /// size: a box of the sprite's size whose right side lies on the right
    /// edge of the playfield and whose top is at `y`.
    pub open spec fn spawn_outline(sprite_width: int, sprite_height: int, y: int) -> ShapeView {
        ShapeView::Rectangle(
            RectangleView {
                x: WIDTH - sprite_width,
                y,
                width: sprite_width,
                height: sprite_height,
            },
        )
    }

    /// A new enemy at height `y`: alive, and yet to fire.
    pub fn spawn(sprite_width: u32, sprite_height: u32, y: i32) -> (enemy: Enemy)
        requires
            sprite_width <= WIDTH,
        ensures
            enemy.shape@ == Enemy::spawn_outline(
                sprite_width as int,
                sprite_height as int,
                y as int,
            ),
            enemy.alive,
            enemy.shoot_freq == ENEMY_SHOOT_FREQ,
            enemy.last_shot is None,
    {
        Enemy {
            alive: true,
            shape: Shape::new_rectangle(
                (WIDTH - sprite_width) as i32,
                y,
                sprite_width,
                sprite_height,
            ),
            shoot_freq: ENEMY_SHOOT_FREQ,
            last_shot: None,
        }
    }

    /// A new enemy of the sprite's size at a random height, from 1 up to the
    /// lowest at which the enemy still ends above the bottom edge.
    pub fn from_sprite(sprite_width: u32, sprite_height: u32) -> (enemy: Enemy)
        requires
            sprite_width <= WIDTH,
            sprite_height + 1 < HEIGHT,
        ensures
            exists|y: int|
                1 <= y < HEIGHT - sprite_height && enemy.shape@ == #[trigger] Enemy::spawn_outline(
                    sprite_width as int,
                    sprite_height as int,
                    y,
                ),
            enemy.alive,
            enemy.shoot_freq == ENEMY_SHOOT_FREQ,
            enemy.last_shot is None,
    {
        let y: i32 = random_in_range(1, (HEIGHT - sprite_height) as i32);
        Enemy::spawn(sprite_width, sprite_height, y)
    }

    pub fn is_in_screen(&self) -> (visible: bool)
        ensures
            visible == self.shape@.in_screen(WIDTH as int, HEIGHT as int),
    {
        self.shape.is_in_screen()
    }

    /// Moves the enemy by `(dx, dy)`.
    pub fn advance(&mut self, dx: i32, dy: i32)
        requires
            old(self).shape@.translate(dx as int, dy as int).representable(),
        ensures
            final(self).shape@ == old(self).shape@.translate(dx as int, dy as int),
            final(self).alive == old(self).alive,
            final(self).shoot_freq == old(self).shoot_freq,
            final(self).last_shot == old(self).last_shot,
    {
        self.shape.advance(dx, dy)
    }

    /// Marks the enemy as dead; nothing else changes.
    pub fn die(&mut self)
        ensures
            !final(self).alive,
            final(self).shape == old(self).shape,
            final(self).shoot_freq == old(self).shoot_freq,
            final(self).last_shot == old(self).last_shot,
    {
        self.alive = false;
    }

    /// `shot` can damage enemies and touches this one.
    pub open spec fn struck_by(&self, shot: Projectile) -> bool {
        shot.lethal_to == LethalTo::Enemy && self.shape@.collides(shot.shape@)
    }

    /// Whether `shot` can damage enemies and touches this one.
    pub fn is_hit_by(&self, shot: &Projectile) -> (hit: bool)
        ensures
            hit == self.struck_by(*shot),
    {
        shot.lethal_to_enemy() && self.shape.collide(&shot.shape)
    }

    pub fn is_alive(&self) -> (alive: bool)
        ensures
            alive == self.alive,
    {
        self.alive
    }
}

impl Collider for Enemy {
    open spec fn outline(&self) -> ShapeView {
        self.shape@
    }

    fn collide(&self, other: &Shape) -> (hit: bool) {
        self.shape.collide(other)
    }

    fn is_in_screen(&self) -> (visible: bool) {
        self.shape.is_in_screen()
    }
}

} // verus!
