//! The stars that drift from right to left behind the ships.

use vstd::prelude::*;
use crate::chance::random_in_range;
use crate::{HEIGHT, WIDTH};

verus! {

/// The number of slots for stars.
pub const MAX_STARS: usize = 128;

/// The slowest star moves this many pixels left in one step.
pub const STAR_SPEED_MIN: i32 = 3;

/// The fastest star moves this many pixels left in one step.
pub const STAR_SPEED_MAX: i32 = 15;

/// The red, green and blue level of every star.
pub const STAR_BRIGHTNESS: u8 = 200;

/// One star: its place, and how far it moves along `x` in one step.
#[derive(Clone, Copy, Debug, PartialEq, Eq)]
pub struct Star {
    pub x: i32,
    pub y: i32,
    pub vx: i32,
}

/// A fixed number of slots, each empty or holding a star.
pub struct Starfield {
    stars: [Option<Star>; MAX_STARS],
}

impl Star {
    /// The star drifts left at an allowed speed, lies within the height of
    /// the playfield, is not right of it and at most one step left of it.
    pub open spec fn in_field(self) -> bool {
        &&& -STAR_SPEED_MAX <= self.vx <= -STAR_SPEED_MIN
        &&& 0 <= self.y < HEIGHT
        &&& -STAR_SPEED_MAX <= self.x < WIDTH
    }

    /// The star after one step: gone once it is left of the playfield, and
    /// moved by its speed until then.
    pub open spec fn step(self) -> Option<Star> {
        if self.x < 0 {
            None
        } else {
            Some(Star { x: (self.x + self.vx) as i32, y: self.y, vx: self.vx })
        }
    }
}

/// A new star with a random height and speed; it starts at a random `x` in
/// the playfield where `anywhere` is set, and at the right edge otherwise.
fn random_star(anywhere: bool) -> (star: Star)
    ensures
        star.in_field(),
        0 <= star.x,
        !anywhere ==> star.x == WIDTH - 1,
{
    let speed: i32 = random_in_range(STAR_SPEED_MIN, STAR_SPEED_MAX + 1);
    let x: i32 = if anywhere {
        random_in_range(0, WIDTH as i32)
    } else {
        WIDTH as i32 - 1
    };
    let y: i32 = random_in_range(0, HEIGHT as i32);
    Star { x, y, vx: -speed }
}

impl Starfield {
    /// The slots, in order.
    pub closed spec fn slots(&self) -> Seq<Option<Star>> {
        self.stars@
    }

    /// There are `MAX_STARS` slots and every star is in the field.
    pub open spec fn wf(&self) -> bool {
        &&& self.slots().len() == MAX_STARS
        &&& forall|i: int|
            0 <= i < self.slots().len() ==> (#[trigger] self.slots()[i] matches Some(star)
                ==> star.in_field())
    }

    /// A field with a star in every slot, each somewhere in the playfield.
    pub fn new() -> (field: Starfield)
        ensures
            field.wf(),
            forall|i: int|
                0 <= i < MAX_STARS ==> (#[trigger] field.slots()[i] matches Some(star) && 0
                    <= star.x),
    {
        let mut field = Starfield { stars: [None; MAX_STARS] };
        let ghost empty = field.slots();
        field.spawn(true);
        assert forall|i: int| 0 <= i < MAX_STARS implies (#[trigger] field.slots()[i] matches Some(
            star,
        ) && 0 <= star.x) by {
            assert(empty[i] is None);
        }
        field
    }

    /// Puts a new star into every empty slot and leaves the others alone.
    fn spawn(&mut self, first_frame: bool)
        requires
            old(self).wf(),
        ensures
            final(self).wf(),
            forall|i: int|
                0 <= i < MAX_STARS ==> match (#[trigger] old(self).slots()[i]) {
                    Some(star) => final(self).slots()[i] == Some(star),
                    None => final(self).slots()[i] matches Some(star) && 0 <= star.x && (
                    !first_frame ==> star.x == WIDTH - 1),
                },
    {
        let mut i: usize = 0;
        while i < MAX_STARS
            invariant
                i <= MAX_STARS,
                self.wf(),
                forall|j: int|
                    0 <= j < i ==> match (#[trigger] old(self).slots()[j]) {
                        Some(star) => self.slots()[j] == Some(star),
                        None => self.slots()[j] matches Some(star) && 0 <= star.x && (!first_frame
                            ==> star.x == WIDTH - 1),
                    },
                forall|j: int| i <= j < MAX_STARS ==> self.slots()[j] == old(self).slots()[j],
            decreases MAX_STARS - i,
        {
            if self.stars[i].is_none() {
                self.stars[i] = Some(random_star(first_frame));
            }
            i += 1;
        }
    }

    /// Puts a new star at the right edge into every empty slot and leaves
    /// the others alone, so that every slot holds a star.
    pub fn spawn_new_stars(&mut self)
        requires
            old(self).wf(),
        ensures
            final(self).wf(),
            forall|i: int|
                0 <= i < MAX_STARS ==> match (#[trigger] old(self).slots()[i]) {
                    Some(star) => final(self).slots()[i] == Some(star),
                    None => final(self).slots()[i] matches Some(star) && star.x == WIDTH - 1,
                },
            forall|i: int| 0 <= i < MAX_STARS ==> (#[trigger] final(self).slots()[i]) is Some,
    {
        let ghost before = self.slots();
        self.spawn(false);
        assert forall|i: int| 0 <= i < MAX_STARS implies (#[trigger] self.slots()[i]) is Some by {
            assert(before[i] is Some || before[i] is None);
        }
    }

    /// One step of every star: a star left of the playfield leaves its
    /// slot, and any other moves by its speed.
    pub fn advance(&mut self)
        requires
            old(self).wf(),
        ensures
            final(self).wf(),
            forall|i: int|
                0 <= i < MAX_STARS ==> match (#[trigger] old(self).slots()[i]) {
                    Some(star) => final(self).slots()[i] == star.step(),
                    None => final(self).slots()[i] is None,
                },
    {
        let mut i: usize = 0;
        while i < MAX_STARS
            invariant
                i <= MAX_STARS,
                self.wf(),
                old(self).wf(),
                forall|j: int|
                    0 <= j < i ==> match (#[trigger] old(self).slots()[j]) {
                        Some(star) => self.slots()[j] == star.step(),
                        None => self.slots()[j] is None,
                    },
                forall|j: int| i <= j < MAX_STARS ==> self.slots()[j] == old(self).slots()[j],
            decreases MAX_STARS - i,
        {
            match self.stars[i] {
                None => {},
                Some(star) => {
                    assert(self.slots()[i as int] == Some(star));
                    if star.x < 0 {
                        self.stars[i] = None;
                    } else {
                        self.stars[i] = Some(Star { x: star.x + star.vx, y: star.y, vx: star.vx });
                    }
                },
            }
            i += 1;
        }
    }

    /// The star in slot `i`, if there is one.
    pub fn star(&self, i: usize) -> (found: Option<Star>)
        requires
            i < MAX_STARS,
        ensures
            found == self.slots()[i as int],
    {
        self.stars[i]
    }
}

} // verus!
