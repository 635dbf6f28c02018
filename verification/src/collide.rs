//! Pairwise intersection tests between shapes.
//!
//! Distances are Euclidean. A distance `d` between integer points is compared
//! with a radius `r` as `d * d <= r * r`, which is the same test without a
//! square root.

use vstd::prelude::*;
use crate::shape::{
    lemma_child_decreases, lemma_compound_view, views_of, Circle, CircleView, Point, PointView,
    Rectangle, RectangleView, Shape, ShapeView,
};
use crate::{HEIGHT, WIDTH};

verus! {

/// The square of the Euclidean distance between `(ax, ay)` and `(bx, by)`.
pub open spec fn squared_distance(ax: int, ay: int, bx: int, by: int) -> int {
    (ax - bx) * (ax - bx) + (ay - by) * (ay - by)
}

/// The value in `[low, high]` that is nearest to `v`.
pub open spec fn nearest_in(v: int, low: int, high: int) -> int {
    if v < low {
        low
    } else if v > high {
        high
    } else {
        v
    }
}

impl RectangleView {
    /// The two boxes share interior: each starts before the other ends, on
    /// both axes. Boxes that only touch along an edge do not overlap.
    pub open spec fn overlaps(self, other: RectangleView) -> bool {
        &&& self.x < other.x + other.width
        &&& self.x + self.width > other.x
        &&& self.y < other.y + other.height
        &&& self.y + self.height > other.y
    }

    /// The point lies in the box, edges included.
    pub open spec fn contains(self, p: PointView) -> bool {
        &&& self.x <= p.x <= self.x + self.width
        &&& self.y <= p.y <= self.y + self.height
    }

    /// The point of the box, edges included, that is nearest to `(px, py)`.
    pub open spec fn nearest_point(self, px: int, py: int) -> PointView {
        PointView {
            x: nearest_in(px, self.x, self.x + self.width),
            y: nearest_in(py, self.y, self.y + self.height),
        }
    }

    /// The point of the box nearest to the circle's center is no further
    /// from that center than the radius.
    pub open spec fn reaches(self, c: CircleView) -> bool {
        let near = self.nearest_point(c.x, c.y);
        squared_distance(c.x, c.y, near.x, near.y) <= c.r * c.r
    }
}

impl CircleView {
    /// The distance between the centers is no more than one of the radii:
    /// one circle holds the center of the other. Two circles that overlap
    /// without either holding the other's center do not meet.
    pub open spec fn meets(self, other: CircleView) -> bool {
        let d2 = squared_distance(self.x, self.y, other.x, other.y);
        d2 <= self.r * self.r || d2 <= other.r * other.r
    }

    /// The point is no further from the center than the radius.
    pub open spec fn contains(self, p: PointView) -> bool {
        squared_distance(self.x, self.y, p.x, p.y) <= self.r * self.r
    }
}

impl ShapeView {
    /// The intersection test between two primitives. It is `false` when
    /// either side is a group.
    pub open spec fn touches(self, other: ShapeView) -> bool {
        match (self, other) {
            (ShapeView::Rectangle(a), ShapeView::Rectangle(b)) => a.overlaps(b),
            (ShapeView::Rectangle(a), ShapeView::Point(p)) => a.contains(p),
            (ShapeView::Rectangle(a), ShapeView::Circle(c)) => a.reaches(c),
            (ShapeView::Circle(c), ShapeView::Rectangle(a)) => a.reaches(c),
            (ShapeView::Circle(c), ShapeView::Point(p)) => c.contains(p),
            (ShapeView::Circle(c), ShapeView::Circle(d)) => c.meets(d),
            (ShapeView::Point(p), ShapeView::Rectangle(a)) => a.contains(p),
            (ShapeView::Point(p), ShapeView::Point(q)) => p == q,
            (ShapeView::Point(p), ShapeView::Circle(c)) => c.contains(p),
            _ => false,
        }
    }

    /// Two shapes collide when their primitives touch. A group collides with
    /// a shape when any of its children does.
    pub open spec fn collides(self, other: ShapeView) -> bool
        decreases self, other,
    {
        match self {
            ShapeView::Compound(children) => exists|i: int|
                0 <= i < children.len() && (#[trigger] children[i]).collides(other),
            _ => match other {
                ShapeView::Compound(children) => exists|i: int|
                    0 <= i < children.len() && self.collides(#[trigger] children[i]),
                _ => self.touches(other),
            },
        }
    }
}

/// Of two offsets, the one nearer to zero has the smaller square.
proof fn lemma_square_monotone(near: int, far: int)
    requires
        0 <= near <= far || far <= near <= 0,
    ensures
        near * near <= far * far,
{
    assert(near * near <= far * far) by (nonlinear_arith)
        requires
            0 <= near <= far || far <= near <= 0,
    ;
}

/// The nearest point of a box lies in the box, and no point of the box is
/// nearer to `(px, py)` than it.
pub proof fn lemma_nearest_point_is_nearest(rect: RectangleView, px: int, py: int, q: PointView)
    requires
        rect.width >= 0,
        rect.height >= 0,
        rect.contains(q),
    ensures
        rect.contains(rect.nearest_point(px, py)),
        squared_distance(px, py, rect.nearest_point(px, py).x, rect.nearest_point(px, py).y)
            <= squared_distance(px, py, q.x, q.y),
{
    let near = rect.nearest_point(px, py);
    lemma_square_monotone(px - near.x, px - q.x);
    lemma_square_monotone(py - near.y, py - q.y);
}

/// The squared distance does not depend on the order of the two points.
pub proof fn lemma_squared_distance_symmetric(ax: int, ay: int, bx: int, by: int)
    ensures
        squared_distance(ax, ay, bx, by) == squared_distance(bx, by, ax, ay),
{
    assert((ax - bx) * (ax - bx) == (bx - ax) * (bx - ax)) by (nonlinear_arith);
    assert((ay - by) * (ay - by) == (by - ay) * (by - ay)) by (nonlinear_arith);
}

/// The test between two primitives does not depend on their order.
pub proof fn lemma_touches_symmetric(a: ShapeView, b: ShapeView)
    ensures
        a.touches(b) == b.touches(a),
{
    match (a, b) {
        (ShapeView::Circle(c), ShapeView::Circle(d)) => {
            lemma_squared_distance_symmetric(c.x, c.y, d.x, d.y);
        },
        _ => {},
    }
}

/// A group collides with a shape exactly when one of its children does.
pub proof fn lemma_group_collides(children: Seq<ShapeView>, other: ShapeView)
    ensures
        ShapeView::Compound(children).collides(other) <==> exists|i: int|
            0 <= i < children.len() && (#[trigger] children[i]).collides(other),
{
    assert(ShapeView::Compound(children)->Compound_0 == children);
}

/// A shape, primitive or group, collides with a group exactly when it
/// collides with one of the group's children.
pub proof fn lemma_collides_with_group(a: ShapeView, children: Seq<ShapeView>)
    ensures
        a.collides(ShapeView::Compound(children)) <==> exists|j: int|
            0 <= j < children.len() && a.collides(#[trigger] children[j]),
    decreases a,
{
    let group = ShapeView::Compound(children);
    assert(group->Compound_0 == children);
    match a {
        ShapeView::Compound(parts) => {
            lemma_group_collides(parts, group);
            if a.collides(group) {
                let i = choose|i: int|
                    0 <= i < parts.len() && (#[trigger] parts[i]).collides(group);
                lemma_collides_with_group(parts[i], children);
                let j = choose|j: int|
                    0 <= j < children.len() && parts[i].collides(#[trigger] children[j]);
                lemma_group_collides(parts, children[j]);
                assert(a.collides(children[j]));
            }
            if exists|j: int| 0 <= j < children.len() && a.collides(#[trigger] children[j]) {
                let j = choose|j: int|
                    0 <= j < children.len() && a.collides(#[trigger] children[j]);
                lemma_group_collides(parts, children[j]);
                let i = choose|i: int|
                    0 <= i < parts.len() && (#[trigger] parts[i]).collides(children[j]);
                lemma_collides_with_group(parts[i], children);
                assert(parts[i].collides(group));
            }
        },
        _ => {},
    }
}

/// Collision does not depend on the order of the two shapes.
pub proof fn lemma_collide_symmetric(a: ShapeView, b: ShapeView)
    ensures
        a.collides(b) == b.collides(a),
    decreases a, b,
{
    match a {
        ShapeView::Compound(parts) => {
            lemma_group_collides(parts, b);
            lemma_collides_with_group(b, parts);
            assert forall|i: int| 0 <= i < parts.len() implies (#[trigger] parts[i]).collides(b)
                == b.collides(parts[i]) by {
                lemma_collide_symmetric(parts[i], b);
            }
        },
        _ => match b {
            ShapeView::Compound(parts) => {
                lemma_group_collides(parts, a);
                lemma_collides_with_group(a, parts);
                assert forall|j: int| 0 <= j < parts.len() implies a.collides(
                    #[trigger] parts[j],
                ) == parts[j].collides(a) by {
                    lemma_collide_symmetric(a, parts[j]);
                }
            },
            _ => {
                lemma_touches_symmetric(a, b);
            },
        },
    }
}

/// What can be tested for collision against a shape and for visibility in
/// the playfield.
pub trait Collider {
    /// The shape that stands for this object in both tests.
    spec fn outline(&self) -> ShapeView;

    fn collide(&self, target: &Shape) -> (hit: bool)
        ensures
            hit == self.outline().collides(target@),
    ;

    fn is_in_screen(&self) -> (visible: bool)
        ensures
            visible == self.outline().in_screen(WIDTH as int, HEIGHT as int),
    ;
}

/// A square of a bounded integer is bounded by the square of the bound.
proof fn lemma_square_bound(d: int, bound: int)
    requires
        -bound <= d <= bound,
    ensures
        0 <= d * d <= bound * bound,
{
    assert(0 <= d * d <= bound * bound) by (nonlinear_arith)
        requires
            -bound <= d <= bound,
    ;
}

/// The squared distance between two points whose coordinates are at most
/// `2^33` in magnitude.
fn squared_distance_of(ax: i64, ay: i64, bx: i64, by: i64) -> (d2: i128)
    requires
        -0x2_0000_0000 <= ax <= 0x2_0000_0000,
        -0x2_0000_0000 <= ay <= 0x2_0000_0000,
        -0x2_0000_0000 <= bx <= 0x2_0000_0000,
        -0x2_0000_0000 <= by <= 0x2_0000_0000,
    ensures
        d2 == squared_distance(ax as int, ay as int, bx as int, by as int),
{
    let dx: i128 = (ax - bx) as i128;
    let dy: i128 = (ay - by) as i128;
    proof {
        lemma_square_bound(dx as int, 0x4_0000_0000);
        lemma_square_bound(dy as int, 0x4_0000_0000);
    }
    dx * dx + dy * dy
}

/// The square of a radius.
fn squared_radius(r: u32) -> (r2: i128)
    ensures
        r2 == r * r,
{
    let wide: i128 = r as i128;
    proof {
        lemma_square_bound(wide as int, 0x1_0000_0000);
    }
    wide * wide
}

/// Whether two rectangles overlap; touching edges are no overlap.
pub fn collide_rect_to_rect(rect1: &Rectangle, rect2: &Rectangle) -> (hit: bool)
    ensures
        hit == rect1@.overlaps(rect2@),
{
    (rect1.x as i64) < rect2.x as i64 + rect2.width as i64
        && rect1.x as i64 + rect1.width as i64 > rect2.x as i64
        && (rect1.y as i64) < rect2.y as i64 + rect2.height as i64
        && rect1.y as i64 + rect1.height as i64 > rect2.y as i64
}

/// Whether the point lies in the rectangle, edges included.
pub fn collide_rect_to_point(rect: &Rectangle, point: &Point) -> (hit: bool)
    ensures
        hit == rect@.contains(point@),
{
    point.x >= rect.x
        && point.x as i64 <= rect.x as i64 + rect.width as i64
        && point.y >= rect.y
        && point.y as i64 <= rect.y as i64 + rect.height as i64
}

/// The value in `[low, high]` nearest to `v`.
fn nearest_in_range(v: i64, low: i64, high: i64) -> (near: i64)
    ensures
        near == nearest_in(v as int, low as int, high as int),
{
    if v < low {
        low
    } else if v > high {
        high
    } else {
        v
    }
}

/// Whether the circle reaches the point of the rectangle that is nearest to
/// its center.
pub fn collide_rect_to_circle(rect: &Rectangle, circle: &Circle) -> (hit: bool)
    ensures
        hit == rect@.reaches(circle@),
{
    let center_x: i64 = circle.x as i64;
    let center_y: i64 = circle.y as i64;
    let test_x: i64 = nearest_in_range(center_x, rect.x as i64, rect.x as i64 + rect.width as i64);
    let test_y: i64 = nearest_in_range(
        center_y,
        rect.y as i64,
        rect.y as i64 + rect.height as i64,
    );
    let distance2: i128 = squared_distance_of(center_x, center_y, test_x, test_y);
    distance2 <= squared_radius(circle.r)
}

/// Whether the center of one circle lies within the other circle.
pub fn collide_circle_to_circle(circle1: &Circle, circle2: &Circle) -> (hit: bool)
    ensures
        hit == circle1@.meets(circle2@),
{
    let distance2: i128 = squared_distance_of(
        circle1.x as i64,
        circle1.y as i64,
        circle2.x as i64,
        circle2.y as i64,
    );
    distance2 <= squared_radius(circle1.r) || distance2 <= squared_radius(circle2.r)
}

/// Whether the point lies within the circle, rim included.
pub fn collide_circle_to_point(circle: &Circle, point: &Point) -> (hit: bool)
    ensures
        hit == circle@.contains(point@),
{
    let distance2: i128 = squared_distance_of(
        circle.x as i64,
        circle.y as i64,
        point.x as i64,
        point.y as i64,
    );
    distance2 <= squared_radius(circle.r)
}

/// Whether any of `children` collides with `target`, in order, stopping at
/// the first that does.
fn any_child_collides(children: &Vec<Shape>, target: &Shape) -> (hit: bool)
    ensures
        hit == ShapeView::Compound(views_of(children@)).collides(target@),
    decreases children, target,
{
    proof {
        lemma_group_collides(views_of(children@), target@);
    }
    let mut i: usize = 0;
    while i < children.len()
        invariant
            i <= children.len(),
            forall|j: int| 0 <= j < i ==> !(#[trigger] views_of(children@)[j]).collides(target@),
        decreases children.len() - i,
    {
        assert(decreases_to!(*children => children[i as int]));
        if children[i].collide(target) {
            proof {
                lemma_group_collides(views_of(children@), target@);
                assert(views_of(children@)[i as int].collides(target@));
            }
            return true;
        }
        i += 1;
    }
    false
}

impl Collider for Shape {
    open spec fn outline(&self) -> ShapeView {
        self@
    }

    fn collide(&self, target: &Shape) -> (hit: bool)
        decreases self, target,
    {
        match self {
            Shape::Compound(children) => {
                proof {
                    lemma_compound_view(*children);
                }
                any_child_collides(children, target)
            },
            _ => match target {
                Shape::Compound(children) => {
                    proof {
                        lemma_compound_view(*children);
                        lemma_collides_with_group(self@, views_of(children@));
                    }
                    let mut i: usize = 0;
                    while i < children.len()
                        invariant
                            i <= children.len(),
                            *target == Shape::Compound(*children),
                            self@.collides(target@) <==> exists|j: int|
                                0 <= j < views_of(children@).len() && self@.collides(
                                    #[trigger] views_of(children@)[j],
                                ),
                            forall|j: int|
                                0 <= j < i ==> !self@.collides(
                                    #[trigger] views_of(children@)[j],
                                ),
                        decreases children.len() - i,
                    {
                        proof {
                            lemma_child_decreases(*target, i as int);
                        }
                        if self.collide(&children[i]) {
                            assert(self@.collides(views_of(children@)[i as int]));
                            return true;
                        }
                        i += 1;
                    }
                    false
                },
                _ => self.primitive_collide(target),
            },
        }
    }

    fn is_in_screen(&self) -> (visible: bool) {
        Shape::is_in_screen(self)
    }
}

impl Shape {
    /// The intersection test between two shapes that are not groups.
    fn primitive_collide(&self, target: &Shape) -> (hit: bool)
        requires
            !(self is Compound),
            !(target is Compound),
        ensures
            hit == self@.touches(target@),
    {
        match self {
            Shape::Rectangle(me) => match target {
                Shape::Rectangle(other) => collide_rect_to_rect(me, other),
                Shape::Point(other) => collide_rect_to_point(me, other),
                Shape::Circle(other) => collide_rect_to_circle(me, other),
                Shape::Compound(_) => false,
            },
            Shape::Circle(me) => match target {
                Shape::Rectangle(other) => collide_rect_to_circle(other, me),
                Shape::Point(other) => collide_circle_to_point(me, other),
                Shape::Circle(other) => collide_circle_to_circle(me, other),
                Shape::Compound(_) => false,
            },
            Shape::Point(me) => match target {
                Shape::Rectangle(other) => collide_rect_to_point(other, me),
                Shape::Point(other) => me.x == other.x && me.y == other.y,
                Shape::Circle(other) => collide_circle_to_point(other, me),
                Shape::Compound(_) => false,
            },
            Shape::Compound(_) => false,
        }
    }
}

} // verus!
