//! The shape type, its mathematical view, and the geometry that one shape
//! answers alone: bounding box, translation, visibility.

use vstd::prelude::*;
use crate::{HEIGHT, WIDTH};

verus! {

/// A location without extent.
#[derive(PartialEq, Eq, Clone, Copy, Debug)]
pub struct Point {
    pub x: i32,
    pub y: i32,
}

/// An axis-aligned box; `(x, y)` is its top-left corner and `y` grows downward.
#[derive(PartialEq, Eq, Clone, Copy, Debug)]
pub struct Rectangle {
    pub x: i32,
    pub y: i32,
    pub width: u32,
    pub height: u32,
}

/// A disc given by its center and radius.
#[derive(PartialEq, Eq, Clone, Copy, Debug)]
pub struct Circle {
    pub x: i32,
    pub y: i32,
    pub r: u32,
}

/// A point, a circle, a rectangle, or an ordered group of shapes.
#[derive(PartialEq, Eq, Debug)]
pub enum Shape {
    Point(Point),
    Circle(Circle),
    Rectangle(Rectangle),
    Compound(Vec<Shape>),
}

/// The only way a shape operation can fail.
#[derive(PartialEq, Eq, Clone, Copy, Debug)]
pub enum ShapeError {
    /// A child was appended to a shape that is not a group.
    InvalidOperation,
}

/// A [`Point`] over unbounded integers.
pub struct PointView {
    pub x: int,
    pub y: int,
}

/// A [`Circle`] over unbounded integers.
pub struct CircleView {
    pub x: int,
    pub y: int,
    pub r: int,
}

/// A [`Rectangle`] over unbounded integers.
pub struct RectangleView {
    pub x: int,
    pub y: int,
    pub width: int,
    pub height: int,
}

/// A [`Shape`] over unbounded integers; a group is the sequence of its
/// children in insertion order.
pub enum ShapeView {
    Point(PointView),
    Circle(CircleView),
    Rectangle(RectangleView),
    Compound(Seq<ShapeView>),
}

impl View for Point {
    type V = PointView;

    open spec fn view(&self) -> PointView {
        PointView { x: self.x as int, y: self.y as int }
    }
}

impl View for Circle {
    type V = CircleView;

    open spec fn view(&self) -> CircleView {
        CircleView { x: self.x as int, y: self.y as int, r: self.r as int }
    }
}

impl View for Rectangle {
    type V = RectangleView;

    open spec fn view(&self) -> RectangleView {
        RectangleView {
            x: self.x as int,
            y: self.y as int,
            width: self.width as int,
            height: self.height as int,
        }
    }
}

impl View for Shape {
    type V = ShapeView;

    open spec fn view(&self) -> ShapeView
        decreases self,
    {
        match self {
            Shape::Point(p) => ShapeView::Point(p@),
            Shape::Circle(c) => ShapeView::Circle(c@),
            Shape::Rectangle(b) => ShapeView::Rectangle(b@),
            Shape::Compound(children) => ShapeView::Compound(
                Seq::new(
                    children@.len(),
                    |i: int|
                        if 0 <= i < children@.len() {
                            children@[i].view()
                        } else {
                            ShapeView::Compound(Seq::empty())
                        },
                ),
            ),
        }
    }
}

/// The views of a vector of shapes, element by element.
pub open spec fn views_of(shapes: Seq<Shape>) -> Seq<ShapeView> {
    Seq::new(shapes.len(), |i: int| shapes[i]@)
}

/// The view of a group is the sequence of its children's views.
pub proof fn lemma_compound_view(children: Vec<Shape>)
    ensures
        Shape::Compound(children)@ == ShapeView::Compound(views_of(children@)),
{
    let left = Shape::Compound(children)@;
    assert(left->Compound_0 =~= views_of(children@));
}

/// Every child of a group is structurally smaller than the group, so a
/// function may recurse from a group into its children.
pub proof fn lemma_child_decreases(group: Shape, i: int)
    requires
        group is Compound,
        0 <= i < group->Compound_0.len(),
    ensures
        decreases_to!(group => group->Compound_0[i]),
{
    assert(decreases_to!(group => group->Compound_0));
    assert(decreases_to!(group->Compound_0 => group->Compound_0[i]));
}

/// Every shape has machine coordinates, so its view is representable.
pub proof fn lemma_view_representable(shape: Shape)
    ensures
        shape@.representable(),
    decreases shape,
{
    match shape {
        Shape::Compound(children) => {
            lemma_compound_view(children);
            assert forall|i: int| 0 <= i < views_of(children@).len() implies (#[trigger] views_of(
                children@,
            )[i]).representable() by {
                lemma_child_decreases(shape, i);
                lemma_view_representable(children@[i]);
            }
        },
        _ => {},
    }
}

/// The hull of a sequence of boxes holds each of them.
pub proof fn lemma_hull_holds_each(boxes: Seq<RectangleView>, i: int)
    requires
        0 <= i < boxes.len(),
    ensures
        RectangleView::hull_of(boxes).holds(boxes[i]),
    decreases boxes.len(),
{
    if boxes.len() > 1 && i < boxes.len() - 1 {
        lemma_hull_holds_each(boxes.drop_last(), i);
    }
}

/// No smaller box holds every box of the sequence: each side of the hull is
/// a side of one of the boxes.
pub proof fn lemma_hull_is_tight(boxes: Seq<RectangleView>)
    requires
        boxes.len() > 0,
    ensures
        exists|i: int| 0 <= i < boxes.len() && RectangleView::hull_of(boxes).x == boxes[i].x,
        exists|i: int| 0 <= i < boxes.len() && RectangleView::hull_of(boxes).y == boxes[i].y,
        exists|i: int|
            0 <= i < boxes.len() && RectangleView::hull_of(boxes).x + RectangleView::hull_of(
                boxes,
            ).width == boxes[i].x + boxes[i].width,
        exists|i: int|
            0 <= i < boxes.len() && RectangleView::hull_of(boxes).y + RectangleView::hull_of(
                boxes,
            ).height == boxes[i].y + boxes[i].height,
    decreases boxes.len(),
{
    let hull = RectangleView::hull_of(boxes);
    let last = boxes.len() - 1;
    if boxes.len() == 1 {
        assert(hull == boxes[0]);
    } else {
        let front = boxes.drop_last();
        let inner = RectangleView::hull_of(front);
        lemma_hull_is_tight(front);
        let left = choose|i: int| 0 <= i < front.len() && inner.x == front[i].x;
        let top = choose|i: int| 0 <= i < front.len() && inner.y == front[i].y;
        let right = choose|i: int|
            0 <= i < front.len() && inner.x + inner.width == front[i].x + front[i].width;
        let bottom = choose|i: int|
            0 <= i < front.len() && inner.y + inner.height == front[i].y + front[i].height;
        assert(hull.x == boxes[left].x || hull.x == boxes[last].x);
        assert(hull.y == boxes[top].y || hull.y == boxes[last].y);
        assert(hull.x + hull.width == boxes[right].x + boxes[right].width || hull.x + hull.width
            == boxes[last].x + boxes[last].width);
        assert(hull.y + hull.height == boxes[bottom].y + boxes[bottom].height || hull.y
            + hull.height == boxes[last].y + boxes[last].height);
    }
}

/// A group is visible exactly when one of its children is.
pub proof fn lemma_group_in_screen(children: Seq<ShapeView>, w: int, h: int)
    ensures
        ShapeView::Compound(children).in_screen(w, h) <==> exists|i: int|
            0 <= i < children.len() && (#[trigger] children[i]).in_screen(w, h),
{
    assert(ShapeView::Compound(children)->Compound_0 == children);
}

impl PointView {
    /// Both coordinates fit the machine type.
    pub open spec fn representable(self) -> bool {
        i32::MIN <= self.x <= i32::MAX && i32::MIN <= self.y <= i32::MAX
    }

    pub open spec fn translate(self, dx: int, dy: int) -> PointView {
        PointView { x: self.x + dx, y: self.y + dy }
    }

    /// Strict containment in a playfield `w` wide and `h` high.
    pub open spec fn in_screen(self, w: int, h: int) -> bool {
        0 <= self.x < w && 0 <= self.y < h
    }
}

impl CircleView {
    /// The center and the radius fit the machine types.
    pub open spec fn representable(self) -> bool {
        &&& i32::MIN <= self.x <= i32::MAX
        &&& i32::MIN <= self.y <= i32::MAX
        &&& 0 <= self.r <= u32::MAX
    }

    pub open spec fn translate(self, dx: int, dy: int) -> CircleView {
        CircleView { x: self.x + dx, y: self.y + dy, r: self.r }
    }

    /// The enclosing square of side `2r` around the center.
    pub open spec fn bounding_box(self) -> RectangleView {
        RectangleView {
            x: self.x - self.r,
            y: self.y - self.r,
            width: 2 * self.r,
            height: 2 * self.r,
        }
    }

    /// The disc reaches the left and the top edge of a playfield `w` wide
    /// and `h` high or lies beyond them, and it begins before the right and
    /// the bottom edge.
    pub open spec fn in_screen(self, w: int, h: int) -> bool {
        &&& self.x + self.r >= 0
        &&& self.x - self.r < w
        &&& self.y + self.r >= 0
        &&& self.y - self.r < h
    }
}

impl RectangleView {
    /// The corner and the extent fit the machine types.
    pub open spec fn representable(self) -> bool {
        &&& i32::MIN <= self.x <= i32::MAX
        &&& i32::MIN <= self.y <= i32::MAX
        &&& 0 <= self.width <= u32::MAX
        &&& 0 <= self.height <= u32::MAX
    }

    pub open spec fn translate(self, dx: int, dy: int) -> RectangleView {
        RectangleView { x: self.x + dx, y: self.y + dy, width: self.width, height: self.height }
    }

    /// The smallest box that holds both boxes.
    pub open spec fn hull(self, other: RectangleView) -> RectangleView {
        let x = if self.x <= other.x { self.x } else { other.x };
        let y = if self.y <= other.y { self.y } else { other.y };
        let right = if self.x + self.width >= other.x + other.width {
            self.x + self.width
        } else {
            other.x + other.width
        };
        let bottom = if self.y + self.height >= other.y + other.height {
            self.y + self.height
        } else {
            other.y + other.height
        };
        RectangleView { x, y, width: right - x, height: bottom - y }
    }

    /// `other` lies within this box, edges included.
    pub open spec fn holds(self, other: RectangleView) -> bool {
        &&& self.x <= other.x
        &&& self.y <= other.y
        &&& other.x + other.width <= self.x + self.width
        &&& other.y + other.height <= self.y + self.height
    }

    /// The box of no extent at the origin.
    pub open spec fn empty() -> RectangleView {
        RectangleView { x: 0, y: 0, width: 0, height: 0 }
    }

    /// The smallest box that holds every box of `boxes`, and the empty box
    /// at the origin when there is none.
    pub open spec fn hull_of(boxes: Seq<RectangleView>) -> RectangleView
        decreases boxes.len(),
    {
        if boxes.len() == 0 {
            RectangleView::empty()
        } else if boxes.len() == 1 {
            boxes[0]
        } else {
            RectangleView::hull_of(boxes.drop_last()).hull(boxes.last())
        }
    }

    /// The box may be up to one full extent off the left or top edge and may
    /// start anywhere up to the right or bottom edge.
    pub open spec fn in_screen(self, w: int, h: int) -> bool {
        &&& self.x >= -self.width
        &&& self.x <= w
        &&& self.y >= -self.height
        &&& self.y <= h
    }
}

impl ShapeView {
    /// Every coordinate and extent in the shape fits its machine type.
    pub open spec fn representable(self) -> bool
        decreases self,
    {
        match self {
            ShapeView::Point(p) => p.representable(),
            ShapeView::Circle(c) => c.representable(),
            ShapeView::Rectangle(b) => b.representable(),
            ShapeView::Compound(children) => forall|i: int|
                0 <= i < children.len() ==> (#[trigger] children[i]).representable(),
        }
    }

    /// The bounding boxes of `children`, in order.
    pub open spec fn boxes_of(children: Seq<ShapeView>) -> Seq<RectangleView>
        decreases children, 1nat,
    {
        Seq::new(
            children.len(),
            |i: int|
                if 0 <= i < children.len() {
                    children[i].bounding_box()
                } else {
                    RectangleView::empty()
                },
        )
    }

    /// The smallest axis-aligned box that holds the shape: a point's box has
    /// no extent, a circle's is the square around it, a rectangle is its own
    /// box, and a group's box is the hull of its children's boxes. A group
    /// without children has the empty box at the origin, and as a child of
    /// another group it adds that box to the hull.
    pub open spec fn bounding_box(self) -> RectangleView
        decreases self, 0nat,
    {
        match self {
            ShapeView::Point(p) => RectangleView { x: p.x, y: p.y, width: 0, height: 0 },
            ShapeView::Circle(c) => c.bounding_box(),
            ShapeView::Rectangle(b) => b,
            ShapeView::Compound(children) => RectangleView::hull_of(ShapeView::boxes_of(children)),
        }
    }

    /// The shape moved by `(dx, dy)`; a group moves child by child.
    pub open spec fn translate(self, dx: int, dy: int) -> ShapeView
        decreases self,
    {
        match self {
            ShapeView::Point(p) => ShapeView::Point(p.translate(dx, dy)),
            ShapeView::Circle(c) => ShapeView::Circle(c.translate(dx, dy)),
            ShapeView::Rectangle(b) => ShapeView::Rectangle(b.translate(dx, dy)),
            ShapeView::Compound(children) => ShapeView::Compound(
                Seq::new(
                    children.len(),
                    |i: int|
                        if 0 <= i < children.len() {
                            children[i].translate(dx, dy)
                        } else {
                            ShapeView::Compound(Seq::empty())
                        },
                ),
            ),
        }
    }

    /// Visibility in a playfield `w` wide and `h` high. Each primitive has
    /// its own edge tolerance; a group is visible when any child is.
    pub open spec fn in_screen(self, w: int, h: int) -> bool
        decreases self,
    {
        match self {
            ShapeView::Point(p) => p.in_screen(w, h),
            ShapeView::Circle(c) => c.in_screen(w, h),
            ShapeView::Rectangle(b) => b.in_screen(w, h),
            ShapeView::Compound(children) => exists|i: int|
                0 <= i < children.len() && (#[trigger] children[i]).in_screen(w, h),
        }
    }
}

/// A box in wide integers, for the intermediate results of a hull.
struct Extent {
    x: i64,
    y: i64,
    width: i64,
    height: i64,
}

impl View for Extent {
    type V = RectangleView;

    closed spec fn view(&self) -> RectangleView {
        RectangleView {
            x: self.x as int,
            y: self.y as int,
            width: self.width as int,
            height: self.height as int,
        }
    }
}

impl Extent {
    /// The box lies within `2^33` of the origin, which every box derived
    /// from machine coordinates does.
    spec fn bounded(&self) -> bool {
        &&& -0x2_0000_0000 <= self.x
        &&& -0x2_0000_0000 <= self.y
        &&& 0 <= self.width
        &&& 0 <= self.height
        &&& self.x + self.width <= 0x2_0000_0000
        &&& self.y + self.height <= 0x2_0000_0000
    }

    /// The smallest box that holds both boxes.
    fn hull(&self, other: &Extent) -> (both: Extent)
        requires
            self.bounded(),
            other.bounded(),
        ensures
            both@ == self@.hull(other@),
            both.bounded(),
    {
        let x: i64 = if self.x <= other.x { self.x } else { other.x };
        let y: i64 = if self.y <= other.y { self.y } else { other.y };
        let right: i64 = if self.x + self.width >= other.x + other.width {
            self.x + self.width
        } else {
            other.x + other.width
        };
        let bottom: i64 = if self.y + self.height >= other.y + other.height {
            self.y + self.height
        } else {
            other.y + other.height
        };
        Extent { x, y, width: right - x, height: bottom - y }
    }
}

impl ShapeError {
    /// The message that goes with the error.
    pub fn message(&self) -> (text: String)
        ensures
            text@ == "Not a compound shape"@,
    {
        "Not a compound shape".to_string()
    }
}

impl Shape {
    pub fn new_point(x: i32, y: i32) -> (shape: Shape)
        ensures
            shape == Shape::Point(Point { x, y }),
            shape@ == ShapeView::Point(PointView { x: x as int, y: y as int }),
    {
        Shape::Point(Point { x, y })
    }

    pub fn new_circle(x: i32, y: i32, r: u32) -> (shape: Shape)
        ensures
            shape == Shape::Circle(Circle { x, y, r }),
            shape@ == ShapeView::Circle(CircleView { x: x as int, y: y as int, r: r as int }),
    {
        Shape::Circle(Circle { x, y, r })
    }

    pub fn new_rectangle(x: i32, y: i32, width: u32, height: u32) -> (shape: Shape)
        ensures
            shape == Shape::Rectangle(Rectangle { x, y, width, height }),
            shape@ == ShapeView::Rectangle(
                RectangleView {
                    x: x as int,
                    y: y as int,
                    width: width as int,
                    height: height as int,
                },
            ),
    {
        Shape::Rectangle(Rectangle { x, y, width, height })
    }

    /// A group without children.
    pub fn new_compound() -> (shape: Shape)
        ensures
            shape@ == ShapeView::Compound(Seq::<ShapeView>::empty()),
    {
        let children: Vec<Shape> = Vec::new();
        proof {
            lemma_compound_view(children);
            assert(views_of(children@) =~= Seq::<ShapeView>::empty());
        }
        Shape::Compound(children)
    }

    /// The bounding box in wide integers, which every shape has.
    fn extent(&self) -> (found: Extent)
        ensures
            found@ == self@.bounding_box(),
            found.bounded(),
        decreases self,
    {
        match self {
            Shape::Rectangle(rect) => Extent {
                x: rect.x as i64,
                y: rect.y as i64,
                width: rect.width as i64,
                height: rect.height as i64,
            },
            Shape::Circle(c) => Extent {
                x: c.x as i64 - c.r as i64,
                y: c.y as i64 - c.r as i64,
                width: 2 * (c.r as i64),
                height: 2 * (c.r as i64),
            },
            Shape::Point(p) => Extent { x: p.x as i64, y: p.y as i64, width: 0, height: 0 },
            Shape::Compound(children) => {
                proof {
                    lemma_compound_view(*children);
                }
                let ghost boxes = ShapeView::boxes_of(views_of(children@));
                let mut found = Extent { x: 0, y: 0, width: 0, height: 0 };
                let mut i: usize = 0;
                while i < children.len()
                    invariant
                        i <= children.len(),
                        *self == Shape::Compound(*children),
                        boxes == ShapeView::boxes_of(views_of(children@)),
                        found@ == RectangleView::hull_of(boxes.subrange(0, i as int)),
                        found.bounded(),
                    decreases children.len() - i,
                {
                    proof {
                        lemma_child_decreases(*self, i as int);
                    }
                    let next = children[i].extent();
                    proof {
                        let upto = boxes.subrange(0, i + 1);
                        assert(upto.drop_last() =~= boxes.subrange(0, i as int));
                        assert(upto.last() == views_of(children@)[i as int].bounding_box());
                    }
                    found = if i == 0 { next } else { found.hull(&next) };
                    i += 1;
                }
                assert(boxes.subrange(0, i as int) =~= boxes);
                found
            },
        }
    }

    /// The bounding box, where it fits the machine types, and `None` where
    /// it does not.
    pub fn try_get_box(&self) -> (found: Option<Rectangle>)
        ensures
            self@.bounding_box().representable() ==> found is Some && found->Some_0@
                == self@.bounding_box(),
            !self@.bounding_box().representable() ==> found is None,
    {
        let wide = self.extent();
        if wide.x < -0x8000_0000 || wide.x > 0x7fff_ffff || wide.y < -0x8000_0000 || wide.y
            > 0x7fff_ffff || wide.width > 0xffff_ffff || wide.height > 0xffff_ffff {
            None
        } else {
            Some(
                Rectangle {
                    x: wide.x as i32,
                    y: wide.y as i32,
                    width: wide.width as u32,
                    height: wide.height as u32,
                },
            )
        }
    }

    /// The bounding box of a shape whose box fits the machine types. A
    /// rectangle is its own box; a circle's box is the square of side `2r`
    /// centered on the circle's center.
    pub fn get_box(&self) -> (found: Rectangle)
        requires
            self@.bounding_box().representable(),
        ensures
            found@ == self@.bounding_box(),
            self matches Shape::Rectangle(rect) ==> found == rect,
            self matches Shape::Circle(c) ==> found.width == 2 * c.r && found.height == found.width
                && found.x + c.r == c.x && found.y + c.r == c.y,
    {
        let wide = self.extent();
        Rectangle {
            x: wide.x as i32,
            y: wide.y as i32,
            width: wide.width as u32,
            height: wide.height as u32,
        }
    }

    /// Whether the shape can move by `(dx, dy)` with every coordinate
    /// staying in the machine type.
    pub fn can_advance(&self, dx: i32, dy: i32) -> (fits: bool)
        ensures
            fits == self@.translate(dx as int, dy as int).representable(),
        decreases self,
    {
        match self {
            Shape::Point(Point { x, y }) | Shape::Circle(Circle { x, y, .. }) | Shape::Rectangle(
                Rectangle { x, y, .. },
            ) => x.checked_add(dx).is_some() && y.checked_add(dy).is_some(),
            Shape::Compound(children) => {
                proof {
                    lemma_compound_view(*children);
                }
                let ghost moved = self@.translate(dx as int, dy as int)->Compound_0;
                let mut i: usize = 0;
                while i < children.len()
                    invariant
                        i <= children.len(),
                        *self == Shape::Compound(*children),
                        self@ == ShapeView::Compound(views_of(children@)),
                        moved == self@.translate(dx as int, dy as int)->Compound_0,
                        forall|j: int| 0 <= j < i ==> (#[trigger] moved[j]).representable(),
                    decreases children.len() - i,
                {
                    proof {
                        lemma_child_decreases(*self, i as int);
                    }
                    if !children[i].can_advance(dx, dy) {
                        assert(!moved[i as int].representable());
                        return false;
                    }
                    i += 1;
                }
                true
            },
        }
    }

    /// Moves the shape by `(dx, dy)` whole pixels; a group moves child by
    /// child.
    pub fn advance(&mut self, dx: i32, dy: i32)
        requires
            old(self)@.translate(dx as int, dy as int).representable(),
        ensures
            final(self)@ == old(self)@.translate(dx as int, dy as int),
        decreases *old(self),
    {
        match self {
            Shape::Point(p) => {
                p.x = p.x + dx;
                p.y = p.y + dy;
            },
            Shape::Circle(c) => {
                c.x = c.x + dx;
                c.y = c.y + dy;
            },
            Shape::Rectangle(rect) => {
                rect.x = rect.x + dx;
                rect.y = rect.y + dy;
            },
            Shape::Compound(children) => {
                let ghost before = *children;
                proof {
                    lemma_compound_view(before);
                }
                let ghost moved = old(self)@.translate(dx as int, dy as int)->Compound_0;
                let mut i: usize = 0;
                while i < children.len()
                    invariant
                        i <= children.len(),
                        children.len() == before.len(),
                        *old(self) == Shape::Compound(before),
                        moved == ShapeView::Compound(views_of(before@)).translate(
                            dx as int,
                            dy as int,
                        )->Compound_0,
                        forall|j: int|
                            0 <= j < moved.len() ==> (#[trigger] moved[j]).representable(),
                        forall|j: int| 0 <= j < i ==> (#[trigger] children@[j])@ == moved[j],
                        forall|j: int|
                            i <= j < children.len() ==> #[trigger] children@[j] == before@[j],
                    decreases children.len() - i,
                {
                    proof {
                        lemma_child_decreases(*old(self), i as int);
                    }
                    assert(moved[i as int].representable());
                    children[i].advance(dx, dy);
                    i += 1;
                }
                proof {
                    lemma_compound_view(*children);
                    assert(views_of(children@) =~= moved);
                }
            },
        }
    }

    /// Visibility in a playfield `width` wide and `height` high.
    pub fn is_within(&self, width: u32, height: u32) -> (visible: bool)
        ensures
            visible == self@.in_screen(width as int, height as int),
        decreases self,
    {
        match self {
            Shape::Rectangle(rect) => {
                rect.x as i64 >= -(rect.width as i64) && rect.x as i64 <= width as i64
                    && rect.y as i64 >= -(rect.height as i64) && rect.y as i64 <= height as i64
            },
            Shape::Point(point) => {
                point.x >= 0 && (point.x as i64) < width as i64 && point.y >= 0 && (point.y as i64)
                    < height as i64
            },
            Shape::Circle(circle) => {
                circle.x as i64 + circle.r as i64 >= 0 && circle.x as i64 - (circle.r as i64)
                    < width as i64 && circle.y as i64 + circle.r as i64 >= 0 && circle.y as i64 - (
                circle.r as i64) < height as i64
            },
            Shape::Compound(shapes) => {
                proof {
                    lemma_compound_view(*shapes);
                    lemma_group_in_screen(views_of(shapes@), width as int, height as int);
                }
                let mut i: usize = 0;
                while i < shapes.len()
                    invariant
                        i <= shapes.len(),
                        *self == Shape::Compound(*shapes),
                        self@.in_screen(width as int, height as int) <==> exists|j: int|
                            0 <= j < views_of(shapes@).len() && (#[trigger] views_of(
                                shapes@,
                            )[j]).in_screen(width as int, height as int),
                        forall|j: int|
                            0 <= j < i ==> !(#[trigger] views_of(shapes@)[j]).in_screen(
                                width as int,
                                height as int,
                            ),
                    decreases shapes.len() - i,
                {
                    proof {
                        lemma_child_decreases(*self, i as int);
                    }
                    if shapes[i].is_within(width, height) {
                        assert(views_of(shapes@)[i as int].in_screen(width as int, height as int));
                        return true;
                    }
                    i += 1;
                }
                false
            },
        }
    }

    /// Visibility in the playfield of `WIDTH` by `HEIGHT`.
    pub fn is_in_screen(&self) -> (visible: bool)
        ensures
            visible == self@.in_screen(WIDTH as int, HEIGHT as int),
    {
        self.is_within(WIDTH, HEIGHT)
    }

    /// Appends `item` as the last child of a group. Any other shape is left
    /// as it was and the call reports `InvalidOperation`.
    pub fn push(&mut self, item: Shape) -> (outcome: Result<(), ShapeError>)
        ensures
            old(self)@ is Compound ==> outcome == Ok::<(), ShapeError>(()) && final(self)@
                == ShapeView::Compound(old(self)@->Compound_0.push(item@)),
            !(old(self)@ is Compound) ==> outcome == Err::<(), ShapeError>(
                ShapeError::InvalidOperation,
            ) && *final(self) == *old(self),
    {
        match self {
            Shape::Compound(children) => {
                let ghost before = *children;
                children.push(item);
                proof {
                    lemma_compound_view(before);
                    lemma_compound_view(*children);
                    assert(views_of(children@) =~= views_of(before@).push(item@));
                }
                Ok(())
            },
            _ => Err(ShapeError::InvalidOperation),
        }
    }
}

} // verus!
