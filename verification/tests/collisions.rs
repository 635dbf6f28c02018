use sideways::collide::{
    collide_circle_to_circle, collide_circle_to_point, collide_rect_to_circle,
    collide_rect_to_point, collide_rect_to_rect, Collider,
};
use sideways::shape::{Circle, Point, Rectangle, Shape};

fn rect(x: i32, y: i32, width: u32, height: u32) -> Rectangle {
    Rectangle { x, y, width, height }
}

fn circle(x: i32, y: i32, r: u32) -> Circle {
    Circle { x, y, r }
}

fn point(x: i32, y: i32) -> Point {
    Point { x, y }
}

#[test]
fn overlapping_rectangles_collide() {
    assert!(Shape::new_rectangle(0, 0, 10, 10).collide(&Shape::new_rectangle(5, 5, 10, 10)));
    assert!(collide_rect_to_rect(&rect(0, 0, 10, 10), &rect(5, 5, 10, 10)));
}

#[test]
fn rectangles_touching_at_an_edge_do_not_collide() {
    assert!(!Shape::new_rectangle(0, 0, 10, 10).collide(&Shape::new_rectangle(10, 10, 10, 10)));
    assert!(!collide_rect_to_rect(&rect(0, 0, 10, 10), &rect(10, 0, 10, 10)));
    assert!(!collide_rect_to_rect(&rect(0, 0, 10, 10), &rect(0, 10, 10, 10)));
    assert!(collide_rect_to_rect(&rect(0, 0, 10, 10), &rect(9, 9, 10, 10)));
    assert!(!collide_rect_to_rect(&rect(0, 0, 10, 10), &rect(-10, 0, 10, 10)));
}

#[test]
fn rectangles_at_the_ends_of_the_machine_range_are_compared_exactly() {
    assert!(collide_rect_to_rect(&rect(i32::MIN, 0, u32::MAX, 1), &rect(i32::MAX - 1, 0, 1, 1)));
    assert!(!collide_rect_to_rect(&rect(i32::MIN, 0, u32::MAX, 1), &rect(i32::MAX, 0, 1, 1)));
    assert!(collide_rect_to_rect(&rect(i32::MAX, i32::MAX, u32::MAX, u32::MAX),
        &rect(i32::MAX, i32::MAX, 1, 1)));
}

#[test]
fn rectangle_without_extent_overlaps_nothing_it_only_touches() {
    assert!(!collide_rect_to_rect(&rect(5, 5, 0, 0), &rect(5, 5, 0, 0)));
    assert!(collide_rect_to_rect(&rect(5, 5, 0, 0), &rect(0, 0, 10, 10)));
    assert!(!collide_rect_to_rect(&rect(0, 5, 0, 0), &rect(0, 0, 10, 10)));
}

#[test]
fn point_collides_with_circle_around_it() {
    assert!(Shape::new_point(5, 5).collide(&Shape::new_circle(5, 5, 3)));
    assert!(Shape::new_circle(5, 5, 3).collide(&Shape::new_point(5, 5)));
}

#[test]
fn distant_point_does_not_collide_with_circle() {
    assert!(!Shape::new_point(100, 5).collide(&Shape::new_circle(5, 5, 3)));
    assert!(!Shape::new_circle(5, 5, 3).collide(&Shape::new_point(100, 5)));
}

#[test]
fn point_on_the_rim_of_a_circle_collides() {
    assert!(collide_circle_to_point(&circle(0, 0, 5), &point(3, 4)));
    assert!(collide_circle_to_point(&circle(0, 0, 5), &point(-5, 0)));
    assert!(!collide_circle_to_point(&circle(0, 0, 5), &point(4, 4)));
    assert!(!collide_circle_to_point(&circle(0, 0, 5), &point(0, 6)));
    assert!(collide_circle_to_point(&circle(7, 7, 0), &point(7, 7)));
    assert!(!collide_circle_to_point(&circle(7, 7, 0), &point(7, 8)));
}

#[test]
fn circle_to_point_is_exact_at_the_ends_of_the_machine_range() {
    assert!(!collide_circle_to_point(&circle(i32::MIN, i32::MIN, u32::MAX),
        &point(i32::MAX, i32::MAX)));
    assert!(collide_circle_to_point(&circle(i32::MIN, 0, u32::MAX), &point(i32::MAX, 0)));
    assert!(!collide_circle_to_point(&circle(i32::MIN, 0, u32::MAX - 1), &point(i32::MAX, 0)));
}

#[test]
fn point_in_rectangle_counts_the_edges() {
    let r = rect(10, 20, 5, 6);
    assert!(collide_rect_to_point(&r, &point(10, 20)));
    assert!(collide_rect_to_point(&r, &point(15, 26)));
    assert!(collide_rect_to_point(&r, &point(12, 23)));
    assert!(!collide_rect_to_point(&r, &point(16, 23)));
    assert!(!collide_rect_to_point(&r, &point(12, 27)));
    assert!(!collide_rect_to_point(&r, &point(9, 23)));
    assert!(!collide_rect_to_point(&r, &point(12, 19)));
    assert!(collide_rect_to_point(&rect(i32::MAX, 0, u32::MAX, 0), &point(i32::MAX, 0)));
}

#[test]
fn rectangle_collides_with_circle_within_reach_of_its_nearest_point() {
    let r = rect(0, 0, 10, 10);
    assert!(collide_rect_to_circle(&r, &circle(5, 5, 0)));
    assert!(collide_rect_to_circle(&r, &circle(5, 5, 1)));
    assert!(collide_rect_to_circle(&r, &circle(15, 5, 5)));
    assert!(!collide_rect_to_circle(&r, &circle(15, 5, 4)));
    assert!(collide_rect_to_circle(&r, &circle(-3, 5, 3)));
    assert!(!collide_rect_to_circle(&r, &circle(-3, 5, 2)));
    assert!(collide_rect_to_circle(&r, &circle(13, 14, 5)));
    assert!(!collide_rect_to_circle(&r, &circle(14, 14, 5)));
    assert!(collide_rect_to_circle(&r, &circle(-3, -4, 5)));
    assert!(collide_rect_to_circle(&r, &circle(5, -2, 2)));
    assert!(!collide_rect_to_circle(&r, &circle(5, 13, 2)));
    assert!(collide_rect_to_circle(&r, &circle(10, 10, 0)));
    assert!(!collide_rect_to_circle(&r, &circle(11, 10, 0)));
}

#[test]
fn rectangle_to_circle_is_exact_at_the_ends_of_the_machine_range() {
    assert!(collide_rect_to_circle(&rect(i32::MIN, i32::MIN, 0, 0),
        &circle(i32::MAX, i32::MIN, u32::MAX)));
    assert!(!collide_rect_to_circle(&rect(i32::MIN, i32::MIN, 0, 0),
        &circle(i32::MAX, i32::MIN, u32::MAX - 1)));
    assert!(!collide_rect_to_circle(&rect(i32::MIN, i32::MIN, 0, 0),
        &circle(i32::MAX, i32::MAX, u32::MAX)));
}

#[test]
fn circles_collide_when_one_reaches_the_center_of_the_other() {
    assert!(collide_circle_to_circle(&circle(0, 0, 5), &circle(3, 4, 1)));
    assert!(collide_circle_to_circle(&circle(0, 0, 1), &circle(3, 4, 5)));
    assert!(!collide_circle_to_circle(&circle(0, 0, 4), &circle(3, 4, 4)));
    assert!(!collide_circle_to_circle(&circle(0, 0, 3), &circle(3, 4, 3)));
    assert!(collide_circle_to_circle(&circle(9, 9, 0), &circle(9, 9, 0)));
    assert!(!collide_circle_to_circle(&circle(9, 9, 0), &circle(9, 10, 0)));
    assert!(collide_circle_to_circle(&circle(i32::MIN, 0, 0), &circle(i32::MAX, 0, u32::MAX)));
}

#[test]
fn points_collide_only_when_equal() {
    assert!(Shape::new_point(3, 4).collide(&Shape::new_point(3, 4)));
    assert!(!Shape::new_point(3, 4).collide(&Shape::new_point(4, 3)));
    assert!(!Shape::new_point(3, 4).collide(&Shape::new_point(3, 5)));
}

fn samples() -> Vec<Shape> {
    let mut group = Shape::new_compound();
    group.push(Shape::new_rectangle(100, 100, 10, 10)).unwrap();
    group.push(Shape::new_circle(0, 0, 4)).unwrap();
    let mut nested = Shape::new_compound();
    nested.push(Shape::new_point(7, 7)).unwrap();
    let mut deep = Shape::new_compound();
    deep.push(Shape::new_circle(105, 105, 2)).unwrap();
    nested.push(deep).unwrap();
    vec![
        Shape::new_point(5, 5),
        Shape::new_point(100, 5),
        Shape::new_point(7, 7),
        Shape::new_circle(5, 5, 3),
        Shape::new_circle(8, 9, 5),
        Shape::new_circle(6, 6, 1),
        Shape::new_circle(104, 104, 1),
        Shape::new_rectangle(0, 0, 10, 10),
        Shape::new_rectangle(5, 5, 10, 10),
        Shape::new_rectangle(10, 10, 10, 10),
        Shape::new_rectangle(-8, -8, 6, 6),
        Shape::new_compound(),
        group,
        nested,
    ]
}

#[test]
fn collide_does_not_depend_on_the_order_of_the_shapes() {
    let shapes = samples();
    let mut hits = 0;
    let mut misses = 0;
    for a in &shapes {
        for b in &shapes {
            assert_eq!(a.collide(b), b.collide(a), "{:?} with {:?}", a, b);
            if a.collide(b) {
                hits += 1;
            } else {
                misses += 1;
            }
        }
    }
    assert!(hits > 0);
    assert!(misses > 0);
}

#[test]
fn compound_collides_when_any_child_does() {
    let targets = samples();
    let children = samples();
    for first in 0..children.len() {
        for second in 0..children.len() {
            let a = &children[first];
            let b = &children[second];
            let mut group = Shape::new_compound();
            group.push(samples().swap_remove(first)).unwrap();
            group.push(samples().swap_remove(second)).unwrap();
            for t in &targets {
                assert_eq!(group.collide(t), a.collide(t) || b.collide(t));
                assert_eq!(t.collide(&group), t.collide(a) || t.collide(b));
            }
        }
    }
}

#[test]
fn compound_of_rectangle_and_circle_collides_through_either_child() {
    let mut group = Shape::new_compound();
    group.push(Shape::new_rectangle(0, 0, 10, 10)).unwrap();
    group.push(Shape::new_circle(100, 100, 5)).unwrap();
    assert!(group.collide(&Shape::new_point(3, 3)));
    assert!(group.collide(&Shape::new_point(100, 103)));
    assert!(!group.collide(&Shape::new_point(50, 50)));
    assert!(Shape::new_point(3, 3).collide(&group));
    assert!(Shape::new_point(100, 103).collide(&group));
    assert!(!Shape::new_point(50, 50).collide(&group));
}

#[test]
fn empty_compound_collides_with_nothing() {
    for s in samples() {
        assert!(!Shape::new_compound().collide(&s));
        assert!(!s.collide(&Shape::new_compound()));
    }
}

#[test]
fn nested_compounds_collide_through_every_level() {
    let mut deep = Shape::new_compound();
    deep.push(Shape::new_point(1, 1)).unwrap();
    let mut middle = Shape::new_compound();
    middle.push(deep).unwrap();
    let mut outer = Shape::new_compound();
    outer.push(Shape::new_circle(50, 50, 1)).unwrap();
    outer.push(middle).unwrap();
    assert!(outer.collide(&Shape::new_rectangle(0, 0, 2, 2)));
    assert!(Shape::new_rectangle(0, 0, 2, 2).collide(&outer));
    assert!(!outer.collide(&Shape::new_rectangle(10, 10, 2, 2)));
    let mut other = Shape::new_compound();
    other.push(Shape::new_point(1, 1)).unwrap();
    assert!(outer.collide(&other));
    assert!(other.collide(&outer));
}

#[test]
fn shape_is_in_screen_as_a_collider_too() {
    assert!(Collider::is_in_screen(&Shape::new_point(511, 383)));
    assert!(!Collider::is_in_screen(&Shape::new_point(512, 383)));
    assert!(Collider::is_in_screen(&Shape::new_rectangle(512, 384, 1, 1)));
    assert!(Collider::is_in_screen(&Shape::new_circle(-3, -3, 3)));
}
