use sideways::starfield::{
    Star, Starfield, MAX_STARS, STAR_BRIGHTNESS, STAR_SPEED_MAX, STAR_SPEED_MIN,
};

fn stars(field: &Starfield) -> Vec<Option<Star>> {
    (0..MAX_STARS).map(|i| field.star(i)).collect()
}

#[test]
fn starfield_constants() {
    assert_eq!(MAX_STARS, 128);
    assert_eq!(STAR_SPEED_MIN, 3);
    assert_eq!(STAR_SPEED_MAX, 15);
    assert_eq!(STAR_BRIGHTNESS, 200);
}

#[test]
fn new_starfield_is_full_of_stars_in_the_playfield() {
    let field = Starfield::new();
    let mut xs = vec![];
    let mut ys = vec![];
    let mut speeds = vec![];
    for slot in stars(&field) {
        let s = slot.expect("every slot holds a star");
        assert!(0 <= s.x && s.x < 512);
        assert!(0 <= s.y && s.y < 384);
        assert!(-15 <= s.vx && s.vx <= -3);
        xs.push(s.x);
        ys.push(s.y);
        speeds.push(s.vx);
    }
    // a draw that handed back one of its bounds every time would give one value
    assert!(xs.iter().any(|x| *x != xs[0]));
    assert!(ys.iter().any(|y| *y != ys[0]));
    assert!(speeds.iter().any(|v| *v != speeds[0]));
    assert!(xs.iter().any(|x| *x != 0));
    assert!(ys.iter().any(|y| *y != 0));
    assert!(speeds.iter().any(|v| *v != -3));
}

#[test]
fn stars_move_left_by_their_speed() {
    let mut field = Starfield::new();
    let before = stars(&field);
    field.advance();
    let after = stars(&field);
    for i in 0..MAX_STARS {
        let b = before[i].unwrap();
        assert_eq!(after[i], Some(Star { x: b.x + b.vx, y: b.y, vx: b.vx }));
    }
}

#[test]
fn stars_left_of_the_playfield_leave_and_new_ones_come_at_the_right_edge() {
    let mut field = Starfield::new();
    let mut left = 0;
    let mut returned = 0;
    for _ in 0..400 {
        let before = stars(&field);
        field.advance();
        let moved = stars(&field);
        for i in 0..MAX_STARS {
            match before[i] {
                None => assert_eq!(moved[i], None),
                Some(b) if b.x < 0 => {
                    assert_eq!(moved[i], None);
                    left += 1;
                }
                Some(b) => assert_eq!(moved[i], Some(Star { x: b.x + b.vx, y: b.y, vx: b.vx })),
            }
        }
        field.spawn_new_stars();
        let filled = stars(&field);
        for i in 0..MAX_STARS {
            match moved[i] {
                Some(s) => assert_eq!(filled[i], Some(s)),
                None => {
                    let s = filled[i].expect("an empty slot is filled");
                    assert_eq!(s.x, 511);
                    assert!(0 <= s.y && s.y < 384);
                    assert!(-15 <= s.vx && s.vx <= -3);
                    returned += 1;
                }
            }
        }
    }
    assert!(left > 0);
    assert_eq!(left, returned);
}

#[test]
fn spawn_new_stars_leaves_a_full_field_alone() {
    let mut field = Starfield::new();
    let before = stars(&field);
    field.spawn_new_stars();
    assert_eq!(stars(&field), before);
}
