use rustcraft::camera::{Cam, Control};
use rustcraft::geometry::{Double, Triple};

fn flat(x: i64, z: i64) -> u8 {
    ((x + z).rem_euclid(3)) as u8
}

fn start() -> Cam {
    Cam::new(Triple { x: 0, y: -100, z: -500 })
}

#[test]
fn new_camera_is_level_and_still() {
    let c = start();
    assert_eq!(c.rot, Double { x: 0, y: 0 });
    assert_eq!(c.disp, Double { x: 0, y: 0 });
    assert_eq!(c.keys, [false; 8]);
}

#[test]
fn press_and_release_set_one_slot() {
    let mut c = start();
    c.press(Control::LookDown);
    assert_eq!(c.keys, [false, false, false, false, false, true, false, false]);
    c.press(Control::Forward);
    c.release(Control::LookDown);
    assert_eq!(c.keys, [true, false, false, false, false, false, false, false]);
}

#[test]
fn nothing_held_nothing_moves() {
    let mut c = start();
    c.advance(Double { x: 30, y: 40 }, 5);
    assert_eq!(c.pos, Triple { x: 0, y: -100, z: -500 });
    assert_eq!(c.rot, Double { x: 0, y: 0 });
}

#[test]
fn forward_and_strafe_follow_the_step() {
    let mut c = start();
    c.press(Control::Forward);
    c.advance(Double { x: 30, y: 40 }, 0);
    assert_eq!(c.pos, Triple { x: 30, y: -100, z: -460 });
    assert_eq!(c.disp, Double { x: 30, y: 40 });
    c.release(Control::Forward);
    c.press(Control::Left);
    c.advance(Double { x: 30, y: 40 }, 0);
    assert_eq!(c.pos, Triple { x: -10, y: -100, z: -430 });
    c.release(Control::Left);
    c.press(Control::Right);
    c.press(Control::Back);
    c.advance(Double { x: 30, y: 40 }, 0);
    assert_eq!(c.pos, Triple { x: 0, y: -100, z: -500 });
    assert_eq!(c.disp, Double { x: 0, y: 0 });
}

#[test]
fn pitch_is_clamped() {
    let mut c = start();
    c.press(Control::LookDown);
    c.advance(Double { x: 0, y: 0 }, 140);
    assert_eq!(c.rot.x, 140);
    c.advance(Double { x: 0, y: 0 }, 140);
    assert_eq!(c.rot.x, 150);
    c.release(Control::LookDown);
    c.press(Control::LookUp);
    c.advance(Double { x: 0, y: 0 }, 400);
    assert_eq!(c.rot.x, -150);
}

#[test]
fn yaw_wraps_with_the_sign_of_the_angle() {
    let mut c = start();
    c.press(Control::TurnRight);
    c.advance(Double { x: 0, y: 0 }, 628);
    assert_eq!(c.rot.y, 628);
    c.advance(Double { x: 0, y: 0 }, 1);
    assert_eq!(c.rot.y, 1);
    c.release(Control::TurnRight);
    c.press(Control::TurnLeft);
    c.advance(Double { x: 0, y: 0 }, 630);
    assert_eq!(c.rot.y, -629 + 628);
    c.advance(Double { x: 0, y: 0 }, 700);
    assert_eq!(c.rot.y, -701 + 628);
    c.advance(Double { x: 0, y: 0 }, 2000);
    // 2073 hundredths less three periods of 628.3185...
    assert_eq!(c.rot.y, -188);
}

#[test]
fn displacement_under_a_chunk_keeps_the_terrain() {
    let mut c = start();
    c.press(Control::Forward);
    c.advance(Double { x: 590, y: 0 }, 0);
    assert_eq!(c.disp.x, 590);
    assert!(!c.needs_regeneration());
    assert!(c.refresh_terrain(&flat).is_none());
    assert_eq!(c.disp.x, 590);
}

#[test]
fn displacement_over_a_chunk_regenerates_once() {
    let mut c = start();
    c.press(Control::Forward);
    c.advance(Double { x: 590, y: 0 }, 0);
    c.advance(Double { x: 20, y: 0 }, 0);
    assert_eq!(c.disp.x, 610);
    assert!(c.needs_regeneration());
    let cubes = c.refresh_terrain(&flat).expect("regenerated");
    assert_eq!(cubes.len(), 324);
    assert_eq!(c.disp, Double { x: 0, y: 0 });
    assert_eq!(c.pos.x, 610);
    assert!(c.refresh_terrain(&flat).is_none());
}

#[test]
fn displacement_along_z_or_backwards_counts_too() {
    let mut c = start();
    c.disp = Double { x: 0, y: -601 };
    assert!(c.needs_regeneration());
    c.disp = Double { x: -600, y: 600 };
    assert!(!c.needs_regeneration());
}
