use sombervale::geometry::COORD_LIMIT;
use sombervale::animation::{BlobAnims, BlobCurrentAnim, FrogCurrentAnim, JeanAnims, JeanCurrentAnim};
use sombervale::control::{Direction, Walk};
use sombervale::geometry::{Point3, Rect};
use sombervale::random::Random;
use sombervale::system::{
    blob_wakes, bounce_clip, frog_choice, frog_moves, heading, integrate, leader_contacts,
    nearest, steer_blob, steer_jean, travel, BlobStep, FrogStep, BLOB_WAKE_CHANCE,
};

#[test]
fn integration_commits_free_moves() {
    let shapes = vec![Rect::new(1000, 1000, 100, 100)];
    let (p, v) = integrate(Point3::new(0, 0, 0), Point3::new(5, 0, -3), &shapes);
    assert_eq!(p, Point3::new(5, 0, -3));
    assert_eq!(v, Point3::new(5, 0, -3));
}

#[test]
fn integration_stops_before_shapes() {
    let shapes = vec![Rect::new(100, 0, 100, 100)];
    let pos = Point3::new(0, 0, 50);
    let (p, v) = integrate(pos, Point3::new(30, 0, 0), &shapes);
    assert_eq!(p, pos);
    assert_eq!(v, Point3::new(0, 0, 0));
}

#[test]
fn nearest_takes_first_of_equals() {
    let others = vec![Point3::new(10, 0, 0), Point3::new(0, 0, 3), Point3::new(-3, 0, 0)];
    assert_eq!(nearest(Point3::new(0, 0, 0), &others), Some((1, 9)));
    assert_eq!(nearest(Point3::new(0, 0, 0), &Vec::new()), None);
}

#[test]
fn frog_collides_with_touching_shadow() {
    let shadows = vec![Point3::new(1000, 0, 0), Point3::new(100, 0, 0)];
    let step = frog_choice(Point3::new(0, 0, 0), Point3::new(0, 0, 0), &shadows, true, 0);
    assert_eq!(step, FrogStep::Collide(1));
}

#[test]
fn frog_hunts_shadow_in_sight() {
    let shadows = vec![Point3::new(-500, 0, 0)];
    let step = frog_choice(Point3::new(0, 0, 0), Point3::new(0, 0, 0), &shadows, true, 0);
    assert_eq!(
        step,
        FrogStep::Hunt { anim: FrogCurrentAnim::HopLeft, toward: Point3::new(-500, 0, 0) }
    );
    let busy = frog_choice(Point3::new(0, 0, 0), Point3::new(0, 0, 0), &shadows, false, 0);
    assert_eq!(busy, FrogStep::Keep);
}

#[test]
fn frog_returns_to_far_leader() {
    let step = frog_choice(Point3::new(0, 0, 0), Point3::new(500, 0, 0), &Vec::new(), true, 10);
    assert_eq!(
        step,
        FrogStep::Return { anim: FrogCurrentAnim::HopRight, toward: Point3::new(500, 0, 0) }
    );
    let near = frog_choice(Point3::new(0, 0, 0), Point3::new(500, 0, 0), &Vec::new(), true, 60);
    assert_eq!(near, FrogStep::Keep);
}

#[test]
fn frog_moves_only_airborne() {
    for i in [0usize, 4, 5, 9] {
        assert!(!frog_moves(i));
    }
    for i in [1usize, 2, 3, 6, 7, 8] {
        assert!(frog_moves(i));
    }
}

#[test]
fn headings_and_travel() {
    assert_eq!(travel(60, 1000), 960);
    assert_eq!(travel(60, 16), 15);
    assert_eq!(heading(0, 256), Point3::new(256, 0, 0));
    assert_eq!(heading(3, 256), Point3::new(-181, 0, 181));
    assert_eq!(heading(6, 100), Point3::new(0, 0, -100));
}

#[test]
fn jean_steering() {
    let mut j = JeanAnims::new(0);
    let v = steer_jean(&mut j, Walk::Walk(Direction::UpLeft), 256, 0);
    assert_eq!(j.playing(), JeanCurrentAnim::WalkLeft);
    assert_eq!(v, Point3::new(-181, 0, 181));
    let v = steer_jean(&mut j, Walk::Walk(Direction::Up), 256, 0);
    assert_eq!(j.playing(), JeanCurrentAnim::WalkLeft);
    assert_eq!(v, Point3::new(0, 0, 256));
    let v = steer_jean(&mut j, Walk::NoInput, 256, 0);
    assert_eq!(j.playing(), JeanCurrentAnim::IdleLeft);
    assert_eq!(v, Point3::new(0, 0, 0));
}

#[test]
fn leader_contact_indices() {
    let shadows = vec![Point3::new(159, 0, 0), Point3::new(160, 0, 0), Point3::new(0, 0, -10)];
    assert_eq!(leader_contacts(Point3::new(0, 0, 0), &shadows), vec![0, 2]);
}

#[test]
fn blob_wake_and_bounce() {
    assert!(blob_wakes(0));
    assert!(blob_wakes(BLOB_WAKE_CHANCE - 1));
    assert!(!blob_wakes(BLOB_WAKE_CHANCE));
    assert_eq!(bounce_clip(0), BlobCurrentAnim::BounceRight);
    assert_eq!(bounce_clip(0x8000_0000), BlobCurrentAnim::BounceLeft);
    assert_eq!(bounce_clip(0xffff_ffff), BlobCurrentAnim::BounceRight);
}

#[test]
fn moving_blob_keeps_going() {
    let mut b = BlobAnims::new(BlobCurrentAnim::IdleRight, 0);
    let mut r = Random::from_seed(3, 4);
    b.set(BlobCurrentAnim::BounceRight, 0);
    assert_eq!(steer_blob(&mut b, true, &mut r, 0), BlobStep::Keep);
    let mut idle = BlobAnims::new(BlobCurrentAnim::IdleRight, 0);
    assert_eq!(steer_blob(&mut idle, true, &mut r, 0), BlobStep::Halt);
}

#[test]
fn integration_stops_at_coordinate_range() {
    let pos = Point3::new(COORD_LIMIT - 1, 0, 0);
    let (p, v) = integrate(pos, Point3::new(5, 0, 0), &Vec::new());
    assert_eq!(p, pos);
    assert_eq!(v, Point3::new(0, 0, 0));
}
