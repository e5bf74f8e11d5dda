use sombervale::animation::{
    Animation, BlobAnims, BlobCurrentAnim, FireAnims, Frame, FrogAnims, FrogCurrentAnim, JeanAnims,
    JeanCurrentAnim,
};
use sombervale::random::Random;

#[test]
fn clip_wraps_to_first_frame() {
    let frames = vec![Frame::new(3, 100), Frame::new(4, 100), Frame::new(5, 200)];
    let mut a = Animation::new(frames, 0);
    assert_eq!(a.update(101), 4);
    assert_eq!(a.update(202), 5);
    assert_eq!(a.update(403), 3);
}

#[test]
fn clip_waits_for_duration() {
    let mut a = Animation::new(vec![Frame::new(1, 100), Frame::new(2, 100)], 0);
    assert_eq!(a.update(100), 1);
    assert_eq!(a.update(50), 1);
    assert_eq!(a.update(101), 2);
    // one frame per tick at most
    assert_eq!(a.update(10_000), 1);
}

#[test]
fn single_frame_clip_never_changes() {
    let mut a = Animation::new(vec![Frame::new(7, 10)], 0);
    for t in [0u64, 5, 11, 1000, 1_000_000] {
        assert_eq!(a.update(t), 7);
    }
}

#[test]
fn reset_rewinds() {
    let mut a = Animation::new(vec![Frame::new(1, 10), Frame::new(2, 10)], 0);
    assert_eq!(a.update(11), 2);
    a.reset(11);
    assert_eq!(a.get_frame(), Frame::new(1, 10));
}

#[test]
fn frog_hop_returns_to_idle() {
    let mut f = FrogAnims::new(0);
    assert_eq!(f.playing(), FrogCurrentAnim::IdleRight);
    f.set(FrogCurrentAnim::HopRight, 0);
    let mut t = 0;
    let mut shown = Vec::new();
    for _ in 0..5 {
        t += 201;
        shown.push(f.animate(t));
    }
    assert_eq!(shown, vec![1, 2, 3, 4, 0]);
    assert_eq!(f.playing(), FrogCurrentAnim::IdleRight);
    assert_eq!(f.get_frame_index(), 0);
}

#[test]
fn frog_hop_left_returns_to_idle_left() {
    let mut f = FrogAnims::new(0);
    f.play(FrogCurrentAnim::HopLeft, 0);
    let mut t = 0;
    for _ in 0..5 {
        t += 201;
        f.animate(t);
    }
    assert_eq!(f.playing(), FrogCurrentAnim::IdleLeft);
    assert_eq!(f.get_frame_index(), 5);
}

#[test]
fn jean_facing_helpers() {
    let mut j = JeanAnims::new(0);
    assert_eq!(j.to_walking(), JeanCurrentAnim::WalkRight);
    j.set(JeanCurrentAnim::WalkLeft, 0);
    assert_eq!(j.to_idle(), JeanCurrentAnim::IdleLeft);
    assert_eq!(j.to_walking(), JeanCurrentAnim::WalkLeft);
    assert_eq!(j.animate(81), 11);
    assert_eq!(j.playing(), JeanCurrentAnim::WalkLeft);
}

#[test]
fn blob_bounce_returns_to_idle_frame() {
    let mut b = BlobAnims::new(BlobCurrentAnim::IdleLeft, 0);
    assert_eq!(b.get_frame_index(), 8);
    b.set(BlobCurrentAnim::BounceLeft, 0);
    let mut t = 0;
    let mut last = 0;
    for _ in 0..7 {
        t += 121;
        last = b.animate(t);
    }
    assert_eq!(b.playing(), BlobCurrentAnim::IdleLeft);
    assert_eq!(last, 8);
}

#[test]
fn blob_direction_property() {
    let mut r = Random::from_seed(1, 2);
    assert_eq!(
        BlobCurrentAnim::new(&mut r, Some(&"left".to_string())),
        BlobCurrentAnim::IdleLeft
    );
    assert_eq!(
        BlobCurrentAnim::new(&mut r, Some(&"right".to_string())),
        BlobCurrentAnim::IdleRight
    );
    let other = BlobCurrentAnim::new(&mut r, Some(&"up".to_string()));
    assert!(other == BlobCurrentAnim::IdleLeft || other == BlobCurrentAnim::IdleRight);
    assert_eq!(BlobCurrentAnim::idle_from_draw(4), BlobCurrentAnim::IdleLeft);
    assert_eq!(BlobCurrentAnim::idle_from_draw(5), BlobCurrentAnim::IdleRight);
}

#[test]
fn fire_starts_at_offset() {
    let mut f = FireAnims::with_offset(8, 0);
    // starts at frame 2 (8 mod 6), which is up for 30 ms
    assert_eq!(f.animate(20), 2);
    assert_eq!(f.animate(31), 3);
    let mut r = Random::from_seed(9, 9);
    let mut g = FireAnims::new(&mut r, 0);
    assert!(g.animate(0) < 6);
}
