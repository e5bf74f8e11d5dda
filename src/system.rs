//! Per-entity decisions of the frame pipeline: steering, integration against
//! the level's collision shapes, contacts, summoning, and camera movement.
use crate::animation::{BlobAnims, BlobCurrentAnim, FrogCurrentAnim, JeanAnims, JeanCurrentAnim};
use crate::control::{Direction, Walk};
use crate::geometry::{
    all_wf, circle_hits_any, dist2, distance_squared, hits_any, Point3, Rect, COORD_LIMIT,
    SUBPIXELS,
};
use crate::random::Random;
use vstd::prelude::*;

verus! {

/// Collision radius of every creature, in world units.
pub const ENTITY_RADIUS: i64 = 80;

/// Distance beyond which a dependent hops back toward its leader.
pub const FROG_THRESHOLD: i64 = 448;

/// Upper bound (exclusive) of the random amount added to `FROG_THRESHOLD`.
pub const FROG_THRESHOLD_JITTER: u32 = 64;

/// Distance under which a dependent goes for an antagonist.
pub const FROG_SHADOW_THRESHOLD: i64 = 768;

/// Squares of the contact distance (two radii) and of `FROG_SHADOW_THRESHOLD`.
pub const CONTACT_REACH_SQ: i128 = 25600;
pub const SHADOW_SIGHT_SQ: i128 = 589824;

/// Leader speed, dependent speed and antagonist speed, in pixels per second.
pub const JEAN_SPEED: i64 = 60;
pub const FROG_SPEED: i64 = 180;
pub const BLOB_SPEED: i64 = 70;

/// Screen size and the inset that the leader's sprite is kept inside, in pixels.
pub const SCREEN_WIDTH: i64 = 160;
pub const SCREEN_HEIGHT: i64 = 128;
pub const SCREEN_INSET: i64 = 48;

/// Length of the fade-out that ends a world, in milliseconds.
pub const OUTRO_DURATION: u64 = 2000;

/// Draws below this value (out of 2^32) wake a resting antagonist: about one in a hundred.
pub const BLOB_WAKE_CHANCE: u32 = 42949673;

/// Distance covered in `dt_ms` milliseconds at `speed` pixels per second, in world units.
pub open spec fn travel_spec(speed: int, dt_ms: int) -> int {
    dt_ms * speed * SUBPIXELS / 1000
}

pub fn travel(speed: i64, dt_ms: u32) -> (r: i64)
    requires
        0 <= speed <= 1000,
    ensures
        r == travel_spec(speed as int, dt_ms as int),
        0 <= r <= 0x10_0000_0000,
{
    assert(0 <= dt_ms as int * speed as int <= 0xffff_ffff * 1000) by (nonlinear_arith)
        requires
            0 <= speed <= 1000,
            0 <= dt_ms <= 0xffff_ffff,
    ;
    let r = (dt_ms as i64) * speed * SUBPIXELS / 1000;
    r
}

/// Cosine and sine of `octant` eighths of a turn, in 256ths.
pub open spec fn octant_unit(octant: int) -> (int, int) {
    if octant == 0 {
        (256, 0)
    } else if octant == 1 {
        (181, 181)
    } else if octant == 2 {
        (0, 256)
    } else if octant == 3 {
        (-181, 181)
    } else if octant == 4 {
        (-256, 0)
    } else if octant == 5 {
        (-181, -181)
    } else if octant == 6 {
        (0, -256)
    } else {
        (181, -181)
    }
}

/// `magnitude * c / 256`, rounded toward zero.
pub open spec fn scale_toward_zero(magnitude: int, c: int) -> int {
    if c >= 0 {
        magnitude * c / 256
    } else {
        -(magnitude * (-c) / 256)
    }
}

/// A displacement of `magnitude` along `octant` eighths of a turn on the
/// ground plane (0 is `+x`, 2 is `+z`).
pub open spec fn heading_spec(octant: int, magnitude: int) -> Point3 {
    Point3 {
        x: scale_toward_zero(magnitude, octant_unit(octant).0) as i64,
        y: 0,
        z: scale_toward_zero(magnitude, octant_unit(octant).1) as i64,
    }
}

fn scale_component(magnitude: i64, c: i64) -> (r: i64)
    requires
        0 <= magnitude <= 0x10_0000_0000,
        -256 <= c <= 256,
    ensures
        r == scale_toward_zero(magnitude as int, c as int),
        -magnitude <= r <= magnitude,
{
    if c >= 0 {
        assert(0 <= magnitude * c <= magnitude * 256) by (nonlinear_arith)
            requires
                0 <= magnitude,
                0 <= c <= 256,
        ;
        magnitude * c / 256
    } else {
        assert(0 <= magnitude * (-c) <= magnitude * 256) by (nonlinear_arith)
            requires
                0 <= magnitude,
                -256 <= c < 0,
        ;
        -(magnitude * (-c) / 256)
    }
}

pub fn heading(octant: u8, magnitude: i64) -> (r: Point3)
    requires
        octant < 8,
        0 <= magnitude <= 0x10_0000_0000,
    ensures
        r == heading_spec(octant as int, magnitude as int),
        r.wf(),
{
    let (c, s): (i64, i64) = if octant == 0 {
        (256, 0)
    } else if octant == 1 {
        (181, 181)
    } else if octant == 2 {
        (0, 256)
    } else if octant == 3 {
        (-181, 181)
    } else if octant == 4 {
        (-256, 0)
    } else if octant == 5 {
        (-181, -181)
    } else if octant == 6 {
        (0, -256)
    } else {
        (181, -181)
    };
    Point3 { x: scale_component(magnitude, c), y: 0, z: scale_component(magnitude, s) }
}

/// The clip and travel octant the leader takes for a walking input. Diagonals
/// show the left or right walk; straight up or down keeps the facing; no input
/// settles into the idle clip facing the same way and does not travel.
pub open spec fn jean_course(walk: Walk, playing: JeanCurrentAnim) -> (JeanCurrentAnim, Option<u8>) {
    let walking = if playing.settled() == JeanCurrentAnim::IdleLeft {
        JeanCurrentAnim::WalkLeft
    } else {
        JeanCurrentAnim::WalkRight
    };
    match walk {
        Walk::Walk(Direction::Right) => (JeanCurrentAnim::WalkRight, Some(0u8)),
        Walk::Walk(Direction::UpRight) => (JeanCurrentAnim::WalkRight, Some(1u8)),
        Walk::Walk(Direction::Up) => (walking, Some(2u8)),
        Walk::Walk(Direction::UpLeft) => (JeanCurrentAnim::WalkLeft, Some(3u8)),
        Walk::Walk(Direction::Left) => (JeanCurrentAnim::WalkLeft, Some(4u8)),
        Walk::Walk(Direction::DownLeft) => (JeanCurrentAnim::WalkLeft, Some(5u8)),
        Walk::Walk(Direction::Down) => (walking, Some(6u8)),
        Walk::Walk(Direction::DownRight) => (JeanCurrentAnim::WalkRight, Some(7u8)),
        Walk::NoInput => (playing.settled(), None),
    }
}

/// Steers the leader for this tick: picks its clip (restarting it only when it
/// changes) and returns its velocity, `magnitude` along the chosen octant.
pub fn steer_jean(anims: &mut JeanAnims, walk: Walk, magnitude: i64, now: u64) -> (vel: Point3)
    requires
        old(anims).wf(),
        0 <= magnitude <= 0x10_0000_0000,
    ensures
        final(anims).wf(),
        ({
            let course = jean_course(walk, old(anims).current());
            &&& final(anims).current() == course.0
            &&& old(anims).current() == course.0 ==> *final(anims) == *old(anims)
            &&& old(anims).current() != course.0 ==> final(anims).clip(course.0) == old(
                anims,
            ).clip(course.0).restarted(now as int) && final(anims).others_kept(
                old(anims),
                course.0,
                course.0,
            )
            &&& vel == match course.1 {
                Some(o) => heading_spec(o as int, magnitude as int),
                None => Point3 { x: 0, y: 0, z: 0 },
            }
        }),
{
    let (next, octant): (JeanCurrentAnim, Option<u8>) = match walk {
        Walk::Walk(Direction::Right) => (JeanCurrentAnim::WalkRight, Some(0u8)),
        Walk::Walk(Direction::UpRight) => (JeanCurrentAnim::WalkRight, Some(1u8)),
        Walk::Walk(Direction::Up) => (anims.to_walking(), Some(2u8)),
        Walk::Walk(Direction::UpLeft) => (JeanCurrentAnim::WalkLeft, Some(3u8)),
        Walk::Walk(Direction::Left) => (JeanCurrentAnim::WalkLeft, Some(4u8)),
        Walk::Walk(Direction::DownLeft) => (JeanCurrentAnim::WalkLeft, Some(5u8)),
        Walk::Walk(Direction::Down) => (anims.to_walking(), Some(6u8)),
        Walk::Walk(Direction::DownRight) => (JeanCurrentAnim::WalkRight, Some(7u8)),
        Walk::NoInput => (anims.to_idle(), None),
    };
    anims.play(next, now);
    match octant {
        Some(o) => heading(o, magnitude),
        None => Point3::zero(),
    }
}

/// `pos` displaced by `vel`.
pub open spec fn moved(pos: Point3, vel: Point3) -> Point3 {
    Point3 { x: (pos.x + vel.x) as i64, y: (pos.y + vel.y) as i64, z: (pos.z + vel.z) as i64 }
}

/// Moves an entity by its velocity unless the circle at the new position
/// would touch a collision shape, or the new position would leave the
/// coordinate range; then the velocity is zeroed and the entity stays exactly
/// where it was. Returns the new position and velocity.
pub fn integrate(pos: Point3, vel: Point3, shapes: &Vec<Rect>) -> (r: (Point3, Point3))
    requires
        pos.wf(),
        vel.wf(),
        all_wf(shapes@),
    ensures
        !moved(pos, vel).wf() || hits_any(shapes@, moved(pos, vel), ENTITY_RADIUS as int) ==> r
            == (pos, Point3 { x: 0, y: 0, z: 0 }),
        moved(pos, vel).wf() && !hits_any(shapes@, moved(pos, vel), ENTITY_RADIUS as int) ==> r
            == (moved(pos, vel), vel),
{
    let next = pos.add(vel);
    let inside = -COORD_LIMIT <= next.x && next.x <= COORD_LIMIT && -COORD_LIMIT <= next.y
        && next.y <= COORD_LIMIT && -COORD_LIMIT <= next.z && next.z <= COORD_LIMIT;
    if !inside || circle_hits_any(shapes, next, ENTITY_RADIUS) {
        (pos, Point3::zero())
    } else {
        (next, vel)
    }
}

/// The first index, in order, of a point of `s` nearest to `from` (ground-plane
/// distance); `None` when `s` is empty.
pub open spec fn nearest_in(from: Point3, s: Seq<Point3>) -> Option<int>
    decreases s.len(),
{
    if s.len() == 0 {
        None
    } else {
        match nearest_in(from, s.drop_last()) {
            None => Some(s.len() - 1),
            Some(i) => if dist2(from, s.last()) < dist2(from, s[i]) {
                Some(s.len() - 1)
            } else {
                Some(i)
            },
        }
    }
}

/// Finds `nearest_in(from, others)` together with its squared distance.
pub fn nearest(from: Point3, others: &Vec<Point3>) -> (r: Option<(usize, i128)>)
    requires
        from.wf(),
        forall|i: int| 0 <= i < others@.len() ==> (#[trigger] others@[i]).wf(),
    ensures
        r is None <==> others@.len() == 0,
        r matches Some(found) ==> nearest_in(from, others@) == Some(found.0 as int) && found.1
            == dist2(from, others@[found.0 as int]) && found.0 < others@.len(),
{
    let mut best: Option<(usize, i128)> = None;
    let mut i: usize = 0;
    while i < others.len()
        invariant
            i <= others@.len(),
            from.wf(),
            forall|k: int| 0 <= k < others@.len() ==> (#[trigger] others@[k]).wf(),
            best is None <==> i == 0,
            best is None ==> nearest_in(from, others@.take(i as int)) is None,
            best matches Some(found) ==> nearest_in(from, others@.take(i as int)) == Some(
                found.0 as int,
            ) && found.1 == dist2(from, others@[found.0 as int]) && found.0 < i,
        decreases others.len() - i,
    {
        let d = distance_squared(from, others[i]);
        proof {
            let t = others@.take(i as int + 1);
            assert(t.drop_last() =~= others@.take(i as int));
            assert(t.last() == others@[i as int]);
        }
        match best {
            None => {
                best = Some((i, d));
            },
            Some(found) => {
                if d < found.1 {
                    best = Some((i, d));
                }
            },
        }
        i += 1;
    }
    proof {
        assert(others@.take(others@.len() as int) =~= others@);
    }
    best
}

/// What a dependent does this tick.
#[derive(Clone, Copy, Debug, PartialEq, Eq, Structural)]
pub enum FrogStep {
    /// It touched antagonist number `0`: both go.
    Collide(usize),
    /// It hops with clip `anim` along `toward`, an antagonist's offset from it.
    Hunt { anim: FrogCurrentAnim, toward: Point3 },
    /// It hops with clip `anim` back along `toward`, its leader's offset from it.
    Return { anim: FrogCurrentAnim, toward: Point3 },
    /// It keeps its course.
    Keep,
}

/// The hop clip facing along `toward`.
pub open spec fn hop_facing(toward: Point3) -> FrogCurrentAnim {
    if toward.x > 0 {
        FrogCurrentAnim::HopRight
    } else {
        FrogCurrentAnim::HopLeft
    }
}

pub open spec fn sub_spec(a: Point3, b: Point3) -> Point3 {
    Point3 { x: (a.x - b.x) as i64, y: (a.y - b.y) as i64, z: (a.z - b.z) as i64 }
}

/// A dependent's decision about its leader: only when idle, and farther away
/// than `FROG_THRESHOLD + jitter`, it heads back.
pub open spec fn frog_return(frog: Point3, leader: Point3, idle: bool, jitter: int) -> FrogStep {
    let rel = sub_spec(leader, frog);
    if idle && dist2(leader, frog) > (FROG_THRESHOLD + jitter) * (FROG_THRESHOLD + jitter) {
        FrogStep::Return { anim: hop_facing(rel), toward: rel }
    } else {
        FrogStep::Keep
    }
}

/// A dependent's decision. Touching its nearest antagonist (within two radii)
/// ends both. Otherwise, only when idle, it hunts that antagonist when it is
/// within `FROG_SHADOW_THRESHOLD`, or else considers its leader.
pub open spec fn frog_choice_spec(
    frog: Point3,
    leader: Point3,
    shadows: Seq<Point3>,
    idle: bool,
    jitter: int,
) -> FrogStep {
    match nearest_in(frog, shadows) {
        Some(i) => {
            let d = dist2(frog, shadows[i]);
            let rel = sub_spec(shadows[i], frog);
            if d <= CONTACT_REACH_SQ {
                FrogStep::Collide(i as usize)
            } else if d < SHADOW_SIGHT_SQ {
                if idle {
                    FrogStep::Hunt { anim: hop_facing(rel), toward: rel }
                } else {
                    FrogStep::Keep
                }
            } else {
                frog_return(frog, leader, idle, jitter)
            }
        },
        None => frog_return(frog, leader, idle, jitter),
    }
}

pub fn frog_choice(
    frog: Point3,
    leader: Point3,
    shadows: &Vec<Point3>,
    idle: bool,
    jitter: u32,
) -> (r: FrogStep)
    requires
        frog.wf(),
        leader.wf(),
        forall|i: int| 0 <= i < shadows@.len() ==> (#[trigger] shadows@[i]).wf(),
        jitter < FROG_THRESHOLD_JITTER,
    ensures
        r == frog_choice_spec(frog, leader, shadows@, idle, jitter as int),
{
    let found = nearest(frog, shadows);
    let reach: i128 = CONTACT_REACH_SQ;
    let sight: i128 = SHADOW_SIGHT_SQ;
    match found {
        Some((i, d)) => {
            if d <= reach {
                return FrogStep::Collide(i);
            }
            if d < sight {
                if idle {
                    let toward = shadows[i].sub(frog);
                    let anim = if toward.x > 0 {
                        FrogCurrentAnim::HopRight
                    } else {
                        FrogCurrentAnim::HopLeft
                    };
                    return FrogStep::Hunt { anim, toward };
                }
                return FrogStep::Keep;
            }
        },
        None => {},
    }
    if idle {
        let rel = leader.sub(frog);
        let far = distance_squared(leader, frog);
        let t: i128 = FROG_THRESHOLD as i128 + jitter as i128;
        assert(t * t <= 512 * 512) by (nonlinear_arith)
            requires
                0 <= t <= 512,
        ;
        let limit: i128 = t * t;
        if far > limit {
            let anim = if rel.x > 0 {
                FrogCurrentAnim::HopRight
            } else {
                FrogCurrentAnim::HopLeft
            };
            return FrogStep::Return { anim, toward: rel };
        }
    }
    FrogStep::Keep
}

/// Dependents travel only on the airborne frames of their hop clips: every row
/// but the first and last of each hop.
pub fn frog_moves(frame_index: usize) -> (r: bool)
    ensures
        r == (frame_index != 0 && frame_index != 4 && frame_index != 5 && frame_index != 9),
{
    frame_index != 0 && frame_index != 4 && frame_index != 5 && frame_index != 9
}

/// Whether a resting antagonist sets off this tick, given a uniform draw.
pub fn blob_wakes(draw: u32) -> (r: bool)
    ensures
        r == (draw < BLOB_WAKE_CHANCE),
{
    draw < BLOB_WAKE_CHANCE
}

/// The bounce clip for a heading of `turn / 2^32` of a full turn: right when
/// the heading points to `+x` (the first or the last quarter turn).
pub fn bounce_clip(turn: u32) -> (r: BlobCurrentAnim)
    ensures
        r == (if turn < 0x4000_0000 || turn > 0xc000_0000 {
            BlobCurrentAnim::BounceRight
        } else {
            BlobCurrentAnim::BounceLeft
        }),
{
    if turn < 0x4000_0000 || turn > 0xc000_0000 {
        BlobCurrentAnim::BounceRight
    } else {
        BlobCurrentAnim::BounceLeft
    }
}

/// Indices, in order, of the points of `s` strictly within two radii of `leader`.
pub open spec fn contacts(leader: Point3, s: Seq<Point3>) -> Seq<usize>
    decreases s.len(),
{
    if s.len() == 0 {
        Seq::empty()
    } else if dist2(leader, s.last()) < CONTACT_REACH_SQ {
        contacts(leader, s.drop_last()).push((s.len() - 1) as usize)
    } else {
        contacts(leader, s.drop_last())
    }
}

/// Finds the antagonists that the leader touches: `contacts(leader, shadows)`.
pub fn leader_contacts(leader: Point3, shadows: &Vec<Point3>) -> (r: Vec<usize>)
    requires
        leader.wf(),
        forall|i: int| 0 <= i < shadows@.len() ==> (#[trigger] shadows@[i]).wf(),
    ensures
        r@ == contacts(leader, shadows@),
{
    let mut out: Vec<usize> = Vec::new();
    let mut i: usize = 0;
    while i < shadows.len()
        invariant
            i <= shadows@.len(),
            leader.wf(),
            forall|k: int| 0 <= k < shadows@.len() ==> (#[trigger] shadows@[k]).wf(),
            out@ == contacts(leader, shadows@.take(i as int)),
        decreases shadows.len() - i,
    {
        let d = distance_squared(leader, shadows[i]);
        proof {
            let t = shadows@.take(i as int + 1);
            assert(t.drop_last() =~= shadows@.take(i as int));
            assert(t.last() == shadows@[i as int]);
        }
        if d < CONTACT_REACH_SQ {
            out.push(i);
        }
        i += 1;
    }
    proof {
        assert(shadows@.take(shadows@.len() as int) =~= shadows@);
    }
    out
}

/// What an antagonist does with its velocity this tick.
#[derive(Clone, Copy, Debug, PartialEq, Eq, Structural)]
pub enum BlobStep {
    /// Set off along a heading of `0 / 2^32` of a full turn.
    Launch(u32),
    /// Stand still: the velocity becomes zero.
    Halt,
    /// Keep the current velocity.
    Keep,
}

/// Steers an antagonist. At rest, it sets off with a small chance along a
/// random heading and plays the bounce clip facing it; then, whenever an idle
/// clip is playing (a bounce has ended), it stands still. Draws from `random`
/// only while at rest: first the chance, then the heading.
pub fn steer_blob(anims: &mut BlobAnims, moving: bool, random: &mut Random, now: u64) -> (r: BlobStep)
    requires
        old(anims).wf(),
    ensures
        final(anims).wf(),
        moving ==> *final(anims) == *old(anims),
        r matches BlobStep::Launch(turn) ==> !moving && ({
            let clip = if turn < 0x4000_0000 || turn > 0xc000_0000 {
                BlobCurrentAnim::BounceRight
            } else {
                BlobCurrentAnim::BounceLeft
            };
            &&& final(anims).current() == clip
            &&& final(anims).clip(clip) == old(anims).clip(clip).restarted(now as int)
            &&& final(anims).others_kept(old(anims), clip, clip)
        }),
        !(r is Launch) ==> *final(anims) == *old(anims),
        r is Halt <==> (!(r is Launch) && old(anims).current().is_idle()),
{
    if !moving {
        let chance = random.next_u32();
        if blob_wakes(chance) {
            let turn = random.next_u32();
            let clip = bounce_clip(turn);
            anims.set(clip, now);
            return BlobStep::Launch(turn);
        }
    }
    match anims.playing() {
        BlobCurrentAnim::IdleLeft | BlobCurrentAnim::IdleRight => BlobStep::Halt,
        _ => BlobStep::Keep,
    }
}

} // verus!
