//! Frame-timed animation clips and the per-species clip state machines.
//!
//! Time is a monotonic clock reading in milliseconds supplied by the caller.
use crate::random::Random;
use vstd::arithmetic::div_mod::lemma_small_mod;
use vstd::prelude::*;

verus! {

/// One frame of a clip: a sprite-sheet row and how long it stays up (ms).
#[derive(Clone, Copy, Debug, PartialEq, Eq, Structural)]
pub struct Frame {
    pub index: usize,
    pub duration: u64,
}

impl Frame {
    pub fn new(index: usize, duration: u64) -> (r: Frame)
        ensures
            r == (Frame { index, duration }),
    {
        Frame { index, duration }
    }
}

/// Time passed from `start` to `now`; a clock reading before `start` counts as none.
pub open spec fn elapsed(start: int, now: int) -> int {
    if now >= start {
        now - start
    } else {
        0
    }
}

/// The mathematical state of a clip: its frames, the playback cursor, and the
/// time at which the current frame went up.
pub struct ClipState {
    pub frames: Seq<Frame>,
    pub current: int,
    pub start: int,
}

impl ClipState {
    pub open spec fn wf(self) -> bool {
        self.frames.len() > 0 && 0 <= self.current < self.frames.len()
    }

    pub open spec fn frame(self) -> Frame {
        self.frames[self.current]
    }

    pub open spec fn frame_index(self) -> int {
        self.frame().index as int
    }

    /// One tick at time `now`: once more than the current frame's duration has
    /// passed, move to the next frame (wrapping) and restart the clock.
    pub open spec fn advanced(self, now: int) -> ClipState {
        if elapsed(self.start, now) > self.frame().duration {
            ClipState {
                current: (self.current + 1) % (self.frames.len() as int),
                start: now,
                ..self
            }
        } else {
            self
        }
    }

    /// The clip rewound to its first frame with the clock restarted at `now`.
    pub open spec fn restarted(self, now: int) -> ClipState {
        ClipState { current: 0, start: now, ..self }
    }

    /// This state shows the clip's first frame, and `before` showed its last one.
    pub open spec fn wrapped_from(self, before: ClipState) -> bool {
        before.frame_index() == before.frames.last().index as int && self.frame_index()
            == self.frames[0].index as int
    }

    /// Ticks at each of `times`, in order.
    pub open spec fn advanced_through(self, times: Seq<int>) -> ClipState
        decreases times.len(),
    {
        if times.len() == 0 {
            self
        } else {
            self.advanced_through(times.drop_last()).advanced(times.last())
        }
    }

    /// Each tick of `times` comes more than the shown frame's duration after the
    /// previous one, starting from the first frame.
    pub open spec fn ticks_outlast_frames(self, times: Seq<int>) -> bool {
        forall|k: int|
            0 <= k < times.len() ==> times[k] - (if k == 0 {
                self.start
            } else {
                times[k - 1]
            }) > (#[trigger] self.frames[k]).duration
    }
}

proof fn lemma_cursor_after_ticks(c: ClipState, times: Seq<int>, j: int)
    requires
        c.wf(),
        c.current == 0,
        times.len() == c.frames.len(),
        c.ticks_outlast_frames(times),
        0 <= j <= times.len(),
    ensures
        c.advanced_through(times.take(j)).frames == c.frames,
        c.advanced_through(times.take(j)).current == j % (c.frames.len() as int),
        c.advanced_through(times.take(j)).start == if j == 0 {
            c.start
        } else {
            times[j - 1]
        },
    decreases j,
{
    if j > 0 {
        lemma_cursor_after_ticks(c, times, j - 1);
        assert(times.take(j).drop_last() =~= times.take(j - 1));
        let prev = c.advanced_through(times.take(j - 1));
        assert((j - 1) % (c.frames.len() as int) == j - 1) by {
            lemma_small_mod((j - 1) as nat, c.frames.len());
        }
        assert(prev.current == j - 1);
        let k = j - 1;
        assert(times[k] - (if k == 0 {
            c.start
        } else {
            times[k - 1]
        }) > c.frames[k].duration);
    }
}

/// A clip whose cursor is on its first frame comes back to its first frame
/// after one tick per frame, each arriving later than the shown frame's duration.
pub proof fn lemma_full_cycle_returns_to_first(c: ClipState, times: Seq<int>)
    requires
        c.wf(),
        c.current == 0,
        times.len() == c.frames.len(),
        c.ticks_outlast_frames(times),
    ensures
        c.advanced_through(times).current == 0,
        c.advanced_through(times).frame_index() == c.frames[0].index as int,
{
    lemma_cursor_after_ticks(c, times, times.len() as int);
    assert(times.take(times.len() as int) =~= times);
}

/// A clip of one frame shows that frame whatever the time.
pub proof fn lemma_single_frame_holds(c: ClipState, now: int)
    requires
        c.wf(),
        c.frames.len() == 1,
    ensures
        c.advanced(now).current == c.current,
        c.advanced(now).frame_index() == c.frame_index(),
{
}

/// Frames `first, first + 1, ...` (`count` of them), each up for `duration`
/// except the last, which is up for `last_duration`.
pub open spec fn strip(first: int, count: int, duration: int, last_duration: int) -> Seq<Frame> {
    Seq::new(
        count as nat,
        |i: int|
            Frame {
                index: (first + i) as usize,
                duration: (if i == count - 1 {
                    last_duration
                } else {
                    duration
                }) as u64,
            },
    )
}

fn make_strip(first: usize, count: usize, duration: u64, last_duration: u64) -> (r: Vec<Frame>)
    requires
        count > 0,
        first + count <= usize::MAX,
    ensures
        r@ == strip(first as int, count as int, duration as int, last_duration as int),
{
    let mut v: Vec<Frame> = Vec::new();
    let mut i: usize = 0;
    while i < count
        invariant
            i <= count,
            first + count <= usize::MAX,
            v@ == strip(first as int, count as int, duration as int, last_duration as int).take(
                i as int,
            ),
        decreases count - i,
    {
        let d = if i == count - 1 {
            last_duration
        } else {
            duration
        };
        v.push(Frame::new(first + i, d));
        i += 1;
        assert(v@ =~= strip(first as int, count as int, duration as int, last_duration as int).take(
            i as int,
        ));
    }
    assert(v@ =~= strip(first as int, count as int, duration as int, last_duration as int));
    v
}

/// A clip: an ordered list of frames and a wall-clock playback cursor.
pub struct Animation {
    frames: Vec<Frame>,
    current_index: usize,
    start_time: u64,
}

impl View for Animation {
    type V = ClipState;

    closed spec fn view(&self) -> ClipState {
        ClipState {
            frames: self.frames@,
            current: self.current_index as int,
            start: self.start_time as int,
        }
    }
}

impl Animation {
    /// A clip on its first frame, with the clock started at `now`.
    pub fn new(frames: Vec<Frame>, now: u64) -> (r: Animation)
        requires
            frames.len() > 0,
        ensures
            r@ == (ClipState { frames: frames@, current: 0, start: now as int }),
    {
        Animation { frames, current_index: 0, start_time: now }
    }

    /// A clip whose cursor starts at `offset` modulo its length.
    pub fn with_offset(frames: Vec<Frame>, now: u64, offset: usize) -> (r: Animation)
        requires
            frames.len() > 0,
        ensures
            r@ == (ClipState {
                frames: frames@,
                current: offset as int % frames.len() as int,
                start: now as int,
            }),
    {
        let current_index = offset % frames.len();
        Animation { frames, current_index, start_time: now }
    }

    pub fn get_frame(&self) -> (r: Frame)
        requires
            self@.wf(),
        ensures
            r == self@.frame(),
    {
        self.frames[self.current_index]
    }

    /// Advances by at most one frame and reports the sprite row now shown.
    pub fn update(&mut self, now: u64) -> (r: usize)
        requires
            old(self)@.wf(),
        ensures
            final(self)@ == old(self)@.advanced(now as int),
            final(self)@.wf(),
            r == final(self)@.frame_index(),
    {
        assert(self.current_index < self.frames.len());
        let duration = self.frames[self.current_index].duration;
        let passed: u64 = if now >= self.start_time {
            now - self.start_time
        } else {
            0
        };
        if passed > duration {
            self.current_index = (self.current_index + 1) % self.frames.len();
            self.start_time = now;
        }
        self.frames[self.current_index].index
    }

    /// Sprite rows of the first and the last frame.
    pub fn ends(&self) -> (r: (usize, usize))
        requires
            self@.wf(),
        ensures
            r.0 == self@.frames[0].index,
            r.1 == self@.frames.last().index,
    {
        (self.frames[0].index, self.frames[self.frames.len() - 1].index)
    }

    /// Rewinds to the first frame and restarts the clock at `now`.
    pub fn reset(&mut self, now: u64)
        requires
            old(self)@.wf(),
        ensures
            final(self)@ == old(self)@.restarted(now as int),
            final(self)@.wf(),
    {
        self.current_index = 0;
        self.start_time = now;
    }
}

/// Clips of the frog (a dependent).
#[derive(Clone, Copy, Debug, PartialEq, Eq, Structural)]
pub enum FrogCurrentAnim {
    IdleRight,
    IdleLeft,
    HopRight,
    HopLeft,
}

impl FrogCurrentAnim {
    /// The idle clip that a clip settles into, facing the same way.
    pub open spec fn settled(self) -> FrogCurrentAnim {
        match self {
            FrogCurrentAnim::IdleRight | FrogCurrentAnim::HopRight => FrogCurrentAnim::IdleRight,
            FrogCurrentAnim::IdleLeft | FrogCurrentAnim::HopLeft => FrogCurrentAnim::IdleLeft,
        }
    }

    pub open spec fn is_idle(self) -> bool {
        self == FrogCurrentAnim::IdleRight || self == FrogCurrentAnim::IdleLeft
    }

    /// The frames that each clip is built from.
    pub open spec fn frames(self) -> Seq<Frame> {
        match self {
            FrogCurrentAnim::IdleRight => strip(0, 1, 1000, 1000),
            FrogCurrentAnim::IdleLeft => strip(5, 1, 1000, 1000),
            FrogCurrentAnim::HopRight => strip(0, 5, 100, 200),
            FrogCurrentAnim::HopLeft => strip(5, 5, 100, 200),
        }
    }
}

/// Animation state of the frog (a dependent): the clip playing and a cursor for each clip.
pub struct FrogAnims {
    playing: FrogCurrentAnim,
    idle_right: Animation,
    idle_left: Animation,
    hop_right: Animation,
    hop_left: Animation,
}

impl FrogAnims {
    /// Plays `next`: a clip already playing goes on undisturbed, another one
    /// starts from its first frame.
    pub fn play(&mut self, next: FrogCurrentAnim, now: u64)
        requires
            old(self).wf(),
        ensures
            final(self).wf(),
            final(self).current() == next,
            old(self).current() == next ==> *final(self) == *old(self),
            old(self).current() != next ==> final(self).clip(next) == old(self).clip(
                next,
            ).restarted(now as int) && final(self).others_kept(old(self), next, next),
    {
        if self.playing != next {
            self.set(next, now);
        }
    }
}

impl FrogAnims {
    pub closed spec fn current(&self) -> FrogCurrentAnim {
        self.playing
    }

    pub closed spec fn clip(&self, which: FrogCurrentAnim) -> ClipState {
        match which {
            FrogCurrentAnim::IdleRight => self.idle_right@,
            FrogCurrentAnim::IdleLeft => self.idle_left@,
            FrogCurrentAnim::HopRight => self.hop_right@,
            FrogCurrentAnim::HopLeft => self.hop_left@,
        }
    }

    /// Every clip is well formed and holds its fixed frames.
    pub open spec fn wf(&self) -> bool {
        forall|w: FrogCurrentAnim| #[trigger] self.clip(w).wf() && self.clip(w).frames == w.frames()
    }

    /// Every clip but `a` and `b` is as in `before`.
    pub open spec fn others_kept(&self, before: &FrogAnims, a: FrogCurrentAnim, b: FrogCurrentAnim) -> bool {
        forall|w: FrogCurrentAnim| w != a && w != b ==> #[trigger] self.clip(w) == before.clip(w)
    }

    /// All clips rewound, clocks started at `now`, with `playing` selected.
    fn with_clip(playing: FrogCurrentAnim, now: u64) -> (r: FrogAnims)
        ensures
            r.wf(),
            r.current() == playing,
            forall|w: FrogCurrentAnim|
                #[trigger] r.clip(w) == (ClipState { frames: w.frames(), current: 0, start: now as int }),
    {
        let r = FrogAnims {
            playing,
            idle_right: Animation::new(make_strip(0, 1, 1000, 1000), now),
            idle_left: Animation::new(make_strip(5, 1, 1000, 1000), now),
            hop_right: Animation::new(make_strip(0, 5, 100, 200), now),
            hop_left: Animation::new(make_strip(5, 5, 100, 200), now),
        };
        assert forall|w: FrogCurrentAnim| #[trigger] r.clip(w).wf() && r.clip(w).frames == w.frames() by {
            match w {
                FrogCurrentAnim::IdleRight => {},
                FrogCurrentAnim::IdleLeft => {},
                FrogCurrentAnim::HopRight => {},
                FrogCurrentAnim::HopLeft => {},
            }
        }
        r
    }

    /// Switches to `next`, rewinding that clip and restarting its clock.
    pub fn set(&mut self, next: FrogCurrentAnim, now: u64)
        requires
            old(self).wf(),
        ensures
            final(self).wf(),
            final(self).current() == next,
            final(self).clip(next) == old(self).clip(next).restarted(now as int),
            final(self).others_kept(old(self), next, next),
    {
        proof {
            assert(self.clip(FrogCurrentAnim::IdleRight).wf());
            assert(self.clip(FrogCurrentAnim::IdleLeft).wf());
            assert(self.clip(FrogCurrentAnim::HopRight).wf());
            assert(self.clip(FrogCurrentAnim::HopLeft).wf());
        }
        self.playing = next;
        match next {
            FrogCurrentAnim::IdleRight => self.idle_right.reset(now),
            FrogCurrentAnim::IdleLeft => self.idle_left.reset(now),
            FrogCurrentAnim::HopRight => self.hop_right.reset(now),
            FrogCurrentAnim::HopLeft => self.hop_left.reset(now),
        }
        assert forall|w: FrogCurrentAnim| #[trigger] self.clip(w).wf() && self.clip(w).frames == w.frames() by {
            match w {
                FrogCurrentAnim::IdleRight => {},
                FrogCurrentAnim::IdleLeft => {},
                FrogCurrentAnim::HopRight => {},
                FrogCurrentAnim::HopLeft => {},
            }
        }
    }

    pub fn playing(&self) -> (r: FrogCurrentAnim)
        ensures
            r == self.current(),
    {
        self.playing
    }

    /// The sprite row currently shown.
    pub fn get_frame_index(&self) -> (r: usize)
        requires
            self.wf(),
        ensures
            r == self.clip(self.current()).frame_index(),
    {
        proof {
            assert(self.clip(self.current()).wf());
        }
        match self.playing {
            FrogCurrentAnim::IdleRight => self.idle_right.get_frame().index,
            FrogCurrentAnim::IdleLeft => self.idle_left.get_frame().index,
            FrogCurrentAnim::HopRight => self.hop_right.get_frame().index,
            FrogCurrentAnim::HopLeft => self.hop_left.get_frame().index,
        }
    }

    /// Ticks the playing clip only.
    fn tick(&mut self, now: u64) -> (r: usize)
        requires
            old(self).wf(),
        ensures
            final(self).wf(),
            final(self).current() == old(self).current(),
            final(self).clip(old(self).current()) == old(self).clip(old(self).current()).advanced(
                now as int,
            ),
            final(self).others_kept(old(self), old(self).current(), old(self).current()),
            r == final(self).clip(old(self).current()).frame_index(),
    {
        proof {
            assert(self.clip(self.current()).wf());
            assert(self.clip(FrogCurrentAnim::IdleRight).wf());
            assert(self.clip(FrogCurrentAnim::IdleLeft).wf());
            assert(self.clip(FrogCurrentAnim::HopRight).wf());
            assert(self.clip(FrogCurrentAnim::HopLeft).wf());
        }
        let r = match self.playing {
            FrogCurrentAnim::IdleRight => self.idle_right.update(now),
            FrogCurrentAnim::IdleLeft => self.idle_left.update(now),
            FrogCurrentAnim::HopRight => self.hop_right.update(now),
            FrogCurrentAnim::HopLeft => self.hop_left.update(now),
        };
        assert forall|w: FrogCurrentAnim| #[trigger] self.clip(w).wf() && self.clip(w).frames == w.frames() by {
            match w {
                FrogCurrentAnim::IdleRight => {},
                FrogCurrentAnim::IdleLeft => {},
                FrogCurrentAnim::HopRight => {},
                FrogCurrentAnim::HopLeft => {},
            }
        }
        r
    }

    /// The first and last sprite rows of the playing clip.
    fn ends(&self) -> (r: (usize, usize))
        requires
            self.wf(),
        ensures
            r.0 == self.clip(self.current()).frames[0].index,
            r.1 == self.clip(self.current()).frames.last().index,
    {
        proof {
            assert(self.clip(self.current()).wf());
        }
        let a = match self.playing {
            FrogCurrentAnim::IdleRight => &self.idle_right,
            FrogCurrentAnim::IdleLeft => &self.idle_left,
            FrogCurrentAnim::HopRight => &self.hop_right,
            FrogCurrentAnim::HopLeft => &self.hop_left,
        };
        a.ends()
    }
}

/// Clips of the leader.
#[derive(Clone, Copy, Debug, PartialEq, Eq, Structural)]
pub enum JeanCurrentAnim {
    IdleRight,
    IdleLeft,
    WalkRight,
    WalkLeft,
}

impl JeanCurrentAnim {
    /// The idle clip that a clip settles into, facing the same way.
    pub open spec fn settled(self) -> JeanCurrentAnim {
        match self {
            JeanCurrentAnim::IdleRight | JeanCurrentAnim::WalkRight => JeanCurrentAnim::IdleRight,
            JeanCurrentAnim::IdleLeft | JeanCurrentAnim::WalkLeft => JeanCurrentAnim::IdleLeft,
        }
    }

    pub open spec fn is_idle(self) -> bool {
        self == JeanCurrentAnim::IdleRight || self == JeanCurrentAnim::IdleLeft
    }

    /// The frames that each clip is built from.
    pub open spec fn frames(self) -> Seq<Frame> {
        match self {
            JeanCurrentAnim::IdleRight => strip(0, 1, 1000, 1000),
            JeanCurrentAnim::IdleLeft => strip(9, 1, 1000, 1000),
            JeanCurrentAnim::WalkRight => strip(1, 8, 80, 80),
            JeanCurrentAnim::WalkLeft => strip(10, 8, 80, 80),
        }
    }
}

/// Animation state of the leader: the clip playing and a cursor for each clip.
pub struct JeanAnims {
    playing: JeanCurrentAnim,
    idle_right: Animation,
    idle_left: Animation,
    walk_right: Animation,
    walk_left: Animation,
}

impl JeanAnims {
    /// Plays `next`: a clip already playing goes on undisturbed, another one
    /// starts from its first frame.
    pub fn play(&mut self, next: JeanCurrentAnim, now: u64)
        requires
            old(self).wf(),
        ensures
            final(self).wf(),
            final(self).current() == next,
            old(self).current() == next ==> *final(self) == *old(self),
            old(self).current() != next ==> final(self).clip(next) == old(self).clip(
                next,
            ).restarted(now as int) && final(self).others_kept(old(self), next, next),
    {
        if self.playing != next {
            self.set(next, now);
        }
    }
}

impl JeanAnims {
    pub closed spec fn current(&self) -> JeanCurrentAnim {
        self.playing
    }

    pub closed spec fn clip(&self, which: JeanCurrentAnim) -> ClipState {
        match which {
            JeanCurrentAnim::IdleRight => self.idle_right@,
            JeanCurrentAnim::IdleLeft => self.idle_left@,
            JeanCurrentAnim::WalkRight => self.walk_right@,
            JeanCurrentAnim::WalkLeft => self.walk_left@,
        }
    }

    /// Every clip is well formed and holds its fixed frames.
    pub open spec fn wf(&self) -> bool {
        forall|w: JeanCurrentAnim| #[trigger] self.clip(w).wf() && self.clip(w).frames == w.frames()
    }

    /// Every clip but `a` and `b` is as in `before`.
    pub open spec fn others_kept(&self, before: &JeanAnims, a: JeanCurrentAnim, b: JeanCurrentAnim) -> bool {
        forall|w: JeanCurrentAnim| w != a && w != b ==> #[trigger] self.clip(w) == before.clip(w)
    }

    /// All clips rewound, clocks started at `now`, with `playing` selected.
    fn with_clip(playing: JeanCurrentAnim, now: u64) -> (r: JeanAnims)
        ensures
            r.wf(),
            r.current() == playing,
            forall|w: JeanCurrentAnim|
                #[trigger] r.clip(w) == (ClipState { frames: w.frames(), current: 0, start: now as int }),
    {
        let r = JeanAnims {
            playing,
            idle_right: Animation::new(make_strip(0, 1, 1000, 1000), now),
            idle_left: Animation::new(make_strip(9, 1, 1000, 1000), now),
            walk_right: Animation::new(make_strip(1, 8, 80, 80), now),
            walk_left: Animation::new(make_strip(10, 8, 80, 80), now),
        };
        assert forall|w: JeanCurrentAnim| #[trigger] r.clip(w).wf() && r.clip(w).frames == w.frames() by {
            match w {
                JeanCurrentAnim::IdleRight => {},
                JeanCurrentAnim::IdleLeft => {},
                JeanCurrentAnim::WalkRight => {},
                JeanCurrentAnim::WalkLeft => {},
            }
        }
        r
    }

    /// Switches to `next`, rewinding that clip and restarting its clock.
    pub fn set(&mut self, next: JeanCurrentAnim, now: u64)
        requires
            old(self).wf(),
        ensures
            final(self).wf(),
            final(self).current() == next,
            final(self).clip(next) == old(self).clip(next).restarted(now as int),
            final(self).others_kept(old(self), next, next),
    {
        proof {
            assert(self.clip(JeanCurrentAnim::IdleRight).wf());
            assert(self.clip(JeanCurrentAnim::IdleLeft).wf());
            assert(self.clip(JeanCurrentAnim::WalkRight).wf());
            assert(self.clip(JeanCurrentAnim::WalkLeft).wf());
        }
        self.playing = next;
        match next {
            JeanCurrentAnim::IdleRight => self.idle_right.reset(now),
            JeanCurrentAnim::IdleLeft => self.idle_left.reset(now),
            JeanCurrentAnim::WalkRight => self.walk_right.reset(now),
            JeanCurrentAnim::WalkLeft => self.walk_left.reset(now),
        }
        assert forall|w: JeanCurrentAnim| #[trigger] self.clip(w).wf() && self.clip(w).frames == w.frames() by {
            match w {
                JeanCurrentAnim::IdleRight => {},
                JeanCurrentAnim::IdleLeft => {},
                JeanCurrentAnim::WalkRight => {},
                JeanCurrentAnim::WalkLeft => {},
            }
        }
    }

    pub fn playing(&self) -> (r: JeanCurrentAnim)
        ensures
            r == self.current(),
    {
        self.playing
    }

    /// The sprite row currently shown.
    pub fn get_frame_index(&self) -> (r: usize)
        requires
            self.wf(),
        ensures
            r == self.clip(self.current()).frame_index(),
    {
        proof {
            assert(self.clip(self.current()).wf());
        }
        match self.playing {
            JeanCurrentAnim::IdleRight => self.idle_right.get_frame().index,
            JeanCurrentAnim::IdleLeft => self.idle_left.get_frame().index,
            JeanCurrentAnim::WalkRight => self.walk_right.get_frame().index,
            JeanCurrentAnim::WalkLeft => self.walk_left.get_frame().index,
        }
    }

    /// Ticks the playing clip only.
    fn tick(&mut self, now: u64) -> (r: usize)
        requires
            old(self).wf(),
        ensures
            final(self).wf(),
            final(self).current() == old(self).current(),
            final(self).clip(old(self).current()) == old(self).clip(old(self).current()).advanced(
                now as int,
            ),
            final(self).others_kept(old(self), old(self).current(), old(self).current()),
            r == final(self).clip(old(self).current()).frame_index(),
    {
        proof {
            assert(self.clip(self.current()).wf());
            assert(self.clip(JeanCurrentAnim::IdleRight).wf());
            assert(self.clip(JeanCurrentAnim::IdleLeft).wf());
            assert(self.clip(JeanCurrentAnim::WalkRight).wf());
            assert(self.clip(JeanCurrentAnim::WalkLeft).wf());
        }
        let r = match self.playing {
            JeanCurrentAnim::IdleRight => self.idle_right.update(now),
            JeanCurrentAnim::IdleLeft => self.idle_left.update(now),
            JeanCurrentAnim::WalkRight => self.walk_right.update(now),
            JeanCurrentAnim::WalkLeft => self.walk_left.update(now),
        };
        assert forall|w: JeanCurrentAnim| #[trigger] self.clip(w).wf() && self.clip(w).frames == w.frames() by {
            match w {
                JeanCurrentAnim::IdleRight => {},
                JeanCurrentAnim::IdleLeft => {},
                JeanCurrentAnim::WalkRight => {},
                JeanCurrentAnim::WalkLeft => {},
            }
        }
        r
    }

    /// The first and last sprite rows of the playing clip.
    fn ends(&self) -> (r: (usize, usize))
        requires
            self.wf(),
        ensures
            r.0 == self.clip(self.current()).frames[0].index,
            r.1 == self.clip(self.current()).frames.last().index,
    {
        proof {
            assert(self.clip(self.current()).wf());
        }
        let a = match self.playing {
            JeanCurrentAnim::IdleRight => &self.idle_right,
            JeanCurrentAnim::IdleLeft => &self.idle_left,
            JeanCurrentAnim::WalkRight => &self.walk_right,
            JeanCurrentAnim::WalkLeft => &self.walk_left,
        };
        a.ends()
    }
}

/// Clips of the blob (an antagonist).
#[derive(Clone, Copy, Debug, PartialEq, Eq, Structural)]
pub enum BlobCurrentAnim {
    IdleRight,
    IdleLeft,
    BounceRight,
    BounceLeft,
}

impl BlobCurrentAnim {
    /// The idle clip that a clip settles into, facing the same way.
    pub open spec fn settled(self) -> BlobCurrentAnim {
        match self {
            BlobCurrentAnim::IdleRight | BlobCurrentAnim::BounceRight => BlobCurrentAnim::IdleRight,
            BlobCurrentAnim::IdleLeft | BlobCurrentAnim::BounceLeft => BlobCurrentAnim::IdleLeft,
        }
    }

    pub open spec fn is_idle(self) -> bool {
        self == BlobCurrentAnim::IdleRight || self == BlobCurrentAnim::IdleLeft
    }

    /// The frames that each clip is built from.
    pub open spec fn frames(self) -> Seq<Frame> {
        match self {
            BlobCurrentAnim::IdleRight => strip(0, 1, 1000, 1000),
            BlobCurrentAnim::IdleLeft => strip(8, 1, 1000, 1000),
            BlobCurrentAnim::BounceRight => strip(1, 7, 80, 120),
            BlobCurrentAnim::BounceLeft => strip(9, 7, 80, 120),
        }
    }
}

/// Animation state of the blob (an antagonist): the clip playing and a cursor for each clip.
pub struct BlobAnims {
    playing: BlobCurrentAnim,
    idle_right: Animation,
    idle_left: Animation,
    bounce_right: Animation,
    bounce_left: Animation,
}

impl BlobAnims {
    /// Plays `next`: a clip already playing goes on undisturbed, another one
    /// starts from its first frame.
    pub fn play(&mut self, next: BlobCurrentAnim, now: u64)
        requires
            old(self).wf(),
        ensures
            final(self).wf(),
            final(self).current() == next,
            old(self).current() == next ==> *final(self) == *old(self),
            old(self).current() != next ==> final(self).clip(next) == old(self).clip(
                next,
            ).restarted(now as int) && final(self).others_kept(old(self), next, next),
    {
        if self.playing != next {
            self.set(next, now);
        }
    }
}

impl BlobAnims {
    pub closed spec fn current(&self) -> BlobCurrentAnim {
        self.playing
    }

    pub closed spec fn clip(&self, which: BlobCurrentAnim) -> ClipState {
        match which {
            BlobCurrentAnim::IdleRight => self.idle_right@,
            BlobCurrentAnim::IdleLeft => self.idle_left@,
            BlobCurrentAnim::BounceRight => self.bounce_right@,
            BlobCurrentAnim::BounceLeft => self.bounce_left@,
        }
    }

    /// Every clip is well formed and holds its fixed frames.
    pub open spec fn wf(&self) -> bool {
        forall|w: BlobCurrentAnim| #[trigger] self.clip(w).wf() && self.clip(w).frames == w.frames()
    }

    /// Every clip but `a` and `b` is as in `before`.
    pub open spec fn others_kept(&self, before: &BlobAnims, a: BlobCurrentAnim, b: BlobCurrentAnim) -> bool {
        forall|w: BlobCurrentAnim| w != a && w != b ==> #[trigger] self.clip(w) == before.clip(w)
    }

    /// All clips rewound, clocks started at `now`, with `playing` selected.
    pub fn new(playing: BlobCurrentAnim, now: u64) -> (r: BlobAnims)
        ensures
            r.wf(),
            r.current() == playing,
            forall|w: BlobCurrentAnim|
                #[trigger] r.clip(w) == (ClipState { frames: w.frames(), current: 0, start: now as int }),
    {
        let r = BlobAnims {
            playing,
            idle_right: Animation::new(make_strip(0, 1, 1000, 1000), now),
            idle_left: Animation::new(make_strip(8, 1, 1000, 1000), now),
            bounce_right: Animation::new(make_strip(1, 7, 80, 120), now),
            bounce_left: Animation::new(make_strip(9, 7, 80, 120), now),
        };
        assert forall|w: BlobCurrentAnim| #[trigger] r.clip(w).wf() && r.clip(w).frames == w.frames() by {
            match w {
                BlobCurrentAnim::IdleRight => {},
                BlobCurrentAnim::IdleLeft => {},
                BlobCurrentAnim::BounceRight => {},
                BlobCurrentAnim::BounceLeft => {},
            }
        }
        r
    }

    /// Switches to `next`, rewinding that clip and restarting its clock.
    pub fn set(&mut self, next: BlobCurrentAnim, now: u64)
        requires
            old(self).wf(),
        ensures
            final(self).wf(),
            final(self).current() == next,
            final(self).clip(next) == old(self).clip(next).restarted(now as int),
            final(self).others_kept(old(self), next, next),
    {
        proof {
            assert(self.clip(BlobCurrentAnim::IdleRight).wf());
            assert(self.clip(BlobCurrentAnim::IdleLeft).wf());
            assert(self.clip(BlobCurrentAnim::BounceRight).wf());
            assert(self.clip(BlobCurrentAnim::BounceLeft).wf());
        }
        self.playing = next;
        match next {
            BlobCurrentAnim::IdleRight => self.idle_right.reset(now),
            BlobCurrentAnim::IdleLeft => self.idle_left.reset(now),
            BlobCurrentAnim::BounceRight => self.bounce_right.reset(now),
            BlobCurrentAnim::BounceLeft => self.bounce_left.reset(now),
        }
        assert forall|w: BlobCurrentAnim| #[trigger] self.clip(w).wf() && self.clip(w).frames == w.frames() by {
            match w {
                BlobCurrentAnim::IdleRight => {},
                BlobCurrentAnim::IdleLeft => {},
                BlobCurrentAnim::BounceRight => {},
                BlobCurrentAnim::BounceLeft => {},
            }
        }
    }

    pub fn playing(&self) -> (r: BlobCurrentAnim)
        ensures
            r == self.current(),
    {
        self.playing
    }

    /// The sprite row currently shown.
    pub fn get_frame_index(&self) -> (r: usize)
        requires
            self.wf(),
        ensures
            r == self.clip(self.current()).frame_index(),
    {
        proof {
            assert(self.clip(self.current()).wf());
        }
        match self.playing {
            BlobCurrentAnim::IdleRight => self.idle_right.get_frame().index,
            BlobCurrentAnim::IdleLeft => self.idle_left.get_frame().index,
            BlobCurrentAnim::BounceRight => self.bounce_right.get_frame().index,
            BlobCurrentAnim::BounceLeft => self.bounce_left.get_frame().index,
        }
    }

    /// Ticks the playing clip only.
    fn tick(&mut self, now: u64) -> (r: usize)
        requires
            old(self).wf(),
        ensures
            final(self).wf(),
            final(self).current() == old(self).current(),
            final(self).clip(old(self).current()) == old(self).clip(old(self).current()).advanced(
                now as int,
            ),
            final(self).others_kept(old(self), old(self).current(), old(self).current()),
            r == final(self).clip(old(self).current()).frame_index(),
    {
        proof {
            assert(self.clip(self.current()).wf());
            assert(self.clip(BlobCurrentAnim::IdleRight).wf());
            assert(self.clip(BlobCurrentAnim::IdleLeft).wf());
            assert(self.clip(BlobCurrentAnim::BounceRight).wf());
            assert(self.clip(BlobCurrentAnim::BounceLeft).wf());
        }
        let r = match self.playing {
            BlobCurrentAnim::IdleRight => self.idle_right.update(now),
            BlobCurrentAnim::IdleLeft => self.idle_left.update(now),
            BlobCurrentAnim::BounceRight => self.bounce_right.update(now),
            BlobCurrentAnim::BounceLeft => self.bounce_left.update(now),
        };
        assert forall|w: BlobCurrentAnim| #[trigger] self.clip(w).wf() && self.clip(w).frames == w.frames() by {
            match w {
                BlobCurrentAnim::IdleRight => {},
                BlobCurrentAnim::IdleLeft => {},
                BlobCurrentAnim::BounceRight => {},
                BlobCurrentAnim::BounceLeft => {},
            }
        }
        r
    }

    /// The first and last sprite rows of the playing clip.
    fn ends(&self) -> (r: (usize, usize))
        requires
            self.wf(),
        ensures
            r.0 == self.clip(self.current()).frames[0].index,
            r.1 == self.clip(self.current()).frames.last().index,
    {
        proof {
            assert(self.clip(self.current()).wf());
        }
        let a = match self.playing {
            BlobCurrentAnim::IdleRight => &self.idle_right,
            BlobCurrentAnim::IdleLeft => &self.idle_left,
            BlobCurrentAnim::BounceRight => &self.bounce_right,
            BlobCurrentAnim::BounceLeft => &self.bounce_left,
        };
        a.ends()
    }
}

impl FrogCurrentAnim {
    /// The idle clip facing the same way.
    pub fn to_idle(self) -> (r: FrogCurrentAnim)
        ensures
            r == self.settled(),
    {
        match self {
            FrogCurrentAnim::IdleRight | FrogCurrentAnim::HopRight => FrogCurrentAnim::IdleRight,
            FrogCurrentAnim::IdleLeft | FrogCurrentAnim::HopLeft => FrogCurrentAnim::IdleLeft,
        }
    }
}

impl JeanCurrentAnim {
    /// The idle clip facing the same way.
    pub fn to_idle(self) -> (r: JeanCurrentAnim)
        ensures
            r == self.settled(),
    {
        match self {
            JeanCurrentAnim::IdleRight | JeanCurrentAnim::WalkRight => JeanCurrentAnim::IdleRight,
            JeanCurrentAnim::IdleLeft | JeanCurrentAnim::WalkLeft => JeanCurrentAnim::IdleLeft,
        }
    }
}

impl BlobCurrentAnim {
    /// The idle clip facing the same way.
    pub fn to_idle(self) -> (r: BlobCurrentAnim)
        ensures
            r == self.settled(),
    {
        match self {
            BlobCurrentAnim::IdleRight | BlobCurrentAnim::BounceRight => BlobCurrentAnim::IdleRight,
            BlobCurrentAnim::IdleLeft | BlobCurrentAnim::BounceLeft => BlobCurrentAnim::IdleLeft,
        }
    }
}

impl FrogAnims {
    /// Ticks the playing clip. A motion clip that has just gone from its last
    /// frame back to its first hands over to the idle clip facing the same way.
    pub fn animate(&mut self, now: u64) -> (r: usize)
        requires
            old(self).wf(),
        ensures
            final(self).wf(),
            ({
                let cur = old(self).current();
                let a = old(self).clip(cur).advanced(now as int);
                let done = !cur.is_idle() && a.wrapped_from(old(self).clip(cur));
                &&& final(self).current() == (if done {
                    cur.settled()
                } else {
                    cur
                })
                &&& final(self).clip(cur) == a
                &&& final(self).clip(cur.settled()) == (if done {
                    old(self).clip(cur.settled()).restarted(now as int)
                } else if cur.is_idle() {
                    a
                } else {
                    old(self).clip(cur.settled())
                })
                &&& final(self).others_kept(old(self), cur, cur.settled())
                &&& r == a.frame_index()
            }),
    {
        let cur = self.playing;
        let ends = self.ends();
        let shown_before = self.get_frame_index();
        let shown = self.tick(now);
        let idle = cur.to_idle();
        if idle != cur && shown_before == ends.1 && shown == ends.0 {
            self.set(idle, now);
            shown
        } else {
            shown
        }
    }
}

impl BlobAnims {
    /// Ticks the playing clip. A motion clip that has just gone from its last
    /// frame back to its first hands over to the idle clip facing the same way.
    pub fn animate(&mut self, now: u64) -> (r: usize)
        requires
            old(self).wf(),
        ensures
            final(self).wf(),
            ({
                let cur = old(self).current();
                let a = old(self).clip(cur).advanced(now as int);
                let done = !cur.is_idle() && a.wrapped_from(old(self).clip(cur));
                &&& final(self).current() == (if done {
                    cur.settled()
                } else {
                    cur
                })
                &&& final(self).clip(cur) == a
                &&& final(self).clip(cur.settled()) == (if done {
                    old(self).clip(cur.settled()).restarted(now as int)
                } else if cur.is_idle() {
                    a
                } else {
                    old(self).clip(cur.settled())
                })
                &&& final(self).others_kept(old(self), cur, cur.settled())
                &&& r == (if done {
                    final(self).clip(cur.settled()).frame_index()
                } else {
                    a.frame_index()
                })
            }),
    {
        let cur = self.playing;
        let ends = self.ends();
        let shown_before = self.get_frame_index();
        let shown = self.tick(now);
        let idle = cur.to_idle();
        if idle != cur && shown_before == ends.1 && shown == ends.0 {
            self.set(idle, now);
            self.get_frame_index()
        } else {
            shown
        }
    }
}

impl FrogAnims {
    /// A dependent at rest facing right, all clocks started at `now`.
    pub fn new(now: u64) -> (r: FrogAnims)
        ensures
            r.wf(),
            r.current() == FrogCurrentAnim::IdleRight,
            forall|w: FrogCurrentAnim|
                #[trigger] r.clip(w) == (ClipState { frames: w.frames(), current: 0, start: now as int }),
    {
        FrogAnims::with_clip(FrogCurrentAnim::IdleRight, now)
    }
}

impl JeanAnims {
    /// The leader at rest facing right, all clocks started at `now`.
    pub fn new(now: u64) -> (r: JeanAnims)
        ensures
            r.wf(),
            r.current() == JeanCurrentAnim::IdleRight,
            forall|w: JeanCurrentAnim|
                #[trigger] r.clip(w) == (ClipState { frames: w.frames(), current: 0, start: now as int }),
    {
        JeanAnims::with_clip(JeanCurrentAnim::IdleRight, now)
    }

    /// The idle clip facing the way the leader faces now.
    pub fn to_idle(&self) -> (r: JeanCurrentAnim)
        ensures
            r == self.current().settled(),
    {
        self.playing.to_idle()
    }

    /// The walking clip facing the way the leader faces now.
    pub fn to_walking(&self) -> (r: JeanCurrentAnim)
        ensures
            r == (if self.current().settled() == JeanCurrentAnim::IdleLeft {
                JeanCurrentAnim::WalkLeft
            } else {
                JeanCurrentAnim::WalkRight
            }),
    {
        match self.playing {
            JeanCurrentAnim::IdleLeft | JeanCurrentAnim::WalkLeft => JeanCurrentAnim::WalkLeft,
            JeanCurrentAnim::IdleRight | JeanCurrentAnim::WalkRight => JeanCurrentAnim::WalkRight,
        }
    }

    /// Ticks the playing clip; the leader's clips never switch by themselves.
    pub fn animate(&mut self, now: u64) -> (r: usize)
        requires
            old(self).wf(),
        ensures
            final(self).wf(),
            final(self).current() == old(self).current(),
            final(self).clip(old(self).current()) == old(self).clip(old(self).current()).advanced(
                now as int,
            ),
            final(self).others_kept(old(self), old(self).current(), old(self).current()),
            r == final(self).clip(old(self).current()).frame_index(),
    {
        self.tick(now)
    }
}

impl BlobCurrentAnim {
    /// The idle clip picked by a random draw: an even draw faces left.
    pub fn idle_from_draw(draw: u32) -> (r: BlobCurrentAnim)
        ensures
            r == (if draw % 2 == 0 {
                BlobCurrentAnim::IdleLeft
            } else {
                BlobCurrentAnim::IdleRight
            }),
    {
        if draw % 2 == 0 {
            BlobCurrentAnim::IdleLeft
        } else {
            BlobCurrentAnim::IdleRight
        }
    }

    /// The starting clip of an antagonist placed in a level: the facing named by its
    /// `direction` property ("left" or "right"), else a random idle facing. The
    /// stream is drawn from only in the second case.
    pub fn new(random: &mut Random, direction: Option<&String>) -> (r: BlobCurrentAnim)
        ensures
            r.is_idle(),
            direction matches Some(d) && d@ == "left"@ ==> r == BlobCurrentAnim::IdleLeft,
            direction matches Some(d) && d@ == "right"@ ==> r == BlobCurrentAnim::IdleRight,
    {
        proof {
            reveal_strlit("left");
            reveal_strlit("right");
            assert("left"@.len() != "right"@.len());
        }
        let left = "left".to_owned();
        let right = "right".to_owned();
        match direction {
            Some(d) => {
                if *d == left {
                    return BlobCurrentAnim::IdleLeft;
                }
                if *d == right {
                    return BlobCurrentAnim::IdleRight;
                }
            },
            None => {},
        }
        BlobCurrentAnim::idle_from_draw(random.next_u32())
    }
}

/// The flickering clip of a fire.
pub open spec fn burn_frames() -> Seq<Frame> {
    seq![
        Frame { index: 0, duration: 30 },
        Frame { index: 1, duration: 40 },
        Frame { index: 2, duration: 30 },
        Frame { index: 3, duration: 50 },
        Frame { index: 4, duration: 35 },
        Frame { index: 5, duration: 40 },
    ]
}

/// Animation state of a fire: one looping clip.
pub struct FireAnims {
    burn: Animation,
}

impl FireAnims {
    pub closed spec fn clip(&self) -> ClipState {
        self.burn@
    }

    /// A fire whose clip starts at `offset` modulo its length, so that fires
    /// placed side by side flicker out of step.
    pub fn with_offset(offset: u32, now: u64) -> (r: FireAnims)
        ensures
            r.clip() == (ClipState {
                frames: burn_frames(),
                current: offset as int % 6,
                start: now as int,
            }),
            r.clip().wf(),
    {
        let frames = vec![
            Frame::new(0, 30),
            Frame::new(1, 40),
            Frame::new(2, 30),
            Frame::new(3, 50),
            Frame::new(4, 35),
            Frame::new(5, 40),
        ];
        assert(frames@ =~= burn_frames());
        FireAnims { burn: Animation::with_offset(frames, now, offset as usize) }
    }

    /// A fire starting at a random frame.
    pub fn new(random: &mut Random, now: u64) -> (r: FireAnims)
        ensures
            r.clip().wf(),
            r.clip().frames == burn_frames(),
            r.clip().start == now,
    {
        FireAnims::with_offset(random.next_u32(), now)
    }

    pub fn animate(&mut self, now: u64) -> (r: usize)
        requires
            old(self).clip().wf(),
        ensures
            final(self).clip() == old(self).clip().advanced(now as int),
            final(self).clip().wf(),
            r == final(self).clip().frame_index(),
    {
        self.burn.update(now)
    }
}

} // verus!
