//! The driver's own state: whether generations advance, how presence paint
//! is shown, and the brush size.
use vstd::prelude::*;

verus! {

/// A cell position on the board.
#[derive(Copy, Clone, Debug, Default, PartialEq, Eq, Structural)]
pub struct ColRow {
    pub col: usize,
    pub row: usize,
}

/// Whether the driver advances generations.
#[derive(Copy, Clone, Debug, PartialEq, Eq, Structural)]
pub enum AnimationState {
    Running,
    Paused,
    AdvanceFrame,
}

impl AnimationState {
    /// Pauses a running simulation and resumes any other.
    pub fn toggle(self) -> (r: AnimationState)
        ensures
            r == (if self == AnimationState::Running {
                AnimationState::Paused
            } else {
                AnimationState::Running
            }),
    {
        match self {
            AnimationState::Running => AnimationState::Paused,
            _ => AnimationState::Running,
        }
    }

    /// Pauses a running simulation; otherwise asks for one more generation.
    pub fn frame_step(self) -> (r: AnimationState)
        ensures
            r == (if self == AnimationState::Running {
                AnimationState::Paused
            } else {
                AnimationState::AdvanceFrame
            }),
    {
        match self {
            AnimationState::Running => AnimationState::Paused,
            _ => AnimationState::AdvanceFrame,
        }
    }

    /// The state after a generation has been advanced: a single requested
    /// frame, once taken, pauses again.
    pub fn next(self) -> (r: AnimationState)
        ensures
            r == (if self == AnimationState::Running {
                AnimationState::Running
            } else {
                AnimationState::Paused
            }),
    {
        match self {
            AnimationState::Running => AnimationState::Running,
            _ => AnimationState::Paused,
        }
    }

    /// Whether a generation is due: running, or one frame requested.
    pub fn is_running(self) -> (r: bool)
        ensures
            r == (self != AnimationState::Paused),
    {
        match self {
            AnimationState::Running => true,
            AnimationState::AdvanceFrame => true,
            AnimationState::Paused => false,
        }
    }
}

/// How the presence overlay is used.
#[derive(Copy, Clone, Debug, PartialEq, Eq, Structural)]
pub enum DrawUserState {
    Draw,
    PaintAndDisappear,
    Off,
}

impl DrawUserState {
    /// Cycles Draw, PaintAndDisappear, Off, and back to Draw.
    pub fn toggle(self) -> (r: DrawUserState)
        ensures
            r == (match self {
                DrawUserState::Draw => DrawUserState::PaintAndDisappear,
                DrawUserState::PaintAndDisappear => DrawUserState::Off,
                DrawUserState::Off => DrawUserState::Draw,
            }),
    {
        match self {
            DrawUserState::Draw => DrawUserState::PaintAndDisappear,
            DrawUserState::PaintAndDisappear => DrawUserState::Off,
            DrawUserState::Off => DrawUserState::Draw,
        }
    }
}

/// The largest brush size.
pub const MAX_BRUSH_SIZE: u32 = 10;

pub open spec fn pow2(n: nat) -> nat
    decreases n,
{
    if n == 0 {
        1
    } else {
        2 * pow2((n - 1) as nat)
    }
}

/// `v` clamped to `[lo, hi]`.
pub open spec fn clamp(v: int, lo: int, hi: int) -> int {
    if v < lo {
        lo
    } else if v > hi {
        hi
    } else {
        v
    }
}

/// The brush size after a scroll of `delta` steps: the sum clamped to
/// `[0, MAX_BRUSH_SIZE]`, unless a brush of that size (a radius of
/// `2^size` cells) would be wider than half the board either way, in which
/// case the size stays.
pub open spec fn brush_size_after(size: int, delta: int, width: int, height: int) -> int {
    let s = clamp(size + delta, 0, MAX_BRUSH_SIZE as int);
    if pow2(s as nat) > width / 2 || pow2(s as nat) > height / 2 {
        size
    } else {
        s
    }
}

/// The brush size after a scroll of `delta` steps on a `width` by `height`
/// board.
pub fn next_brush_size(size: u32, delta: i32, width: usize, height: usize) -> (r: u32)
    ensures
        r == brush_size_after(size as int, delta as int, width as int, height as int),
{
    let sum: i64 = size as i64 + delta as i64;
    let s: u32 = if sum < 0 {
        0
    } else if sum > MAX_BRUSH_SIZE as i64 {
        MAX_BRUSH_SIZE
    } else {
        sum as u32
    };
    let mut radius: usize = 1;
    let mut i: u32 = 0;
    while i < s
        invariant
            i <= s <= MAX_BRUSH_SIZE,
            radius == pow2(i as nat),
            radius <= 1024,
        decreases s - i,
    {
        proof {
            assert(pow2((i + 1) as nat) == 2 * pow2(i as nat));
            lemma_pow2_bound(i as nat);
        }
        radius = radius * 2;
        i = i + 1;
    }
    if radius > width / 2 || radius > height / 2 {
        size
    } else {
        s
    }
}

proof fn lemma_pow2_monotone(a: nat, b: nat)
    requires
        a <= b,
    ensures
        pow2(a) <= pow2(b),
    decreases b,
{
    if a < b {
        lemma_pow2_monotone(a, (b - 1) as nat);
    }
}

proof fn lemma_pow2_bound(n: nat)
    requires
        n < 10,
    ensures
        pow2(n) <= 512,
{
    reveal_with_fuel(pow2, 10);
    assert(pow2(9) == 512);
    lemma_pow2_monotone(n, 9);
}

} // verus!
