use vstd::prelude::*;
use crate::math::{Color, LiveItemId, Vec2, Vec3, Vec4};

verus! {

/// Normalized animation time runs from 0 to `KEY_ONE`; key times use the same scale,
/// and so do easing fractions.
pub const KEY_ONE: u64 = 1000000;

/// What a play request does to an animation already playing.
#[derive(Clone, Copy, Debug, PartialEq, Eq, Structural)]
pub enum Policy {
    /// Replace the current animation at once.
    Cut,
    /// Queue after the current animation.
    Chain,
}

/// Playback settings of an animation; times are in ticks of the caller's clock.
#[derive(Clone, Copy, Debug, PartialEq, Eq, Structural)]
pub struct Play {
    pub policy: Policy,
    pub duration: u64,
    /// A terminal animation cannot be replaced once playing.
    pub terminal: bool,
}

impl Play {
    pub fn cut(&self) -> (r: bool)
        ensures
            r == (self.policy == Policy::Cut),
    {
        match self.policy {
            Policy::Cut => true,
            Policy::Chain => false,
        }
    }

    pub fn term(&self) -> (r: bool)
        ensures
            r == self.terminal,
    {
        self.terminal
    }

    pub fn total_time(&self) -> (r: u64)
        ensures
            r == self.duration,
    {
        self.duration
    }

    /// Normalized position `elapsed` ticks after the start: the elapsed share of the
    /// duration, scaled to `KEY_ONE`, held at `KEY_ONE` from the end on.
    pub open spec fn compute_time_spec(self, elapsed: int) -> int {
        if elapsed >= self.duration {
            KEY_ONE as int
        } else {
            elapsed * (KEY_ONE as int) / (self.duration as int)
        }
    }

    pub fn compute_time(&self, elapsed: u64) -> (r: u64)
        ensures
            r == self.compute_time_spec(elapsed as int),
            r <= KEY_ONE,
    {
        if elapsed >= self.duration {
            return KEY_ONE;
        }
        assert((elapsed as int) * (KEY_ONE as int) <= 0xffff_ffff_ffff_ffff * 1000000) by (nonlinear_arith)
            requires
                elapsed <= 0xffff_ffff_ffff_ffffu64,
        ;
        let scaled: u128 = (elapsed as u128) * (KEY_ONE as u128);
        let r = scaled / (self.duration as u128);
        assert(r <= KEY_ONE) by (nonlinear_arith)
            requires
                r == (elapsed as int) * (KEY_ONE as int) / (self.duration as int),
                elapsed < self.duration,
                KEY_ONE > 0,
        ;
        r as u64
    }
}

/// Easing curves on fractions scaled to `KEY_ONE`.
#[derive(Clone, Copy, Debug, PartialEq, Eq, Structural)]
pub enum Ease {
    Lin,
    InQuad,
    OutQuad,
    InOutQuad,
}

impl Ease {
    pub open spec fn map_spec(self, f: int) -> int {
        let one = KEY_ONE as int;
        match self {
            Ease::Lin => f,
            Ease::InQuad => f * f / one,
            Ease::OutQuad => one - (one - f) * (one - f) / one,
            Ease::InOutQuad => if 2 * f < one {
                2 * f * f / one
            } else {
                one - 2 * (one - f) * (one - f) / one
            },
        }
    }

    pub fn map(&self, f: u64) -> (r: u64)
        requires
            f <= KEY_ONE,
        ensures
            r == self.map_spec(f as int),
            r <= KEY_ONE,
    {
        let one = KEY_ONE;
        match self {
            Ease::Lin => f,
            Ease::InQuad => {
                assert(f * f <= one * one) by (nonlinear_arith)
                    requires
                        f <= one,
                ;
                f * f / one
            },
            Ease::OutQuad => {
                let g = one - f;
                assert(g * g <= one * one) by (nonlinear_arith)
                    requires
                        g <= one,
                ;
                one - g * g / one
            },
            Ease::InOutQuad => {
                if 2 * f < one {
                    assert(2 * f * f <= one * one) by (nonlinear_arith)
                        requires
                            2 * f < one,
                    ;
                    2 * f * f / one
                } else {
                    let g = one - f;
                    assert(2 * g * g <= one * one) by (nonlinear_arith)
                        requires
                            2 * g <= one,
                    ;
                    one - 2 * g * g / one
                }
            },
        }
    }
}

/// What a track yields at a normalized time, before any arithmetic on values.
#[derive(Clone, Copy, Debug, PartialEq, Eq)]
pub enum Sample<T> {
    /// The track has no keys: the kind's zero.
    Zero,
    /// Before the first key of a track that blends in: the last observed value.
    Hold,
    /// Exactly this key value.
    At(T),
    /// Between two keys, at an eased fraction of the way from the first to the second.
    Between(T, T, u64),
}

/// Index of the key that opens the interval holding `t`, searching from `i` on.
pub open spec fn bracket_from<T>(keys: Seq<(u64, T)>, t: int, i: int) -> int
    decreases keys.len() - i,
{
    if i + 2 >= keys.len() {
        i
    } else if t < keys[i + 1].0 {
        i
    } else {
        bracket_from(keys, t, i + 1)
    }
}

/// The sample of key list `keys` at normalized time `t`.
pub open spec fn sample_spec<T>(keys: Seq<(u64, T)>, t: int, cut_init: bool, ease: Ease) -> Sample<T> {
    if keys.len() == 0 {
        Sample::Zero
    } else if t <= keys[0].0 {
        if cut_init {
            Sample::Hold
        } else {
            Sample::At(keys[0].1)
        }
    } else if t >= keys.last().0 {
        Sample::At(keys.last().1)
    } else {
        let i = bracket_from(keys, t, 0);
        let k0 = keys[i];
        let k1 = keys[i + 1];
        Sample::Between(k0.1, k1.1, ease.map_spec((t - k0.0) * (KEY_ONE as int) / ((k1.0 - k0.0) as int)) as u64)
    }
}

pub fn sample_keys<T: Copy>(keys: &Vec<(u64, T)>, t: u64, cut_init: bool, ease: Ease) -> (r: Sample<T>)
    ensures
        r == sample_spec(keys@, t as int, cut_init, ease),
{
    let n = keys.len();
    if n == 0 {
        return Sample::Zero;
    }
    if t <= keys[0].0 {
        if cut_init {
            return Sample::Hold;
        }
        return Sample::At(keys[0].1);
    }
    if t >= keys[n - 1].0 {
        return Sample::At(keys[n - 1].1);
    }
    let mut i: usize = 0;
    while i + 2 < n && t >= keys[i + 1].0
        invariant
            n == keys@.len(),
            n >= 2,
            i + 2 <= n,
            keys@[i as int].0 <= t,
            keys@[0].0 < t,
            t < keys@[n - 1].0,
            bracket_from(keys@, t as int, 0) == bracket_from(keys@, t as int, i as int),
        decreases n - i,
    {
        i = i + 1;
    }
    let k0 = keys[i];
    let k1 = keys[i + 1];
    assert(k0.0 <= t < k1.0);
    let span = (k1.0 - k0.0) as u128;
    assert(((t - k0.0) as int) * (KEY_ONE as int) <= 0xffff_ffff_ffff_ffff * 1000000) by (nonlinear_arith)
        requires
            t - k0.0 <= 0xffff_ffff_ffff_ffffu64,
    ;
    let scaled = ((t - k0.0) as u128) * (KEY_ONE as u128);
    let frac = scaled / span;
    assert(frac < KEY_ONE) by (nonlinear_arith)
        requires
            frac == scaled / span,
            scaled == (t - k0.0) * KEY_ONE,
            span == k1.0 - k0.0,
            t - k0.0 < span,
            KEY_ONE > 0,
    ;
    Sample::Between(k0.1, k1.1, ease.map(frac as u64))
}

/// One property's key-framed timeline; key times are normalized to `KEY_ONE`.
pub enum Track<S> {
    Float { bind_to: LiveItemId, keys: Vec<(u64, S)>, cut_init: bool, ease: Ease },
    Vec2 { bind_to: LiveItemId, keys: Vec<(u64, Vec2<S>)>, cut_init: bool, ease: Ease },
    Vec3 { bind_to: LiveItemId, keys: Vec<(u64, Vec3<S>)>, cut_init: bool, ease: Ease },
    Vec4 { bind_to: LiveItemId, keys: Vec<(u64, Vec4<S>)>, cut_init: bool, ease: Ease },
    Color { bind_to: LiveItemId, keys: Vec<(u64, Color<S>)>, cut_init: bool, ease: Ease },
}

impl<S> Track<S> {
    pub open spec fn bound_to(&self) -> LiveItemId {
        match self {
            Track::Float { bind_to, .. } => *bind_to,
            Track::Vec2 { bind_to, .. } => *bind_to,
            Track::Vec3 { bind_to, .. } => *bind_to,
            Track::Vec4 { bind_to, .. } => *bind_to,
            Track::Color { bind_to, .. } => *bind_to,
        }
    }

    pub fn bind_id(&self) -> (r: LiveItemId)
        ensures
            r == self.bound_to(),
    {
        match self {
            Track::Float { bind_to, .. } => *bind_to,
            Track::Vec2 { bind_to, .. } => *bind_to,
            Track::Vec3 { bind_to, .. } => *bind_to,
            Track::Vec4 { bind_to, .. } => *bind_to,
            Track::Color { bind_to, .. } => *bind_to,
        }
    }
}

/// An ordered set of tracks with its playback settings.
pub struct Anim<S> {
    pub play: Play,
    pub tracks: Vec<Track<S>>,
}

/// From the last key's time on, a track yields exactly its last key's value, once the
/// time is past the first key.
pub proof fn lemma_sample_at_end<T>(keys: Seq<(u64, T)>, t: int, cut_init: bool, ease: Ease)
    requires
        keys.len() > 0,
        t >= keys.last().0,
        t > keys[0].0,
    ensures
        sample_spec(keys, t, cut_init, ease) == Sample::At(keys.last().1),
{
}

} // verus!
