//! Playback state of an animated sprite, and how its clock moves.

use vstd::arithmetic::div_mod::lemma_div_by_multiple;
use vstd::prelude::*;

pub mod animation_spritesheet;

verus! {

/// The speed at which one tick of frame time moves a clip by one tick.
/// Speeds are counted in millionths: half of this plays at half speed, a
/// negative speed runs the clock backwards.
pub const NORMAL_SPEED: i64 = 1_000_000;

/// An animation that is being played: where its clock stands and how it runs.
#[derive(Debug, Clone, Copy, PartialEq, Eq, Structural)]
pub struct PlayingAnimation2D {
    /// Playback position in ticks. It may lie before the clip's start or
    /// after its end.
    pub elapsed: i64,
    /// Playback speed, in millionths of frame time.
    pub speed: i64,
    /// Whether the clip starts over when it reaches its duration.
    pub repeat: bool,
}

/// The player of one animated sprite.
#[derive(Debug, Clone, Copy, PartialEq, Eq, Structural)]
pub struct AnimationPlayer2D {
    /// While paused the clock stands still; a position set by hand still
    /// takes effect.
    pub paused: bool,
    /// The animation that is playing.
    pub animation: PlayingAnimation2D,
}

/// An animated sprite as a plain record: the player, the clip that it plays
/// and the sprite that is on screen.
#[derive(Debug, Clone, Copy, PartialEq, Eq, Structural)]
pub struct AnimatedSprite {
    /// The player that drives the sprite.
    pub player: AnimationPlayer2D,
    /// The slot of the player's clip in the table of clips.
    pub animation_clip: usize,
    /// Whether the player was touched from outside since the last frame.
    pub changed: bool,
    /// The index of the sprite on screen.
    pub sprite_index: usize,
}

/// Frame time weighed by speed, in ticks, rounded towards zero.
pub open spec fn scaled(delta_time: i64, speed: i64) -> int {
    let product = delta_time * speed;
    if product >= 0 {
        product / (NORMAL_SPEED as int)
    } else {
        -((-product) / (NORMAL_SPEED as int))
    }
}

/// The nearest value that a clock can hold.
pub open spec fn saturated(ticks: int) -> i64 {
    if ticks < i64::MIN {
        i64::MIN
    } else if ticks > i64::MAX {
        i64::MAX
    } else {
        ticks as i64
    }
}

/// The clock after one frame: unchanged while paused, else moved by the
/// frame time weighed by speed, stopping at the ends of the clock's range.
pub open spec fn advanced(elapsed: i64, delta_time: i64, speed: i64, paused: bool) -> i64 {
    if paused {
        elapsed
    } else {
        saturated(elapsed + scaled(delta_time, speed))
    }
}

/// The position within a looping clip: the remainder of the clock by the
/// duration, which is never negative. A clip without length is always at its
/// start.
pub open spec fn wrapped(elapsed: i64, duration: i64) -> i64 {
    if duration > 0 {
        elapsed % duration
    } else {
        0
    }
}

/// The clock as it is resolved: wrapped for a repeating animation, as it is
/// for one that plays once.
pub open spec fn normalized(elapsed: i64, duration: i64, repeat: bool) -> i64 {
    if repeat {
        wrapped(elapsed, duration)
    } else {
        elapsed
    }
}

/// At normal speed the clock moves by the frame time itself.
pub proof fn lemma_normal_speed_keeps_frame_time(elapsed: i64, delta_time: i64)
    ensures
        scaled(delta_time, NORMAL_SPEED) == delta_time,
        advanced(elapsed, delta_time, NORMAL_SPEED, false) == saturated(elapsed + delta_time),
{
    if delta_time >= 0 {
        lemma_div_by_multiple(delta_time as int, NORMAL_SPEED as int);
    } else {
        lemma_div_by_multiple(-delta_time, NORMAL_SPEED as int);
    }
}

/// Moves the clock by one frame.
pub fn advance(elapsed: i64, delta_time: i64, speed: i64, paused: bool) -> (moved: i64)
    ensures
        moved == advanced(elapsed, delta_time, speed, paused),
{
    if paused {
        return elapsed;
    }
    let product: i128 = weigh(delta_time, speed);
    let step: i128 = if product >= 0 {
        product / (NORMAL_SPEED as i128)
    } else {
        -((-product) / (NORMAL_SPEED as i128))
    };
    let target: i128 = (elapsed as i128) + step;
    if target < i64::MIN as i128 {
        i64::MIN
    } else if target > i64::MAX as i128 {
        i64::MAX
    } else {
        target as i64
    }
}

/// The exact product of a frame time and a speed.
fn weigh(delta_time: i64, speed: i64) -> (product: i128)
    ensures
        product == delta_time * speed,
        -0x4000_0000_0000_0000_0000_0000_0000_0000 <= product
            <= 0x4000_0000_0000_0000_0000_0000_0000_0000,
{
    assert(-0x4000_0000_0000_0000_0000_0000_0000_0000 <= delta_time * speed
        <= 0x4000_0000_0000_0000_0000_0000_0000_0000) by (nonlinear_arith)
        requires
            -0x8000_0000_0000_0000 <= delta_time <= 0x7fff_ffff_ffff_ffff,
            -0x8000_0000_0000_0000 <= speed <= 0x7fff_ffff_ffff_ffff,
    ;
    (delta_time as i128) * (speed as i128)
}

/// Brings the clock into the clip where the animation repeats.
pub fn normalize(elapsed: i64, duration: i64, repeat: bool) -> (position: i64)
    ensures
        position == normalized(elapsed, duration, repeat),
        repeat && duration > 0 ==> 0 <= position < duration,
{
    if !repeat {
        return elapsed;
    }
    if duration <= 0 {
        return 0;
    }
    match elapsed.checked_rem_euclid(duration) {
        Some(remainder) => remainder,
        None => 0,
    }
}

} // verus!
