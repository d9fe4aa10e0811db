//! Which keyframe of a clip a clock shows, and one frame of a player.

use crate::animation::{
    advance, advanced, normalize, normalized, saturated, scaled, wrapped, AnimatedSprite,
    AnimationPlayer2D, PlayingAnimation2D,
};
use crate::asset::{ascending, AnimationClip2D, ClipView};
use vstd::arithmetic::div_mod::lemma_small_mod;
use vstd::prelude::*;

verus! {

/// Where a clock stands in a clip.
#[derive(Debug, Clone, Copy, PartialEq, Eq, Structural)]
pub enum Playhead {
    /// The clock lies before the first keyframe.
    NotStarted,
    /// The keyframe at this position is on screen.
    Showing(usize),
    /// The clock stands exactly on the last keyframe's time stamp.
    Finished,
}

/// The number of keyframes whose time stamp lies at or before `elapsed`.
pub open spec fn begun(timestamps: Seq<i64>, elapsed: i64) -> nat
    decreases timestamps.len(),
{
    if timestamps.len() == 0 {
        0
    } else {
        let earlier = begun(timestamps.drop_last(), elapsed);
        if timestamps.last() <= elapsed {
            earlier + 1
        } else {
            earlier
        }
    }
}

/// Where `elapsed` stands among ascending time stamps. Before the first of
/// them nothing has started. Otherwise the last keyframe that has begun is
/// on screen, with one exception: a clock that stands exactly on the time
/// stamp of the last of several keyframes has finished.
pub open spec fn playhead(timestamps: Seq<i64>, elapsed: i64) -> Playhead {
    let count = begun(timestamps, elapsed);
    if count == 0 {
        Playhead::NotStarted
    } else if count == timestamps.len() && count > 1 && timestamps[count - 1] == elapsed {
        Playhead::Finished
    } else {
        Playhead::Showing((count - 1) as usize)
    }
}

/// The sprite that the clip puts on screen at `elapsed`, if it puts one there.
pub open spec fn shown(clip: ClipView, elapsed: i64) -> Option<usize> {
    match playhead(clip.keyframe_timestamps, elapsed) {
        Playhead::Showing(position) => Some(clip.keyframes[position as int]),
        _ => None,
    }
}

/// One frame of playback: the clock after the frame, and the sprite to put
/// on screen, if any.
pub open spec fn resolved(
    clip: ClipView,
    elapsed_in: i64,
    repeat: bool,
    paused: bool,
    delta_time: i64,
    speed: i64,
) -> (i64, Option<usize>) {
    let elapsed = normalized(
        advanced(elapsed_in, delta_time, speed, paused),
        clip.duration,
        repeat,
    );
    (elapsed, shown(clip, elapsed))
}

/// No more keyframes can have begun than there are.
pub proof fn lemma_begun_is_bounded(timestamps: Seq<i64>, elapsed: i64)
    ensures
        begun(timestamps, elapsed) <= timestamps.len(),
    decreases timestamps.len(),
{
    if timestamps.len() > 0 {
        lemma_begun_is_bounded(timestamps.drop_last(), elapsed);
    }
}

/// A place that parts the time stamps at or before `elapsed` from those
/// after it is the number of keyframes that have begun.
pub proof fn lemma_begun_at_split(timestamps: Seq<i64>, elapsed: i64, split: int)
    requires
        0 <= split <= timestamps.len(),
        forall|i: int| 0 <= i < split ==> timestamps[i] <= elapsed,
        forall|i: int| split <= i < timestamps.len() ==> timestamps[i] > elapsed,
    ensures
        begun(timestamps, elapsed) == split,
    decreases timestamps.len(),
{
    if timestamps.len() > 0 {
        let head = timestamps.drop_last();
        if split == timestamps.len() {
            lemma_begun_at_split(head, elapsed, split - 1);
        } else {
            lemma_begun_at_split(head, elapsed, split);
        }
    }
}

/// Among ascending time stamps, the keyframes that have begun are exactly
/// the first `begun` of them.
pub proof fn lemma_begun_splits(timestamps: Seq<i64>, elapsed: i64)
    requires
        ascending(timestamps),
    ensures
        begun(timestamps, elapsed) <= timestamps.len(),
        forall|i: int|
            0 <= i < timestamps.len() ==> (i < begun(timestamps, elapsed) <==> timestamps[i]
                <= elapsed),
    decreases timestamps.len(),
{
    if timestamps.len() > 0 {
        let head = timestamps.drop_last();
        assert(ascending(head)) by {
            assert forall|i: int, j: int| 0 <= i <= j < head.len() implies head[i] <= head[j] by {
                assert(timestamps[i] <= timestamps[j]);
            }
        }
        lemma_begun_splits(head, elapsed);
        assert forall|i: int| 0 <= i < timestamps.len() implies (i < begun(timestamps, elapsed)
            <==> timestamps[i] <= elapsed) by {
            if i < head.len() {
                assert(head[i] == timestamps[i]);
                assert(timestamps[i] <= timestamps.last());
            }
        }
    }
}

/// The number of keyframes that have begun, found by bisection.
fn count_begun(timestamps: &[i64], elapsed: i64) -> (count: usize)
    requires
        ascending(timestamps@),
    ensures
        count == begun(timestamps@, elapsed),
        count <= timestamps@.len(),
{
    let mut low: usize = 0;
    let mut high: usize = timestamps.len();
    while low < high
        invariant
            0 <= low <= high <= timestamps@.len(),
            ascending(timestamps@),
            forall|i: int| 0 <= i < low ==> timestamps@[i] <= elapsed,
            forall|i: int| high <= i < timestamps@.len() ==> timestamps@[i] > elapsed,
        decreases high - low,
    {
        let middle: usize = low + (high - low) / 2;
        if timestamps[middle] <= elapsed {
            low = middle + 1;
        } else {
            high = middle;
        }
    }
    proof {
        lemma_begun_at_split(timestamps@, elapsed, low as int);
    }
    low
}

impl AnimationClip2D {
    /// Where `elapsed` stands in this clip.
    pub fn playhead(&self, elapsed: i64) -> (at: Playhead)
        ensures
            at == playhead(self@.keyframe_timestamps, elapsed),
            self@.well_formed(),
            match at {
                Playhead::Showing(position) => position < self@.keyframes.len(),
                _ => true,
            },
    {
        let timestamps = self.keyframe_timestamps();
        let count: usize = count_begun(timestamps, elapsed);
        if count == 0 {
            Playhead::NotStarted
        } else if count == timestamps.len() && count > 1 && timestamps[count - 1] == elapsed {
            Playhead::Finished
        } else {
            Playhead::Showing(count - 1)
        }
    }
}

/// Plays one frame of a clip: moves the clock unless paused, wraps it where
/// the animation repeats, and finds the sprite to show. `None` says that the
/// sprite on screen is to stay: the clip has not started, or has finished.
pub fn resolve(
    clip: &AnimationClip2D,
    elapsed_in: i64,
    repeat: bool,
    paused: bool,
    delta_time: i64,
    speed: i64,
) -> (out: (i64, Option<usize>))
    ensures
        out == resolved(clip@, elapsed_in, repeat, paused, delta_time, speed),
        repeat && clip@.duration > 0 ==> 0 <= out.0 < clip@.duration,
{
    let moved: i64 = advance(elapsed_in, delta_time, speed, paused);
    let elapsed: i64 = normalize(moved, clip.duration(), repeat);
    let sprite = match clip.playhead(elapsed) {
        Playhead::Showing(position) => Some(clip.keyframes()[position]),
        _ => None,
    };
    (elapsed, sprite)
}

/// What a clip that may not be there yet is, as plain values.
pub open spec fn viewed(animation_clip: Option<&AnimationClip2D>) -> Option<ClipView> {
    match animation_clip {
        Some(clip) => Some(clip@),
        None => None,
    }
}

/// One frame of a playing animation and of the sprite index beside it. With
/// no clip nothing happens. Otherwise the resolved clock is stored, and the
/// sprite index is replaced where the frame shows a sprite.
pub open spec fn applied(
    clip: Option<ClipView>,
    animation: PlayingAnimation2D,
    paused: bool,
    delta_time: i64,
    sprite_index: usize,
) -> (PlayingAnimation2D, usize) {
    match clip {
        None => (animation, sprite_index),
        Some(clip) => {
            let (elapsed, sprite) = resolved(
                clip,
                animation.elapsed,
                animation.repeat,
                paused,
                delta_time,
                animation.speed,
            );
            (
                PlayingAnimation2D { elapsed, ..animation },
                match sprite {
                    Some(index) => index,
                    None => sprite_index,
                },
            )
        },
    }
}

/// One frame of a player. A paused player that nobody has touched since the
/// frame before is passed over; any other has the frame applied.
pub open spec fn played(
    clip: Option<ClipView>,
    player: AnimationPlayer2D,
    changed: bool,
    delta_time: i64,
    sprite_index: usize,
) -> (AnimationPlayer2D, usize) {
    if player.paused && !changed {
        (player, sprite_index)
    } else {
        let (animation, index) = applied(
            clip,
            player.animation,
            player.paused,
            delta_time,
            sprite_index,
        );
        (AnimationPlayer2D { animation, ..player }, index)
    }
}

/// Applies one frame to a playing animation and to the sprite index that it
/// drives. `animation_clip` is the animation's clip, or `None` while it is
/// not loaded: then nothing is touched, the clock included.
pub fn apply_animation_player_spritesheet(
    delta_time: i64,
    animation_clip: Option<&AnimationClip2D>,
    animation: &mut PlayingAnimation2D,
    paused: bool,
    sprite_index: &mut usize,
)
    ensures
        (*final(animation), *final(sprite_index)) == applied(
            viewed(animation_clip),
            *old(animation),
            paused,
            delta_time,
            *old(sprite_index),
        ),
{
    if let Some(clip) = animation_clip {
        let (elapsed, sprite) = resolve(
            clip,
            animation.elapsed,
            animation.repeat,
            paused,
            delta_time,
            animation.speed,
        );
        animation.elapsed = elapsed;
        if let Some(index) = sprite {
            *sprite_index = index;
        }
    }
}

/// Plays one frame of a player. `changed` says whether the player was
/// touched from outside since the frame before, so that a position set by
/// hand while paused comes on screen.
pub fn run_animation_player_spritesheet(
    delta_time: i64,
    animation_clip: Option<&AnimationClip2D>,
    player: &mut AnimationPlayer2D,
    changed: bool,
    sprite_index: &mut usize,
)
    ensures
        (*final(player), *final(sprite_index)) == played(
            viewed(animation_clip),
            *old(player),
            changed,
            delta_time,
            *old(sprite_index),
        ),
        old(player).paused && !changed ==> *final(player) == *old(player) && *final(sprite_index)
            == *old(sprite_index),
{
    let paused: bool = player.paused;
    if paused && !changed {
        return ;
    }
    apply_animation_player_spritesheet(
        delta_time,
        animation_clip,
        &mut player.animation,
        paused,
        sprite_index,
    );
}

/// The clip in a slot of the table, if the slot exists and its clip is loaded.
pub open spec fn looked_up(
    animation_clips: Seq<Option<AnimationClip2D>>,
    slot: usize,
) -> Option<ClipView> {
    if slot < animation_clips.len() {
        match animation_clips[slot as int] {
            Some(clip) => Some(clip@),
            None => None,
        }
    } else {
        None
    }
}

/// One frame of an animated sprite: the frame of its player, against the
/// clip in its slot. The frame takes note of what was changed from outside.
pub open spec fn animated(
    animation_clips: Seq<Option<AnimationClip2D>>,
    sprite: AnimatedSprite,
    delta_time: i64,
) -> AnimatedSprite {
    let (player, sprite_index) = played(
        looked_up(animation_clips, sprite.animation_clip),
        sprite.player,
        sprite.changed,
        delta_time,
        sprite.sprite_index,
    );
    AnimatedSprite { player, sprite_index, changed: false, ..sprite }
}

/// Plays one frame of every animated sprite. A sprite whose clip is not
/// loaded waits: its player and its sprite index stay as they are.
pub fn animation_player_spritesheet(
    delta_time: i64,
    animation_clips: &Vec<Option<AnimationClip2D>>,
    sprites: &mut Vec<AnimatedSprite>,
)
    ensures
        final(sprites)@.len() == old(sprites)@.len(),
        forall|i: int|
            0 <= i < old(sprites)@.len() ==> final(sprites)@[i] == animated(
                animation_clips@,
                old(sprites)@[i],
                delta_time,
            ),
{
    let mut i: usize = 0;
    while i < sprites.len()
        invariant
            0 <= i <= sprites@.len(),
            sprites@.len() == old(sprites)@.len(),
            forall|j: int|
                0 <= j < i ==> sprites@[j] == animated(
                    animation_clips@,
                    old(sprites)@[j],
                    delta_time,
                ),
            forall|j: int| i <= j < sprites@.len() ==> sprites@[j] == old(sprites)@[j],
        decreases sprites@.len() - i,
    {
        let mut sprite: AnimatedSprite = sprites[i];
        let animation_clip: Option<&AnimationClip2D> = if sprite.animation_clip
            < animation_clips.len() {
            animation_clips[sprite.animation_clip].as_ref()
        } else {
            None
        };
        run_animation_player_spritesheet(
            delta_time,
            animation_clip,
            &mut sprite.player,
            sprite.changed,
            &mut sprite.sprite_index,
        );
        sprite.changed = false;
        sprites.set(i, sprite);
        i += 1;
    }
}

/// Zero-order hold. Among ascending time stamps nothing has started before
/// the first of them; the clock that stands exactly on the last of several
/// has finished; and the keyframe on screen is the one whose time stamp is
/// the last at or before the clock.
pub proof fn lemma_playhead_holds_last_begun(timestamps: Seq<i64>, elapsed: i64)
    requires
        ascending(timestamps),
        timestamps.len() <= usize::MAX,
    ensures
        playhead(timestamps, elapsed) is NotStarted <==> timestamps.len() == 0 || elapsed
            < timestamps[0],
        playhead(timestamps, elapsed) is Finished <==> timestamps.len() > 1 && elapsed
            == timestamps.last(),
        match playhead(timestamps, elapsed) {
            Playhead::Showing(position) => {
                &&& position < timestamps.len()
                &&& timestamps[position as int] <= elapsed
                &&& position + 1 < timestamps.len() ==> elapsed < timestamps[position + 1]
            },
            _ => true,
        },
{
    lemma_begun_splits(timestamps, elapsed);
    let count = begun(timestamps, elapsed);
    if timestamps.len() > 0 {
        assert(0 < count <==> timestamps[0] <= elapsed);
        let end = timestamps.len() - 1;
        assert(end < count <==> timestamps[end] <= elapsed);
        if elapsed == timestamps.last() {
            assert(count == timestamps.len());
        }
        if 0 < count {
            assert(timestamps[count - 1] <= elapsed);
        }
    }
}

/// A later clock has at least as many keyframes behind it.
pub proof fn lemma_begun_grows(timestamps: Seq<i64>, earlier: i64, later: i64)
    requires
        earlier <= later,
    ensures
        begun(timestamps, earlier) <= begun(timestamps, later),
    decreases timestamps.len(),
{
    if timestamps.len() > 0 {
        lemma_begun_grows(timestamps.drop_last(), earlier, later);
    }
}

/// Playing forwards never goes back to an earlier keyframe. As the clock
/// grows, a clip that shows a keyframe has started for good, and the
/// position of the keyframe on screen never decreases. The clock that leaves
/// the last time stamp behind shows the last keyframe again.
pub proof fn lemma_playhead_moves_forward(timestamps: Seq<i64>, earlier: i64, later: i64)
    requires
        earlier <= later,
        timestamps.len() <= usize::MAX,
    ensures
        playhead(timestamps, later) is NotStarted ==> playhead(timestamps, earlier) is NotStarted,
        match (playhead(timestamps, earlier), playhead(timestamps, later)) {
            (Playhead::Showing(before), Playhead::Showing(after)) => before <= after,
            (Playhead::Showing(before), Playhead::Finished) => before < timestamps.len(),
            (Playhead::Finished, Playhead::Showing(after)) => earlier < later && after
                == timestamps.len() - 1,
            (Playhead::Finished, Playhead::Finished) => earlier == later,
            (Playhead::Finished, Playhead::NotStarted) => false,
            (Playhead::Showing(_), Playhead::NotStarted) => false,
            (Playhead::NotStarted, _) => true,
        },
{
    lemma_begun_grows(timestamps, earlier, later);
    lemma_begun_is_bounded(timestamps, earlier);
    lemma_begun_is_bounded(timestamps, later);
}

/// At a speed and a frame time that are not negative, the clock of an
/// animation that plays once never runs backwards.
pub proof fn lemma_clock_moves_forward(
    clip: ClipView,
    elapsed_in: i64,
    paused: bool,
    delta_time: i64,
    speed: i64,
)
    requires
        0 <= delta_time,
        0 <= speed,
    ensures
        elapsed_in <= advanced(elapsed_in, delta_time, speed, paused),
        elapsed_in <= resolved(clip, elapsed_in, false, paused, delta_time, speed).0,
{
    assert(0 <= delta_time * speed) by (nonlinear_arith)
        requires
            0 <= delta_time,
            0 <= speed,
    ;
}

/// While an animation repeats, the resolved clock lies within the clip: at
/// or after zero and before the duration.
pub proof fn lemma_repeating_clock_stays_within_clip(
    clip: ClipView,
    elapsed_in: i64,
    paused: bool,
    delta_time: i64,
    speed: i64,
)
    requires
        clip.duration > 0,
    ensures
        0 <= resolved(clip, elapsed_in, true, paused, delta_time, speed).0 < clip.duration,
{
}

/// A paused frame is idempotent. What it resolves to, a second paused frame
/// resolves to again, whatever frame time and speed the two are given. The
/// clock itself is left as it was, except that a repeating animation has a
/// clock outside the clip wrapped into it.
pub proof fn lemma_paused_frame_is_idempotent(
    clip: ClipView,
    elapsed_in: i64,
    repeat: bool,
    delta_time: i64,
    speed: i64,
    next_delta_time: i64,
    next_speed: i64,
)
    ensures
        ({
            let first = resolved(clip, elapsed_in, repeat, true, delta_time, speed);
            &&& resolved(clip, first.0, repeat, true, next_delta_time, next_speed) == first
            &&& !repeat || 0 <= elapsed_in < clip.duration ==> first.0 == elapsed_in
        }),
{
    if repeat && clip.duration > 0 {
        lemma_small_mod(wrapped(elapsed_in, clip.duration) as nat, clip.duration as nat);
        if 0 <= elapsed_in < clip.duration {
            lemma_small_mod(elapsed_in as nat, clip.duration as nat);
        }
    }
}

/// Once a frame has been applied to a paused player, further frames leave
/// the player and the sprite on screen as they are, whether or not the
/// player counts as changed.
pub proof fn lemma_paused_player_stays(
    clip: Option<ClipView>,
    player: AnimationPlayer2D,
    delta_time: i64,
    sprite_index: usize,
    changed: bool,
    next_delta_time: i64,
)
    requires
        player.paused,
    ensures
        ({
            let first = played(clip, player, true, delta_time, sprite_index);
            played(clip, first.0, changed, next_delta_time, first.1) == first
        }),
        played(clip, player, false, delta_time, sprite_index) == (player, sprite_index),
{
    if let Some(clip) = clip {
        lemma_paused_frame_is_idempotent(
            clip,
            player.animation.elapsed,
            player.animation.repeat,
            delta_time,
            player.animation.speed,
            next_delta_time,
            player.animation.speed,
        );
    }
}

/// A paused sprite changes in one frame at most: every frame after the
/// first leaves its clock and the sprite on screen as they are.
pub proof fn lemma_paused_sprite_stays(
    animation_clips: Seq<Option<AnimationClip2D>>,
    sprite: AnimatedSprite,
    delta_time: i64,
    next_delta_time: i64,
)
    requires
        sprite.player.paused,
    ensures
        ({
            let first = animated(animation_clips, sprite, delta_time);
            animated(animation_clips, first, next_delta_time) == first
        }),
        !sprite.changed ==> animated(animation_clips, sprite, delta_time) == sprite,
{
}

/// At speed zero a frame does what a paused frame does: the clock does not
/// move, whatever the frame time and whether or not the player is paused.
pub proof fn lemma_speed_zero_is_pause(
    clip: ClipView,
    elapsed_in: i64,
    repeat: bool,
    paused: bool,
    delta_time: i64,
    paused_delta_time: i64,
    paused_speed: i64,
)
    ensures
        advanced(elapsed_in, delta_time, 0, paused) == elapsed_in,
        resolved(clip, elapsed_in, repeat, paused, delta_time, 0) == resolved(
            clip,
            elapsed_in,
            repeat,
            true,
            paused_delta_time,
            paused_speed,
        ),
{
    assert(scaled(delta_time, 0) == 0);
    assert(saturated(elapsed_in + 0) == elapsed_in);
}

} // verus!
