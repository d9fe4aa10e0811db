//! Animation clips and the rules that make one well formed.

use vstd::prelude::*;

verus! {

/// Names the loading of animation clips as a part of an application. An
/// application that builds its clips through [`AnimationClip2D::new`] adds
/// its own loading code under this name; the type itself holds nothing.
pub struct Animation2DLoaderPlugin;

/// Time stamps never step down: every keyframe lies at or after all earlier ones.
pub open spec fn ascending(timestamps: Seq<i64>) -> bool {
    forall|i: int, j: int| 0 <= i <= j < timestamps.len() ==> timestamps[i] <= timestamps[j]
}

/// The greatest of the time stamps; `i64::MIN` where there are none.
pub open spec fn latest(timestamps: Seq<i64>) -> i64
    decreases timestamps.len(),
{
    if timestamps.len() == 0 {
        i64::MIN
    } else {
        let before = latest(timestamps.drop_last());
        if before <= timestamps.last() {
            timestamps.last()
        } else {
            before
        }
    }
}

/// `at` is the first place where the time stamps step down.
pub open spec fn first_descent(timestamps: Seq<i64>, at: int) -> bool {
    &&& 0 < at < timestamps.len()
    &&& timestamps[at] < timestamps[at - 1]
    &&& ascending(timestamps.take(at))
}

/// `latest` is an upper bound of the time stamps, and one of them.
pub proof fn lemma_latest_is_maximum(timestamps: Seq<i64>)
    requires
        timestamps.len() > 0,
    ensures
        forall|i: int| 0 <= i < timestamps.len() ==> timestamps[i] <= latest(timestamps),
        exists|i: int| 0 <= i < timestamps.len() && timestamps[i] == latest(timestamps),
    decreases timestamps.len(),
{
    let head = timestamps.drop_last();
    let end = timestamps.len() - 1;
    if head.len() == 0 {
        assert(timestamps[end] == latest(timestamps));
    } else {
        lemma_latest_is_maximum(head);
        assert forall|i: int| 0 <= i < timestamps.len() implies timestamps[i] <= latest(
            timestamps,
        ) by {
            if i < end {
                assert(head[i] == timestamps[i]);
            }
        }
        if latest(head) <= timestamps.last() {
            assert(timestamps[end] == latest(timestamps));
        } else {
            let k = choose|k: int| 0 <= k < head.len() && head[k] == latest(head);
            assert(timestamps[k] == latest(timestamps));
        }
    }
}

/// In an ascending sequence the last time stamp is the latest.
pub proof fn lemma_latest_of_ascending(timestamps: Seq<i64>)
    requires
        timestamps.len() > 0,
        ascending(timestamps),
    ensures
        latest(timestamps) == timestamps.last(),
{
    lemma_latest_is_maximum(timestamps);
}

/// What is wrong with a clip that cannot be built.
#[non_exhaustive]
#[derive(Debug, Clone, Copy, PartialEq, Eq, Structural)]
pub enum AnimationClip2DError {
    /// The numbers of time stamps and of keyframes, which differ.
    SizeMismatch(usize, usize),
    /// The clip has no keyframe at all.
    Empty(),
    /// The latest time stamp, and the duration that it exceeds.
    InsufficientDuration(i64, i64),
    /// The index of the first time stamp that is earlier than the one before it.
    Unordered(usize),
    /// The first time stamp, which lies before time zero.
    NegativeTimestamp(i64),
}

/// What a clip is, as plain mathematical values.
pub struct ClipView {
    /// When each keyframe starts, in ticks.
    pub keyframe_timestamps: Seq<i64>,
    /// The sprite that each keyframe shows.
    pub keyframes: Seq<usize>,
    /// The clip's full length, in ticks.
    pub duration: i64,
}

impl ClipView {
    /// One sprite per time stamp and at least one of them; time stamps that
    /// start at or after zero and never step down; a duration that reaches
    /// the last of them.
    pub open spec fn well_formed(self) -> bool {
        &&& self.keyframe_timestamps.len() == self.keyframes.len()
        &&& self.keyframes.len() > 0
        &&& ascending(self.keyframe_timestamps)
        &&& 0 <= self.keyframe_timestamps[0]
        &&& self.keyframe_timestamps.last() <= self.duration
    }
}

/// `error` names the first rule that the three parts of a clip break. The
/// rules are tested in this order: as many time stamps as sprites; at least
/// one of them; no time stamp after the duration; no time stamp earlier than
/// the one before it; no time stamp before zero.
pub open spec fn rejects(
    keyframe_timestamps: Seq<i64>,
    keyframes: Seq<usize>,
    duration: i64,
    error: AnimationClip2DError,
) -> bool {
    if keyframe_timestamps.len() != keyframes.len() {
        error == AnimationClip2DError::SizeMismatch(
            keyframe_timestamps.len() as usize,
            keyframes.len() as usize,
        )
    } else if keyframe_timestamps.len() == 0 {
        error == AnimationClip2DError::Empty()
    } else if latest(keyframe_timestamps) > duration {
        error == AnimationClip2DError::InsufficientDuration(latest(keyframe_timestamps), duration)
    } else if !ascending(keyframe_timestamps) {
        error matches AnimationClip2DError::Unordered(at) && first_descent(
            keyframe_timestamps,
            at as int,
        )
    } else {
        keyframe_timestamps[0] < 0 && error == AnimationClip2DError::NegativeTimestamp(
            keyframe_timestamps[0],
        )
    }
}

/// An animation clip: keyframes on a time line, immutable once built.
#[derive(Debug)]
pub struct AnimationClip2D {
    /// Time stamp of each keyframe, in ticks.
    keyframe_timestamps: Vec<i64>,
    /// The sprite indices that are the frames of this animation, in order.
    keyframes: Vec<usize>,
    /// Total duration of this clip, in ticks.
    duration: i64,
}

impl View for AnimationClip2D {
    type V = ClipView;

    closed spec fn view(&self) -> ClipView {
        ClipView {
            keyframe_timestamps: self.keyframe_timestamps@,
            keyframes: self.keyframes@,
            duration: self.duration,
        }
    }
}

/// The greatest element of a non-empty slice.
fn max_timestamp(timestamps: &Vec<i64>) -> (max: i64)
    requires
        timestamps.len() > 0,
    ensures
        max == latest(timestamps@),
{
    let mut max: i64 = timestamps[0];
    let mut i: usize = 1;
    assert(timestamps@.take(1).drop_last() =~= Seq::<i64>::empty());
    assert(latest(timestamps@.take(1).drop_last()) == i64::MIN);
    while i < timestamps.len()
        invariant
            1 <= i <= timestamps.len(),
            max == latest(timestamps@.take(i as int)),
        decreases timestamps.len() - i,
    {
        assert(timestamps@.take(i + 1).drop_last() =~= timestamps@.take(i as int));
        if max <= timestamps[i] {
            max = timestamps[i];
        }
        i += 1;
    }
    assert(timestamps@.take(i as int) =~= timestamps@);
    max
}

/// The first index at which the slice steps down, if there is one.
fn find_descent(timestamps: &Vec<i64>) -> (at: Option<usize>)
    requires
        timestamps.len() > 0,
    ensures
        match at {
            Some(i) => first_descent(timestamps@, i as int),
            None => ascending(timestamps@),
        },
{
    let mut i: usize = 1;
    while i < timestamps.len()
        invariant
            1 <= i <= timestamps.len(),
            ascending(timestamps@.take(i as int)),
        decreases timestamps.len() - i,
    {
        if timestamps[i] < timestamps[i - 1] {
            return Some(i);
        }
        proof {
            let grown = timestamps@.take(i + 1);
            let so_far = timestamps@.take(i as int);
            assert forall|a: int, b: int| 0 <= a <= b < grown.len() implies grown[a] <= grown[b] by {
                if b < i {
                    assert(so_far[a] <= so_far[b]);
                } else if a < i {
                    assert(so_far[a] <= so_far[i - 1]);
                }
            }
        }
        i += 1;
    }
    assert(timestamps@.take(i as int) =~= timestamps@);
    None
}

impl AnimationClip2D {
    /// Every clip that exists is well formed.
    #[verifier::type_invariant]
    pub open spec fn well_formed(&self) -> bool {
        self@.well_formed()
    }

    /// Builds a clip from its keyframes' time stamps and sprite indices and
    /// its duration, or says which rule they break.
    pub fn new(keyframe_timestamps: Vec<i64>, keyframes: Vec<usize>, duration: i64) -> (made:
        Result<Self, AnimationClip2DError>)
        ensures
            made is Ok <==> (ClipView {
                keyframe_timestamps: keyframe_timestamps@,
                keyframes: keyframes@,
                duration,
            }).well_formed(),
            match made {
                Ok(clip) => clip@ == (ClipView {
                    keyframe_timestamps: keyframe_timestamps@,
                    keyframes: keyframes@,
                    duration,
                }),
                Err(error) => rejects(keyframe_timestamps@, keyframes@, duration, error),
            },
    {
        let keyframe_timestamps_len: usize = keyframe_timestamps.len();
        let keyframes_len: usize = keyframes.len();
        if keyframe_timestamps_len != keyframes_len {
            return Err(
                AnimationClip2DError::SizeMismatch(keyframe_timestamps_len, keyframes_len),
            );
        }
        if keyframe_timestamps_len == 0 {
            return Err(AnimationClip2DError::Empty());
        }
        let keyframe_timestamps_max: i64 = max_timestamp(&keyframe_timestamps);
        if keyframe_timestamps_max > duration {
            proof {
                if ascending(keyframe_timestamps@) {
                    lemma_latest_of_ascending(keyframe_timestamps@);
                }
            }
            return Err(
                AnimationClip2DError::InsufficientDuration(keyframe_timestamps_max, duration),
            );
        }
        match find_descent(&keyframe_timestamps) {
            Some(at) => {
                proof {
                    let timestamps = keyframe_timestamps@;
                    assert(timestamps[at as int] < timestamps[at - 1]);
                }
                return Err(AnimationClip2DError::Unordered(at));
            },
            None => {},
        }
        if keyframe_timestamps[0] < 0 {
            return Err(AnimationClip2DError::NegativeTimestamp(keyframe_timestamps[0]));
        }
        proof {
            lemma_latest_of_ascending(keyframe_timestamps@);
        }
        Ok(Self { keyframe_timestamps, keyframes, duration })
    }

    /// Time stamp of each keyframe, in ticks.
    #[inline]
    pub fn keyframe_timestamps(&self) -> (timestamps: &[i64])
        ensures
            timestamps@ == self@.keyframe_timestamps,
            self@.well_formed(),
    {
        proof {
            use_type_invariant(self);
        }
        self.keyframe_timestamps.as_slice()
    }

    /// The sprite indices that are the frames of this animation, in order.
    #[inline]
    pub fn keyframes(&self) -> (sprites: &[usize])
        ensures
            sprites@ == self@.keyframes,
            self@.well_formed(),
    {
        proof {
            use_type_invariant(self);
        }
        self.keyframes.as_slice()
    }

    /// Total duration of this clip, in ticks.
    #[inline]
    pub fn duration(&self) -> (ticks: i64)
        ensures
            ticks == self@.duration,
            self@.well_formed(),
    {
        proof {
            use_type_invariant(self);
        }
        self.duration
    }
}

} // verus!
