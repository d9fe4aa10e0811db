use trickfilm::asset::{AnimationClip2D, AnimationClip2DError};

#[test]
fn empty_clip_is_rejected_for_any_duration() {
    for duration in [i64::MIN, -1, 0, 1, 2_000, i64::MAX] {
        let made = AnimationClip2D::new(vec![], vec![], duration);
        assert_eq!(made.unwrap_err(), AnimationClip2DError::Empty());
    }
}

#[test]
fn differing_lengths_are_rejected_with_both_lengths() {
    let made = AnimationClip2D::new(vec![0, 1], vec![0], 1);
    assert_eq!(made.unwrap_err(), AnimationClip2DError::SizeMismatch(2, 1));
    let made = AnimationClip2D::new(vec![], vec![4, 5, 6], 1);
    assert_eq!(made.unwrap_err(), AnimationClip2DError::SizeMismatch(0, 3));
}

#[test]
fn duration_before_the_latest_keyframe_is_rejected() {
    let made = AnimationClip2D::new(vec![0, 5], vec![0, 1], 3);
    assert_eq!(
        made.unwrap_err(),
        AnimationClip2DError::InsufficientDuration(5, 3)
    );
}

#[test]
fn duration_is_tested_before_order() {
    let made = AnimationClip2D::new(vec![5, 0], vec![0, 1], 3);
    assert_eq!(
        made.unwrap_err(),
        AnimationClip2DError::InsufficientDuration(5, 3)
    );
    let made = AnimationClip2D::new(vec![-2, -7], vec![0, 1], -5);
    assert_eq!(
        made.unwrap_err(),
        AnimationClip2DError::InsufficientDuration(-2, -5)
    );
}

#[test]
fn size_is_tested_before_everything_else() {
    let made = AnimationClip2D::new(vec![9, -3, 4], vec![0, 1], 0);
    assert_eq!(made.unwrap_err(), AnimationClip2DError::SizeMismatch(3, 2));
}

#[test]
fn time_stamps_that_step_down_are_rejected_at_the_first_descent() {
    let made = AnimationClip2D::new(vec![0, 5, 3, 1], vec![0, 1, 2, 3], 10);
    assert_eq!(made.unwrap_err(), AnimationClip2DError::Unordered(2));
    let made = AnimationClip2D::new(vec![4, 3], vec![0, 1], 4);
    assert_eq!(made.unwrap_err(), AnimationClip2DError::Unordered(1));
}

#[test]
fn order_is_tested_before_sign() {
    let made = AnimationClip2D::new(vec![-1, -2], vec![0, 1], 10);
    assert_eq!(made.unwrap_err(), AnimationClip2DError::Unordered(1));
}

#[test]
fn time_stamp_before_zero_is_rejected() {
    let made = AnimationClip2D::new(vec![-5, 0, 7], vec![0, 1, 2], 10);
    assert_eq!(
        made.unwrap_err(),
        AnimationClip2DError::NegativeTimestamp(-5)
    );
}

#[test]
fn well_formed_clip_is_built_and_read_back() {
    let clip = AnimationClip2D::new(vec![0, 1], vec![0, 1], 1).unwrap();
    assert_eq!(clip.keyframe_timestamps(), &[0, 1]);
    assert_eq!(clip.keyframes(), &[0, 1]);
    assert_eq!(clip.duration(), 1);
}

#[test]
fn equal_time_stamps_are_accepted() {
    let clip = AnimationClip2D::new(vec![0, 4, 4, 9], vec![7, 8, 9, 7], 9).unwrap();
    assert_eq!(clip.keyframe_timestamps(), &[0, 4, 4, 9]);
    assert_eq!(clip.keyframes(), &[7, 8, 9, 7]);
    assert_eq!(clip.duration(), 9);
}

#[test]
fn clip_of_a_single_frame_without_length_is_accepted() {
    let clip = AnimationClip2D::new(vec![0], vec![3], 0).unwrap();
    assert_eq!(clip.keyframe_timestamps(), &[0]);
    assert_eq!(clip.keyframes(), &[3]);
    assert_eq!(clip.duration(), 0);
}

#[test]
fn duration_may_exceed_the_last_keyframe() {
    let clip = AnimationClip2D::new(vec![10, 20], vec![1, 2], i64::MAX).unwrap();
    assert_eq!(clip.duration(), i64::MAX);
}
