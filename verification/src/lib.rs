//! Frame-accurate playback of sprite-sheet animations.
//!
//! A clip is a list of keyframes, each a time stamp paired with the index of
//! the sprite that is shown from that time on. Playback is a zero-order hold:
//! between two keyframes the earlier one stays on screen, nothing is
//! interpolated.
//!
//! All times are whole numbers of ticks. The library does not care how long a
//! tick is; microseconds are a natural choice, since a frame's delta time is
//! then exact. Every function here is total and free of panics, and its
//! contract is proved.

pub mod animation;
pub mod asset;
