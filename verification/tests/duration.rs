//! Disc-time arithmetic and rendering.

use cuesheet::CueDuration;
use cuesheet::DurationFormat;

#[test]
fn test_zero_renders_padded_minutes_only() {
    assert_eq!(CueDuration::zero().repr(), "00:0:0");
}

#[test]
fn test_min_sec_format_takes_seconds_mod_sixty() {
    let d = DurationFormat::minute_seconde_format(2, 125).to_duration();
    assert_eq!(d.repr(), "02:5:0");
}

#[test]
fn test_min_sec_mil_truncates_milliseconds() {
    // 992 ms * 75 / 1000 = 74.4, truncated to 74 frames.
    let d = DurationFormat::minute_seconde_millieme_format(3, 9, 992).to_duration();
    assert_eq!(d.repr(), "03:9:74");
    // 13 ms * 75 / 1000 = 0.975, truncated to 0 frames: the conversion is lossy.
    let d = DurationFormat::minute_seconde_millieme_format(0, 0, 13).to_duration();
    assert_eq!(d.repr(), "00:0:0");
}

#[test]
fn test_unpadded_seconds_and_frames() {
    let d = DurationFormat::minute_seconde_millieme_format(0, 7, 40).to_duration();
    // 40 ms -> 3 frames; only the minutes are zero-padded.
    assert_eq!(d.repr(), "00:7:3");
}

#[test]
fn test_add_carries_frames_and_seconds() {
    let a = DurationFormat::minute_seconde_millieme_format(0, 59, 990).to_duration();
    // 990 ms -> 74 frames, so a is 00:59:74.
    assert_eq!(a.repr(), "00:59:74");
    let b = DurationFormat::minute_seconde_millieme_format(0, 0, 14).to_duration();
    // 14 ms -> 1 frame.
    assert_eq!(b.repr(), "00:0:1");
    // One more frame carries into seconds, one more second into minutes.
    assert_eq!(a.add(b).repr(), "01:0:0");
}

#[test]
fn test_add_commutes_and_associates() {
    let a = DurationFormat::minute_seconde_millieme_format(1, 2, 500).to_duration();
    let b = DurationFormat::minute_seconde_millieme_format(0, 58, 900).to_duration();
    let c = DurationFormat::minute_seconde_millieme_format(7, 59, 999).to_duration();
    assert_eq!(a.add(b), b.add(a));
    assert_eq!(a.add(b).add(c), a.add(b.add(c)));
}

#[test]
fn test_zero_is_identity() {
    let a = DurationFormat::minute_seconde_millieme_format(5, 43, 210).to_duration();
    assert_eq!(a.add(CueDuration::zero()), a);
    assert_eq!(CueDuration::zero().add(a), a);
}

#[test]
fn test_default_format_is_all_zero() {
    let d: DurationFormat = Default::default();
    assert_eq!(d.to_duration(), CueDuration::zero());
}
