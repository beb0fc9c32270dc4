use native_audio::error::AudioError;
use native_audio::player::{clamp_position, samples_to_skip, PlaybackState};

const SECOND: u64 = 1_000_000_000;

#[test]
fn new_session_is_empty() {
    let s = PlaybackState::new();
    assert_eq!(s.get_duration(), 0);
    assert_eq!(s.get_position(123), 0);
    assert!(!s.is_playing(1));
    assert!(!s.is_paused());
    assert_eq!(s.current_file(), None);
}

#[test]
fn play_without_load_fails() {
    let mut s = PlaybackState::new();
    assert_eq!(s.play(0), Err(AudioError::NotLoaded));
    assert_eq!(s.pause(), Err(AudioError::NotLoaded));
    assert_eq!(s.check_sink(), Err(AudioError::NotLoaded));
    assert!(!s.is_playing(1));
}

#[test]
fn load_then_play_plays() {
    let mut s = PlaybackState::new();
    assert_eq!(s.load_file("a.wav".to_string(), Some(3 * SECOND)), 3 * SECOND);
    assert!(s.is_paused());
    assert!(!s.is_playing(1));
    assert_eq!(s.play(10), Ok(()));
    assert!(s.is_playing(1));
    assert!(!s.is_playing(0));
    assert!(!s.is_paused());
    assert_eq!(s.check_sink(), Ok(()));
    assert_eq!(s.current_file(), Some("a.wav".to_string()));
}

#[test]
fn load_reports_duration() {
    let mut s = PlaybackState::new();
    s.load_file("a.wav".to_string(), Some(7_250_000_000));
    assert_eq!(s.get_duration(), 7_250_000_000);
    s.load_file("b.wav".to_string(), None);
    assert_eq!(s.get_duration(), 0);
}

#[test]
fn stop_clears_position_and_flags() {
    let mut s = PlaybackState::new();
    s.load_file("a.wav".to_string(), Some(10 * SECOND));
    s.play(100).unwrap();
    assert_eq!(s.get_position(100 + SECOND), SECOND);
    s.stop();
    assert_eq!(s.get_position(100 + 5 * SECOND), 0);
    assert!(!s.is_playing(1));
    assert!(!s.is_paused());
    assert_eq!(s.play(0), Err(AudioError::NotLoaded));
}

#[test]
fn stop_twice_is_stop_once() {
    let mut once = PlaybackState::new();
    once.load_file("a.wav".to_string(), Some(4 * SECOND));
    once.play(0).unwrap();
    let mut twice = PlaybackState::new();
    twice.load_file("a.wav".to_string(), Some(4 * SECOND));
    twice.play(0).unwrap();
    once.stop();
    twice.stop();
    twice.stop();
    assert_eq!(once.get_position(SECOND), twice.get_position(SECOND));
    assert_eq!(once.is_playing(1), twice.is_playing(1));
    assert_eq!(once.is_paused(), twice.is_paused());
    assert_eq!(once.get_duration(), twice.get_duration());
    assert_eq!(once.current_file(), twice.current_file());
}

#[test]
fn stop_on_empty_session_is_a_no_op() {
    let mut s = PlaybackState::new();
    s.stop();
    assert_eq!(s.get_position(5), 0);
    assert_eq!(s.get_duration(), 0);
    assert!(!s.is_paused());
}

#[test]
fn seek_clamps_to_track() {
    let mut s = PlaybackState::new();
    s.load_file("a.wav".to_string(), Some(10 * SECOND));
    let now = 50 * SECOND;
    assert_eq!(s.seek(12 * SECOND as i128, Some(10 * SECOND), now), Ok(10 * SECOND));
    assert_eq!(s.get_position(now), 10 * SECOND);
    assert_eq!(s.seek(-3 * SECOND as i128, Some(10 * SECOND), now), Ok(0));
    assert_eq!(s.get_position(now), 0);
    assert_eq!(clamp_position(-1, Some(9)), 0);
    assert_eq!(clamp_position(10, Some(9)), 9);
    assert_eq!(clamp_position(4, Some(9)), 4);
    assert_eq!(clamp_position(4, None), 0);
}

#[test]
fn seek_in_track_of_unknown_length_lands_on_start() {
    let mut s = PlaybackState::new();
    assert_eq!(s.load_file("stream.mp3".to_string(), None), 0);
    assert_eq!(s.seek(4 * SECOND as i128, None, 7), Ok(0));
    assert_eq!(s.get_position(7), 0);
    assert_eq!(s.get_duration(), 0);
}

#[test]
fn seek_without_load_fails() {
    let mut s = PlaybackState::new();
    assert_eq!(s.seek(SECOND as i128, Some(10 * SECOND), 0), Err(AudioError::NotLoaded));
    assert!(!s.is_paused());
}

#[test]
fn seek_after_stop_keeps_file() {
    let mut s = PlaybackState::new();
    s.load_file("a.wav".to_string(), Some(10 * SECOND));
    s.stop();
    assert_eq!(s.seek(2 * SECOND as i128, Some(10 * SECOND), 3 * SECOND), Ok(2 * SECOND));
    assert!(s.is_paused());
    assert_eq!(s.get_position(3 * SECOND), 2 * SECOND);
}

#[test]
fn ten_second_track_seek_then_play() {
    let mut s = PlaybackState::new();
    let d = s.load_file("ten.wav".to_string(), Some(10 * SECOND));
    assert_eq!(d, 10 * SECOND);
    assert_eq!(s.get_duration(), 10 * SECOND);
    let t0 = 100 * SECOND;
    assert_eq!(s.seek(5 * SECOND as i128, Some(10 * SECOND), t0), Ok(5 * SECOND));
    assert_eq!(s.get_position(t0), 5 * SECOND);
    assert_eq!(samples_to_skip(5 * SECOND, 44100, 1), 220_500);
    // play continues from the seek target
    s.play(t0).unwrap();
    assert_eq!(s.get_position(t0 + 2 * SECOND), 7 * SECOND);
}

#[test]
fn seek_before_clock_epoch_still_reads_target() {
    let mut s = PlaybackState::new();
    s.load_file("a.wav".to_string(), Some(10 * SECOND));
    assert_eq!(s.seek(8 * SECOND as i128, Some(10 * SECOND), SECOND), Ok(8 * SECOND));
    assert_eq!(s.get_position(SECOND), 8 * SECOND);
    assert_eq!(s.get_position(2 * SECOND), 9 * SECOND);
}

#[test]
fn pause_keeps_position_advancing() {
    let mut s = PlaybackState::new();
    s.load_file("a.wav".to_string(), Some(10 * SECOND));
    s.play(0).unwrap();
    assert_eq!(s.pause(), Ok(()));
    assert!(s.is_paused());
    assert!(!s.is_playing(1));
    assert_eq!(s.get_position(3 * SECOND), 3 * SECOND);
    assert_eq!(s.get_position(9 * SECOND), 9 * SECOND);
}

#[test]
fn resume_after_pause_keeps_anchor() {
    let mut s = PlaybackState::new();
    s.load_file("a.wav".to_string(), Some(10 * SECOND));
    s.play(0).unwrap();
    s.pause().unwrap();
    s.play(4 * SECOND).unwrap();
    assert!(s.is_playing(1));
    assert_eq!(s.get_position(5 * SECOND), 5 * SECOND);
}

#[test]
fn play_after_stop_starts_from_zero() {
    let mut s = PlaybackState::new();
    s.load_file("a.wav".to_string(), Some(10 * SECOND));
    s.seek(3 * SECOND as i128, Some(10 * SECOND), SECOND).unwrap();
    s.stop();
    assert_eq!(s.play(2 * SECOND), Err(AudioError::NotLoaded));
    s.load_file("a.wav".to_string(), Some(10 * SECOND));
    s.play(2 * SECOND).unwrap();
    assert_eq!(s.get_position(3 * SECOND), SECOND);
}

#[test]
fn failed_load_leaves_session_stopped() {
    let mut s = PlaybackState::new();
    s.load_file("q.wav".to_string(), Some(10 * SECOND));
    s.play(0).unwrap();
    assert_eq!(s.fail(AudioError::Decode), Err(AudioError::Decode));
    assert!(!s.is_playing(1));
    assert!(!s.is_paused());
    assert_eq!(s.get_position(SECOND), 0);
    assert_eq!(s.play(SECOND), Err(AudioError::NotLoaded));
    assert_eq!(s.pause(), Err(AudioError::NotLoaded));
    assert_eq!(s.check_sink(), Err(AudioError::NotLoaded));
}

#[test]
fn failed_seek_leaves_session_stopped() {
    let mut s = PlaybackState::new();
    s.load_file("p.wav".to_string(), Some(10 * SECOND));
    s.seek(SECOND as i128, Some(10 * SECOND), 0).unwrap();
    assert_eq!(s.fail(AudioError::Io), Err(AudioError::Io));
    assert!(!s.is_playing(1));
    assert!(!s.is_paused());
    assert_eq!(s.get_position(5 * SECOND), 0);
    assert_eq!(s.play(0), Err(AudioError::NotLoaded));
}

#[test]
fn position_before_anchor_is_zero() {
    let mut s = PlaybackState::new();
    s.load_file("a.wav".to_string(), Some(10 * SECOND));
    s.play(5 * SECOND).unwrap();
    assert_eq!(s.get_position(4 * SECOND), 0);
}

#[test]
fn skip_counts_whole_frames() {
    assert_eq!(samples_to_skip(0, 44100, 2), 0);
    assert_eq!(samples_to_skip(SECOND, 44100, 2), 88_200);
    // 11_338 ns at 44100 Hz is 0.50000... of a frame: rounds up
    assert_eq!(samples_to_skip(11_338, 44100, 2), 2);
    // 11_337 ns is just under half a frame: rounds down
    assert_eq!(samples_to_skip(11_337, 44100, 2), 0);
    assert_eq!(samples_to_skip(u64::MAX, u32::MAX, u16::MAX), u64::MAX);
    assert_eq!(samples_to_skip(SECOND, 48000, 0), 0);
}

#[test]
fn error_messages_are_distinct() {
    let all = [AudioError::Io, AudioError::Decode, AudioError::Device, AudioError::NotLoaded];
    for (i, a) in all.iter().enumerate() {
        for b in all.iter().skip(i + 1) {
            assert_ne!(a.message(), b.message());
        }
    }
    assert_eq!(AudioError::NotLoaded.message(), "no audio file loaded");
}
