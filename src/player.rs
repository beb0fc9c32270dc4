use vstd::prelude::*;
use crate::error::AudioError;

verus! {

/// The abstract state of a playback session.
///
/// Times are nanoseconds. `anchor` is the clock reading that corresponds to
/// position zero of the running segment; it may lie before the clock's epoch
/// after a seek, hence an `int`.
pub struct PlaybackView {
    pub file: Option<Seq<char>>,
    pub duration: nat,
    pub has_sink: bool,
    pub paused: bool,
    pub anchor: Option<int>,
}

/// The range an anchor stays in: a clock reading is a `u64`, and a seek
/// moves the anchor back by at most a `u64` duration.
pub open spec fn anchor_in_range(a: int) -> bool {
    -(u64::MAX as int) <= a <= u64::MAX as int
}

impl PlaybackView {
    /// A sink exists only for a loaded file; a paused sink and a running anchor
    /// only while a sink exists.
    pub open spec fn wf(self) -> bool {
        &&& self.has_sink ==> self.file is Some
        &&& self.paused ==> self.has_sink
        &&& self.anchor is Some ==> self.has_sink
        &&& self.duration <= u64::MAX
        &&& (self.anchor matches Some(a) ==> anchor_in_range(a))
    }

    /// The session before anything is loaded.
    pub open spec fn empty() -> PlaybackView {
        PlaybackView { file: None, duration: 0, has_sink: false, paused: false, anchor: None }
    }

    /// Stopping discards the sink and the anchor; the file and its duration stay.
    pub open spec fn after_stop(self) -> PlaybackView {
        PlaybackView { has_sink: false, paused: false, anchor: None, ..self }
    }

    /// A successful load: a fresh sink holds the whole file, not yet started.
    pub open spec fn after_load(self, file: Seq<char>, duration: nat) -> PlaybackView {
        PlaybackView {
            file: Some(file),
            duration,
            has_sink: true,
            paused: true,
            anchor: None,
        }
    }

    /// A successful seek to `target`, committed at clock reading `now`: a fresh
    /// sink holds the tail of the file, not yet started, and the anchor is set
    /// so that the position reads `target` at once.
    pub open spec fn after_seek(self, duration: nat, target: nat, now: nat) -> PlaybackView {
        PlaybackView {
            file: self.file,
            duration,
            has_sink: true,
            paused: true,
            anchor: Some(now - target),
        }
    }

    /// Starting or resuming the sink at clock reading `now`. A running anchor
    /// (set by a seek or an earlier play) is kept, so the position continues
    /// from where it stood; without one the position starts from zero now.
    pub open spec fn after_play(self, now: nat) -> PlaybackView {
        PlaybackView {
            paused: false,
            anchor: match self.anchor {
                Some(a) => Some(a),
                None => Some(now as int),
            },
            ..self
        }
    }

    /// Pausing keeps the anchor, so the position keeps advancing while paused.
    pub open spec fn after_pause(self) -> PlaybackView {
        PlaybackView { paused: true, ..self }
    }

    /// The position at clock reading `now`: the time since the anchor, kept
    /// within `0 ..= u64::MAX`, or zero without an anchor.
    pub open spec fn position_at(self, now: nat) -> nat {
        match self.anchor {
            Some(a) => clamp_to_u64(now - a),
            None => 0,
        }
    }

    /// Whether audio is being produced, given how many sources the sink still
    /// has queued.
    pub open spec fn playing(self, queued: nat) -> bool {
        self.has_sink && !self.paused && queued > 0
    }

    /// Whether a sink exists and is paused.
    pub open spec fn is_paused(self) -> bool {
        self.has_sink && self.paused
    }
}

/// `x` limited to `0 ..= u64::MAX`.
pub open spec fn clamp_to_u64(x: int) -> nat {
    if x < 0 {
        0
    } else if x > u64::MAX as int {
        u64::MAX as nat
    } else {
        x as nat
    }
}

/// A duration that the decoder reported, or zero when it could not tell.
pub open spec fn known_or_zero(duration_ns: Option<u64>) -> nat {
    match duration_ns {
        Some(d) => d as nat,
        None => 0,
    }
}

fn duration_or_zero(duration_ns: Option<u64>) -> (r: u64)
    ensures
        r == known_or_zero(duration_ns),
{
    match duration_ns {
        Some(d) => d,
        None => 0,
    }
}

/// `position` limited to `0 ..= duration`.
pub open spec fn clamped_position(position: int, duration: nat) -> nat {
    if position < 0 {
        0
    } else if position > duration {
        duration
    } else {
        position as nat
    }
}

/// Limits a requested position (nanoseconds, possibly negative) to the span
/// of a track for which the decoder reported `duration_ns` (an empty span
/// when it reported none).
pub fn clamp_position(position_ns: i128, duration_ns: Option<u64>) -> (r: u64)
    ensures
        r == clamped_position(position_ns as int, known_or_zero(duration_ns)),
{
    let d = duration_or_zero(duration_ns);
    if position_ns < 0 {
        0
    } else if position_ns > d as i128 {
        d
    } else {
        position_ns as u64
    }
}

/// The number of interleaved samples that lie before `target_ns`: the target
/// rounded to the nearest whole frame at `sample_rate`, times `channels`,
/// saturating at `u64::MAX`.
pub open spec fn samples_before(target_ns: nat, sample_rate: nat, channels: nat) -> nat {
    let frames = (target_ns * sample_rate + 500_000_000) / 1_000_000_000;
    if frames * channels > u64::MAX {
        u64::MAX as nat
    } else {
        (frames * channels) as nat
    }
}

/// How many decoded samples to discard to start playback at `target_ns`.
pub fn samples_to_skip(target_ns: u64, sample_rate: u32, channels: u16) -> (r: u64)
    ensures
        r == samples_before(target_ns as nat, sample_rate as nat, channels as nat),
{
    proof {
        lemma_mul_bounded(target_ns as int, u64::MAX as int, sample_rate as int, u32::MAX as int);
    }
    let scaled: u128 = target_ns as u128 * sample_rate as u128;
    let frames: u128 = (scaled + 500_000_000) / 1_000_000_000;
    if frames > u64::MAX as u128 {
        proof {
            let f = frames as int;
            let c = channels as int;
            assert(c == 0 ==> f * c == 0) by (nonlinear_arith);
            assert(c >= 1 ==> f * c >= f) by (nonlinear_arith)
                requires
                    f >= 0,
            ;
        }
        if channels == 0 {
            0
        } else {
            u64::MAX
        }
    } else {
        proof {
            lemma_mul_bounded(frames as int, u64::MAX as int, channels as int, u16::MAX as int);
        }
        let total: u128 = frames * channels as u128;
        if total > u64::MAX as u128 {
            u64::MAX
        } else {
            total as u64
        }
    }
}

proof fn lemma_mul_bounded(a: int, a_max: int, b: int, b_max: int)
    requires
        0 <= a <= a_max,
        0 <= b <= b_max,
    ensures
        0 <= a * b <= a_max * b_max,
{
    assert(0 <= a * b <= a_max * b_max) by (nonlinear_arith)
        requires
            0 <= a <= a_max,
            0 <= b <= b_max,
    ;
}

/// The state of the single playback session of a player.
pub struct PlaybackState {
    file: Option<String>,
    duration_ns: u64,
    has_sink: bool,
    paused: bool,
    anchor_ns: Option<i128>,
}

impl View for PlaybackState {
    type V = PlaybackView;

    closed spec fn view(&self) -> PlaybackView {
        PlaybackView {
            file: match self.file {
                Some(f) => Some(f@),
                None => None,
            },
            duration: self.duration_ns as nat,
            has_sink: self.has_sink,
            paused: self.paused,
            anchor: match self.anchor_ns {
                Some(a) => Some(a as int),
                None => None,
            },
        }
    }
}

impl PlaybackState {
    /// A session with nothing loaded.
    pub fn new() -> (r: PlaybackState)
        ensures
            r@ == PlaybackView::empty(),
            r@.wf(),
    {
        PlaybackState { file: None, duration_ns: 0, has_sink: false, paused: false, anchor_ns: None }
    }

    /// Discards the sink and the anchor. Stopping a stopped session changes
    /// nothing.
    pub fn stop(&mut self)
        requires
            old(self)@.wf(),
        ensures
            final(self)@ == old(self)@.after_stop(),
            final(self)@.wf(),
    {
        self.has_sink = false;
        self.paused = false;
        self.anchor_ns = None;
    }

    /// Records a successful load of `file_path`, with the duration that the
    /// decoder reported (zero when it reported none), and returns that
    /// duration.
    pub fn load_file(&mut self, file_path: String, duration_ns: Option<u64>) -> (r: u64)
        requires
            old(self)@.wf(),
        ensures
            final(self)@ == old(self)@.after_load(file_path@, known_or_zero(duration_ns)),
            final(self)@.wf(),
            r == known_or_zero(duration_ns),
    {
        let d = duration_or_zero(duration_ns);
        self.file = Some(file_path);
        self.duration_ns = d;
        self.has_sink = true;
        self.paused = true;
        self.anchor_ns = None;
        d
    }

    /// Records a successful seek, committed at clock reading `now_ns`, in a
    /// file for which the decoder reported `duration_ns` (zero when it
    /// reported none). The requested position is clamped to the track, and the
    /// clamped target is returned. Fails, and changes nothing, when no file is
    /// loaded.
    pub fn seek(&mut self, position_ns: i128, duration_ns: Option<u64>, now_ns: u64) -> (r: Result<
        u64,
        AudioError,
    >)
        requires
            old(self)@.wf(),
        ensures
            final(self)@.wf(),
            old(self)@.file is None ==> r == Err::<u64, AudioError>(AudioError::NotLoaded)
                && final(self)@ == old(self)@,
            old(self)@.file is Some ==> r == Ok::<u64, AudioError>(
                clamped_position(position_ns as int, known_or_zero(duration_ns)) as u64,
            ) && final(self)@ == old(self)@.after_seek(
                known_or_zero(duration_ns),
                clamped_position(position_ns as int, known_or_zero(duration_ns)),
                now_ns as nat,
            ),
    {
        if self.file.is_none() {
            return Err(AudioError::NotLoaded);
        }
        let d = duration_or_zero(duration_ns);
        let target = clamp_position(position_ns, duration_ns);
        self.duration_ns = d;
        self.has_sink = true;
        self.paused = true;
        self.anchor_ns = Some(now_ns as i128 - target as i128);
        Ok(target)
    }

    /// Records a load or seek that failed with `e`: the session is left
    /// stopped, as a load or seek tears down the running sink before it
    /// decodes, and the error is handed back.
    pub fn fail(&mut self, e: AudioError) -> (r: Result<u64, AudioError>)
        requires
            old(self)@.wf(),
        ensures
            final(self)@ == old(self)@.after_stop(),
            final(self)@.wf(),
            r == Err::<u64, AudioError>(e),
    {
        self.stop();
        Err(e)
    }

    /// Starts or resumes the sink at clock reading `now_ns`, keeping a running
    /// anchor. Fails, and changes nothing, when there is no sink.
    pub fn play(&mut self, now_ns: u64) -> (r: Result<(), AudioError>)
        requires
            old(self)@.wf(),
        ensures
            final(self)@.wf(),
            !old(self)@.has_sink ==> r == Err::<(), AudioError>(AudioError::NotLoaded)
                && final(self)@ == old(self)@,
            old(self)@.has_sink ==> r is Ok && final(self)@ == old(self)@.after_play(
                now_ns as nat,
            ),
    {
        if !self.has_sink {
            return Err(AudioError::NotLoaded);
        }
        self.paused = false;
        if self.anchor_ns.is_none() {
            self.anchor_ns = Some(now_ns as i128);
        }
        Ok(())
    }

    /// Pauses the sink, keeping the anchor. Fails, and changes nothing, when
    /// there is no sink.
    pub fn pause(&mut self) -> (r: Result<(), AudioError>)
        requires
            old(self)@.wf(),
        ensures
            final(self)@.wf(),
            !old(self)@.has_sink ==> r == Err::<(), AudioError>(AudioError::NotLoaded)
                && final(self)@ == old(self)@,
            old(self)@.has_sink ==> r is Ok && final(self)@ == old(self)@.after_pause(),
    {
        if !self.has_sink {
            return Err(AudioError::NotLoaded);
        }
        self.paused = true;
        Ok(())
    }

    /// Succeeds when a sink exists, so that its volume can be set; fails with
    /// `NotLoaded` otherwise.
    pub fn check_sink(&self) -> (r: Result<(), AudioError>)
        ensures
            self@.has_sink <==> r is Ok,
            !self@.has_sink ==> r == Err::<(), AudioError>(AudioError::NotLoaded),
    {
        if self.has_sink {
            Ok(())
        } else {
            Err(AudioError::NotLoaded)
        }
    }

    /// The path of the file last loaded, if any.
    pub fn current_file(&self) -> (r: Option<String>)
        ensures
            match r {
                Some(f) => self@.file == Some(f@),
                None => self@.file is None,
            },
    {
        match &self.file {
            Some(f) => Some(f.clone()),
            None => None,
        }
    }

    /// The decoded duration of the loaded file, zero when nothing is loaded.
    pub fn get_duration(&self) -> (r: u64)
        ensures
            r == self@.duration,
    {
        self.duration_ns
    }

    /// The position at clock reading `now_ns`: the time elapsed since the
    /// anchor, or zero without one.
    pub fn get_position(&self, now_ns: u64) -> (r: u64)
        requires
            self@.wf(),
        ensures
            r == self@.position_at(now_ns as nat),
    {
        match self.anchor_ns {
            Some(a) => {
                let d: i128 = now_ns as i128 - a;
                if d < 0 {
                    0
                } else if d > u64::MAX as i128 {
                    u64::MAX
                } else {
                    d as u64
                }
            },
            None => 0,
        }
    }

    /// Whether audio is being produced, given how many sources the sink still
    /// has queued.
    pub fn is_playing(&self, queued: usize) -> (r: bool)
        ensures
            r == self@.playing(queued as nat),
    {
        self.has_sink && !self.paused && queued > 0
    }

    /// Whether a sink exists and is paused.
    pub fn is_paused(&self) -> (r: bool)
        ensures
            r == self@.is_paused(),
    {
        self.has_sink && self.paused
    }
}

/// Right after a load, the reported duration is the one the decoder gave,
/// or zero for a file whose decoder gave none, and the session is well
/// formed.
pub proof fn lemma_load_reports_duration(v: PlaybackView, file: Seq<char>, duration_ns: Option<u64>)
    requires
        v.wf(),
    ensures
        v.after_stop().after_load(file, known_or_zero(duration_ns)).duration == known_or_zero(
            duration_ns,
        ),
        duration_ns is None ==> v.after_stop().after_load(file, known_or_zero(duration_ns)).duration
            == 0,
        v.after_stop().after_load(file, known_or_zero(duration_ns)).wf(),
{
}

/// A seek past the end lands on the end, and a seek before the start lands
/// on the start: the position read at the moment of the seek is the clamped
/// target.
pub proof fn lemma_seek_clamps(v: PlaybackView, position: int, duration: nat, now: nat)
    requires
        v.wf(),
        duration <= u64::MAX,
    ensures
        position > duration ==> v.after_seek(duration, clamped_position(position, duration), now)
            .position_at(now) == duration,
        position < 0 ==> v.after_seek(duration, clamped_position(position, duration), now)
            .position_at(now) == 0,
        v.after_seek(duration, clamped_position(position, duration), now).position_at(now)
            == clamped_position(position, duration),
{
}

/// After a stop the position is zero at every clock reading, and the session
/// is neither playing nor paused.
pub proof fn lemma_stop_quiets(v: PlaybackView, now: nat, queued: nat)
    ensures
        v.after_stop().position_at(now) == 0,
        !v.after_stop().playing(queued),
        !v.after_stop().is_paused(),
{
}

/// Stopping twice leaves the session as stopping once does.
pub proof fn lemma_stop_idempotent(v: PlaybackView)
    ensures
        v.after_stop().after_stop() == v.after_stop(),
{
}

/// With nothing loaded there is no sink, so play fails; after a load, play
/// succeeds and the session plays while audio is queued.
pub proof fn lemma_play_needs_load(v: PlaybackView, file: Seq<char>, duration: nat, now: nat, queued: nat)
    requires
        queued > 0,
    ensures
        !PlaybackView::empty().has_sink,
        v.after_load(file, duration).has_sink,
        v.after_load(file, duration).after_play(now).playing(queued),
{
}

/// After a seek to `target`, playing continues from the target: `d`
/// nanoseconds after play the position reads `target + d`.
pub proof fn lemma_play_continues_after_seek(
    v: PlaybackView,
    duration: nat,
    target: nat,
    seek_at: nat,
    play_at: nat,
    d: nat,
)
    requires
        v.wf(),
        target <= duration,
        seek_at <= play_at,
        play_at + d - seek_at + target <= u64::MAX,
    ensures
        v.after_seek(duration, target, seek_at).after_play(play_at).position_at(play_at + d)
            == play_at + d - seek_at + target,
        v.after_seek(duration, target, seek_at).after_play(seek_at).position_at(seek_at + d)
            == target + d,
{
}

/// A load or seek that failed leaves no session behind: no sink, position
/// zero, neither playing nor paused, and play fails.
pub proof fn lemma_failure_leaves_stopped(v: PlaybackView, now: nat, queued: nat)
    ensures
        !v.after_stop().has_sink,
        v.after_stop().position_at(now) == 0,
        !v.after_stop().playing(queued),
        !v.after_stop().is_paused(),
{
}

} // verus!
