//! Lifecycle and validation for the wake-word capability. The matching
//! engine itself is an external collaborator that consumes fixed-length
//! integer PCM frames; this module owns the sensitivity bounds, the
//! frame-length check, the lifecycle, and the meaning of the engine's
//! keyword index. The embedding layer loads the engine and hands its
//! fixed frame length and sample rate in as plain values.
use vstd::prelude::*;

verus! {

use crate::audio::AudioError;

/// The sensitivity scale: sensitivities are per-mille values in
/// `[0, SENSITIVITY_SCALE]`, the fixed-point image of `[0.0, 1.0]`.
pub const SENSITIVITY_SCALE: i32 = 1000;

/// Detects a wake word in fixed-length integer PCM frames through an
/// external engine.
pub struct WakeWordDetector {
    sensitivity: i32,
    is_active: bool,
    frame_length: usize,
    sample_rate: u32,
}

impl WakeWordDetector {
    /// The detection sensitivity, in per-mille.
    pub closed spec fn spec_sensitivity(&self) -> i32 {
        self.sensitivity
    }

    /// Whether an engine is loaded and detection is running.
    pub closed spec fn spec_active(&self) -> bool {
        self.is_active
    }

    /// The frame length the loaded engine requires.
    pub closed spec fn spec_frame_length(&self) -> usize {
        self.frame_length
    }

    /// The sample rate the loaded engine requires, in Hz.
    pub closed spec fn spec_sample_rate(&self) -> u32 {
        self.sample_rate
    }

    /// A sensitivity within the legal range.
    pub open spec fn sensitivity_ok(s: i32) -> bool {
        0 <= s <= SENSITIVITY_SCALE
    }

    /// A new, inactive detector. The sensitivity defaults to half the
    /// scale; an out-of-range sensitivity is a malformed parameter.
    /// Engine model and keyword locations are the embedding layer's
    /// concern, which loads the engine before `initialize`.
    pub fn new(sensitivity: Option<i32>) -> (r: Result<WakeWordDetector, AudioError>)
        ensures
            r is Ok <==> (match sensitivity {
                Some(s) => Self::sensitivity_ok(s),
                None => true,
            }),
            r is Err ==> r == Err::<WakeWordDetector, AudioError>(AudioError::FormatError),
            r is Ok ==> {
                let d = r->Ok_0;
                &&& d.spec_sensitivity() == (match sensitivity {
                    Some(s) => s,
                    None => 500i32,
                })
                &&& !d.spec_active()
            },
    {
        let chosen: i32 = match sensitivity {
            Some(s) => s,
            None => 500,
        };
        if chosen < 0 || chosen > SENSITIVITY_SCALE {
            return Err(AudioError::FormatError);
        }
        Ok(WakeWordDetector { sensitivity: chosen, is_active: false, frame_length: 0, sample_rate: 0 })
    }

    /// Records a loaded engine's fixed frame length and sample rate and
    /// starts detection. A zero length or rate is a malformed
    /// parameter and leaves the state unchanged.
    pub fn initialize(&mut self, frame_length: usize, sample_rate: u32) -> (r: Result<
        (),
        AudioError,
    >)
        ensures
            r is Ok <==> (frame_length >= 1 && sample_rate >= 1),
            r is Err ==> r == Err::<(), AudioError>(AudioError::FormatError),
            r is Ok ==> {
                &&& final(self).spec_active()
                &&& final(self).spec_frame_length() == frame_length
                &&& final(self).spec_sample_rate() == sample_rate
            },
            r is Err ==> *final(self) == *old(self),
            final(self).spec_sensitivity() == old(self).spec_sensitivity(),
    {
        if frame_length == 0 || sample_rate == 0 {
            return Err(AudioError::FormatError);
        }
        self.frame_length = frame_length;
        self.sample_rate = sample_rate;
        self.is_active = true;
        Ok(())
    }

    /// Checks that a frame may be forwarded to the engine: the detector
    /// must be active and the frame must have exactly the engine's
    /// required length.
    pub fn validate_frame(&self, frame_len: usize) -> (r: Result<(), AudioError>)
        ensures
            r is Ok <==> (self.spec_active() && frame_len == self.spec_frame_length()),
            !self.spec_active() ==> r == Err::<(), AudioError>(AudioError::UninitializedState),
            self.spec_active() && frame_len != self.spec_frame_length() ==> r == Err::<
                (),
                AudioError,
            >(AudioError::FrameLengthMismatch),
    {
        if !self.is_active {
            return Err(AudioError::UninitializedState);
        }
        if frame_len != self.frame_length {
            return Err(AudioError::FrameLengthMismatch);
        }
        Ok(())
    }

    /// Interprets the engine's answer for one audio frame: a
    /// non-negative keyword index is a wake-word match. The frame must
    /// pass `validate_frame`; an invalid frame is rejected with the
    /// same error and the engine's answer is not consulted.
    pub fn process(&self, audio_frame: &Vec<i16>, keyword_index: i32) -> (r: Result<
        bool,
        AudioError,
    >)
        ensures
            r is Ok <==> (self.spec_active() && audio_frame@.len() == self.spec_frame_length()),
            !self.spec_active() ==> r == Err::<bool, AudioError>(AudioError::UninitializedState),
            self.spec_active() && audio_frame@.len() != self.spec_frame_length() ==> r == Err::<
                bool,
                AudioError,
            >(AudioError::FrameLengthMismatch),
            r is Ok ==> r->Ok_0 == (keyword_index >= 0),
    {
        match self.validate_frame(audio_frame.len()) {
            Ok(()) => Ok(keyword_index >= 0),
            Err(e) => Err(e),
        }
    }

    /// The frame length the engine requires; legal only while active.
    pub fn get_frame_length(&self) -> (r: Result<usize, AudioError>)
        ensures
            r is Ok <==> self.spec_active(),
            r is Err ==> r == Err::<usize, AudioError>(AudioError::UninitializedState),
            r is Ok ==> r->Ok_0 == self.spec_frame_length(),
    {
        if !self.is_active {
            return Err(AudioError::UninitializedState);
        }
        Ok(self.frame_length)
    }

    /// The sample rate the engine requires; legal only while active.
    pub fn get_sample_rate(&self) -> (r: Result<u32, AudioError>)
        ensures
            r is Ok <==> self.spec_active(),
            r is Err ==> r == Err::<u32, AudioError>(AudioError::UninitializedState),
            r is Ok ==> r->Ok_0 == self.spec_sample_rate(),
    {
        if !self.is_active {
            return Err(AudioError::UninitializedState);
        }
        Ok(self.sample_rate)
    }

    /// Whether an engine is loaded and detection is running.
    pub fn is_active(&self) -> (r: bool)
        ensures
            r == self.spec_active(),
    {
        self.is_active
    }

    /// Sets the detection sensitivity, in per-mille. A value outside
    /// `[0, SENSITIVITY_SCALE]` is a malformed parameter and leaves the
    /// state unchanged.
    pub fn set_sensitivity(&mut self, sensitivity: i32) -> (r: Result<(), AudioError>)
        ensures
            r is Ok <==> Self::sensitivity_ok(sensitivity),
            r is Err ==> r == Err::<(), AudioError>(AudioError::FormatError),
            r is Ok ==> final(self).spec_sensitivity() == sensitivity,
            r is Err ==> *final(self) == *old(self),
            final(self).spec_active() == old(self).spec_active(),
            final(self).spec_frame_length() == old(self).spec_frame_length(),
            final(self).spec_sample_rate() == old(self).spec_sample_rate(),
    {
        if sensitivity < 0 || sensitivity > SENSITIVITY_SCALE {
            return Err(AudioError::FormatError);
        }
        self.sensitivity = sensitivity;
        Ok(())
    }

    /// The detection sensitivity, in per-mille.
    pub fn get_sensitivity(&self) -> (r: i32)
        ensures
            r == self.spec_sensitivity(),
    {
        self.sensitivity
    }

    /// Drops the engine; the detector stops and returns to the
    /// uninitialized state.
    pub fn release(&mut self)
        ensures
            !final(self).spec_active(),
            final(self).spec_sensitivity() == old(self).spec_sensitivity(),
    {
        self.is_active = false;
    }
}

} // verus!
