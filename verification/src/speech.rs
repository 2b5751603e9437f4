//! Lifecycle state machines for the speech capabilities. Recognition
//! and synthesis engines are external collaborators; this module owns
//! the `initialize -> process/synthesize -> release` lifecycle, the
//! parameter validation, and the errors owed outside legal transitions.
//! The embedding layer checks for the model on disk and reports its
//! availability as a plain value.
use vstd::prelude::*;

verus! {

use vstd::string::StringExecFns;
use crate::audio::AudioError;

/// The voice used when none is chosen.
pub open spec fn default_voice() -> Seq<char> {
    "default"@
}

/// Recognizes speech in integer PCM frames through an external engine.
/// Until such an engine is wired in, recognition yields no text, but
/// the lifecycle and its errors are final.
pub struct SpeechRecognizer {
    model_path: String,
    is_initialized: bool,
    sample_rate: u32,
    is_active: bool,
}

impl SpeechRecognizer {
    /// The configured model location.
    pub closed spec fn spec_model_path(&self) -> Seq<char> {
        self.model_path@
    }

    /// Whether `initialize` has succeeded and `release` has not run.
    pub closed spec fn spec_initialized(&self) -> bool {
        self.is_initialized
    }

    /// Whether the recognizer currently consumes audio.
    pub closed spec fn spec_active(&self) -> bool {
        self.is_active
    }

    /// The sample rate recognition expects, in Hz.
    pub closed spec fn spec_sample_rate(&self) -> u32 {
        self.sample_rate
    }

    /// A new, uninitialized recognizer. The sample rate defaults to
    /// 16000 Hz; a zero rate is a malformed parameter.
    pub fn new(model_path: String, sample_rate: Option<u32>) -> (r: Result<
        SpeechRecognizer,
        AudioError,
    >)
        ensures
            r is Err <==> sample_rate == Some(0u32),
            r is Err ==> r == Err::<SpeechRecognizer, AudioError>(AudioError::FormatError),
            r is Ok ==> {
                let s = r->Ok_0;
                &&& s.spec_model_path() == model_path@
                &&& !s.spec_initialized()
                &&& !s.spec_active()
                &&& s.spec_sample_rate() == (match sample_rate {
                    Some(v) => v,
                    None => 16000u32,
                })
            },
    {
        let rate: u32 = match sample_rate {
            Some(v) => v,
            None => 16000,
        };
        if rate == 0 {
            return Err(AudioError::FormatError);
        }
        Ok(
            SpeechRecognizer {
                model_path,
                is_initialized: false,
                sample_rate: rate,
                is_active: false,
            },
        )
    }

    /// Brings the recognizer into the active state. The embedding layer
    /// reports whether the model directory exists; a missing model is a
    /// malformed parameter and leaves the state unchanged.
    pub fn initialize(&mut self, model_available: bool) -> (r: Result<(), AudioError>)
        ensures
            r is Ok <==> model_available,
            r is Err ==> r == Err::<(), AudioError>(AudioError::FormatError),
            model_available ==> final(self).spec_initialized() && final(self).spec_active(),
            !model_available ==> *final(self) == *old(self),
            final(self).spec_model_path() == old(self).spec_model_path(),
            final(self).spec_sample_rate() == old(self).spec_sample_rate(),
    {
        if !model_available {
            return Err(AudioError::FormatError);
        }
        self.is_initialized = true;
        self.is_active = true;
        Ok(())
    }

    /// Feeds one audio frame to recognition. Before `initialize` (or
    /// after `release`) the call is outside the legal lifecycle; an
    /// inactive recognizer ignores the frame. No engine is wired in,
    /// so an active recognizer reports no recognized text.
    pub fn process(&self, audio_frame: &Vec<i16>) -> (r: Result<Option<String>, AudioError>)
        ensures
            r is Ok <==> self.spec_initialized(),
            r is Err ==> r == Err::<Option<String>, AudioError>(AudioError::UninitializedState),
            r is Ok ==> r->Ok_0 is None,
    {
        if !self.is_initialized {
            return Err(AudioError::UninitializedState);
        }
        if !self.is_active {
            return Ok(None);
        }
        Ok(None)
    }

    /// Restarts recognition state for a new utterance; legal only while
    /// initialized. The lifecycle state itself is unchanged.
    pub fn reset(&mut self) -> (r: Result<(), AudioError>)
        ensures
            r is Ok <==> old(self).spec_initialized(),
            r is Err ==> r == Err::<(), AudioError>(AudioError::UninitializedState),
            *final(self) == *old(self),
    {
        if !self.is_initialized {
            return Err(AudioError::UninitializedState);
        }
        Ok(())
    }

    /// Sets the expected sample rate; a zero rate is malformed and
    /// leaves the state unchanged.
    pub fn set_sample_rate(&mut self, sample_rate: u32) -> (r: Result<(), AudioError>)
        ensures
            r is Ok <==> sample_rate >= 1,
            r is Err ==> r == Err::<(), AudioError>(AudioError::FormatError),
            r is Ok ==> final(self).spec_sample_rate() == sample_rate,
            r is Err ==> *final(self) == *old(self),
            final(self).spec_initialized() == old(self).spec_initialized(),
            final(self).spec_active() == old(self).spec_active(),
            final(self).spec_model_path() == old(self).spec_model_path(),
    {
        if sample_rate == 0 {
            return Err(AudioError::FormatError);
        }
        self.sample_rate = sample_rate;
        Ok(())
    }

    /// The sample rate recognition expects, in Hz.
    pub fn get_sample_rate(&self) -> (r: u32)
        ensures
            r == self.spec_sample_rate(),
    {
        self.sample_rate
    }

    /// Whether the recognizer currently consumes audio.
    pub fn is_active(&self) -> (r: bool)
        ensures
            r == self.spec_active(),
    {
        self.is_active
    }

    /// Activates or deactivates recognition. Activating an
    /// uninitialized recognizer is outside the legal lifecycle.
    pub fn set_active(&mut self, active: bool) -> (r: Result<(), AudioError>)
        ensures
            r is Ok <==> (old(self).spec_initialized() || !active),
            r is Err ==> r == Err::<(), AudioError>(AudioError::UninitializedState),
            r is Ok ==> final(self).spec_active() == active,
            r is Err ==> *final(self) == *old(self),
            final(self).spec_initialized() == old(self).spec_initialized(),
            final(self).spec_sample_rate() == old(self).spec_sample_rate(),
            final(self).spec_model_path() == old(self).spec_model_path(),
    {
        if active && !self.is_initialized {
            return Err(AudioError::UninitializedState);
        }
        self.is_active = active;
        Ok(())
    }

    /// Releases the engine; the recognizer returns to the uninitialized
    /// state and stops consuming audio.
    pub fn release(&mut self)
        ensures
            !final(self).spec_initialized(),
            !final(self).spec_active(),
            final(self).spec_sample_rate() == old(self).spec_sample_rate(),
            final(self).spec_model_path() == old(self).spec_model_path(),
    {
        self.is_initialized = false;
        self.is_active = false;
    }
}

/// Synthesizes integer PCM audio from text through an external engine.
/// Until such an engine is wired in, synthesis yields silence, but the
/// lifecycle and its errors are final.
pub struct TextToSpeech {
    model_path: String,
    is_initialized: bool,
    voice: String,
    sample_rate: u32,
}

impl TextToSpeech {
    /// The configured model location.
    pub closed spec fn spec_model_path(&self) -> Seq<char> {
        self.model_path@
    }

    /// Whether `initialize` has succeeded and `release` has not run.
    pub closed spec fn spec_initialized(&self) -> bool {
        self.is_initialized
    }

    /// The voice used for synthesis.
    pub closed spec fn spec_voice(&self) -> Seq<char> {
        self.voice@
    }

    /// The sample rate of synthesized audio, in Hz.
    pub closed spec fn spec_sample_rate(&self) -> u32 {
        self.sample_rate
    }

    /// A new, uninitialized synthesizer. The voice defaults to
    /// `default` and the sample rate to 22050 Hz; a zero rate is a
    /// malformed parameter.
    pub fn new(model_path: String, voice: Option<String>, sample_rate: Option<u32>) -> (r: Result<
        TextToSpeech,
        AudioError,
    >)
        ensures
            r is Err <==> sample_rate == Some(0u32),
            r is Err ==> r == Err::<TextToSpeech, AudioError>(AudioError::FormatError),
            r is Ok ==> {
                let t = r->Ok_0;
                &&& t.spec_model_path() == model_path@
                &&& !t.spec_initialized()
                &&& t.spec_voice() == (match voice {
                    Some(v) => v@,
                    None => default_voice(),
                })
                &&& t.spec_sample_rate() == (match sample_rate {
                    Some(v) => v,
                    None => 22050u32,
                })
            },
    {
        let rate: u32 = match sample_rate {
            Some(v) => v,
            None => 22050,
        };
        if rate == 0 {
            return Err(AudioError::FormatError);
        }
        let chosen_voice: String = match voice {
            Some(v) => v,
            None => String::from_str("default"),
        };
        Ok(
            TextToSpeech {
                model_path,
                is_initialized: false,
                voice: chosen_voice,
                sample_rate: rate,
            },
        )
    }

    /// Brings the synthesizer into the initialized state. The embedding
    /// layer reports whether the model directory exists; a missing
    /// model is a malformed parameter and leaves the state unchanged.
    pub fn initialize(&mut self, model_available: bool) -> (r: Result<(), AudioError>)
        ensures
            r is Ok <==> model_available,
            r is Err ==> r == Err::<(), AudioError>(AudioError::FormatError),
            model_available ==> final(self).spec_initialized(),
            !model_available ==> *final(self) == *old(self),
            final(self).spec_model_path() == old(self).spec_model_path(),
            final(self).spec_voice() == old(self).spec_voice(),
            final(self).spec_sample_rate() == old(self).spec_sample_rate(),
    {
        if !model_available {
            return Err(AudioError::FormatError);
        }
        self.is_initialized = true;
        Ok(())
    }

    /// Synthesizes speech for `text`. Before `initialize` (or after
    /// `release`) the call is outside the legal lifecycle. No engine is
    /// wired in, so synthesis yields an empty frame.
    pub fn synthesize(&self, text: &str) -> (r: Result<Vec<i16>, AudioError>)
        ensures
            r is Ok <==> self.spec_initialized(),
            r is Err ==> r == Err::<Vec<i16>, AudioError>(AudioError::UninitializedState),
            r is Ok ==> r->Ok_0@ == Seq::<i16>::empty(),
    {
        if !self.is_initialized {
            return Err(AudioError::UninitializedState);
        }
        let empty: Vec<i16> = Vec::new();
        Ok(empty)
    }

    /// Chooses the voice used for synthesis.
    pub fn set_voice(&mut self, voice: &str)
        ensures
            final(self).spec_voice() == voice@,
            final(self).spec_initialized() == old(self).spec_initialized(),
            final(self).spec_sample_rate() == old(self).spec_sample_rate(),
            final(self).spec_model_path() == old(self).spec_model_path(),
    {
        self.voice = voice.to_owned();
    }

    /// The voice currently chosen for synthesis.
    pub fn get_voice(&self) -> (r: String)
        ensures
            r@ == self.spec_voice(),
    {
        self.voice.clone()
    }

    /// Sets the output sample rate; a zero rate is malformed and leaves
    /// the state unchanged.
    pub fn set_sample_rate(&mut self, sample_rate: u32) -> (r: Result<(), AudioError>)
        ensures
            r is Ok <==> sample_rate >= 1,
            r is Err ==> r == Err::<(), AudioError>(AudioError::FormatError),
            r is Ok ==> final(self).spec_sample_rate() == sample_rate,
            r is Err ==> *final(self) == *old(self),
            final(self).spec_initialized() == old(self).spec_initialized(),
            final(self).spec_voice() == old(self).spec_voice(),
            final(self).spec_model_path() == old(self).spec_model_path(),
    {
        if sample_rate == 0 {
            return Err(AudioError::FormatError);
        }
        self.sample_rate = sample_rate;
        Ok(())
    }

    /// The sample rate of synthesized audio, in Hz.
    pub fn get_sample_rate(&self) -> (r: u32)
        ensures
            r == self.spec_sample_rate(),
    {
        self.sample_rate
    }

    /// Releases the engine; the synthesizer returns to the
    /// uninitialized state.
    pub fn release(&mut self)
        ensures
            !final(self).spec_initialized(),
            final(self).spec_voice() == old(self).spec_voice(),
            final(self).spec_sample_rate() == old(self).spec_sample_rate(),
            final(self).spec_model_path() == old(self).spec_model_path(),
    {
        self.is_initialized = false;
    }
}

} // verus!
