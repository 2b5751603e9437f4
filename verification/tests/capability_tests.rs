use jenna_rust::audio::AudioError;
use jenna_rust::speech::SpeechRecognizer;
use jenna_rust::speech::TextToSpeech;
use jenna_rust::wake_word::WakeWordDetector;

#[test]
fn sensitivity_out_of_range_is_rejected() {
    // Sensitivities are per-mille: 1500 and -100 stand for 1.5 and -0.1.
    let mut det = WakeWordDetector::new(None).unwrap();
    assert_eq!(det.set_sensitivity(1500), Err(AudioError::FormatError));
    assert_eq!(det.set_sensitivity(-100), Err(AudioError::FormatError));
    assert_eq!(det.set_sensitivity(0), Ok(()));
    assert_eq!(det.get_sensitivity(), 0);
    assert_eq!(det.set_sensitivity(1000), Ok(()));
    assert_eq!(det.get_sensitivity(), 1000);
}

#[test]
fn detector_defaults_to_half_sensitivity() {
    let det = WakeWordDetector::new(None).unwrap();
    assert_eq!(det.get_sensitivity(), 500);
    assert!(!det.is_active());
    assert_eq!(WakeWordDetector::new(Some(2000)).err(), Some(AudioError::FormatError));
}

#[test]
fn detector_rejects_calls_before_initialize() {
    let det = WakeWordDetector::new(None).unwrap();
    assert_eq!(det.get_frame_length(), Err(AudioError::UninitializedState));
    assert_eq!(det.get_sample_rate(), Err(AudioError::UninitializedState));
    assert_eq!(det.process(&vec![0; 512], 3), Err(AudioError::UninitializedState));
}

#[test]
fn detector_checks_the_frame_length() {
    let mut det = WakeWordDetector::new(None).unwrap();
    assert_eq!(det.initialize(512, 16000), Ok(()));
    assert!(det.is_active());
    assert_eq!(det.get_frame_length(), Ok(512));
    assert_eq!(det.get_sample_rate(), Ok(16000));
    assert_eq!(det.process(&vec![0; 100], 0), Err(AudioError::FrameLengthMismatch));
    assert_eq!(det.process(&vec![0; 512], -1), Ok(false));
    assert_eq!(det.process(&vec![0; 512], 0), Ok(true));
    assert_eq!(det.process(&vec![0; 512], 4), Ok(true));
}

#[test]
fn detector_release_returns_to_uninitialized() {
    let mut det = WakeWordDetector::new(None).unwrap();
    det.initialize(512, 16000).unwrap();
    det.release();
    assert!(!det.is_active());
    assert_eq!(det.process(&vec![0; 512], 0), Err(AudioError::UninitializedState));
}

#[test]
fn detector_rejects_zero_engine_parameters() {
    let mut det = WakeWordDetector::new(None).unwrap();
    assert_eq!(det.initialize(0, 16000), Err(AudioError::FormatError));
    assert_eq!(det.initialize(512, 0), Err(AudioError::FormatError));
    assert!(!det.is_active());
}

#[test]
fn recognizer_lifecycle_errors() {
    let mut rec = SpeechRecognizer::new("models/vosk".to_string(), None).unwrap();
    assert_eq!(rec.get_sample_rate(), 16000);
    assert_eq!(rec.process(&vec![0, 1, 2]), Err(AudioError::UninitializedState));
    assert_eq!(rec.reset(), Err(AudioError::UninitializedState));
    assert_eq!(rec.set_active(true), Err(AudioError::UninitializedState));
    assert_eq!(rec.set_active(false), Ok(()));
    assert_eq!(rec.initialize(false), Err(AudioError::FormatError));
    assert_eq!(rec.initialize(true), Ok(()));
    assert!(rec.is_active());
    assert_eq!(rec.process(&vec![0, 1, 2]), Ok(None));
    assert_eq!(rec.reset(), Ok(()));
    rec.release();
    assert!(!rec.is_active());
    assert_eq!(rec.process(&vec![0, 1, 2]), Err(AudioError::UninitializedState));
}

#[test]
fn recognizer_validates_the_sample_rate() {
    assert!(SpeechRecognizer::new("m".to_string(), Some(0)).is_err());
    let mut rec = SpeechRecognizer::new("m".to_string(), Some(8000)).unwrap();
    assert_eq!(rec.get_sample_rate(), 8000);
    assert_eq!(rec.set_sample_rate(0), Err(AudioError::FormatError));
    assert_eq!(rec.set_sample_rate(44100), Ok(()));
    assert_eq!(rec.get_sample_rate(), 44100);
}

#[test]
fn synthesizer_lifecycle() {
    let mut tts = TextToSpeech::new("models/larynx".to_string(), None, None).unwrap();
    assert_eq!(tts.get_voice(), "default".to_string());
    assert_eq!(tts.get_sample_rate(), 22050);
    assert_eq!(tts.synthesize("hello"), Err(AudioError::UninitializedState));
    assert_eq!(tts.initialize(false), Err(AudioError::FormatError));
    assert_eq!(tts.initialize(true), Ok(()));
    assert_eq!(tts.synthesize("hello"), Ok(Vec::new()));
    tts.set_voice("announcer");
    assert_eq!(tts.get_voice(), "announcer".to_string());
    tts.release();
    assert_eq!(tts.synthesize("hello"), Err(AudioError::UninitializedState));
}

#[test]
fn synthesizer_validates_the_sample_rate() {
    assert!(TextToSpeech::new("m".to_string(), None, Some(0)).is_err());
    let mut tts = TextToSpeech::new("m".to_string(), Some("v".to_string()), Some(48000)).unwrap();
    assert_eq!(tts.get_voice(), "v".to_string());
    assert_eq!(tts.get_sample_rate(), 48000);
    assert_eq!(tts.set_sample_rate(0), Err(AudioError::FormatError));
    assert_eq!(tts.set_sample_rate(16000), Ok(()));
    assert_eq!(tts.get_sample_rate(), 16000);
}
