use jenna_rust::audio::AudioError;
use jenna_rust::signal::BandpassStage;
use jenna_rust::signal::FilterParams;
use jenna_rust::signal::HighpassStage;
use jenna_rust::signal::LowpassStage;
use jenna_rust::signal::NotchStage;

fn default_params() -> FilterParams {
    FilterParams { cutoff_low: None, cutoff_high: None, q_factor: None }
}

#[test]
fn spectrum_of_silence_is_silence() {
    let spectrum = jenna_rust::signal::compute_fft(&vec![0, 0, 0, 0]);
    assert_eq!(spectrum, vec![0, 0, 0, 0]);
}

#[test]
fn spectrum_length_equals_input_length() {
    for n in 1..24usize {
        let samples: Vec<i64> = (0..n).map(|i| (i as i64) * 17 - 40).collect();
        let spectrum = jenna_rust::signal::compute_fft(&samples);
        assert_eq!(spectrum.len(), samples.len());
        assert!(spectrum.iter().all(|&m| m >= 0));
    }
}

#[test]
fn spectrum_of_empty_input_is_empty() {
    let spectrum = jenna_rust::signal::compute_fft(&Vec::new());
    assert_eq!(spectrum, Vec::<i64>::new());
}

#[test]
fn spectrum_of_a_single_sample_is_its_magnitude() {
    assert_eq!(jenna_rust::signal::compute_fft(&vec![7]), vec![7]);
    assert_eq!(jenna_rust::signal::compute_fft(&vec![-7]), vec![7]);
}

#[test]
fn spectrum_of_known_signals() {
    // Two bins: sum and difference of the two samples.
    assert_eq!(jenna_rust::signal::compute_fft(&vec![3, 5]), vec![8, 2]);
    // A constant signal concentrates everything in the zero bin.
    assert_eq!(
        jenna_rust::signal::compute_fft(&vec![1000, 1000, 1000, 1000]),
        vec![4000, 0, 0, 0]
    );
}

#[test]
fn spectrum_of_real_input_is_symmetric_about_the_middle() {
    // Hermitian symmetry of a real signal's transform: magnitudes at
    // bins k and N-k agree, up to integer rounding of the bins.
    let samples: Vec<i64> = vec![100000, 200000, -300000, 400000, 55555, -70707, 123456, 654321];
    let spectrum = jenna_rust::signal::compute_fft(&samples);
    let n = samples.len();
    for k in 1..n {
        let diff = (spectrum[k] - spectrum[n - k]).abs();
        assert!(diff <= 2, "bins {k} and {} differ by {diff}", n - k);
    }
}

#[test]
fn alpha_follows_the_one_pole_approximation() {
    assert_eq!(jenna_rust::signal::alpha_permille(1000, 16000), 281);
    assert_eq!(jenna_rust::signal::alpha_permille(500, 16000), 164);
    assert_eq!(jenna_rust::signal::alpha_permille(2000, 16000), 439);
    // A zero cutoff is clamped away from a dead filter.
    assert_eq!(jenna_rust::signal::alpha_permille(0, 16000), 1);
}

#[test]
fn lowpass_steady_state_keeps_a_constant_signal() {
    let out = jenna_rust::signal::apply_lowpass_filter(&vec![5, 5, 5, 5], 1000, 1000);
    assert_eq!(out, vec![5, 5, 5, 5]);
    let r = jenna_rust::signal::apply_filter(&vec![5, 5, 5, 5], "lowpass", &default_params());
    assert_eq!(r, Ok(vec![5, 5, 5, 5]));
}

#[test]
fn lowpass_moves_toward_the_input() {
    // alpha for cutoff 1000 Hz at the nominal 16 kHz rate is 281/1000.
    let out = jenna_rust::signal::apply_lowpass_filter(&vec![0, 1000], 1000, 1000);
    assert_eq!(out, vec![0, 281]);
}

#[test]
fn highpass_passes_the_jump_scaled() {
    // alpha for cutoff 500 Hz at the nominal 16 kHz rate is 164/1000.
    let out = jenna_rust::signal::apply_highpass_filter(&vec![0, 1000], 500, 1000);
    assert_eq!(out, vec![0, 164]);
}

#[test]
fn bandpass_cascades_highpass_then_lowpass() {
    // Stage coefficients at the defaults: 164/1000, then 439/1000.
    let out = jenna_rust::signal::apply_bandpass_filter(&vec![0, 1000], 500, 2000, 1000);
    assert_eq!(out, vec![0, 71]);
}

#[test]
fn notch_and_bandpass_sum_back_to_the_input() {
    let input: Vec<i64> = vec![12, -400, 999, 3, 3, -888, 17000, 0, 5];
    let band = jenna_rust::signal::apply_bandpass_filter(&input, 500, 2000, 1000);
    let notch = jenna_rust::signal::apply_notch_filter(&input, 500, 2000, 1000);
    assert_eq!(band.len(), input.len());
    assert_eq!(notch.len(), input.len());
    for i in 0..input.len() {
        assert_eq!(band[i] + notch[i], input[i]);
    }
}

#[test]
fn unknown_filter_type_fails_with_format_error() {
    let r = jenna_rust::signal::apply_filter(&vec![1, 2, 3], "unknown", &default_params());
    assert_eq!(r, Err(AudioError::FormatError));
}

#[test]
fn apply_filter_dispatches_by_name() {
    let input: Vec<i64> = vec![0, 1000, -1000, 250];
    let params = default_params();
    assert_eq!(
        jenna_rust::signal::apply_filter(&input, "lowpass", &params),
        Ok(jenna_rust::signal::apply_lowpass_filter(&input, 1000, 1000))
    );
    assert_eq!(
        jenna_rust::signal::apply_filter(&input, "highpass", &params),
        Ok(jenna_rust::signal::apply_highpass_filter(&input, 500, 1000))
    );
    assert_eq!(
        jenna_rust::signal::apply_filter(&input, "bandpass", &params),
        Ok(jenna_rust::signal::apply_bandpass_filter(&input, 500, 2000, 1000))
    );
    assert_eq!(
        jenna_rust::signal::apply_filter(&input, "notch", &params),
        Ok(jenna_rust::signal::apply_notch_filter(&input, 500, 2000, 1000))
    );
}

#[test]
fn apply_filter_honors_supplied_cutoffs() {
    let input: Vec<i64> = vec![0, 1000];
    let params = FilterParams { cutoff_low: None, cutoff_high: Some(1000), q_factor: None };
    let r = jenna_rust::signal::apply_filter(&input, "lowpass", &params);
    assert_eq!(r, Ok(vec![0, 281]));
}

#[test]
fn every_filter_accepts_empty_input() {
    let empty: Vec<i64> = Vec::new();
    let params = default_params();
    for name in ["lowpass", "highpass", "bandpass", "notch"] {
        let r = jenna_rust::signal::apply_filter(&empty, name, &params);
        assert_eq!(r, Ok(Vec::new()));
    }
}

#[test]
fn chunked_lowpass_equals_whole_stream() {
    let whole: Vec<i64> = vec![0, 1000, 500, -200, 750, 750];
    let mut one_shot = LowpassStage::new(1000, 16000);
    let expected = one_shot.process_chunk(&whole);

    let mut chunked = LowpassStage::new(1000, 16000);
    let mut got = chunked.process_chunk(&vec![0, 1000]);
    got.extend(chunked.process_chunk(&vec![500, -200, 750]));
    got.extend(chunked.process_chunk(&vec![750]));
    assert_eq!(got, expected);
}

#[test]
fn chunked_highpass_equals_whole_stream() {
    let whole: Vec<i64> = vec![3, -3, 900, 900, -4, 17];
    let mut one_shot = HighpassStage::new(500, 16000);
    let expected = one_shot.process_chunk(&whole);

    let mut chunked = HighpassStage::new(500, 16000);
    let mut got = chunked.process_chunk(&vec![3]);
    got.extend(chunked.process_chunk(&vec![-3, 900]));
    got.extend(chunked.process_chunk(&vec![900, -4, 17]));
    assert_eq!(got, expected);
}

#[test]
fn empty_chunk_is_a_no_op_on_stage_state() {
    let mut stage = LowpassStage::new(1000, 16000);
    let first = stage.process_chunk(&vec![0, 1000]);
    assert_eq!(stage.process_chunk(&Vec::new()), Vec::<i64>::new());
    let resumed = stage.process_chunk(&vec![1000]);
    // Continuing from 281 toward 1000: 281 + (281 * 719) / 1000 = 483.
    assert_eq!(first, vec![0, 281]);
    assert_eq!(resumed, vec![483]);
}

#[test]
fn reset_restarts_the_stream() {
    let mut stage = LowpassStage::new(1000, 16000);
    stage.process_chunk(&vec![0, 1000]);
    stage.reset();
    // After a reset the first sample passes through again.
    assert_eq!(stage.process_chunk(&vec![777]), vec![777]);
}

#[test]
fn streaming_notch_complements_streaming_bandpass() {
    let chunk_a: Vec<i64> = vec![10, -20, 300];
    let chunk_b: Vec<i64> = vec![4000, 0, -5];
    let mut band = BandpassStage::new(500, 2000, 16000);
    let mut notch = NotchStage::new(500, 2000, 16000);
    for chunk in [&chunk_a, &chunk_b] {
        let b = band.process_chunk(chunk);
        let n = notch.process_chunk(chunk);
        for i in 0..chunk.len() {
            assert_eq!(b[i] + n[i], chunk[i]);
        }
    }
}
