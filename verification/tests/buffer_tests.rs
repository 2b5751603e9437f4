use jenna_rust::audio::AudioBuffer;

#[test]
fn buffer_bound_holds_after_every_addition() {
    let mut buf = AudioBuffer::new(16000, 1, 3);
    let batches: Vec<Vec<i64>> = vec![vec![1], vec![2, 3], vec![4, 5, 6, 7], vec![], vec![8, 9]];
    for batch in batches {
        buf.add_samples(&batch);
        assert!(buf.len() <= 3);
    }
}

#[test]
fn drop_oldest_keeps_the_freshest_samples() {
    let mut buf = AudioBuffer::new(16000, 1, 3);
    buf.add_samples(&vec![1, 2, 3, 4]);
    assert_eq!(buf.get_samples(3), vec![2, 3, 4]);

    let mut chunked = AudioBuffer::new(16000, 1, 3);
    chunked.add_samples(&vec![1, 2]);
    chunked.add_samples(&vec![3, 4]);
    assert_eq!(chunked.get_samples(3), vec![2, 3, 4]);
}

#[test]
fn get_samples_does_not_mutate() {
    let mut buf = AudioBuffer::new(16000, 1, 8);
    buf.add_samples(&vec![10, 20, 30]);
    let first = buf.get_samples(2);
    let second = buf.get_samples(2);
    let third = buf.get_samples(2);
    assert_eq!(first, vec![10, 20]);
    assert_eq!(first, second);
    assert_eq!(second, third);
    assert_eq!(buf.len(), 3);
}

#[test]
fn capacity_one_keeps_only_the_newest_sample() {
    let mut buf = AudioBuffer::new(16000, 1, 1);
    buf.add_samples(&vec![1, 2, 3]);
    assert_eq!(buf.get_samples(5), vec![3]);
    buf.add_samples(&vec![9]);
    assert_eq!(buf.get_samples(1), vec![9]);
    assert_eq!(buf.len(), 1);
}

#[test]
fn get_samples_on_empty_buffer_is_empty() {
    let buf = AudioBuffer::new(16000, 1, 4);
    assert_eq!(buf.get_samples(0), Vec::<i64>::new());
    assert_eq!(buf.get_samples(10), Vec::<i64>::new());
    assert_eq!(buf.len(), 0);
}

#[test]
fn get_samples_caps_the_request_at_the_length() {
    let mut buf = AudioBuffer::new(8000, 2, 4);
    buf.add_samples(&vec![5, 6]);
    assert_eq!(buf.get_samples(10), vec![5, 6]);
    assert_eq!(buf.get_samples(1), vec![5]);
}

#[test]
fn clear_empties_the_buffer() {
    let mut buf = AudioBuffer::new(16000, 1, 4);
    buf.add_samples(&vec![1, 2, 3]);
    buf.clear();
    assert_eq!(buf.len(), 0);
    assert_eq!(buf.get_samples(3), Vec::<i64>::new());
    assert_eq!(buf.sample_rate(), 16000);
    assert_eq!(buf.channels(), 1);
}

#[test]
fn gain_scales_each_sample_exactly() {
    let out = jenna_rust::audio::process_audio_buffer(&vec![100, -5, 0, 3, -3]);
    assert_eq!(out, vec![120, -6, 0, 3, -3]);
}

#[test]
fn gain_on_empty_input_is_empty() {
    let out = jenna_rust::audio::process_audio_buffer(&Vec::new());
    assert_eq!(out, Vec::<i64>::new());
}
