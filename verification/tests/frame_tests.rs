use lipsync::frame::{buffer_len, copied, filled, input_sample_count, resample, table_len};

#[test]
fn capacity_for_a_whole_rate_ratio() {
    assert_eq!(input_sample_count(1024, 48000, 16000), 3072);
    assert_eq!(input_sample_count(1024, 16000, 16000), 1024);
}

#[test]
fn capacity_rounds_up() {
    // 1024 * 44100 / 16000 = 2822.4
    assert_eq!(input_sample_count(1024, 44100, 16000), 2823);
    // 147 * 48000 / 44100 = 160 exactly
    assert_eq!(input_sample_count(147, 48000, 44100), 160);
    assert_eq!(input_sample_count(1, 1, 3), 1);
    assert_eq!(input_sample_count(10, 3, 7), 5);
}

#[test]
fn capacity_is_zero_for_a_configuration_that_is_not_positive() {
    assert_eq!(input_sample_count(0, 48000, 16000), 0);
    assert_eq!(input_sample_count(1024, 0, 16000), 0);
    assert_eq!(input_sample_count(1024, 48000, 0), 0);
    assert_eq!(input_sample_count(-1024, 48000, 16000), 0);
    assert_eq!(input_sample_count(1024, -48000, 16000), 0);
    assert_eq!(input_sample_count(1024, 48000, -16000), 0);
    assert_eq!(input_sample_count(i64::MIN, i64::MIN, i64::MIN), 0);
}

#[test]
fn capacity_does_not_overflow_on_the_largest_inputs() {
    assert_eq!(input_sample_count(i64::MAX, i64::MAX, i64::MAX), i64::MAX as usize);
    assert_eq!(input_sample_count(i64::MAX, 1, i64::MAX), 1);
    if usize::BITS == 64 {
        // the product of the two does not fit into 64 bits, the quotient does not
        // fit into an address
        assert_eq!(input_sample_count(i64::MAX, i64::MAX, 1), 0);
    }
}

#[test]
fn buffer_len_of_configured_lengths() {
    assert_eq!(buffer_len(12), 12);
    assert_eq!(buffer_len(0), 0);
    assert_eq!(buffer_len(-3), 0);
    assert_eq!(buffer_len(i64::MIN), 0);
}

#[test]
fn table_len_multiplies_or_gives_up() {
    assert_eq!(table_len(5, 12), 60);
    assert_eq!(table_len(0, 12), 0);
    assert_eq!(table_len(5, 0), 0);
    assert_eq!(table_len(usize::MAX, 2), 0);
    assert_eq!(table_len(usize::MAX, 1), usize::MAX);
}

#[test]
fn filled_and_copied_vectors() {
    assert_eq!(filled(3, 1.5_f64), vec![1.5, 1.5, 1.5]);
    assert!(filled(0, 1.5_f64).is_empty());
    let source = vec![3.0_f64, 1.0, 2.0];
    assert_eq!(copied(&source), source);
    assert!(copied(&Vec::<f64>::new()).is_empty());
}

#[test]
fn resample_by_a_whole_ratio_takes_every_nth() {
    let samples: Vec<i32> = (0..12).collect();
    assert_eq!(resample(&samples, 4, -1), vec![0, 3, 6, 9]);
    assert_eq!(resample(&samples, 12, -1), samples);
    assert_eq!(resample(&samples, 1, -1), vec![0]);
}

#[test]
fn resample_by_a_broken_ratio_takes_the_slot_below() {
    let samples: Vec<i32> = (0..5).collect();
    // slots 0*5/3, 1*5/3, 2*5/3
    assert_eq!(resample(&samples, 3, -1), vec![0, 1, 3]);
    // more output than input repeats samples
    assert_eq!(resample(&vec![7, 9], 4, -1), vec![7, 7, 9, 9]);
}

#[test]
fn resample_of_nothing_is_silence() {
    assert_eq!(resample(&Vec::<i32>::new(), 3, -1), vec![-1, -1, -1]);
    assert!(resample(&vec![1, 2, 3], 0, -1).is_empty());
}
