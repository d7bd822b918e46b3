use lipsync::lip_sync_job::LipSyncJob;

fn job(channels: i64, phonemes: Vec<i32>) -> LipSyncJob<i32> {
    LipSyncJob {
        input: vec![0; 12],
        output_sample_rate: 48000,
        target_sample_rate: 16000,
        sample_count: 4,
        min_volume: -4,
        max_volume: -2,
        mel_filter_bank_channels: channels,
        phonemes,
    }
}

#[test]
fn job_rows_are_the_reference_vectors() {
    let job = job(3, vec![1, 2, 3, 4, 5, 6]);
    assert_eq!(job.feature_len(), 3);
    assert_eq!(job.phoneme_count(), 2);
    assert_eq!(job.reference(0), Some(&[1, 2, 3][..]));
    assert_eq!(job.reference(1), Some(&[4, 5, 6][..]));
    assert_eq!(job.reference(2), None);
    assert_eq!(job.reference(usize::MAX), None);
}

#[test]
fn job_counts_whole_rows_only() {
    let job = job(4, vec![1, 2, 3, 4, 5, 6]);
    assert_eq!(job.phoneme_count(), 1);
    assert_eq!(job.reference(0), Some(&[1, 2, 3, 4][..]));
    assert_eq!(job.reference(1), None);
}

#[test]
fn job_without_channels_or_vowels_has_no_rows() {
    for channels in [0, -1, i64::MIN] {
        let job = job(channels, vec![1, 2, 3]);
        assert_eq!(job.feature_len(), 0);
        assert_eq!(job.phoneme_count(), 0);
        assert_eq!(job.reference(0), None);
    }
    let empty = job(3, vec![]);
    assert_eq!(empty.phoneme_count(), 0);
    assert_eq!(empty.reference(0), None);
}

#[test]
fn job_brings_the_captured_samples_to_the_target_rate() {
    let mut job = job(3, vec![]);
    job.input = (0..12).collect();
    assert_eq!(job.window_len(), 4);
    assert!(job.holds_one_window());
    assert_eq!(job.analysis_window(-1), vec![0, 3, 6, 9]);
    // a ratio that is not whole: 4 * 44100 / 16000 = 11.025, so 12 samples
    job.output_sample_rate = 44100;
    assert!(job.holds_one_window());
    job.output_sample_rate = 32000;
    assert!(!job.holds_one_window());
    job.input = (0..8).collect();
    assert!(job.holds_one_window());
    assert_eq!(job.analysis_window(-1), vec![0, 2, 4, 6]);
}

#[test]
fn job_at_equal_rates_analyses_the_samples_as_captured() {
    let mut job = job(3, vec![]);
    job.output_sample_rate = 16000;
    job.input = vec![5, 6, 7, 8];
    assert!(job.holds_one_window());
    assert_eq!(job.analysis_window(-1), vec![5, 6, 7, 8]);
}

#[test]
fn job_without_a_window_or_without_samples() {
    let mut job = job(3, vec![]);
    job.sample_count = 0;
    assert_eq!(job.window_len(), 0);
    assert!(job.analysis_window(-1).is_empty());
    assert!(!job.holds_one_window());
    job.sample_count = -4;
    assert_eq!(job.window_len(), 0);
    job.sample_count = 4;
    job.input = vec![];
    assert_eq!(job.analysis_window(-1), vec![-1, -1, -1, -1]);
    assert!(!job.holds_one_window());
}
