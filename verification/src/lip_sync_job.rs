//! What is handed to an analysis job, and what comes back from it.

use crate::frame::{
    addressable, buffer_len, capacity_for, input_sample_count, resample, resampled,
};
use vstd::prelude::*;
use vstd::slice::slice_subrange;

verus! {

/// Model of a job's input.
pub struct LipSyncJobModel<T> {
    pub input: Seq<T>,
    pub output_sample_rate: int,
    pub target_sample_rate: int,
    pub sample_count: int,
    pub min_volume: T,
    pub max_volume: T,
    pub mel_filter_bank_channels: int,
    pub phonemes: Seq<T>,
}

impl<T> LipSyncJobModel<T> {
    /// The length of a feature vector: the number of filter-bank channels.
    pub open spec fn feature_len(self) -> int {
        addressable(self.mel_filter_bank_channels)
    }

    /// The length of the analysis window.
    pub open spec fn window_len(self) -> int {
        addressable(self.sample_count)
    }

    /// Whether the captured samples span one analysis window: as many as
    /// the window length takes at the rate they were captured at.
    pub open spec fn holds_one_window(self) -> bool {
        self.input.len() == capacity_for(
            self.sample_count,
            self.output_sample_rate,
            self.target_sample_rate,
        )
    }

    /// The analysis window: the captured samples brought to the target rate
    /// by taking as many of them, at even spacing, as the window is long.
    pub open spec fn analysis_window(self, silence: T) -> Seq<T> {
        resampled(self.input, self.window_len() as nat, silence)
    }

    /// The number of whole reference vectors that the snapshot holds.
    pub open spec fn phoneme_count(self) -> int {
        if self.feature_len() > 0 {
            self.phonemes.len() as int / self.feature_len()
        } else {
            0
        }
    }

    /// The reference vector of the vowel at `vowel`.
    pub open spec fn reference(self, vowel: int) -> Seq<T>
        recommends
            0 <= vowel < self.phoneme_count(),
    {
        self.phonemes.subrange(vowel * self.feature_len(), (vowel + 1) * self.feature_len())
    }
}

/// The reference vectors of `count` vowels of `width` values each lie inside
/// `len` values, one behind the other.
pub proof fn lemma_reference_bounds(len: int, width: int, vowel: int)
    requires
        len >= 0,
        width > 0,
        0 <= vowel < len / width,
    ensures
        0 <= vowel * width,
        (vowel + 1) * width == vowel * width + width,
        (vowel + 1) * width <= len,
{
    vstd::arithmetic::div_mod::lemma_fundamental_div_mod(len, width);
    vstd::arithmetic::div_mod::lemma_mod_bound(len, width);
    assert((vowel + 1) * width == vowel * width + width) by (nonlinear_arith);
    assert(0 <= vowel * width) by (nonlinear_arith)
        requires
            vowel >= 0,
            width > 0,
    ;
    assert((vowel + 1) * width <= (len / width) * width) by (nonlinear_arith)
        requires
            vowel + 1 <= len / width,
            width > 0,
    ;
    assert(width * (len / width) == (len / width) * width) by (nonlinear_arith);
}

/// Model of a job's output.
pub struct LipSyncJobResultModel<T> {
    pub mfcc: Seq<T>,
    pub index: int,
    pub volume: T,
    pub raw_volume: T,
    pub distance: T,
}

/// The snapshot that one analysis pass works on. It shares nothing with the
/// engine it was taken from.
pub struct LipSyncJob<T> {
    /// The capture ring as it was when the job was scheduled: every sample
    /// it held, at the mix rate, oldest first. Since the samples are in the
    /// order of their capture, no index into them has to come along.
    pub input: Vec<T>,
    /// The host's mix rate, at which the samples were captured.
    pub output_sample_rate: i64,
    /// The rate of the analysis window.
    pub target_sample_rate: i64,
    /// The length of the analysis window, in samples at the target rate.
    pub sample_count: i64,
    /// Lower end of the volume range, on a log10 scale.
    pub min_volume: T,
    /// Upper end of the volume range, on a log10 scale.
    pub max_volume: T,
    /// Number of mel filter-bank channels, which is the length of a feature
    /// vector.
    pub mel_filter_bank_channels: i64,
    /// The reference vectors of the vowels in a row.
    pub phonemes: Vec<T>,
}

impl<T> View for LipSyncJob<T> {
    type V = LipSyncJobModel<T>;

    open spec fn view(&self) -> LipSyncJobModel<T> {
        LipSyncJobModel {
            input: self.input@,
            output_sample_rate: self.output_sample_rate as int,
            target_sample_rate: self.target_sample_rate as int,
            sample_count: self.sample_count as int,
            min_volume: self.min_volume,
            max_volume: self.max_volume,
            mel_filter_bank_channels: self.mel_filter_bank_channels as int,
            phonemes: self.phonemes@,
        }
    }
}

impl<T: Copy> LipSyncJob<T> {
    /// The length of the analysis window.
    pub fn window_len(&self) -> (n: usize)
        ensures
            n == self@.window_len(),
    {
        buffer_len(self.sample_count)
    }

    /// Whether the captured samples span one analysis window.
    pub fn holds_one_window(&self) -> (fits: bool)
        ensures
            fits == self@.holds_one_window(),
    {
        self.input.len() == input_sample_count(
            self.sample_count,
            self.output_sample_rate,
            self.target_sample_rate,
        )
    }

    /// The analysis window: the first step of an analysis pass. The captured
    /// samples are brought from the mix rate to the target rate by taking as
    /// many of them, at even spacing, as the window is long. Without
    /// captured samples the window is `silence`.
    pub fn analysis_window(&self, silence: T) -> (window: Vec<T>)
        ensures
            window@ == self@.analysis_window(silence),
    {
        resample(&self.input, self.window_len(), silence)
    }
}

impl<T> LipSyncJob<T> {
    /// The length of a feature vector.
    pub fn feature_len(&self) -> (n: usize)
        ensures
            n == self@.feature_len(),
    {
        buffer_len(self.mel_filter_bank_channels)
    }

    /// The number of whole reference vectors that the snapshot holds.
    pub fn phoneme_count(&self) -> (n: usize)
        ensures
            n == self@.phoneme_count(),
    {
        let width = self.feature_len();
        if width > 0 {
            self.phonemes.len() / width
        } else {
            0
        }
    }

    /// The reference vector of the vowel at `vowel`, where the snapshot
    /// holds one.
    pub fn reference(&self, vowel: usize) -> (row: Option<&[T]>)
        ensures
            row is Some <==> vowel < self@.phoneme_count(),
            row matches Some(r) ==> r@ == self@.reference(vowel as int),
    {
        if vowel < self.phoneme_count() {
            let width = self.feature_len();
            let len = self.phonemes.len();
            proof {
                lemma_reference_bounds(len as int, width as int, vowel as int);
                assert(vowel * width + width <= len);
            }
            let start = vowel * width;
            Some(slice_subrange(self.phonemes.as_slice(), start, start + width))
        } else {
            None
        }
    }
}

/// What an analysis pass found: the feature vector of the window, the index
/// of the nearest vowel (negative for none), the volume scaled into the
/// profile's range, the raw volume, and the distance to the nearest vowel.
pub struct LipSyncJobResult<T> {
    pub mfcc: Vec<T>,
    pub index: i64,
    pub volume: T,
    pub raw_volume: T,
    pub distance: T,
}

impl<T> View for LipSyncJobResult<T> {
    type V = LipSyncJobResultModel<T>;

    open spec fn view(&self) -> LipSyncJobResultModel<T> {
        LipSyncJobResultModel {
            mfcc: self.mfcc@,
            index: self.index as int,
            volume: self.volume,
            raw_volume: self.raw_volume,
            distance: self.distance,
        }
    }
}

} // verus!
