//! The calibrated vowel profile.

use crate::frame::{addressable, buffer_len, capacity_for, input_sample_count, table_len};
use vstd::prelude::*;

verus! {

/// Default analysis rate of a new profile, in samples per second.
pub const DEFAULT_TARGET_SAMPLE_RATE: i64 = 16000;

/// Default length of the analysis window of a new profile, in samples.
pub const DEFAULT_SAMPLE_COUNT: i64 = 1024;

/// Default number of mel filter-bank channels of a new profile.
pub const DEFAULT_MEL_FILTER_BANK_CHANNELS: i64 = 12;

/// Model of one calibrated vowel.
pub struct PhonemeModel<T> {
    pub label: Seq<char>,
    pub mfcc: Seq<T>,
}

/// Model of a profile.
pub struct ProfileModel<T> {
    pub mfccs: Seq<PhonemeModel<T>>,
    pub min_volume: T,
    pub max_volume: T,
    pub target_sample_rate: int,
    pub sample_count: int,
    pub mel_filter_bank_channels: int,
}

/// The reference vectors of `mfccs` in a row, in the order of the vowels.
pub open spec fn flattened<T>(mfccs: Seq<PhonemeModel<T>>) -> Seq<T>
    decreases mfccs.len(),
{
    if mfccs.len() == 0 {
        Seq::empty()
    } else {
        flattened(mfccs.drop_last()) + mfccs.last().mfcc
    }
}

/// `target` with its front overwritten by `source`, as far as the two reach.
pub open spec fn overlaid<T>(source: Seq<T>, target: Seq<T>) -> Seq<T> {
    Seq::new(
        target.len(),
        |i: int|
            if i < source.len() {
                source[i]
            } else {
                target[i]
            },
    )
}

impl<T> ProfileModel<T> {
    /// The label of the vowel at `index`, empty where there is no such vowel.
    pub open spec fn get_phoneme(self, index: int) -> Seq<char> {
        if 0 <= index < self.mfccs.len() {
            self.mfccs[index].label
        } else {
            Seq::empty()
        }
    }

    /// The profile after a calibration sample for the vowel at `index`: where
    /// the sample is accepted and the vowel exists, its reference vector is
    /// the sample; else nothing changes.
    pub open spec fn update_mfcc(self, index: int, mfcc: Seq<T>, calib: bool) -> Self {
        if calib && 0 <= index < self.mfccs.len() {
            ProfileModel {
                mfccs: self.mfccs.update(
                    index,
                    PhonemeModel { label: self.mfccs[index].label, mfcc },
                ),
                ..self
            }
        } else {
            self
        }
    }

    /// The profile with one more vowel behind the others.
    pub open spec fn add_phoneme(self, label: Seq<char>, mfcc: Seq<T>) -> Self {
        ProfileModel { mfccs: self.mfccs.push(PhonemeModel { label, mfcc }), ..self }
    }

    /// The length of a feature vector: the number of filter-bank channels.
    pub open spec fn feature_len(self) -> int {
        addressable(self.mel_filter_bank_channels)
    }

    /// The length of the analysis window.
    pub open spec fn window_len(self) -> int {
        addressable(self.sample_count)
    }

    /// The length of the buffer that holds one feature vector for each vowel.
    pub open spec fn scratch_len(self) -> int {
        addressable(self.mfccs.len() * self.feature_len())
    }

    /// The number of raw samples, captured at `mix_rate`, that one analysis
    /// window spans.
    pub open spec fn capacity(self, mix_rate: int) -> int {
        capacity_for(self.sample_count, mix_rate, self.target_sample_rate)
    }

    /// The profile after the calibration requests `indices`, applied in
    /// order, each with the sample `mfcc`. Negative indices name no vowel.
    pub open spec fn calibrated(self, indices: Seq<i64>, mfcc: Seq<T>) -> Self
        decreases indices.len(),
    {
        if indices.len() == 0 {
            self
        } else {
            self.calibrated(indices.drop_last(), mfcc).update_mfcc(
                indices.last() as int,
                mfcc,
                true,
            )
        }
    }
}

/// Of two accepted samples for one vowel, the later one stays.
pub proof fn lemma_update_mfcc_last_write_wins<T>(
    profile: ProfileModel<T>,
    index: int,
    first: Seq<T>,
    second: Seq<T>,
)
    ensures
        profile.update_mfcc(index, first, true).update_mfcc(index, second, true)
            == profile.update_mfcc(index, second, true),
        0 <= index < profile.mfccs.len() ==> profile.update_mfcc(index, first, true).update_mfcc(
            index,
            second,
            true,
        ).mfccs[index].mfcc == second,
{
    let twice = profile.update_mfcc(index, first, true).update_mfcc(index, second, true);
    let once = profile.update_mfcc(index, second, true);
    assert(twice.mfccs =~= once.mfccs);
}

/// Samples for different vowels can be applied in either order.
pub proof fn lemma_update_mfcc_commutes<T>(
    profile: ProfileModel<T>,
    i: int,
    a: Seq<T>,
    j: int,
    b: Seq<T>,
)
    requires
        i != j,
    ensures
        profile.update_mfcc(i, a, true).update_mfcc(j, b, true) == profile.update_mfcc(
            j,
            b,
            true,
        ).update_mfcc(i, a, true),
{
    let ij = profile.update_mfcc(i, a, true).update_mfcc(j, b, true);
    let ji = profile.update_mfcc(j, b, true).update_mfcc(i, a, true);
    assert(ij.mfccs =~= ji.mfccs);
}

/// A sample that is not accepted, or that names no vowel of the profile,
/// changes nothing; no sample changes the number of vowels, a label, or the
/// configuration.
pub proof fn lemma_update_mfcc_keeps<T>(
    profile: ProfileModel<T>,
    index: int,
    mfcc: Seq<T>,
    calib: bool,
)
    ensures
        !calib || index < 0 || index >= profile.mfccs.len() ==> profile.update_mfcc(
            index,
            mfcc,
            calib,
        ) == profile,
        profile.update_mfcc(index, mfcc, calib).mfccs.len() == profile.mfccs.len(),
        forall|v: int|
            0 <= v < profile.mfccs.len() ==> #[trigger] profile.update_mfcc(
                index,
                mfcc,
                calib,
            ).mfccs[v].label == profile.mfccs[v].label,
        forall|v: int|
            0 <= v < profile.mfccs.len() && v != index ==> #[trigger] profile.update_mfcc(
                index,
                mfcc,
                calib,
            ).mfccs[v] == profile.mfccs[v],
        profile.update_mfcc(index, mfcc, calib).min_volume == profile.min_volume,
        profile.update_mfcc(index, mfcc, calib).max_volume == profile.max_volume,
        profile.update_mfcc(index, mfcc, calib).target_sample_rate == profile.target_sample_rate,
        profile.update_mfcc(index, mfcc, calib).sample_count == profile.sample_count,
        profile.update_mfcc(index, mfcc, calib).mel_filter_bank_channels
            == profile.mel_filter_bank_channels,
{
}

/// What a round of calibration requests with one sample leaves: each vowel
/// that a request names has the sample as its reference vector, every other
/// vowel is as before, and so is the rest of the profile. The order of the
/// requests, and how often one occurs, makes no difference.
pub proof fn lemma_calibrated_closed_form<T>(
    profile: ProfileModel<T>,
    indices: Seq<i64>,
    mfcc: Seq<T>,
)
    ensures
        profile.calibrated(indices, mfcc).mfccs.len() == profile.mfccs.len(),
        forall|v: int|
            0 <= v < profile.mfccs.len() ==> #[trigger] profile.calibrated(indices, mfcc).mfccs[v]
                == if exists|k: int| 0 <= k < indices.len() && indices[k] == v {
                PhonemeModel { label: profile.mfccs[v].label, mfcc }
            } else {
                profile.mfccs[v]
            },
        profile.calibrated(indices, mfcc).min_volume == profile.min_volume,
        profile.calibrated(indices, mfcc).max_volume == profile.max_volume,
        profile.calibrated(indices, mfcc).target_sample_rate == profile.target_sample_rate,
        profile.calibrated(indices, mfcc).sample_count == profile.sample_count,
        profile.calibrated(indices, mfcc).mel_filter_bank_channels
            == profile.mel_filter_bank_channels,
    decreases indices.len(),
{
    if indices.len() > 0 {
        let front = indices.drop_last();
        let before = profile.calibrated(front, mfcc);
        lemma_calibrated_closed_form(profile, front, mfcc);
        assert forall|v: int| 0 <= v < profile.mfccs.len() implies #[trigger] profile.calibrated(
            indices,
            mfcc,
        ).mfccs[v] == if exists|k: int| 0 <= k < indices.len() && indices[k] == v {
            PhonemeModel { label: profile.mfccs[v].label, mfcc }
        } else {
            profile.mfccs[v]
        } by {
            if indices.last() == v {
                assert(indices[indices.len() - 1] == v);
            } else if exists|k: int| 0 <= k < front.len() && front[k] == v {
                let k = choose|k: int| 0 <= k < front.len() && front[k] == v;
                assert(indices[k] == v);
            } else {
                if exists|k: int| 0 <= k < indices.len() && indices[k] == v {
                    let k = choose|k: int| 0 <= k < indices.len() && indices[k] == v;
                    assert(front[k] == v);
                }
            }
        }
    }
}

/// Requests without a vowel of the profile among them, such as negative
/// ones, leave the profile as it is.
pub proof fn lemma_calibrated_out_of_range<T>(
    profile: ProfileModel<T>,
    indices: Seq<i64>,
    mfcc: Seq<T>,
)
    requires
        forall|k: int|
            0 <= k < indices.len() ==> indices[k] < 0 || indices[k] >= profile.mfccs.len(),
    ensures
        profile.calibrated(indices, mfcc) == profile,
    decreases indices.len(),
{
    if indices.len() > 0 {
        lemma_calibrated_out_of_range(profile, indices.drop_last(), mfcc);
    }
}

/// Where the reference vector of a vowel starts in the flattened profile,
/// and what stands there.
pub proof fn lemma_flattened_index<T>(mfccs: Seq<PhonemeModel<T>>, v: int, c: int)
    requires
        0 <= v < mfccs.len(),
        0 <= c < mfccs[v].mfcc.len(),
    ensures
        flattened(mfccs.subrange(0, v + 1)).len() == flattened(mfccs.subrange(0, v)).len()
            + mfccs[v].mfcc.len(),
        flattened(mfccs.subrange(0, v + 1)).len() <= flattened(mfccs).len(),
        flattened(mfccs)[flattened(mfccs.subrange(0, v)).len() + c] == mfccs[v].mfcc[c],
    decreases mfccs.len(),
{
    assert(mfccs.subrange(0, v + 1).drop_last() =~= mfccs.subrange(0, v));
    if v == mfccs.len() - 1 {
        assert(mfccs.subrange(0, v + 1) =~= mfccs);
    } else {
        let front = mfccs.drop_last();
        lemma_flattened_index(front, v, c);
        assert(front.subrange(0, v) =~= mfccs.subrange(0, v));
        assert(front.subrange(0, v + 1) =~= mfccs.subrange(0, v + 1));
    }
}

/// Whether every reference vector has `width` values.
pub open spec fn uniform<T>(mfccs: Seq<PhonemeModel<T>>, width: int) -> bool {
    forall|v: int| 0 <= v < mfccs.len() ==> (#[trigger] mfccs[v]).mfcc.len() == width
}

/// Reference vectors of one length lie in the flattened profile one behind
/// the other, each at its index times that length.
pub proof fn lemma_flattened_uniform<T>(mfccs: Seq<PhonemeModel<T>>, width: int)
    requires
        uniform(mfccs, width),
        width >= 0,
    ensures
        flattened(mfccs).len() == mfccs.len() * width,
        forall|v: int|
            0 <= v < mfccs.len() ==> #[trigger] flattened(mfccs).subrange(
                v * width,
                (v + 1) * width,
            ) == mfccs[v].mfcc,
    decreases mfccs.len(),
{
    if mfccs.len() == 0 {
        assert(mfccs.len() * width == 0) by (nonlinear_arith)
            requires
                mfccs.len() == 0,
        ;
    } else {
        let front = mfccs.drop_last();
        let n = front.len() as int;
        assert forall|v: int| 0 <= v < front.len() implies (#[trigger] front[v]).mfcc.len()
            == width by {
            assert(front[v] == mfccs[v]);
        }
        lemma_flattened_uniform(front, width);
        assert((n + 1) * width == n * width + width) by (nonlinear_arith);
        assert(mfccs.last().mfcc.len() == width);
        assert forall|v: int| 0 <= v < mfccs.len() implies #[trigger] flattened(mfccs).subrange(
            v * width,
            (v + 1) * width,
        ) == mfccs[v].mfcc by {
            assert((v + 1) * width == v * width + width) by (nonlinear_arith);
            assert(0 <= v * width) by (nonlinear_arith)
                requires
                    v >= 0,
                    width >= 0,
            ;
            if v < n {
                assert((v + 1) * width <= n * width) by (nonlinear_arith)
                    requires
                        v + 1 <= n,
                        width >= 0,
                ;
                assert(front[v] == mfccs[v]);
                assert(flattened(mfccs).subrange(v * width, (v + 1) * width) =~= flattened(
                    front,
                ).subrange(v * width, (v + 1) * width));
            } else {
                assert(flattened(mfccs).subrange(v * width, (v + 1) * width)
                    =~= mfccs.last().mfcc);
            }
        }
    }
}

/// One calibrated vowel: its label and its reference feature vector.
pub struct PhonemeProfile<T> {
    pub label: String,
    pub mfcc: Vec<T>,
}

impl<T> View for PhonemeProfile<T> {
    type V = PhonemeModel<T>;

    open spec fn view(&self) -> PhonemeModel<T> {
        PhonemeModel { label: self.label@, mfcc: self.mfcc@ }
    }
}

/// Calibration state: the vowels with their reference vectors, the volume
/// range on a log10 scale, and the analysis configuration.
pub struct Profile<T> {
    pub mfccs: Vec<PhonemeProfile<T>>,
    pub min_volume: T,
    pub max_volume: T,
    pub target_sample_rate: i64,
    pub sample_count: i64,
    pub mel_filter_bank_channels: i64,
}

impl<T> View for Profile<T> {
    type V = ProfileModel<T>;

    open spec fn view(&self) -> ProfileModel<T> {
        ProfileModel {
            mfccs: Seq::new(self.mfccs@.len(), |i: int| self.mfccs@[i]@),
            min_volume: self.min_volume,
            max_volume: self.max_volume,
            target_sample_rate: self.target_sample_rate as int,
            sample_count: self.sample_count as int,
            mel_filter_bank_channels: self.mel_filter_bank_channels as int,
        }
    }
}

impl<T: Copy> Profile<T> {
    /// A profile without vowels, with the default analysis configuration and
    /// the given volume range.
    pub fn new(min_volume: T, max_volume: T) -> (profile: Self)
        ensures
            profile@ == (ProfileModel {
                mfccs: Seq::empty(),
                min_volume,
                max_volume,
                target_sample_rate: DEFAULT_TARGET_SAMPLE_RATE as int,
                sample_count: DEFAULT_SAMPLE_COUNT as int,
                mel_filter_bank_channels: DEFAULT_MEL_FILTER_BANK_CHANNELS as int,
            }),
    {
        let profile = Profile {
            mfccs: Vec::new(),
            min_volume,
            max_volume,
            target_sample_rate: DEFAULT_TARGET_SAMPLE_RATE,
            sample_count: DEFAULT_SAMPLE_COUNT,
            mel_filter_bank_channels: DEFAULT_MEL_FILTER_BANK_CHANNELS,
        };
        assert(profile@.mfccs =~= Seq::empty());
        profile
    }

    /// The number of vowels.
    pub fn phoneme_count(&self) -> (n: usize)
        ensures
            n == self@.mfccs.len(),
    {
        self.mfccs.len()
    }

    /// The length of a feature vector.
    pub fn feature_len(&self) -> (n: usize)
        ensures
            n == self@.feature_len(),
    {
        buffer_len(self.mel_filter_bank_channels)
    }

    /// The length of the analysis window.
    pub fn window_len(&self) -> (n: usize)
        ensures
            n == self@.window_len(),
    {
        buffer_len(self.sample_count)
    }

    /// The length of the buffer that holds one feature vector for each vowel.
    pub fn scratch_len(&self) -> (n: usize)
        ensures
            n == self@.scratch_len(),
    {
        table_len(self.mfccs.len(), self.feature_len())
    }

    /// The number of raw samples, captured at `mix_rate`, that one analysis
    /// window spans.
    pub fn capacity(&self, mix_rate: i64) -> (n: usize)
        ensures
            n == self@.capacity(mix_rate as int),
    {
        input_sample_count(self.sample_count, mix_rate, self.target_sample_rate)
    }

    /// The label of the vowel at `index`, empty where there is no such vowel.
    pub fn get_phoneme(&self, index: usize) -> (label: String)
        ensures
            label@ == self@.get_phoneme(index as int),
    {
        if index < self.mfccs.len() {
            self.mfccs[index].label.clone()
        } else {
            String::new()
        }
    }

    /// Registers a new vowel behind the others.
    pub fn add_phoneme(&mut self, label: String, mfcc: Vec<T>)
        ensures
            final(self)@ == old(self)@.add_phoneme(label@, mfcc@),
    {
        self.mfccs.push(PhonemeProfile { label, mfcc });
        assert(self@.mfccs =~= old(self)@.add_phoneme(label@, mfcc@).mfccs);
    }

    /// Records `mfcc` as the reference vector of the vowel at `index` where
    /// `calib` accepts the sample. A sample for a vowel that the profile does
    /// not have is dropped: calibration never adds a vowel.
    pub fn update_mfcc(&mut self, index: usize, mfcc: Vec<T>, calib: bool)
        ensures
            final(self)@ == old(self)@.update_mfcc(index as int, mfcc@, calib),
    {
        if calib && index < self.mfccs.len() {
            self.mfccs[index].mfcc = mfcc;
            assert(self@.mfccs =~= old(self)@.update_mfcc(index as int, mfcc@, calib).mfccs);
        }
    }
    /// Writes the reference vectors, in the order of the vowels, over the
    /// front of `target`, as far as the two reach. The length of `target`
    /// stays.
    pub fn flatten_into(&self, target: &mut Vec<T>)
        ensures
            final(target)@ == overlaid(flattened(self@.mfccs), old(target)@),
    {
        let n = target.len();
        let ghost source = flattened(self@.mfccs);
        let ghost taken: int = 0;
        let mut index: usize = 0;
        let mut v: usize = 0;
        assert(target@ =~= overlaid(source.subrange(0, 0), old(target)@));
        assert(self@.mfccs.subrange(0, 0) =~= Seq::empty());
        while v < self.mfccs.len() && index < n
            invariant
                v <= self.mfccs@.len(),
                target@.len() == n,
                n == old(target)@.len(),
                source == flattened(self@.mfccs),
                taken == flattened(self@.mfccs.subrange(0, v as int)).len(),
                taken <= source.len(),
                index <= n,
                index <= taken,
                index < n ==> index == taken,
                target@ == overlaid(source.subrange(0, index as int), old(target)@),
            decreases self.mfccs@.len() - v,
        {
            let row = &self.mfccs[v].mfcc;
            let mut c: usize = 0;
            proof {
                if row@.len() > 0 {
                    lemma_flattened_index(self@.mfccs, v as int, 0);
                } else {
                    assert(self@.mfccs.subrange(0, v + 1).drop_last() =~= self@.mfccs.subrange(
                        0,
                        v as int,
                    ));
                }
            }
            while c < row.len() && index < n
                invariant
                    v < self.mfccs@.len(),
                    row@ == self@.mfccs[v as int].mfcc,
                    c <= row@.len(),
                    target@.len() == n,
                    n == old(target)@.len(),
                    source == flattened(self@.mfccs),
                    taken == flattened(self@.mfccs.subrange(0, v as int)).len(),
                    taken + row@.len() <= source.len(),
                    index <= n,
                    index <= taken + c,
                    index < n ==> index == taken + c,
                    target@ == overlaid(source.subrange(0, index as int), old(target)@),
                decreases row@.len() - c,
            {
                proof {
                    lemma_flattened_index(self@.mfccs, v as int, c as int);
                }
                target[index] = row[c];
                assert(target@ =~= overlaid(source.subrange(0, index + 1), old(target)@));
                index += 1;
                c += 1;
            }
            proof {
                if row@.len() > 0 {
                    lemma_flattened_index(self@.mfccs, v as int, 0);
                }
                taken = taken + row@.len();
            }
            v += 1;
        }
        proof {
            if index < n {
                assert(self@.mfccs.subrange(0, v as int) =~= self@.mfccs);
                assert(source.subrange(0, index as int) =~= source);
            } else {
                assert(target@ =~= overlaid(source, old(target)@));
            }
        }
    }
}

} // verus!
