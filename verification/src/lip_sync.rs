//! The engine: capture, calibration requests, and the per-tick sequence.
//!
//! One engine owns a capture ring, a profile, the queue of calibration
//! requests, the latest feature vector and the published result. The analysis
//! itself runs elsewhere: a tick hands out a snapshot as a job, the finished
//! job is handed back through `complete_job`, and the next tick adopts it.
//! At most one job is in flight.

use crate::classifier::{is_nearest, Score};
use crate::common::{LipSyncInfo, LipSyncInfoModel, UNKNOWN_INDEX};
use crate::frame::{copied, filled, silent};
use crate::lip_sync_job::{LipSyncJob, LipSyncJobModel, LipSyncJobResult, LipSyncJobResultModel};
use crate::profile::{flattened, overlaid, uniform, Profile, ProfileModel};
use crate::ring::{every_nth, slide, RingBuffer};
use vstd::prelude::*;

verus! {

/// Model of an engine.
pub struct LipSyncModel<T> {
    /// The calibration state.
    pub profile: ProfileModel<T>,
    /// The value of a sample of silence, with which buffers are filled.
    pub silence: T,
    /// The capture ring: the samples it holds, oldest first.
    pub history: Seq<T>,
    /// The latest feature vector.
    pub mfcc: Seq<T>,
    /// The reference vectors of the vowels in a row, as the next job gets them.
    pub phonemes: Seq<T>,
    /// The output of a finished job that no tick has looked at yet.
    pub completed: Option<LipSyncJobResultModel<T>>,
    /// Whether a job is under way.
    pub in_flight: bool,
    /// Whether the buffers were laid out anew since the job under way was
    /// scheduled.
    pub stale: bool,
    /// The calibration requests of this cycle, in the order they came.
    pub pending: Seq<i64>,
    /// The published result.
    pub result: LipSyncInfoModel<T>,
}

impl<T> LipSyncModel<T> {
    /// A new engine: a capture ring without capacity, since the mix rate is
    /// not known yet, a feature vector of silence, nothing pending, no vowel
    /// recognised.
    pub open spec fn init(profile: ProfileModel<T>, silence: T) -> Self {
        LipSyncModel {
            profile,
            silence,
            history: Seq::empty(),
            mfcc: silent(profile.feature_len() as nat, silence),
            phonemes: silent(profile.scratch_len() as nat, silence),
            completed: None,
            in_flight: false,
            stale: false,
            pending: Seq::empty(),
            result: LipSyncInfoModel::unknown(silence),
        }
    }

    /// The engine with another profile. What was found out against the
    /// profile it had is dropped: a waiting output is, and the output of a
    /// job under way will be.
    pub open spec fn set_profile(self, profile: ProfileModel<T>) -> Self {
        LipSyncModel { profile, completed: None, stale: self.in_flight, ..self }
    }

    /// The engine with one more vowel in its profile. What was found out
    /// against the profile without it is dropped.
    pub open spec fn add_phoneme(self, label: Seq<char>, mfcc: Seq<T>) -> Self {
        self.set_profile(self.profile.add_phoneme(label, mfcc))
    }

    /// A calibration request: queued, unless the index is negative.
    pub open spec fn request_calibration(self, index: i64) -> Self {
        if index < 0 {
            self
        } else {
            LipSyncModel { pending: self.pending.push(index), ..self }
        }
    }

    /// Captured audio: every `channel_stride`-th sample goes into the ring.
    pub open spec fn capture(self, samples: Seq<T>, channel_stride: int) -> Self {
        LipSyncModel { history: slide(self.history, every_nth(samples, channel_stride)), ..self }
    }

    /// The hand-back of a finished job. The output of the job under way
    /// takes the slot, unless the buffers were laid out anew in the
    /// meantime: then it is dropped. Without a job under way nothing is
    /// accepted.
    pub open spec fn complete_job(self, output: LipSyncJobResultModel<T>) -> Self {
        if self.in_flight {
            LipSyncModel {
                in_flight: false,
                stale: false,
                completed: if self.stale {
                    None
                } else {
                    Some(output)
                },
                ..self
            }
        } else {
            self
        }
    }

    /// The hand-back of a job that ended without an output: no job is under
    /// way any more, and nothing waits to be adopted on its account.
    pub open spec fn abandon_job(self) -> Self {
        if self.in_flight {
            LipSyncModel { in_flight: false, stale: false, ..self }
        } else {
            self
        }
    }

    /// Whether a tick at `mix_rate` adopts a result: a finished job waits,
    /// the buffers are still laid out for the profile and the mix rate, and
    /// the job's feature vector has the length of the engine's.
    pub open spec fn adopts(self, mix_rate: int) -> bool {
        &&& self.completed matches Some(output)
        &&& output.mfcc.len() == self.mfcc.len()
        &&& self.sized_for(mix_rate)
    }

    /// The result that is published for a job's output: the vowel and its
    /// label where the profile has that vowel, else no vowel; the three
    /// values as they came.
    pub open spec fn published(self, output: LipSyncJobResultModel<T>) -> LipSyncInfoModel<T> {
        LipSyncInfoModel {
            index: if 0 <= output.index < self.profile.mfccs.len() {
                output.index
            } else {
                UNKNOWN_INDEX as int
            },
            phoneme: self.profile.get_phoneme(output.index),
            volume: output.volume,
            raw_volume: output.raw_volume,
            distance: output.distance,
        }
    }

    /// First step of a tick: the waiting output, if it is adopted, becomes
    /// the latest feature vector and the published result. The slot is
    /// empty afterwards.
    pub open spec fn update_result(self, mix_rate: int) -> Self {
        if self.adopts(mix_rate) {
            LipSyncModel {
                mfcc: self.completed->0.mfcc,
                result: self.published(self.completed->0),
                completed: None,
                ..self
            }
        } else {
            LipSyncModel { completed: None, ..self }
        }
    }

    /// Second step of a tick: the queued requests are applied in order, each
    /// with the latest feature vector, and the queue is emptied.
    pub open spec fn update_calibration(self) -> Self {
        LipSyncModel {
            profile: self.profile.calibrated(self.pending, self.mfcc),
            pending: Seq::empty(),
            ..self
        }
    }

    /// Whether the buffers have the lengths that the profile and the mix
    /// rate ask for.
    pub open spec fn sized_for(self, mix_rate: int) -> bool {
        &&& self.history.len() == self.profile.capacity(mix_rate)
        &&& self.mfcc.len() == self.profile.feature_len()
        &&& self.phonemes.len() == self.profile.scratch_len()
    }

    /// The engine with all buffers given up: none holds anything. A waiting
    /// output is dropped, and the output of a job under way will be.
    pub open spec fn dispose_buffers(self) -> Self {
        LipSyncModel {
            history: Seq::empty(),
            mfcc: Seq::empty(),
            phonemes: Seq::empty(),
            completed: None,
            stale: self.in_flight,
            ..self
        }
    }

    /// The engine with all buffers laid out anew for the profile and the mix
    /// rate, each filled with silence. A waiting output is dropped, and the
    /// output of a job under way will be.
    pub open spec fn allocate_buffers(self, mix_rate: int) -> Self {
        LipSyncModel {
            history: silent(self.profile.capacity(mix_rate) as nat, self.silence),
            mfcc: silent(self.profile.feature_len() as nat, self.silence),
            phonemes: silent(self.profile.scratch_len() as nat, self.silence),
            completed: None,
            stale: self.in_flight,
            ..self
        }
    }

    /// Third step of a tick: the buffers are laid out anew where their
    /// lengths are out of date, and left alone where they are not.
    pub open spec fn update_buffers(self, mix_rate: int) -> Self {
        if self.sized_for(mix_rate) {
            self
        } else {
            self.allocate_buffers(mix_rate)
        }
    }

    /// The reference vectors are written over the front of the scratch
    /// buffer.
    pub open spec fn update_phonemes(self) -> Self {
        LipSyncModel {
            phonemes: overlaid(flattened(self.profile.mfccs), self.phonemes),
            ..self
        }
    }

    /// Whether a job is scheduled: none is under way, the buffers are up to
    /// date, and there is something to analyse.
    pub open spec fn schedules(self, mix_rate: int) -> bool {
        &&& !self.in_flight
        &&& self.sized_for(mix_rate)
        &&& self.history.len() > 0
        &&& self.mfcc.len() > 0
        &&& self.profile.window_len() > 0
    }

    /// The snapshot that a scheduled job gets: the capture ring as it is,
    /// oldest sample first, the two rates and the window length, the volume
    /// range, the channel count and the reference vectors.
    pub open spec fn snapshot(self, mix_rate: int) -> LipSyncJobModel<T> {
        LipSyncJobModel {
            input: self.history,
            output_sample_rate: mix_rate,
            target_sample_rate: self.profile.target_sample_rate,
            sample_count: self.profile.sample_count,
            min_volume: self.profile.min_volume,
            max_volume: self.profile.max_volume,
            mel_filter_bank_channels: self.profile.mel_filter_bank_channels,
            phonemes: self.phonemes,
        }
    }

    /// Last step of a tick: where a job is scheduled, one is under way
    /// afterwards.
    pub open spec fn schedule_job(self, mix_rate: int) -> Self {
        if self.schedules(mix_rate) {
            LipSyncModel { in_flight: true, stale: false, ..self }
        } else {
            self
        }
    }

    /// The engine as the last step of a tick finds it.
    pub open spec fn before_schedule(self, mix_rate: int) -> Self {
        self.update_result(mix_rate).update_calibration().update_buffers(
            mix_rate,
        ).update_phonemes()
    }

    /// One tick: adopt, calibrate, check the buffers, refresh the reference
    /// vectors, schedule.
    pub open spec fn tick(self, mix_rate: int) -> Self {
        self.before_schedule(mix_rate).schedule_job(mix_rate)
    }
}

/// The check of the buffers settles: after it the buffers have the lengths
/// that the profile and the mix rate ask for, and a second check with the
/// same profile and mix rate lays out nothing.
pub proof fn lemma_update_buffers_idempotent<T>(engine: LipSyncModel<T>, mix_rate: int)
    ensures
        engine.update_buffers(mix_rate).sized_for(mix_rate),
        engine.update_buffers(mix_rate).update_buffers(mix_rate) == engine.update_buffers(
            mix_rate,
        ),
{
}

/// Laying out the buffers does not depend on what they held: giving them up
/// first makes no difference.
pub proof fn lemma_allocate_after_dispose<T>(engine: LipSyncModel<T>, mix_rate: int)
    ensures
        engine.dispose_buffers().allocate_buffers(mix_rate) == engine.allocate_buffers(mix_rate),
{
}

/// Buffers that are laid out anew hold the new lengths and nothing but
/// silence: no sample, feature or reference value of the old layout is left.
pub proof fn lemma_reallocation_silences<T>(engine: LipSyncModel<T>, mix_rate: int)
    requires
        !engine.sized_for(mix_rate),
    ensures
        engine.update_buffers(mix_rate).history.len() == engine.profile.capacity(mix_rate),
        engine.update_buffers(mix_rate).mfcc.len() == engine.profile.feature_len(),
        engine.update_buffers(mix_rate).phonemes.len() == engine.profile.scratch_len(),
        forall|i: int|
            0 <= i < engine.profile.capacity(mix_rate) ==> #[trigger] engine.update_buffers(
                mix_rate,
            ).history[i] == engine.silence,
        forall|i: int|
            0 <= i < engine.profile.feature_len() ==> #[trigger] engine.update_buffers(
                mix_rate,
            ).mfcc[i] == engine.silence,
{
}

/// After a tick the buffers have the lengths that the profile and the mix
/// rate ask for.
pub proof fn lemma_tick_sizes_buffers<T>(engine: LipSyncModel<T>, mix_rate: int)
    ensures
        engine.tick(mix_rate).sized_for(mix_rate),
        engine.tick(mix_rate).pending.len() == 0,
        engine.tick(mix_rate).completed is None,
{
    let calibrated = engine.update_result(mix_rate).update_calibration();
    lemma_update_buffers_idempotent(calibrated, mix_rate);
}

/// A tick on buffers that are up to date lays out nothing: the captured
/// history stays, and a job under way is not made stale.
pub proof fn lemma_tick_keeps_sized_buffers<T>(engine: LipSyncModel<T>, mix_rate: int)
    requires
        engine.sized_for(mix_rate),
    ensures
        engine.update_result(mix_rate).update_calibration().sized_for(mix_rate),
        engine.tick(mix_rate).history == engine.history,
        engine.in_flight ==> engine.tick(mix_rate).stale == engine.stale,
{
    crate::profile::lemma_calibrated_closed_form(
        engine.profile,
        engine.pending,
        engine.update_result(mix_rate).mfcc,
    );
}

/// What happens between ticks leaves the lengths of the buffers alone.
pub proof fn lemma_between_ticks_keeps_size<T>(
    engine: LipSyncModel<T>,
    mix_rate: int,
    samples: Seq<T>,
    channel_stride: int,
    index: i64,
    output: LipSyncJobResultModel<T>,
)
    requires
        engine.sized_for(mix_rate),
    ensures
        engine.capture(samples, channel_stride).sized_for(mix_rate),
        engine.request_calibration(index).sized_for(mix_rate),
        engine.complete_job(output).sized_for(mix_rate),
{
}

/// A negative calibration index changes nothing: the engine is as it was
/// without the request, and a tick behind it, with nothing else in the queue,
/// leaves the profile as it is.
pub proof fn lemma_negative_request_is_ignored<T>(
    engine: LipSyncModel<T>,
    index: i64,
    mix_rate: int,
)
    requires
        index < 0,
    ensures
        engine.request_calibration(index) == engine,
        engine.request_calibration(index).tick(mix_rate) == engine.tick(mix_rate),
        engine.pending.len() == 0 ==> engine.request_calibration(index).tick(mix_rate).profile
            == engine.profile,
{
}

/// The queue never comes to hold a negative index.
pub proof fn lemma_queue_holds_no_negative_index<T>(engine: LipSyncModel<T>, index: i64)
    requires
        forall|k: int| 0 <= k < engine.pending.len() ==> #[trigger] engine.pending[k] >= 0,
    ensures
        forall|k: int|
            0 <= k < engine.request_calibration(index).pending.len()
                ==> #[trigger] engine.request_calibration(index).pending[k] >= 0,
{
}

/// A tick whose queued requests name no vowel of the profile leaves the
/// profile as it is.
pub proof fn lemma_out_of_range_requests_are_ignored<T>(engine: LipSyncModel<T>, mix_rate: int)
    requires
        forall|k: int|
            0 <= k < engine.pending.len() ==> engine.pending[k] < 0 || engine.pending[k]
                >= engine.profile.mfccs.len(),
    ensures
        engine.tick(mix_rate).profile == engine.profile,
{
    crate::profile::lemma_calibrated_out_of_range(
        engine.profile,
        engine.pending,
        engine.update_result(mix_rate).mfcc,
    );
}

/// A tick calibrates with the feature vector that it has just adopted, or,
/// where it adopted none, with the one it had. Each vowel that a request
/// names gets that vector, whatever the order of the requests; every other
/// vowel, every label and the configuration stay.
pub proof fn lemma_tick_calibrates_with_latest<T>(engine: LipSyncModel<T>, mix_rate: int)
    ensures
        engine.tick(mix_rate).profile == engine.profile.calibrated(
            engine.pending,
            engine.update_result(mix_rate).mfcc,
        ),
        engine.adopts(mix_rate) ==> engine.update_result(mix_rate).mfcc == engine.completed->0.mfcc,
        !engine.adopts(mix_rate) ==> engine.update_result(mix_rate).mfcc == engine.mfcc,
        engine.tick(mix_rate).profile.mfccs.len() == engine.profile.mfccs.len(),
        forall|v: int|
            0 <= v < engine.profile.mfccs.len() ==> #[trigger] engine.tick(
                mix_rate,
            ).profile.mfccs[v] == if exists|k: int|
                0 <= k < engine.pending.len() && engine.pending[k] == v {
                crate::profile::PhonemeModel {
                    label: engine.profile.mfccs[v].label,
                    mfcc: engine.update_result(mix_rate).mfcc,
                }
            } else {
                engine.profile.mfccs[v]
            },
{
    crate::profile::lemma_calibrated_closed_form(
        engine.profile,
        engine.pending,
        engine.update_result(mix_rate).mfcc,
    );
}

/// While a job is under way no other is scheduled; where one is scheduled,
/// it is under way afterwards and nothing else has changed.
pub proof fn lemma_one_job_at_a_time<T>(engine: LipSyncModel<T>, mix_rate: int)
    ensures
        engine.in_flight ==> !engine.schedules(mix_rate) && engine.schedule_job(mix_rate)
            == engine,
        engine.schedules(mix_rate) ==> engine.schedule_job(mix_rate).in_flight,
        engine.schedule_job(mix_rate).in_flight == (engine.in_flight || engine.schedules(
            mix_rate,
        )),
{
}

/// The output of a job that was under way while the buffers were laid out
/// anew is dropped: no tick adopts it, and the published result and the
/// feature vector stay as the new layout left them.
pub proof fn lemma_stale_job_is_dropped<T>(
    engine: LipSyncModel<T>,
    mix_rate: int,
    output: LipSyncJobResultModel<T>,
)
    requires
        engine.in_flight,
        !engine.sized_for(mix_rate),
    ensures
        engine.update_buffers(mix_rate).complete_job(output).completed is None,
        !engine.update_buffers(mix_rate).complete_job(output).adopts(mix_rate),
        !engine.update_buffers(mix_rate).complete_job(output).in_flight,
        engine.update_buffers(mix_rate).complete_job(output).update_result(mix_rate).result
            == engine.result,
        engine.update_buffers(mix_rate).complete_job(output).update_result(mix_rate).mfcc
            == engine.update_buffers(mix_rate).mfcc,
{
}

/// Without a finished job a tick publishes nothing: the result stays.
pub proof fn lemma_result_stays_without_job<T>(engine: LipSyncModel<T>, mix_rate: int)
    requires
        !engine.adopts(mix_rate),
    ensures
        engine.tick(mix_rate).result == engine.result,
{
}

/// A published result names a vowel of the profile, with its label, or no
/// vowel, with an empty label.
pub proof fn lemma_published_names_a_vowel<T>(
    engine: LipSyncModel<T>,
    output: LipSyncJobResultModel<T>,
)
    ensures
        ({
            let info = engine.published(output);
            if 0 <= output.index < engine.profile.mfccs.len() {
                info.index == output.index && info.phoneme
                    == engine.profile.mfccs[output.index].label
            } else {
                info.index == UNKNOWN_INDEX && info.phoneme == Seq::<char>::empty()
            }
        }),
        engine.published(output).volume == output.volume,
        engine.published(output).raw_volume == output.raw_volume,
        engine.published(output).distance == output.distance,
{
}

/// The snapshot of a scheduled job is a copy of what the engine holds: the
/// capture ring as it is, oldest sample first, the mix rate, and the
/// profile's rates, window length, volume range and channel count. The
/// captured samples span one analysis window, and the window that the job
/// makes of them has the window length. Scheduling leaves the ring, the
/// profile and everything else but the mark of a job under way as it is.
pub proof fn lemma_snapshot_fits_profile<T>(engine: LipSyncModel<T>, mix_rate: int)
    requires
        engine.schedules(mix_rate),
    ensures
        engine.snapshot(mix_rate).input == engine.history,
        engine.snapshot(mix_rate).input.len() == engine.profile.capacity(mix_rate),
        engine.snapshot(mix_rate).input.len() > 0,
        engine.snapshot(mix_rate).output_sample_rate == mix_rate,
        engine.snapshot(mix_rate).target_sample_rate == engine.profile.target_sample_rate,
        engine.snapshot(mix_rate).sample_count == engine.profile.sample_count,
        engine.snapshot(mix_rate).mel_filter_bank_channels
            == engine.profile.mel_filter_bank_channels,
        engine.snapshot(mix_rate).min_volume == engine.profile.min_volume,
        engine.snapshot(mix_rate).max_volume == engine.profile.max_volume,
        engine.snapshot(mix_rate).holds_one_window(),
        engine.snapshot(mix_rate).analysis_window(engine.silence).len()
            == engine.profile.sample_count,
        engine.snapshot(mix_rate).analysis_window(engine.silence).len() > 0,
        engine.snapshot(mix_rate).mel_filter_bank_channels > 0,
        engine.snapshot(mix_rate).phonemes.len() == engine.profile.scratch_len(),
        mix_rate > 0,
        engine.snapshot(mix_rate).target_sample_rate > 0,
        engine.schedule_job(mix_rate) == (LipSyncModel { in_flight: true, stale: false, ..engine }),
{
}

/// The output of a job that was under way, or that waited, while the profile
/// was replaced is dropped: it was found out against another profile.
pub proof fn lemma_replaced_profile_drops_job<T>(
    engine: LipSyncModel<T>,
    profile: ProfileModel<T>,
    output: LipSyncJobResultModel<T>,
    mix_rate: int,
)
    ensures
        engine.set_profile(profile).completed is None,
        !engine.set_profile(profile).adopts(mix_rate),
        engine.set_profile(profile).complete_job(output).completed is None,
        !engine.set_profile(profile).complete_job(output).adopts(mix_rate),
        engine.set_profile(profile).complete_job(output).tick(mix_rate).result == engine.result,
        engine.set_profile(profile).tick(mix_rate).result == engine.result,
{
}

/// An output is adopted only by buffers that are still laid out for the
/// profile and the mix rate: after a change of either that asks for other
/// lengths, a tick publishes nothing.
pub proof fn lemma_outdated_layout_adopts_nothing<T>(engine: LipSyncModel<T>, mix_rate: int)
    requires
        !engine.sized_for(mix_rate),
    ensures
        !engine.adopts(mix_rate),
        engine.tick(mix_rate).result == engine.result,
        engine.update_result(mix_rate).mfcc == engine.mfcc,
{
}

/// A job that ended without an output leaves nothing behind but a free slot
/// for the next job.
pub proof fn lemma_abandoned_job_frees_the_slot<T>(engine: LipSyncModel<T>)
    ensures
        !engine.abandon_job().in_flight,
        engine.abandon_job().completed == engine.completed,
        engine.abandon_job().result == engine.result,
        engine.abandon_job().mfcc == engine.mfcc,
        engine.abandon_job().profile == engine.profile,
        engine.abandon_job().history == engine.history,
        engine.abandon_job().pending == engine.pending,
{
}

/// Where the host reports one score for each vowel of the profile and the
/// job's output names the nearest of them, the result that a tick publishes
/// for it names a vowel of the profile, with its label and the distance that
/// was reported for it.
pub proof fn lemma_tick_publishes_a_vowel_of_the_profile<T>(
    engine: LipSyncModel<T>,
    mix_rate: int,
    scores: Seq<Score<T>>,
)
    requires
        engine.adopts(mix_rate),
        scores.len() == engine.profile.mfccs.len(),
        is_nearest(scores, engine.completed->0.index),
        engine.completed->0.distance == scores[engine.completed->0.index].distance,
    ensures
        0 <= engine.tick(mix_rate).result.index < engine.profile.mfccs.len(),
        engine.tick(mix_rate).result.index == engine.completed->0.index,
        engine.tick(mix_rate).result.phoneme
            == engine.profile.mfccs[engine.completed->0.index].label,
        engine.tick(mix_rate).result.distance == scores[engine.tick(
            mix_rate,
        ).result.index].distance,
        engine.tick(mix_rate).result.volume == engine.completed->0.volume,
        engine.tick(mix_rate).result.raw_volume == engine.completed->0.raw_volume,
        engine.tick(mix_rate).mfcc.len() == engine.profile.feature_len(),
{
    let adopted = engine.update_result(mix_rate);
    crate::profile::lemma_calibrated_closed_form(engine.profile, engine.pending, adopted.mfcc);
}

/// A vowel that was calibrated with a feature vector is recognised when that
/// vector comes again. A tick applies a request for the first vowel with the
/// vector `v`. A job then reports `v` as its feature vector, with one score
/// for each vowel, of which exactly those of the vowels whose reference
/// vector is `v` have the order `0`. The next tick publishes the first vowel,
/// with the distance that was reported for it. Where another vowel has the
/// reference vector `v` too, the first vowel wins.
pub proof fn lemma_calibrated_vowel_is_recognised<T>(
    engine: LipSyncModel<T>,
    mix_rate: int,
    scores: Seq<Score<T>>,
    output: LipSyncJobResultModel<T>,
)
    requires
        engine.profile.mfccs.len() >= 1,
        exists|k: int| 0 <= k < engine.pending.len() && engine.pending[k] == 0,
        engine.tick(mix_rate).in_flight,
        !engine.tick(mix_rate).stale,
        output.mfcc == engine.update_result(mix_rate).mfcc,
        output.mfcc.len() == engine.tick(mix_rate).mfcc.len(),
        scores.len() == engine.profile.mfccs.len(),
        forall|v: int|
            0 <= v < scores.len() ==> ((#[trigger] scores[v]).order == 0 <==> engine.tick(
                mix_rate,
            ).profile.mfccs[v].mfcc == output.mfcc),
        is_nearest(scores, output.index),
        output.distance == scores[output.index].distance,
    ensures
        engine.tick(mix_rate).profile.mfccs[0].mfcc == output.mfcc,
        scores[0].order == 0,
        output.index == 0,
        engine.tick(mix_rate).complete_job(output).adopts(mix_rate),
        engine.tick(mix_rate).complete_job(output).tick(mix_rate).result.index == 0,
        engine.tick(mix_rate).complete_job(output).tick(mix_rate).result.phoneme
            == engine.profile.mfccs[0].label,
        engine.tick(mix_rate).complete_job(output).tick(mix_rate).result.distance
            == scores[0].distance,
        engine.tick(mix_rate).complete_job(output).tick(mix_rate).mfcc == output.mfcc,
{
    let calibrated = engine.tick(mix_rate);
    crate::profile::lemma_calibrated_closed_form(
        engine.profile,
        engine.pending,
        engine.update_result(mix_rate).mfcc,
    );
    assert(calibrated.profile.mfccs[0].mfcc == output.mfcc);
    assert(scores[0].order == 0);
    crate::classifier::lemma_zero_distance_wins(scores, 0, output.index);
    lemma_tick_sizes_buffers(engine, mix_rate);
    let handed = calibrated.complete_job(output);
    assert(handed.adopts(mix_rate));
    assert(calibrated.profile.mfccs[0].label == engine.profile.mfccs[0].label);
}

/// Where every reference vector of the profile has the length of a feature
/// vector, the job that a tick schedules finds in its snapshot one reference
/// vector for each vowel, each as the profile has it after the tick's
/// calibration.
pub proof fn lemma_snapshot_holds_the_references<T>(engine: LipSyncModel<T>, mix_rate: int)
    requires
        engine.before_schedule(mix_rate).schedules(mix_rate),
        uniform(engine.tick(mix_rate).profile.mfccs, engine.tick(mix_rate).profile.feature_len()),
        engine.profile.mfccs.len() * engine.tick(mix_rate).profile.feature_len() <= usize::MAX,
    ensures
        engine.before_schedule(mix_rate).snapshot(mix_rate).phonemes == flattened(
            engine.tick(mix_rate).profile.mfccs,
        ),
        engine.before_schedule(mix_rate).snapshot(mix_rate).phoneme_count()
            == engine.profile.mfccs.len(),
        forall|v: int|
            0 <= v < engine.profile.mfccs.len() ==> #[trigger] engine.before_schedule(
                mix_rate,
            ).snapshot(mix_rate).reference(v) == engine.tick(mix_rate).profile.mfccs[v].mfcc,
{
    let ready = engine.before_schedule(mix_rate);
    let job = ready.snapshot(mix_rate);
    let mfccs = ready.profile.mfccs;
    let width = ready.profile.feature_len();
    crate::profile::lemma_calibrated_closed_form(
        engine.profile,
        engine.pending,
        engine.update_result(mix_rate).mfcc,
    );
    crate::profile::lemma_flattened_uniform(mfccs, width);
    assert(job.phonemes =~= flattened(mfccs));
    vstd::arithmetic::div_mod::lemma_div_multiples_vanish(mfccs.len() as int, width);
    assert(mfccs.len() * width == width * mfccs.len()) by (nonlinear_arith);
    assert forall|v: int| 0 <= v < engine.profile.mfccs.len() implies #[trigger] job.reference(v)
        == engine.tick(mix_rate).profile.mfccs[v].mfcc by {
        assert(flattened(mfccs).subrange(v * width, (v + 1) * width) == mfccs[v].mfcc);
    }
}

/// What a tick did.
pub struct TickOutcome<T> {
    /// Whether a new result was published.
    pub updated: bool,
    /// The job to run, where one was scheduled.
    pub job: Option<LipSyncJob<T>>,
}

/// The lip-sync engine.
pub struct LipSync<T> {
    profile: Profile<T>,
    silence: T,
    raw_input_data: RingBuffer<T>,
    mfcc: Vec<T>,
    phonemes: Vec<T>,
    job_result: Option<LipSyncJobResult<T>>,
    job_in_flight: bool,
    job_stale: bool,
    requested_calibration_vowels: Vec<i64>,
    result: LipSyncInfo<T>,
}

impl<T> View for LipSync<T> {
    type V = LipSyncModel<T>;

    closed spec fn view(&self) -> LipSyncModel<T> {
        LipSyncModel {
            profile: self.profile@,
            silence: self.silence,
            history: self.raw_input_data@,
            mfcc: self.mfcc@,
            phonemes: self.phonemes@,
            completed: match self.job_result {
                Some(output) => Some(output@),
                None => None,
            },
            in_flight: self.job_in_flight,
            stale: self.job_stale,
            pending: self.requested_calibration_vowels@,
            result: self.result@,
        }
    }
}

impl<T: Copy> LipSync<T> {
    /// An engine with the given profile. `silence` is the sample value of
    /// silence, with which buffers are filled.
    pub fn new(profile: Profile<T>, silence: T) -> (engine: Self)
        ensures
            engine@ == LipSyncModel::init(profile@, silence),
    {
        let mfcc = filled(profile.feature_len(), silence);
        let phonemes = filled(profile.scratch_len(), silence);
        let engine = LipSync {
            profile,
            silence,
            raw_input_data: RingBuffer::new(0, silence),
            mfcc,
            phonemes,
            job_result: None,
            job_in_flight: false,
            job_stale: false,
            requested_calibration_vowels: Vec::new(),
            result: LipSyncInfo::unknown(silence),
        };
        assert(engine@.history =~= Seq::empty());
        engine
    }

    /// The profile.
    pub fn profile(&self) -> (profile: &Profile<T>)
        ensures
            profile@ == self@.profile,
    {
        &self.profile
    }

    /// Replaces the profile. The buffers follow at the next tick. What a
    /// job finds out about the profile that was replaced is dropped.
    pub fn set_profile(&mut self, profile: Profile<T>)
        ensures
            final(self)@ == old(self)@.set_profile(profile@),
    {
        self.profile = profile;
        self.job_result = None;
        self.job_stale = self.job_in_flight;
    }

    /// Registers a new vowel behind the others.
    pub fn add_phoneme(&mut self, label: String, mfcc: Vec<T>)
        ensures
            final(self)@ == old(self)@.add_phoneme(label@, mfcc@),
    {
        self.profile.add_phoneme(label, mfcc);
        self.job_result = None;
        self.job_stale = self.job_in_flight;
    }

    /// Queues a calibration sample for the vowel at `index`. A negative index
    /// is dropped without a word.
    pub fn request_calibration(&mut self, index: i64)
        ensures
            final(self)@ == old(self)@.request_calibration(index),
    {
        if index < 0 {
            return ;
        }
        self.requested_calibration_vowels.push(index);
    }

    /// Feeds interleaved audio: every `channel_stride`-th sample, starting
    /// with the first, is written into the capture ring. Before the first
    /// tick has laid out the ring, nothing is kept.
    pub fn capture(&mut self, samples: &[T], channel_stride: usize)
        requires
            channel_stride >= 1,
        ensures
            final(self)@ == old(self)@.capture(samples@, channel_stride as int),
    {
        self.raw_input_data.capture(samples, channel_stride);
    }

    /// Hands back the output of the job that the last scheduling tick gave
    /// out.
    pub fn complete_job(&mut self, output: LipSyncJobResult<T>)
        ensures
            final(self)@ == old(self)@.complete_job(output@),
    {
        if self.job_in_flight {
            self.job_in_flight = false;
            if self.job_stale {
                self.job_result = None;
            } else {
                self.job_result = Some(output);
            }
            self.job_stale = false;
        }
    }

    /// Reports that the job that the last scheduling tick gave out ended
    /// without an output. The next tick can schedule again.
    pub fn abandon_job(&mut self)
        ensures
            final(self)@ == old(self)@.abandon_job(),
    {
        if self.job_in_flight {
            self.job_in_flight = false;
            self.job_stale = false;
        }
    }

    /// Adopts the output of a finished job, if one waits and still fits the
    /// profile and the mix rate. Returns whether a new result was published.
    pub fn update_result(&mut self, mix_rate: i64) -> (updated: bool)
        ensures
            final(self)@ == old(self)@.update_result(mix_rate as int),
            updated == old(self)@.adopts(mix_rate as int),
    {
        let fits = self.is_sized_for(mix_rate);
        let waiting = self.job_result.take();
        match waiting {
            Some(output) => {
                if fits && output.mfcc.len() == self.mfcc.len() {
                    let known = output.index >= 0 && (output.index as u64)
                        < self.profile.phoneme_count() as u64;
                    let index = if known {
                        output.index
                    } else {
                        UNKNOWN_INDEX
                    };
                    let phoneme = if known {
                        self.profile.get_phoneme(output.index as usize)
                    } else {
                        String::new()
                    };
                    self.result =
                    LipSyncInfo::new(
                        index,
                        phoneme,
                        output.volume,
                        output.raw_volume,
                        output.distance,
                    );
                    self.mfcc = output.mfcc;
                    true
                } else {
                    false
                }
            },
            None => false,
        }
    }

    /// Applies the queued calibration requests in the order they came, each
    /// with the latest feature vector, and empties the queue.
    pub fn update_calibration(&mut self)
        ensures
            final(self)@ == old(self)@.update_calibration(),
    {
        let n = self.requested_calibration_vowels.len();
        let mut k: usize = 0;
        assert(self.requested_calibration_vowels@.subrange(0, 0) =~= Seq::<i64>::empty());
        while k < n
            invariant
                k <= n,
                n == self.requested_calibration_vowels@.len(),
                self.requested_calibration_vowels@ == old(self)@.pending,
                self.mfcc@ == old(self)@.mfcc,
                self.profile@ == old(self)@.profile.calibrated(
                    old(self)@.pending.subrange(0, k as int),
                    old(self)@.mfcc,
                ),
                self@ == (LipSyncModel { profile: self.profile@, ..old(self)@ }),
            decreases n - k,
        {
            let index = self.requested_calibration_vowels[k];
            assert(old(self)@.pending.subrange(0, k + 1).drop_last() =~= old(
                self,
            )@.pending.subrange(0, k as int));
            if index >= 0 && (index as u64) < self.profile.phoneme_count() as u64 {
                let sample = copied(&self.mfcc);
                self.profile.update_mfcc(index as usize, sample, true);
            }
            k += 1;
        }
        assert(old(self)@.pending.subrange(0, n as int) =~= old(self)@.pending);
        self.requested_calibration_vowels.clear();
    }

    /// The number of raw samples that the capture ring has to hold at the
    /// given mix rate.
    pub fn input_sample_count(&self, mix_rate: i64) -> (n: usize)
        ensures
            n == self@.profile.capacity(mix_rate as int),
    {
        self.profile.capacity(mix_rate)
    }

    /// Whether the buffers have the lengths that the profile and the mix
    /// rate ask for.
    pub fn is_sized_for(&self, mix_rate: i64) -> (fits: bool)
        ensures
            fits == self@.sized_for(mix_rate as int),
    {
        self.raw_input_data.capacity() == self.input_sample_count(mix_rate) && self.mfcc.len()
            == self.profile.feature_len() && self.phonemes.len() == self.profile.scratch_len()
    }

    /// Gives up all buffers. What a job finds out about the old layout is
    /// dropped.
    pub fn dispose_buffers(&mut self)
        ensures
            final(self)@ == old(self)@.dispose_buffers(),
    {
        self.raw_input_data = RingBuffer::new(0, self.silence);
        self.mfcc.clear();
        self.phonemes.clear();
        self.job_result = None;
        self.job_stale = self.job_in_flight;
        assert(self@.history =~= Seq::empty());
    }

    /// Lays out all buffers anew for the profile and the mix rate, each
    /// filled with silence. What a job finds out about the old layout is
    /// dropped.
    pub fn allocate_buffers(&mut self, mix_rate: i64)
        ensures
            final(self)@ == old(self)@.allocate_buffers(mix_rate as int),
    {
        let capacity = self.input_sample_count(mix_rate);
        self.raw_input_data = RingBuffer::new(capacity, self.silence);
        self.mfcc = filled(self.profile.feature_len(), self.silence);
        self.phonemes = filled(self.profile.scratch_len(), self.silence);
        self.job_result = None;
        self.job_stale = self.job_in_flight;
        assert(self@.history =~= silent(capacity as nat, self.silence));
    }

    /// Lays out the buffers anew where their lengths are out of date.
    /// Returns whether it did.
    pub fn update_buffers(&mut self, mix_rate: i64) -> (reallocated: bool)
        ensures
            final(self)@ == old(self)@.update_buffers(mix_rate as int),
            reallocated == !old(self)@.sized_for(mix_rate as int),
    {
        if self.is_sized_for(mix_rate) {
            false
        } else {
            self.dispose_buffers();
            self.allocate_buffers(mix_rate);
            true
        }
    }

    /// Writes the reference vectors of the vowels over the front of the
    /// scratch buffer.
    pub fn update_phonemes(&mut self)
        ensures
            final(self)@ == old(self)@.update_phonemes(),
    {
        self.profile.flatten_into(&mut self.phonemes);
    }

    /// Takes the snapshot for a job and marks the job as under way, where
    /// none is under way, the buffers are up to date and there is something
    /// to analyse. The snapshot holds a copy of the capture ring, oldest
    /// sample first, with the rates and the window length by which the job
    /// resamples it. The ring and the profile stay as they are.
    pub fn schedule_job(&mut self, mix_rate: i64) -> (job: Option<LipSyncJob<T>>)
        ensures
            final(self)@ == old(self)@.schedule_job(mix_rate as int),
            job is Some <==> old(self)@.schedules(mix_rate as int),
            job matches Some(j) ==> j@ == old(self)@.snapshot(mix_rate as int),
    {
        if self.job_in_flight || !self.is_sized_for(mix_rate) {
            return None;
        }
        let window_len = self.profile.window_len();
        if self.raw_input_data.capacity() == 0 || self.mfcc.len() == 0 || window_len == 0 {
            return None;
        }
        let job = LipSyncJob {
            input: self.raw_input_data.snapshot(),
            output_sample_rate: mix_rate,
            target_sample_rate: self.profile.target_sample_rate,
            sample_count: self.profile.sample_count,
            min_volume: self.profile.min_volume,
            max_volume: self.profile.max_volume,
            mel_filter_bank_channels: self.profile.mel_filter_bank_channels,
            phonemes: copied(&self.phonemes),
        };
        self.job_in_flight = true;
        self.job_stale = false;
        Some(job)
    }

    /// Advances one analysis cycle: adopts the output of a finished job,
    /// applies the queued calibration requests, lays out the buffers anew
    /// where they are out of date, and schedules the next job unless one is
    /// under way. Never waits for a job.
    pub fn tick(&mut self, mix_rate: i64) -> (outcome: TickOutcome<T>)
        ensures
            final(self)@ == old(self)@.tick(mix_rate as int),
            outcome.updated == old(self)@.adopts(mix_rate as int),
            outcome.job is Some <==> old(self)@.before_schedule(mix_rate as int).schedules(
                mix_rate as int,
            ),
            outcome.job matches Some(j) ==> j@ == old(self)@.before_schedule(
                mix_rate as int,
            ).snapshot(mix_rate as int),
    {
        let updated = self.update_result(mix_rate);
        self.update_calibration();
        self.update_buffers(mix_rate);
        self.update_phonemes();
        let job = self.schedule_job(mix_rate);
        TickOutcome { updated, job }
    }

    /// The latest feature vector.
    pub fn mfcc(&self) -> (mfcc: &Vec<T>)
        ensures
            mfcc@ == self@.mfcc,
    {
        &self.mfcc
    }

    /// The published result.
    pub fn result(&self) -> (result: &LipSyncInfo<T>)
        ensures
            result@ == self@.result,
    {
        &self.result
    }

    /// The number of samples that the capture ring holds.
    pub fn capacity(&self) -> (n: usize)
        ensures
            n == self@.history.len(),
    {
        self.raw_input_data.capacity()
    }

    /// The capture ring's history: the samples it holds, oldest first.
    pub fn raw_input_data(&self) -> (history: Vec<T>)
        ensures
            history@ == self@.history,
    {
        self.raw_input_data.snapshot()
    }

    /// The reference vectors of the vowels in a row, as the next job gets
    /// them.
    pub fn phonemes(&self) -> (phonemes: &Vec<T>)
        ensures
            phonemes@ == self@.phonemes,
    {
        &self.phonemes
    }

    /// Whether a job is under way.
    pub fn is_job_in_flight(&self) -> (in_flight: bool)
        ensures
            in_flight == self@.in_flight,
    {
        self.job_in_flight
    }

    /// The number of calibration requests that wait for the next tick.
    pub fn pending_calibrations(&self) -> (n: usize)
        ensures
            n == self@.pending.len(),
    {
        self.requested_calibration_vowels.len()
    }
}

} // verus!
