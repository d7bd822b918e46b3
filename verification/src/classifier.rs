//! The choice of the nearest vowel.
//!
//! A distance is carried as an opaque value together with an unsigned integer
//! by which it is ordered: a smaller integer stands for a smaller distance,
//! equal integers for equal distances. For distances that are non-negative
//! IEEE 754 numbers, their bit patterns are such integers.

use crate::common::UNKNOWN_INDEX;
use crate::lip_sync_job::LipSyncJobResult;
use vstd::prelude::*;

verus! {

/// The distance between the analysed sound and one vowel of the profile.
pub struct Score<T> {
    /// The distance as the host computed it.
    pub distance: T,
    /// The integer by which the distance is ordered.
    pub order: u64,
}

/// `i` is the vowel that `scores` puts nearest: no vowel is nearer, and no
/// vowel before it is as near.
pub open spec fn is_nearest<T>(scores: Seq<Score<T>>, i: int) -> bool {
    &&& 0 <= i < scores.len()
    &&& forall|j: int| 0 <= j < scores.len() ==> scores[i].order <= (#[trigger] scores[j]).order
    &&& forall|j: int| 0 <= j < i ==> (#[trigger] scores[j]).order > scores[i].order
}

/// At most one vowel is the nearest.
pub proof fn lemma_nearest_is_unique<T>(scores: Seq<Score<T>>, i: int, j: int)
    requires
        is_nearest(scores, i),
        is_nearest(scores, j),
    ensures
        i == j,
{
    if i < j {
        assert(scores[i].order > scores[j].order);
    } else if j < i {
        assert(scores[j].order > scores[i].order);
    }
}

/// Among one vowel or more there is a nearest one.
pub proof fn lemma_nearest_exists<T>(scores: Seq<Score<T>>)
    requires
        scores.len() > 0,
    ensures
        exists|i: int| is_nearest(scores, i),
    decreases scores.len(),
{
    if scores.len() == 1 {
        assert(is_nearest(scores, 0));
    } else {
        let front = scores.drop_last();
        lemma_nearest_exists(front);
        let b = choose|i: int| is_nearest(front, i);
        let last = scores.len() - 1;
        if scores[last].order < scores[b].order {
            assert forall|j: int| 0 <= j < scores.len() implies scores[last].order <= (
            #[trigger] scores[j]).order by {
                if j < last {
                    assert(front[j] == scores[j]);
                }
            }
            assert forall|j: int| 0 <= j < last implies (#[trigger] scores[j]).order
                > scores[last].order by {
                assert(front[j] == scores[j]);
            }
            assert(is_nearest(scores, last));
        } else {
            assert forall|j: int| 0 <= j < scores.len() implies scores[b].order <= (
            #[trigger] scores[j]).order by {
                if j < last {
                    assert(front[j] == scores[j]);
                }
            }
            assert forall|j: int| 0 <= j < b implies (#[trigger] scores[j]).order
                > scores[b].order by {
                assert(front[j] == scores[j]);
            }
            assert(is_nearest(scores, b));
        }
    }
}

/// A vowel at the least distance that there is (order `0`) is the nearest,
/// unless a vowel before it is at that distance too; the nearest vowel is
/// then at that distance.
pub proof fn lemma_zero_distance_wins<T>(scores: Seq<Score<T>>, i: int, nearest: int)
    requires
        0 <= i < scores.len(),
        scores[i].order == 0,
        is_nearest(scores, nearest),
    ensures
        nearest <= i,
        scores[nearest].order == 0,
        (forall|j: int| 0 <= j < i ==> (#[trigger] scores[j]).order != 0) ==> nearest == i,
{
    assert(scores[nearest].order <= scores[i].order);
    if nearest > i {
        assert(scores[i].order > scores[nearest].order);
    }
}

/// The index of the nearest vowel: the least distance wins, and among equal
/// distances the lowest index. Without vowels there is no nearest one.
pub fn nearest<T>(scores: &[Score<T>]) -> (found: Option<usize>)
    ensures
        found is None <==> scores@.len() == 0,
        found matches Some(i) ==> is_nearest(scores@, i as int),
{
    if scores.len() == 0 {
        return None;
    }
    let mut best: usize = 0;
    let mut j: usize = 1;
    while j < scores.len()
        invariant
            1 <= j <= scores@.len(),
            is_nearest(scores@.subrange(0, j as int), best as int),
        decreases scores@.len() - j,
    {
        if scores[j].order < scores[best].order {
            best = j;
        }
        j += 1;
        assert forall|k: int| 0 <= k < j implies scores@.subrange(0, j as int)[best as int].order
            <= (#[trigger] scores@.subrange(0, j as int)[k]).order by {
            if k < j - 1 {
                assert(scores@.subrange(0, j - 1)[k] == scores@[k]);
            }
        }
        assert forall|k: int| 0 <= k < best implies (#[trigger] scores@.subrange(
            0,
            j as int,
        )[k]).order > scores@.subrange(0, j as int)[best as int].order by {
            assert(scores@.subrange(0, j - 1)[k] == scores@[k]);
        }
    }
    assert(scores@.subrange(0, j as int) =~= scores@);
    Some(best)
}

/// Puts together what an analysis pass found. The vowel is the nearest one,
/// with its distance. Without vowels, or with a nearest vowel whose index is
/// beyond what an index can name, the outcome names no vowel and has
/// `silence` for its distance. The feature vector and the two volumes are
/// passed on.
pub fn classify<T: Copy>(
    mfcc: Vec<T>,
    scores: &[Score<T>],
    volume: T,
    raw_volume: T,
    silence: T,
) -> (output: LipSyncJobResult<T>)
    ensures
        output@.mfcc == mfcc@,
        output@.volume == volume,
        output@.raw_volume == raw_volume,
        if exists|i: int| is_nearest(scores@, i) && i <= i64::MAX {
            &&& is_nearest(scores@, output@.index)
            &&& output@.distance == scores@[output@.index].distance
        } else {
            &&& output@.index == UNKNOWN_INDEX
            &&& output@.distance == silence
        },
{
    match nearest(scores) {
        Some(i) => {
            proof {
                assert forall|k: int| is_nearest(scores@, k) implies k == i by {
                    lemma_nearest_is_unique(scores@, k, i as int);
                }
            }
            if i as u64 <= i64::MAX as u64 {
                assert(is_nearest(scores@, i as int) && i <= i64::MAX);
                LipSyncJobResult {
                    mfcc,
                    index: i as i64,
                    volume,
                    raw_volume,
                    distance: scores[i].distance,
                }
            } else {
                LipSyncJobResult {
                    mfcc,
                    index: UNKNOWN_INDEX,
                    volume,
                    raw_volume,
                    distance: silence,
                }
            }
        },
        None => LipSyncJobResult {
            mfcc,
            index: UNKNOWN_INDEX,
            volume,
            raw_volume,
            distance: silence,
        },
    }
}

} // verus!
