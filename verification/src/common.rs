//! The published classification result.

use vstd::prelude::*;

verus! {

/// The index that stands for "no vowel".
pub const UNKNOWN_INDEX: i64 = -1;

/// Model of a classification result.
pub struct LipSyncInfoModel<T> {
    pub index: int,
    pub phoneme: Seq<char>,
    pub volume: T,
    pub raw_volume: T,
    pub distance: T,
}

impl<T> LipSyncInfoModel<T> {
    /// The result that names no vowel, with `silence` for its three values.
    pub open spec fn unknown(silence: T) -> Self {
        LipSyncInfoModel {
            index: UNKNOWN_INDEX as int,
            phoneme: Seq::empty(),
            volume: silence,
            raw_volume: silence,
            distance: silence,
        }
    }
}

/// What one analysis pass says of the sound: the nearest vowel with its
/// label, the volume scaled into the profile's range, the raw volume, and the
/// distance to the vowel's reference vector.
pub struct LipSyncInfo<T> {
    pub index: i64,
    pub phoneme: String,
    pub volume: T,
    pub raw_volume: T,
    pub distance: T,
}

impl<T> View for LipSyncInfo<T> {
    type V = LipSyncInfoModel<T>;

    open spec fn view(&self) -> LipSyncInfoModel<T> {
        LipSyncInfoModel {
            index: self.index as int,
            phoneme: self.phoneme@,
            volume: self.volume,
            raw_volume: self.raw_volume,
            distance: self.distance,
        }
    }
}

impl<T: Copy> LipSyncInfo<T> {
    /// A result from its five parts.
    pub fn new(index: i64, phoneme: String, volume: T, raw_volume: T, distance: T) -> (info: Self)
        ensures
            info@ == (LipSyncInfoModel {
                index: index as int,
                phoneme: phoneme@,
                volume,
                raw_volume,
                distance,
            }),
    {
        LipSyncInfo { index, phoneme, volume, raw_volume, distance }
    }

    /// The result that names no vowel.
    pub fn unknown(silence: T) -> (info: Self)
        ensures
            info@ == LipSyncInfoModel::unknown(silence),
    {
        LipSyncInfo {
            index: UNKNOWN_INDEX,
            phoneme: String::new(),
            volume: silence,
            raw_volume: silence,
            distance: silence,
        }
    }

    /// A copy of the result.
    pub fn duplicate(&self) -> (info: Self)
        ensures
            info@ == self@,
    {
        LipSyncInfo {
            index: self.index,
            phoneme: self.phoneme.clone(),
            volume: self.volume,
            raw_volume: self.raw_volume,
            distance: self.distance,
        }
    }
}

} // verus!
