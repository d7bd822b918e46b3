use lipsync::common::{LipSyncInfo, UNKNOWN_INDEX};

#[test]
fn info_holds_its_five_parts() {
    let info = LipSyncInfo::new(2, "U".to_string(), 0.5_f64, 0.01, 1.25);
    assert_eq!(info.index, 2);
    assert_eq!(info.phoneme, "U");
    assert_eq!(info.volume, 0.5);
    assert_eq!(info.raw_volume, 0.01);
    assert_eq!(info.distance, 1.25);
}

#[test]
fn unknown_info_names_no_vowel() {
    let info = LipSyncInfo::unknown(0.0_f64);
    assert_eq!(UNKNOWN_INDEX, -1);
    assert_eq!(info.index, -1);
    assert_eq!(info.phoneme, "");
    assert_eq!(info.volume, 0.0);
    assert_eq!(info.raw_volume, 0.0);
    assert_eq!(info.distance, 0.0);
}

#[test]
fn duplicate_info_is_equal_in_every_part() {
    let info = LipSyncInfo::new(1, "I".to_string(), 0.75_f64, 0.02, 3.5);
    let copy = info.duplicate();
    assert_eq!(copy.index, 1);
    assert_eq!(copy.phoneme, "I");
    assert_eq!(copy.volume, 0.75);
    assert_eq!(copy.raw_volume, 0.02);
    assert_eq!(copy.distance, 3.5);
}
