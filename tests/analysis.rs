use asynthe::calibration::{subtract_baseline, CalibrationOutcome, NoiseCalibrator};
use asynthe::gate::{gate, threshold_db_from_ui, Loudness};
use asynthe::note::{Note, NoteContainer};
use asynthe::ranker::{band_average, band_energies, rank, select_top, transpose};

fn two_band_table() -> NoteContainer {
    // At 8 points and 8000 Hz one bin is 1000 Hz.
    NoteContainer::new("0 1500 1000 3000\n127 2500 2000 3000\n").unwrap()
}

#[test]
fn silent_frame_never_passes_gate() {
    for t in [i32::MIN, -80, -30, 0, i32::MAX] {
        assert!(!gate(Loudness::NegativeInfinity, t));
    }
}

#[test]
fn gate_compares_floor_strictly() {
    assert!(gate(Loudness::Db(-29), -30));
    assert!(!gate(Loudness::Db(-30), -30));
    assert!(!gate(Loudness::Db(-31), -30));
}

#[test]
fn threshold_scale() {
    assert_eq!(threshold_db_from_ui(0), -80);
    assert_eq!(threshold_db_from_ui(62), -30);
    assert_eq!(threshold_db_from_ui(50), -40);
    assert_eq!(threshold_db_from_ui(99), 0);
    assert_eq!(threshold_db_from_ui(100), 0);
}

#[test]
fn band_average_truncates_bins() {
    let m = vec![10, 20, 30, 41, 50];
    // Bins 1..4 at 1000 Hz per bin: (20 + 30 + 41) / 3.
    assert_eq!(band_average(&m, 1_500_000, 4_999_999, 8, 8000), Some(30));
    // Empty range.
    assert_eq!(band_average(&m, 1_000_000, 1_999_999, 8, 8000), None);
    // Range past the spectrum.
    assert_eq!(band_average(&m, 1_000_000, 6_000_000, 8, 8000), None);
    // Reversed range.
    assert_eq!(band_average(&m, 3_000_000, 1_000_000, 8, 8000), None);
}

#[test]
fn band_energies_follow_table_order() {
    let t = two_band_table();
    let e = band_energies(&t, &vec![0, 4, 8], 8, 8000);
    assert_eq!(e, vec![Some(6), Some(8)]);
}

#[test]
fn select_top_orders_and_skips_missing() {
    let e = vec![Some(5), None, Some(9), Some(1), Some(7)];
    assert_eq!(select_top(&e, 3), vec![2, 4, 0]);
    assert_eq!(select_top(&e, 10), vec![2, 4, 0, 3]);
    assert!(select_top(&e, 0).is_empty());
    assert!(select_top(&vec![None, None], 2).is_empty());
}

#[test]
fn rank_fills_unset_slots() {
    let t = two_band_table();
    let r: [Option<Note>; 4] = rank(&t, &vec![0, 4, 8], 8, 8000, 0);
    assert_eq!(r, [Some(Note(127)), Some(Note(0)), None, None]);
}

#[test]
fn rank_clamps_transposition_at_boundaries() {
    let t = two_band_table();
    let up: [Option<Note>; 2] = rank(&t, &vec![0, 4, 8], 8, 8000, 127);
    assert_eq!(up, [Some(Note(127)), Some(Note(127))]);
    let down: [Option<Note>; 2] = rank(&t, &vec![0, 4, 8], 8, 8000, -127);
    assert_eq!(down, [Some(Note(0)), Some(Note(0))]);
    let shifted: [Option<Note>; 2] = rank(&t, &vec![0, 4, 8], 8, 8000, -1);
    assert_eq!(shifted, [Some(Note(126)), Some(Note(0))]);
}

#[test]
fn transpose_values() {
    assert_eq!(transpose(60, 12), 72);
    assert_eq!(transpose(0, -1), 0);
    assert_eq!(transpose(127, 1), 127);
    assert_eq!(transpose(255, 0), 127);
    assert_eq!(transpose(10, i32::MIN), 0);
    assert_eq!(transpose(10, i32::MAX), 127);
}

#[test]
fn subtraction_never_goes_negative() {
    let mut m = vec![5, 3, 10];
    subtract_baseline(&mut m, &vec![2, 7, 10]);
    assert_eq!(m, vec![3, 0, 0]);
}

#[test]
fn calibration_round_trip_is_all_zero() {
    let frame = vec![7, 0, 123_456, 99];
    let mut c = NoiseCalibrator::new();
    let mut first = frame.clone();
    assert_eq!(c.apply(true, &mut first), CalibrationOutcome::Captured);
    assert_eq!(first, frame);
    assert!(c.is_active());
    let mut again = frame.clone();
    assert_eq!(c.apply(false, &mut again), CalibrationOutcome::Subtracted);
    assert_eq!(again, vec![0, 0, 0, 0]);
}

#[test]
fn stale_baseline_is_dropped() {
    let mut c = NoiseCalibrator::new();
    let mut base = vec![1, 1, 1];
    c.apply(true, &mut base);
    let mut longer = vec![5, 5, 5, 5];
    assert_eq!(c.apply(false, &mut longer), CalibrationOutcome::Untouched);
    assert_eq!(longer, vec![5, 5, 5, 5]);
    assert!(!c.is_active());
}

#[test]
fn idle_calibrator_leaves_frame() {
    let mut c = NoiseCalibrator::new();
    let mut m = vec![4, 2];
    assert_eq!(c.apply(false, &mut m), CalibrationOutcome::Untouched);
    assert_eq!(m, vec![4, 2]);
}
