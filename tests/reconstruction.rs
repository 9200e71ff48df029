use segment_recon::calib::{Calib, Mode, Quantity};
use segment_recon::channels::{M1Scopes, M2Scopes, SplitEstimate};
use segment_recon::error::{MergeError, ReconError};
use segment_recon::mask::{count_selected, gather};
use segment_recon::merge::MergeReconstructor;
use segment_recon::reconstructor::{retained_rank, Reconstructor};

fn calib(poke: Vec<f64>, n_cols: usize, mask: Vec<bool>, q: Quantity) -> Calib<f64> {
    Calib::new(poke, n_cols, mask, Mode::Single(q)).unwrap()
}

/// Column-major matrix (rows x cols) times vector.
fn mat_vec(m: &[f64], rows: usize, cols: usize, x: &[f64]) -> Vec<f64> {
    let mut y = vec![0.0; rows];
    for c in 0..cols {
        for r in 0..rows {
            y[r] += m[c * rows + r] * x[c];
        }
    }
    y
}

#[test]
fn gather_keeps_masked_entries_in_order() {
    let data = vec![1.0, 2.0, 3.0, 4.0, 5.0];
    let mask = vec![true, false, true, false, true];
    assert_eq!(gather(&data, &mask), vec![1.0, 3.0, 5.0]);
    assert_eq!(count_selected(&mask), 3);
    assert_eq!(gather(&data, &vec![false; 5]), Vec::<f64>::new());
}

#[test]
fn calib_rejects_poke_of_wrong_size() {
    let r = Calib::new(vec![1.0, 2.0, 3.0], 2, vec![true, true], Mode::Single(Quantity::Modes));
    assert_eq!(r.err(), Some(ReconError::PokeShape { rows: 2, cols: 2, found: 3 }));
    let ok = Calib::new(vec![1.0, 2.0, 3.0, 4.0], 2, vec![true, false, true], Mode::Single(Quantity::Modes))
        .unwrap();
    assert_eq!(ok.n_rows(), 2);
    assert_eq!(ok.n_cols(), 2);
}

#[test]
fn reconstructor_rejects_masks_of_other_length() {
    let a = calib(vec![1.0], 1, vec![true, false], Quantity::Modes);
    let b = calib(vec![1.0], 1, vec![true, false, false], Quantity::Modes);
    let r = Reconstructor::new(vec![a, b]);
    assert_eq!(r.err(), Some(ReconError::MaskLength { segment: 1, expected: 2, found: 3 }));
}

#[test]
fn inverses_must_match_shapes() {
    let a = calib(vec![1.0, 2.0], 1, vec![true, true], Quantity::Modes);
    let mut r = Reconstructor::new(vec![a]).unwrap();
    assert!(!r.is_inverted());
    assert_eq!(r.set_inverses(vec![]), Err(ReconError::InverseCount { expected: 1, found: 0 }));
    assert_eq!(
        r.set_inverses(vec![vec![1.0]]),
        Err(ReconError::InverseShape { segment: 0, expected: 2, found: 1 })
    );
    assert!(!r.is_inverted());
    assert_eq!(r.set_inverses(vec![vec![0.2, 0.4]]), Ok(()));
    assert!(r.is_inverted());
    assert_eq!(r.pinv(0), &vec![0.2, 0.4]);
}

#[test]
fn rank_caps_one_per_segment() {
    let a = calib(vec![1.0], 1, vec![true], Quantity::Modes);
    let r = Reconstructor::new(vec![a]).unwrap();
    assert_eq!(r.check_ranks(&vec![3]), Ok(()));
    assert_eq!(r.check_ranks(&vec![3, 4]), Err(ReconError::RankCount { expected: 1, found: 2 }));
}

#[test]
fn lower_rank_cap_keeps_no_more_singular_values() {
    assert_eq!(retained_rank(5, 3), 3);
    assert_eq!(retained_rank(5, 8), 5);
    let mut last = 0;
    for k in 0..10 {
        let kept = retained_rank(6, k);
        assert!(kept >= last);
        assert!(kept <= k);
        last = kept;
    }
    assert_eq!(last, 6);
}

#[test]
fn unmasked_entries_do_not_reach_the_inputs() {
    let a = calib(vec![1.0, 1.0], 1, vec![true, false, true, false], Quantity::Modes);
    let b = calib(vec![1.0], 1, vec![false, true, false, false], Quantity::Modes);
    let r = Reconstructor::new(vec![a, b]).unwrap();
    let d1 = vec![1.0, 2.0, 3.0, 4.0];
    let d2 = vec![1.0, 2.0, 3.0, -40.0];
    assert_eq!(r.segment_inputs(&d1), r.segment_inputs(&d2));
    assert_eq!(r.segment_inputs(&d1), vec![vec![1.0, 3.0], vec![2.0]]);
}

#[test]
fn rescale_inverse_scales_rows_by_space() {
    // one segment, 2 columns (1 + 1), 3 rows: inverse is 2 x 3
    let c = calib(vec![1.0, 2.0, 3.0, 4.0, 5.0, 6.0], 2, vec![true, true, true], Quantity::Modes);
    let mut r = Reconstructor::new(vec![c]).unwrap();
    r.set_inverses(vec![vec![1.0, 1.0, 1.0, 1.0, 1.0, 1.0]]).unwrap();
    r.rescale_inverse(0, 1, &|x: f64| x / 2.0, &|x: f64| x / 4.0);
    assert_eq!(r.pinv(0), &vec![0.5, 0.25, 0.5, 0.25, 0.5, 0.25]);
}

#[test]
fn rescale_calib_maps_every_entry() {
    let c = calib(vec![2.0, 4.0], 1, vec![true, true], Quantity::Modes);
    let mut r = Reconstructor::new(vec![c]).unwrap();
    r.rescale_calib(0, &|x: f64| x / 2.0);
    assert_eq!(r.calib(0).poke(), &vec![1.0, 2.0]);
    assert_eq!(r.calib(0).mask(), &vec![true, true]);
}

fn two_space_reconstructors() -> (Reconstructor<f64>, Reconstructor<f64>) {
    let mask = vec![true, false, true];
    let a = Reconstructor::new(vec![calib(vec![1.0, 0.0], 1, mask.clone(), Quantity::RigidBodyMotions)])
        .unwrap();
    let b = Reconstructor::new(vec![calib(vec![1.0, 2.0], 1, mask, Quantity::Modes)]).unwrap();
    (a, b)
}

#[test]
fn merge() {
    let (a, b) = two_space_reconstructors();
    let m = MergeReconstructor::new(&a, &b).unwrap();
    let c = m.recon().calib(0);
    assert_eq!(c.poke(), &vec![1.0, 0.0, 1.0, 2.0]);
    assert_eq!(c.n_cols(), 2);
    assert_eq!(c.n_rows(), 2);
    assert_eq!(c.mode(), Mode::Joint(Quantity::RigidBodyMotions, Quantity::Modes));
    assert_eq!(m.split(0), (1, 1));
    println!("{:?}", c.mode());
}

#[test]
fn merge_rejects_row_mismatch() {
    let a = Reconstructor::new(vec![calib(vec![1.0, 0.0], 1, vec![true, true], Quantity::Modes)]).unwrap();
    let b = Reconstructor::new(vec![calib(vec![1.0], 1, vec![true, false], Quantity::Modes)]).unwrap();
    assert_eq!(
        MergeReconstructor::new(&a, &b).err(),
        Some(MergeError::DimensionMismatch { segment: 0, rows_a: 2, rows_b: 1 })
    );
}

#[test]
fn merge_rejects_mask_mismatch() {
    let a = Reconstructor::new(vec![calib(vec![1.0], 1, vec![true, false], Quantity::Modes)]).unwrap();
    let b = Reconstructor::new(vec![calib(vec![1.0], 1, vec![false, true], Quantity::Modes)]).unwrap();
    assert_eq!(MergeReconstructor::new(&a, &b).err(), Some(MergeError::MaskMismatch { segment: 0 }));
}

#[test]
fn merge_rejects_segment_count_mismatch() {
    let a = Reconstructor::new(vec![calib(vec![1.0], 1, vec![true], Quantity::Modes)]).unwrap();
    let b = Reconstructor::new(vec![]).unwrap();
    assert_eq!(MergeReconstructor::new(&a, &b).err(), Some(MergeError::SegmentCount { a: 1, b: 0 }));
}

#[test]
fn merged_estimate_splits_into_both_spaces() {
    let (a, b) = two_space_reconstructors();
    let mut m = MergeReconstructor::new(&a, &b).unwrap();
    // C = [[1, 1], [0, 2]] (column-major 1,0,1,2); its inverse [[1, -0.5], [0, 0.5]]
    m.set_inverses(vec![vec![1.0, 0.0, -0.5, 0.5]]).unwrap();
    let (ca, cb) = (3.0, -2.0);
    let y = mat_vec(m.recon().calib(0).poke(), 2, 2, &[ca, cb]);
    // raw channels: the masked-out middle channel holds garbage
    m.read(vec![y[0], 99.0, y[1]]).unwrap();
    let xs = m.segment_inputs().unwrap();
    assert_eq!(xs, vec![y.clone()]);
    let est = mat_vec(m.recon().pinv(0), 2, 2, &xs[0]);
    m.store_estimates(&vec![est]).unwrap();
    assert!((m.write(0).unwrap()[0] - ca).abs() < 1e-12);
    assert!((m.write(1).unwrap()[0] - cb).abs() < 1e-12);
    assert_eq!(m.write_split(SplitEstimate::First), m.write(0).unwrap());
    assert_eq!(m.write(2), Err(MergeError::UndefinedSplit { index: 2 }));
}

#[test]
fn store_estimates_concatenates_segments_in_order() {
    let mask = vec![true];
    let a = Reconstructor::new(vec![
        calib(vec![1.0, 2.0], 2, mask.clone(), Quantity::RigidBodyMotions),
        calib(vec![1.0], 1, mask.clone(), Quantity::RigidBodyMotions),
    ])
    .unwrap();
    let b = Reconstructor::new(vec![
        calib(vec![3.0], 1, mask.clone(), Quantity::Modes),
        calib(vec![4.0, 5.0], 2, mask.clone(), Quantity::Modes),
    ])
    .unwrap();
    let mut m = MergeReconstructor::new(&a, &b).unwrap();
    assert_eq!(m.split(0), (2, 1));
    assert_eq!(m.split(1), (1, 2));
    assert_eq!(
        m.store_estimates(&vec![vec![1.0, 2.0, 3.0], vec![4.0, 5.0]]),
        Err(MergeError::Recon(ReconError::SegmentLength { segment: 1, expected: 3, found: 2 }))
    );
    assert_eq!(
        m.store_estimates(&vec![vec![1.0, 2.0, 3.0]]),
        Err(MergeError::Recon(ReconError::DataLength { expected: 2, found: 1 }))
    );
    m.store_estimates(&vec![vec![1.0, 2.0, 3.0], vec![4.0, 5.0, 6.0]]).unwrap();
    assert_eq!(m.write(0).unwrap(), &vec![1.0, 2.0, 4.0]);
    assert_eq!(m.write(1).unwrap(), &vec![3.0, 5.0, 6.0]);
}

#[test]
fn merge_read_checks_length() {
    let (a, b) = two_space_reconstructors();
    let mut m = MergeReconstructor::new(&a, &b).unwrap();
    assert_eq!(
        m.segment_inputs().err(),
        Some(MergeError::Recon(ReconError::DataLength { expected: 3, found: 0 }))
    );
    assert_eq!(
        m.read(vec![1.0, 2.0]),
        Err(MergeError::Recon(ReconError::DataLength { expected: 3, found: 2 }))
    );
}

#[test]
fn single_keeps_calibrations_in_first_space() {
    let (a, _) = two_space_reconstructors();
    let m = MergeReconstructor::single(&a).unwrap();
    assert_eq!(m.split(0), (1, 0));
    assert_eq!(m.recon().calib(0).poke(), &vec![1.0, 0.0]);
    assert_eq!(m.recon().calib(0).mode(), Mode::Single(Quantity::Unspecified));
}

#[test]
fn split_estimate_indices() {
    assert_eq!(SplitEstimate::from_index(0), Some(SplitEstimate::First));
    assert_eq!(SplitEstimate::from_index(1), Some(SplitEstimate::Second));
    assert_eq!(SplitEstimate::from_index(2), None);
    assert_eq!(SplitEstimate::Second.index(), 1);
}

#[test]
fn scope_ports() {
    assert_eq!(M1Scopes::Piston.port(), 5001);
    assert_eq!(M2Scopes::Piston.port(), 5002);
    assert_eq!(M1Scopes::TipTilt.port(), 5003);
    assert_eq!(M2Scopes::TipTilt.port(), 5004);
}
