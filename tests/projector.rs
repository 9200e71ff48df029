use segment_recon::error::ReconError;
use segment_recon::m1_bending_modes::M1BendingModes;

fn projector() -> M1BendingModes<f64> {
    // segment 0: 3 samples, 2 modes; segment 1: 2 samples, 1 mode; width 3
    let b0 = vec![1.0, 0.0, 0.0, 0.0, 1.0, 0.0];
    let b1 = vec![0.6, 0.8];
    M1BendingModes::new(vec![b0, b1], vec![(3, 2), (2, 1)], 3, 0.0).unwrap()
}

fn update(m: &mut M1BendingModes<f64>) {
    let xs = m.segment_samples().unwrap();
    let coefs: Vec<Vec<f64>> = xs
        .iter()
        .enumerate()
        .map(|(i, x)| {
            let (ns, na) = m.shape(i);
            let b = m.basis(i);
            (0..na).map(|k| (0..ns).map(|r| b[k * ns + r] * x[r]).sum()).collect()
        })
        .collect();
    m.store_coefficients(&coefs).unwrap();
}

#[test]
fn coefficients_are_zero_padded_per_segment() {
    let mut m = projector();
    assert_eq!(m.n_samples(), 5);
    m.read(vec![2.0, 3.0, 7.0, 5.0, 10.0]).unwrap();
    assert_eq!(m.segment_samples().unwrap(), vec![vec![2.0, 3.0, 7.0], vec![5.0, 10.0]]);
    update(&mut m);
    let out = m.write();
    assert_eq!(out.len(), 6);
    assert_eq!(out[0], 2.0);
    assert_eq!(out[1], 3.0);
    assert_eq!(out[2], 0.0);
    assert!((out[3] - 11.0).abs() < 1e-12);
    assert_eq!(out[4], 0.0);
    assert_eq!(out[5], 0.0);
}

#[test]
fn padding_stays_zero_for_any_input() {
    let mut m = projector();
    for k in 0..5 {
        let s: Vec<f64> = (0..5).map(|i| (i * 7 + k) as f64 - 12.5).collect();
        m.read(s).unwrap();
        update(&mut m);
        let out = m.write();
        assert_eq!(out[2], 0.0);
        assert_eq!(out[4], 0.0);
        assert_eq!(out[5], 0.0);
    }
}

#[test]
fn projector_checks_shapes() {
    assert_eq!(
        M1BendingModes::new(vec![vec![1.0; 5]], vec![(3, 2)], 3, 0.0).err(),
        Some(ReconError::BasisShape { segment: 0, samples: 3, modes: 2, found: 5 })
    );
    assert_eq!(
        M1BendingModes::new(vec![vec![1.0; 8]], vec![(2, 4)], 3, 0.0).err(),
        Some(ReconError::ModeCount { segment: 0, width: 3 })
    );
    assert_eq!(
        M1BendingModes::new(vec![], vec![(2, 1)], 3, 0.0).err(),
        Some(ReconError::DataLength { expected: 1, found: 0 })
    );
    let mut m = projector();
    assert_eq!(m.read(vec![1.0]), Err(ReconError::DataLength { expected: 5, found: 1 }));
    assert_eq!(
        m.store_coefficients(&vec![vec![1.0], vec![1.0]]),
        Err(ReconError::SegmentLength { segment: 0, expected: 2, found: 1 })
    );
}

#[test]
fn projector_works_on_integers() {
    let mut m = M1BendingModes::new(vec![vec![1i64, 1]], vec![(2, 1)], 4, 0i64).unwrap();
    m.read(vec![3, 4]).unwrap();
    m.store_coefficients(&vec![vec![7]]).unwrap();
    assert_eq!(m.write(), &vec![7, 0, 0, 0]);
}
