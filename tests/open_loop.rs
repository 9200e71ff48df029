use segment_recon::calib::{Calib, Mode, Quantity};
use segment_recon::error::ReconError;
use segment_recon::pseudo_open_loop::PseudoOpenLoop;
use segment_recon::reconstructor::Reconstructor;

fn mat_vec(m: &[f64], rows: usize, cols: usize, x: &[f64]) -> Vec<f64> {
    let mut y = vec![0.0; rows];
    for c in 0..cols {
        for r in 0..rows {
            y[r] += m[c * rows + r] * x[c];
        }
    }
    y
}

fn emulator() -> PseudoOpenLoop<f64> {
    // two segments over four raw channels, with overlapping masks
    let s0 = Calib::new(vec![1.0, 2.0], 1, vec![true, true, false, false], Mode::Single(Quantity::RigidBodyMotions))
        .unwrap();
    let s1 = Calib::new(
        vec![1.0, 0.0, 0.0, 1.0],
        2,
        vec![false, true, true, false],
        Mode::Single(Quantity::RigidBodyMotions),
    )
    .unwrap();
    PseudoOpenLoop::new(Reconstructor::new(vec![s0, s1]).unwrap(), 0.0).unwrap()
}

fn update(p: &mut PseudoOpenLoop<f64>) {
    let cmds = p.segment_commands().unwrap();
    let ys: Vec<Vec<f64>> = cmds
        .iter()
        .enumerate()
        .map(|(s, c)| {
            let calib = p.recon().calib(s);
            mat_vec(calib.poke(), calib.n_rows(), calib.n_cols(), c)
        })
        .collect();
    p.accumulate(&ys, &|a: f64, b: f64| a + b).unwrap();
}

fn command(first: f64, second: [f64; 2]) -> Vec<f64> {
    let mut c = vec![0.0; 12];
    c[0] = first;
    c[6] = second[0];
    c[7] = second[1];
    c[8] = 1000.0; // beyond segment 1's two columns: never used
    c
}

#[test]
fn synthesizes_masked_measurements() {
    let mut p = emulator();
    assert_eq!(p.write(), &vec![0.0; 4]);
    p.read_command(command(1.0, [10.0, 20.0])).unwrap();
    assert_eq!(p.segment_commands().unwrap(), vec![vec![1.0], vec![10.0, 20.0]]);
    update(&mut p);
    assert_eq!(p.write(), &vec![1.0, 12.0, 20.0, 0.0]);
}

#[test]
fn successive_updates_accumulate() {
    let (c1, c2) = (command(1.0, [10.0, 20.0]), command(-3.0, [0.5, 4.0]));
    let mut alone1 = emulator();
    alone1.read_command(c1.clone()).unwrap();
    update(&mut alone1);
    let mut alone2 = emulator();
    alone2.read_command(c2.clone()).unwrap();
    update(&mut alone2);
    let mut both = emulator();
    both.read_command(c1).unwrap();
    update(&mut both);
    both.read_command(c2).unwrap();
    update(&mut both);
    let sum: Vec<f64> = alone1.write().iter().zip(alone2.write()).map(|(a, b)| a + b).collect();
    assert_eq!(both.write(), &sum);
}

#[test]
fn sensor_data_overwrites_the_buffer() {
    let mut p = emulator();
    p.read_command(command(1.0, [0.0, 0.0])).unwrap();
    update(&mut p);
    p.read_sensor_data(vec![5.0, 5.0, 5.0, 5.0]).unwrap();
    assert_eq!(p.write(), &vec![5.0, 5.0, 5.0, 5.0]);
    update(&mut p);
    assert_eq!(p.write(), &vec![6.0, 7.0, 5.0, 5.0]);
    assert_eq!(p.read_sensor_data(vec![1.0]), Err(ReconError::DataLength { expected: 4, found: 1 }));
}

#[test]
fn command_length_and_width_are_checked() {
    let mut p = emulator();
    assert_eq!(p.segment_commands().err(), Some(ReconError::CommandLength { segments: 2, found: 0 }));
    assert_eq!(p.read_command(vec![0.0; 7]), Err(ReconError::CommandLength { segments: 2, found: 7 }));
    assert_eq!(
        p.accumulate(&vec![vec![1.0]], &|a: f64, b: f64| a + b),
        Err(ReconError::DataLength { expected: 2, found: 1 })
    );
    assert_eq!(
        p.accumulate(&vec![vec![1.0, 2.0], vec![1.0]], &|a: f64, b: f64| a + b),
        Err(ReconError::SegmentLength { segment: 1, expected: 2, found: 1 })
    );
    let wide = Calib::new(vec![0.0; 7], 7, vec![true], Mode::Single(Quantity::Modes)).unwrap();
    let r = PseudoOpenLoop::new(Reconstructor::new(vec![wide]).unwrap(), 0.0);
    assert_eq!(r.err(), Some(ReconError::CommandWidth { segment: 0, width: 7 }));
}
