use ota_sweep::sweep::{PowerSweep, SweepError};

#[test]
fn sweep_from_minus_10_to_minus_5_by_1() {
    let mut s = PowerSweep::new(5_180_000_000, 40, 0, -1000, -500, 100, 4000).unwrap();
    assert_eq!(s.total_steps(), 6);
    let mut levels = Vec::new();
    while let Some(step) = s.next_step(false) {
        assert_eq!(step.step_index, levels.len() as u64 + 1);
        assert_eq!(step.total_steps, 6);
        levels.push(step.power_cdbm);
    }
    assert_eq!(levels, vec![-1000, -900, -800, -700, -600, -500]);
    assert!(s.next_step(false).is_none());
}

#[test]
fn cancellation_after_two_steps() {
    let mut s = PowerSweep::new(5_180_000_000, 40, 0, -1000, -500, 100, 4000).unwrap();
    assert_eq!(s.next_step(false).unwrap().step_index, 1);
    assert_eq!(s.next_step(false).unwrap().step_index, 2);
    assert!(s.next_step(true).is_none());
    assert!(s.next_step(false).is_none());
}

#[test]
fn cable_loss_is_added_to_the_commanded_power() {
    let mut s = PowerSweep::new(2_412_000_000, 20, 350, -2000, -2000, 50, 4000).unwrap();
    let step = s.next_step(false).unwrap();
    assert_eq!(step.power_cdbm, -2000);
    assert_eq!(step.output_cdbm, -1650);
    assert!(s.next_step(false).is_none());
}

#[test]
fn end_between_levels_is_not_passed() {
    let mut s = PowerSweep::new(2_412_000_000, 20, 0, 0, 250, 100, 4000).unwrap();
    assert_eq!(s.total_steps(), 3);
    let mut last = 0;
    while let Some(step) = s.next_step(false) {
        last = step.power_cdbm;
    }
    assert_eq!(last, 200);
}

#[test]
fn empty_range_gives_no_steps() {
    let mut s = PowerSweep::new(2_412_000_000, 20, 0, 100, 0, 0, 4000).unwrap();
    assert_eq!(s.total_steps(), 0);
    assert!(s.next_step(false).is_none());
}

#[test]
fn bad_settings_are_refused() {
    assert!(matches!(
        PowerSweep::new(1, 20, 0, 0, 100, 0, 4),
        Err(SweepError::NonPositiveStep)
    ));
    assert!(matches!(
        PowerSweep::new(1, 20, 0, 0, 100, -5, 4),
        Err(SweepError::NonPositiveStep)
    ));
    assert!(matches!(PowerSweep::new(1, 0, 0, 0, 100, 5, 4), Err(SweepError::ZeroBandwidth)));
}

#[test]
fn wait_time_and_carrier() {
    let s = PowerSweep::new(5_180_499_999, 20, 0, 0, 0, 1, 160_000).unwrap();
    assert_eq!(s.wait_us(), 40_000 * 1_000_000 / 40_000_000 + 100);
    assert_eq!(s.carrier_mhz(), 5180);
    assert_eq!(s.bw_mhz(), 20);
    let t = PowerSweep::new(5_180_500_000, 20, 0, 0, 0, 1, 0).unwrap();
    assert_eq!(t.carrier_mhz(), 5181);
    assert_eq!(t.wait_us(), 100);
}

#[test]
fn prepare_arms_at_first_level_plus_loss() {
    let s = PowerSweep::new(5_180_000_000, 40, 300, -1000, -500, 100, 8).unwrap();
    let steps = s.prepare(&[0; 8]).unwrap();
    assert_eq!(steps.len(), 17);
    match &steps[2] {
        ota_sweep::vsg::ScpiStep::Write(c) => assert_eq!(c, "power -7"),
        _ => panic!("expected the power command"),
    }
    let wide = PowerSweep::new(5_180_000_000, 160, 0, 0, 0, 1, 8).unwrap();
    assert!(wide.prepare(&[0; 8]).is_err());
}
