use traxat::angle::Angle;
use traxat::hardware::{Axis, HardwareError, HardwareStatus};
use traxat::rotator::{
    count_steps, Rotator, HOME_AZIMUTH, HOME_ELEVATION, MOTOR_AZ_GPIO, MOTOR_ELE_GPIO,
    STEPS_PER_ROT, UNITS_PER_ROT,
};
use traxat::sequencer::{CoilSequencer, Drive, Signal, StepDirection, ALL_OFF, PHASE_TABLE};

fn degrees(whole: i32) -> Angle {
    Angle::from_degrees(whole)
}

fn units(microdegrees: i64) -> Angle {
    Angle { microdegrees }
}

fn ready() -> HardwareStatus {
    HardwareStatus::ready()
}

fn nothing_there() -> HardwareStatus {
    HardwareStatus { device_readable: false, elevation_lines: false, azimuth_lines: false }
}

fn run(drives: Vec<Drive>) -> Vec<Signal> {
    let mut signals: Vec<Signal> = Vec::new();
    for mut drive in drives {
        while let Some(signal) = drive.next_signal() {
            signals.push(signal);
        }
    }
    signals
}

fn on_lines(signals: &[Signal], lines: [u8; 4]) -> usize {
    signals.iter().filter(|signal| signal.lines == lines).count()
}

fn steps_on(signals: &[Signal], lines: [u8; 4]) -> usize {
    signals.iter().filter(|signal| signal.lines == lines && signal.levels != ALL_OFF).count()
}

#[test]
fn constants_of_the_mechanics() {
    assert_eq!(STEPS_PER_ROT, 512);
    assert_eq!(UNITS_PER_ROT, 360_000_000);
    assert_eq!(MOTOR_ELE_GPIO, [6, 13, 19, 26]);
    assert_eq!(MOTOR_AZ_GPIO, [9, 11, 0, 5]);
    assert_eq!(HOME_ELEVATION, 20_000_000);
    assert_eq!(HOME_AZIMUTH, 0);
}

#[test]
fn new_rotator_is_at_home() {
    let rotator = Rotator::new();
    assert_eq!(rotator.get_position(), (degrees(0), degrees(20)));
    assert_eq!(rotator.ele_target, degrees(20));
    assert_eq!(rotator.az_target, degrees(0));
    assert_eq!(rotator.num_steps, 0);
    assert_eq!(rotator.ele_sequencer.phase(), 3);
    assert_eq!(rotator.az_sequencer.phase(), 3);
}

#[test]
fn count_steps_of_round_angles() {
    assert_eq!(count_steps(degrees(0), degrees(360)), 512);
    assert_eq!(count_steps(degrees(0), degrees(180)), 256);
    assert_eq!(count_steps(degrees(0), degrees(90)), 128);
    assert_eq!(count_steps(degrees(0), degrees(45)), 64);
    assert_eq!(count_steps(degrees(90), degrees(0)), -128);
    assert_eq!(count_steps(degrees(20), degrees(20)), 0);
    assert_eq!(count_steps(degrees(-180), degrees(180)), 512);
}

#[test]
fn count_steps_rounds_to_the_nearest_step() {
    // one step is 0.703125 degrees
    assert_eq!(count_steps(units(0), units(703_125)), 1);
    assert_eq!(count_steps(units(0), units(351_562)), 0);
    assert_eq!(count_steps(units(0), units(351_563)), 1);
    assert_eq!(count_steps(units(0), units(-351_562)), 0);
    assert_eq!(count_steps(units(0), units(-351_563)), -1);
    assert_eq!(count_steps(degrees(0), degrees(1)), 1);
    assert_eq!(count_steps(degrees(0), degrees(25)), 36);
    assert_eq!(count_steps(degrees(0), degrees(-25)), -36);
    assert_eq!(count_steps(units(0), units(1_054_687)), 1);
    assert_eq!(count_steps(units(0), units(1_054_688)), 2);
}

#[test]
fn count_steps_stays_within_half_a_step() {
    let mut to: i64 = -400_000_000;
    while to <= 400_000_000 {
        let steps = count_steps(units(0), units(to)) as i128;
        let off = 2 * (steps * 360_000_000 - (to as i128) * 512);
        assert!((-360_000_000..=360_000_000).contains(&off));
        to += 1_234_567;
    }
}

#[test]
fn count_steps_at_the_limits() {
    assert_eq!(count_steps(units(i64::MIN), units(i64::MAX)), 26_235_369_349_276);
    assert_eq!(count_steps(units(i64::MAX), units(i64::MIN)), -26_235_369_349_276);
}

#[test]
fn set_target_reaches_the_target() {
    let mut rotator = Rotator::new();
    let drives = rotator.set_target(degrees(90), degrees(45), &ready()).unwrap();
    assert_eq!(rotator.get_position(), (degrees(90), degrees(45)));
    assert_eq!(rotator.az_target, degrees(90));
    assert_eq!(rotator.ele_target, degrees(45));
    // 25 degrees of elevation are 36 steps, 90 degrees of azimuth are 128
    assert_eq!(
        drives,
        vec![
            Drive {
                lines: MOTOR_ELE_GPIO,
                direction: StepDirection::Forward,
                sequencer: CoilSequencer::new(),
                remaining: 36,
                released: false,
            },
            Drive {
                lines: MOTOR_AZ_GPIO,
                direction: StepDirection::Forward,
                sequencer: CoilSequencer::new(),
                remaining: 128,
                released: false,
            },
        ]
    );
    let signals = run(drives);
    assert_eq!(steps_on(&signals, MOTOR_ELE_GPIO), 36);
    assert_eq!(steps_on(&signals, MOTOR_AZ_GPIO), 128);
    assert_eq!(signals.len(), 36 + 1 + 128 + 1);
}

#[test]
fn set_target_keeps_fractions_exactly() {
    let mut rotator = Rotator::new();
    rotator.set_target(units(123_456_789), units(-1), &ready()).unwrap();
    assert_eq!(rotator.get_position(), (units(123_456_789), units(-1)));
}

#[test]
fn mv_drives_elevation_first() {
    let mut rotator = Rotator::new();
    let signals = run(rotator.set_target(degrees(90), degrees(45), &ready()).unwrap());
    for signal in &signals[..37] {
        assert_eq!(signal.lines, MOTOR_ELE_GPIO);
    }
    for signal in &signals[37..] {
        assert_eq!(signal.lines, MOTOR_AZ_GPIO);
    }
    assert_eq!(signals[36].levels, ALL_OFF);
    assert_eq!(signals[signals.len() - 1].levels, ALL_OFF);
    assert_eq!(signals[0].levels, PHASE_TABLE[0]);
    assert_eq!(signals[1].levels, PHASE_TABLE[1]);
    assert_eq!(signals[37].levels, PHASE_TABLE[0]);
}

#[test]
fn mv_turns_backward_for_a_smaller_angle() {
    let mut rotator = Rotator::new();
    let drives = rotator.set_target(degrees(0), degrees(10), &ready()).unwrap();
    // 10 degrees down are 14 steps backward, from the last phase
    assert_eq!(drives.len(), 1);
    assert_eq!(drives[0].direction, StepDirection::Backward);
    assert_eq!(drives[0].remaining, 14);
    let signals = run(drives);
    assert_eq!(signals.len(), 15);
    assert_eq!(signals[0].levels, PHASE_TABLE[2]);
    assert_eq!(signals[1].levels, PHASE_TABLE[1]);
    assert_eq!(signals[2].levels, PHASE_TABLE[0]);
    assert_eq!(signals[3].levels, PHASE_TABLE[3]);
    assert_eq!(rotator.ele_sequencer.phase(), 1);
    assert_eq!(rotator.az_sequencer.phase(), 3);
}

#[test]
fn mv_to_the_current_position_starts_no_drive() {
    let mut rotator = Rotator::new();
    let before = rotator;
    assert_eq!(rotator.mv(&ready()).unwrap(), vec![]);
    assert_eq!(rotator, before);
    rotator.set_target(degrees(90), degrees(45), &ready()).unwrap();
    let there = rotator;
    assert_eq!(rotator.set_target(degrees(90), degrees(45), &ready()).unwrap(), vec![]);
    assert_eq!(rotator.mv(&ready()).unwrap(), vec![]);
    assert_eq!(rotator, there);
}

#[test]
fn mv_to_the_current_position_needs_no_hardware() {
    let mut rotator = Rotator::new();
    assert_eq!(rotator.mv(&nothing_there()), Ok(vec![]));
    assert_eq!(rotator.zero(&nothing_there()), Ok(vec![]));
    assert_eq!(rotator.set_target(degrees(0), degrees(20), &nothing_there()), Ok(vec![]));
}

#[test]
fn mv_skips_an_axis_that_is_less_than_half_a_step_away() {
    let mut rotator = Rotator::new();
    let drives = rotator.set_target(units(300_000), degrees(45), &ready()).unwrap();
    assert_eq!(drives.len(), 1);
    let signals = run(drives);
    assert_eq!(on_lines(&signals, MOTOR_AZ_GPIO), 0);
    assert_eq!(on_lines(&signals, MOTOR_ELE_GPIO), 37);
    assert_eq!(rotator.az, units(300_000));
    assert_eq!(rotator.az_sequencer.phase(), 3);
}

#[test]
fn mv_asks_only_for_the_axis_that_moves() {
    let azimuth_missing =
        HardwareStatus { device_readable: true, elevation_lines: true, azimuth_lines: false };
    let mut rotator = Rotator::new();
    let drives = rotator.set_target(degrees(0), degrees(45), &azimuth_missing).unwrap();
    assert_eq!(drives.len(), 1);
    assert_eq!(drives[0].lines, MOTOR_ELE_GPIO);
    assert_eq!(run(drives).len(), 37);
    let elevation_missing =
        HardwareStatus { device_readable: true, elevation_lines: false, azimuth_lines: true };
    let drives = rotator.set_target(degrees(90), degrees(45), &elevation_missing).unwrap();
    assert_eq!(drives.len(), 1);
    assert_eq!(drives[0].lines, MOTOR_AZ_GPIO);
    assert_eq!(run(drives).len(), 129);
}

#[test]
fn mv_without_device_changes_nothing() {
    let unreadable =
        HardwareStatus { device_readable: false, elevation_lines: true, azimuth_lines: true };
    let mut rotator = Rotator::new();
    rotator.az_target = degrees(90);
    rotator.ele_target = degrees(45);
    let before = rotator;
    assert_eq!(rotator.mv(&unreadable), Err(HardwareError::DeviceUnreadable));
    assert_eq!(rotator, before);
    assert_eq!(rotator.get_position(), (degrees(0), degrees(20)));
}

#[test]
fn mv_without_lines_changes_nothing() {
    let mut rotator = Rotator::new();
    rotator.az_target = degrees(90);
    rotator.ele_target = degrees(45);
    let before = rotator;
    let elevation_missing =
        HardwareStatus { device_readable: true, elevation_lines: false, azimuth_lines: true };
    assert_eq!(
        rotator.mv(&elevation_missing),
        Err(HardwareError::LinesUnavailable(Axis::Elevation))
    );
    assert_eq!(rotator, before);
    let azimuth_missing =
        HardwareStatus { device_readable: true, elevation_lines: true, azimuth_lines: false };
    assert_eq!(rotator.mv(&azimuth_missing), Err(HardwareError::LinesUnavailable(Axis::Azimuth)));
    assert_eq!(rotator, before);
    let both_missing =
        HardwareStatus { device_readable: true, elevation_lines: false, azimuth_lines: false };
    assert_eq!(rotator.mv(&both_missing), Err(HardwareError::LinesUnavailable(Axis::Elevation)));
    assert_eq!(rotator.mv(&nothing_there()), Err(HardwareError::DeviceUnreadable));
    assert_eq!(rotator, before);
}

#[test]
fn set_target_that_fails_keeps_the_position_and_stores_the_target() {
    let mut rotator = Rotator::new();
    assert_eq!(
        rotator.set_target(degrees(90), degrees(45), &nothing_there()),
        Err(HardwareError::DeviceUnreadable)
    );
    assert_eq!(rotator.get_position(), (degrees(0), degrees(20)));
    assert_eq!(rotator.az_target, degrees(90));
    assert_eq!(rotator.ele_target, degrees(45));
    assert_eq!(rotator.ele_sequencer.phase(), 3);
    // the move can be tried again once the hardware is there
    let signals = run(rotator.mv(&ready()).unwrap());
    assert_eq!(signals.len(), 166);
    assert_eq!(rotator.get_position(), (degrees(90), degrees(45)));
}

#[test]
fn zero_returns_home() {
    let mut rotator = Rotator::new();
    rotator.set_target(degrees(90), degrees(45), &ready()).unwrap();
    let drives = rotator.zero(&ready()).unwrap();
    assert_eq!(rotator.get_position(), (degrees(0), degrees(20)));
    assert_eq!(drives.len(), 2);
    assert_eq!(drives[0].direction, StepDirection::Backward);
    assert_eq!(drives[1].direction, StepDirection::Backward);
    let signals = run(drives);
    assert_eq!(steps_on(&signals, MOTOR_ELE_GPIO), 36);
    assert_eq!(steps_on(&signals, MOTOR_AZ_GPIO), 128);
    assert_eq!(rotator.ele_sequencer.phase(), 3);
    assert_eq!(rotator.az_sequencer.phase(), 3);
}

#[test]
fn zero_twice_is_zero_once() {
    let mut rotator = Rotator::new();
    rotator.set_target(degrees(123), degrees(67), &ready()).unwrap();
    rotator.zero(&ready()).unwrap();
    let once = rotator;
    assert_eq!(rotator.zero(&ready()), Ok(vec![]));
    assert_eq!(rotator, once);
    assert_eq!(rotator.get_position(), (degrees(0), degrees(20)));
    assert_eq!(rotator.zero(&nothing_there()), Ok(vec![]));
    assert_eq!(rotator, once);
}

#[test]
fn step_test_drives_the_elevation_motor() {
    let mut rotator = Rotator::new();
    let before = rotator.get_position();
    let drives = rotator.step_test(10, &ready()).unwrap();
    assert_eq!(drives.len(), 1);
    assert_eq!(drives[0].lines, MOTOR_ELE_GPIO);
    assert_eq!(drives[0].remaining, 10);
    let signals = run(drives);
    assert_eq!(signals.len(), 11);
    assert_eq!(steps_on(&signals, MOTOR_ELE_GPIO), 10);
    assert_eq!(on_lines(&signals, MOTOR_AZ_GPIO), 0);
    assert_eq!(signals[0].levels, PHASE_TABLE[0]);
    assert_eq!(signals[9].levels, PHASE_TABLE[1]);
    assert_eq!(signals[10].levels, ALL_OFF);
    assert_eq!(rotator.get_position(), before);
    assert_eq!(rotator.num_steps, 10);
    assert_eq!(rotator.ele_sequencer.phase(), 1);
    assert_eq!(rotator.az_sequencer.phase(), 3);
}

#[test]
fn step_test_backward_for_a_negative_count() {
    let mut rotator = Rotator::new();
    let signals = run(rotator.step_test(-3, &ready()).unwrap());
    assert_eq!(signals.len(), 4);
    assert_eq!(signals[0].levels, PHASE_TABLE[2]);
    assert_eq!(signals[1].levels, PHASE_TABLE[1]);
    assert_eq!(signals[2].levels, PHASE_TABLE[0]);
    assert_eq!(rotator.num_steps, -3);
    assert_eq!(rotator.get_position(), (degrees(0), degrees(20)));
}

#[test]
fn step_test_of_no_steps_reads_the_device_only() {
    let lines_missing =
        HardwareStatus { device_readable: true, elevation_lines: false, azimuth_lines: false };
    let mut rotator = Rotator::new();
    assert_eq!(rotator.step_test(0, &lines_missing), Ok(vec![]));
    assert_eq!(rotator.step_test(0, &nothing_there()), Err(HardwareError::DeviceUnreadable));
}

#[test]
fn step_test_needs_the_elevation_lines() {
    let elevation_missing =
        HardwareStatus { device_readable: true, elevation_lines: false, azimuth_lines: true };
    let mut rotator = Rotator::new();
    assert_eq!(
        rotator.step_test(5, &elevation_missing),
        Err(HardwareError::LinesUnavailable(Axis::Elevation))
    );
    assert_eq!(rotator.num_steps, 5);
    assert_eq!(rotator.ele_sequencer.phase(), 3);
    let azimuth_missing =
        HardwareStatus { device_readable: true, elevation_lines: true, azimuth_lines: false };
    assert_eq!(run(rotator.test_steppers(&azimuth_missing).unwrap()).len(), 6);
}

#[test]
fn move_steppers_drives_one_axis() {
    let mut rotator = Rotator::new();
    let signals = run(vec![rotator.move_steppers(-2, Axis::Azimuth)]);
    assert_eq!(signals.len(), 3);
    assert_eq!(on_lines(&signals, MOTOR_AZ_GPIO), 3);
    assert_eq!(rotator.az_sequencer.phase(), 1);
    assert_eq!(rotator.ele_sequencer.phase(), 3);
    assert_eq!(rotator.get_position(), (degrees(0), degrees(20)));
    let signals = run(vec![rotator.move_steppers(0, Axis::Elevation)]);
    assert_eq!(signals.len(), 1);
    assert_eq!(signals[0].levels, ALL_OFF);
}

#[test]
fn step_test_of_the_largest_count_is_planned_at_once() {
    let mut rotator = Rotator::new();
    let drives = rotator.step_test(i32::MIN, &ready()).unwrap();
    assert_eq!(drives.len(), 1);
    assert_eq!(drives[0].remaining, 2_147_483_648);
    assert_eq!(drives[0].direction, StepDirection::Backward);
    assert_eq!(rotator.ele_sequencer.phase(), 3);
    let far = rotator.set_target(units(i64::MAX), units(i64::MIN), &ready()).unwrap();
    assert_eq!(far[0].remaining, 13_117_684_674_666);
    assert_eq!(far[1].remaining, 13_117_684_674_638);
    assert_eq!(rotator.get_position(), (units(i64::MAX), units(i64::MIN)));
}

#[test]
fn hardware_error_describes_itself() {
    assert_eq!(HardwareError::DeviceUnreadable.describe(), "device model unreadable");
    assert_eq!(
        HardwareError::LinesUnavailable(Axis::Elevation).describe(),
        "elevation lines unavailable"
    );
    assert_eq!(
        HardwareError::LinesUnavailable(Axis::Azimuth).describe(),
        "azimuth lines unavailable"
    );
}
