use p4tg_controller::api::{Asic, Experiment, Online, StopTrafficGenParams};
use p4tg_controller::profiles::{run_profile, Profile, ProfileError, RfcRun};
use p4tg_controller::rfc_tests::RfcTest;

#[test]
fn profiles_by_identifier() {
    assert_eq!(run_profile(0), Ok(Profile::Imix));
    assert_eq!(run_profile(1), Ok(Profile::Rfc2544));
    assert_eq!(run_profile(2), Err(ProfileError::InvalidProfile));
    assert_eq!(run_profile(255), Err(ProfileError::InvalidProfile));
}

#[test]
fn suite_takes_one_stream() {
    assert_eq!(RfcRun::run_rfc(0, 0).unwrap_err(), ProfileError::NotOneStream);
    assert_eq!(RfcRun::run_rfc(2, 1).unwrap_err(), ProfileError::NotOneStream);
    assert!(RfcRun::run_rfc(1, 1).is_ok());
}

#[test]
fn all_tests_run_in_order() {
    let mut run = RfcRun::run_rfc(1, 0).unwrap();
    assert!(run.running);
    let mut order = Vec::new();
    while let Some(test) = run.next_test() {
        order.push(test);
        run.handle_test_result(true);
    }
    assert_eq!(order, vec![RfcTest::Throughput, RfcTest::Latency, RfcTest::FrameLossRate, RfcTest::Reset]);
    assert!(!run.running);
    assert!(!run.failed);
}

#[test]
fn single_tests_by_identifier() {
    for (id, test) in [(1u8, RfcTest::Throughput), (2, RfcTest::Latency), (3, RfcTest::FrameLossRate), (4, RfcTest::Reset)] {
        let mut run = RfcRun::run_rfc(1, id).unwrap();
        assert_eq!(run.next_test(), Some(test));
        run.handle_test_result(true);
        assert_eq!(run.next_test(), None);
        assert!(!run.running);
    }
}

#[test]
fn unknown_test_fails_without_running() {
    let run = RfcRun::run_rfc(1, 5).unwrap();
    assert!(!run.running);
    assert!(run.failed);
    assert_eq!(run.next_test(), None);
}

#[test]
fn failed_test_ends_the_suite() {
    let mut run = RfcRun::run_rfc(1, 0).unwrap();
    run.handle_test_result(true);
    assert_eq!(run.next_test(), Some(RfcTest::Latency));
    run.handle_test_result(false);
    assert!(run.failed);
    assert!(!run.running);
    assert_eq!(run.next_test(), None);
    run.handle_test_result(true);
    assert_eq!(run.position, 2);
}

#[test]
fn aborted_suite_runs_nothing_more() {
    let mut run = RfcRun::run_rfc(1, 0).unwrap();
    run.handle_test_result(true);
    run.abort();
    assert!(!run.running);
    assert_eq!(run.next_test(), None);
    assert_eq!(run.position, 1);
}

#[test]
fn elapsed_time_of_a_run() {
    let mut experiment = Experiment::new(5_000);
    assert_eq!(experiment.elapsed_time(9_000), 0);
    experiment.running = true;
    assert_eq!(experiment.elapsed_time(9_000), 4);
    assert_eq!(experiment.elapsed_time(9_999), 4);
    assert_eq!(experiment.elapsed_time(4_000), 0);
    assert_eq!(experiment.elapsed_millis(9_999), 4_999);
    assert_eq!(Experiment { start: 0, running: true }.elapsed_time(u64::MAX), u32::MAX);
}

#[test]
fn skipping_a_test_does_not_cancel_the_run() {
    assert!(StopTrafficGenParams { skip: None }.cancel_multiple_tests());
    assert!(StopTrafficGenParams { skip: Some(false) }.cancel_multiple_tests());
    assert!(!StopTrafficGenParams { skip: Some(true) }.cancel_multiple_tests());
    assert_eq!(Asic::of(true), Asic::Tofino2);
    assert_eq!(Asic::of(false), Asic::Tofino1);
}

#[test]
fn a_controller_that_is_up_says_so() {
    let online = Online::new("2.4.0".to_owned(), true, false);
    assert_eq!(online.status, "online");
    assert_eq!(online.version, "2.4.0");
    assert_eq!(online.asic, Asic::Tofino2);
    assert!(!online.loopback);
    let online = Online::new(String::new(), false, true);
    assert_eq!((online.asic, online.loopback), (Asic::Tofino1, true));
}
