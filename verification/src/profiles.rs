//! Test profiles: which tests a request asks for, and in which order the
//! suite runs them.

use crate::rfc_tests::RfcTest;
use vstd::prelude::*;

verus! {

/// The profiles that a request can ask for.
#[derive(Clone, Copy, Debug, PartialEq, Eq, Structural)]
pub enum Profile {
    /// A mix of frame sizes, run as ordinary traffic generation.
    Imix,
    /// The benchmark suite.
    Rfc2544,
}

/// Why a request for a profile is refused.
#[derive(Clone, Copy, Debug, PartialEq, Eq, Structural)]
pub enum ProfileError {
    /// There is no profile with this identifier.
    InvalidProfile,
    /// The benchmark suite takes one stream and was given another number.
    NotOneStream,
    /// The suite has no test with this identifier.
    InvalidTest,
}

/// The profile that `profile_id` stands for.
pub open spec fn profile_of(profile_id: u8) -> Option<Profile> {
    if profile_id == 0 {
        Some(Profile::Imix)
    } else if profile_id == 1 {
        Some(Profile::Rfc2544)
    } else {
        None
    }
}

/// The tests that `test_id` stands for, in the order in which they are
/// run: all four for zero, one for one to four, none for anything else.
pub open spec fn tests_of(test_id: u8) -> Option<Seq<RfcTest>> {
    if test_id == 0 {
        Some(seq![RfcTest::Throughput, RfcTest::Latency, RfcTest::FrameLossRate, RfcTest::Reset])
    } else if test_id == 1 {
        Some(seq![RfcTest::Throughput])
    } else if test_id == 2 {
        Some(seq![RfcTest::Latency])
    } else if test_id == 3 {
        Some(seq![RfcTest::FrameLossRate])
    } else if test_id == 4 {
        Some(seq![RfcTest::Reset])
    } else {
        None
    }
}

/// Decides which profile a request asks for.
pub fn run_profile(profile_id: u8) -> (r: Result<Profile, ProfileError>)
    ensures
        match r {
            Ok(p) => profile_of(profile_id) == Some(p),
            Err(e) => profile_of(profile_id) is None && e == ProfileError::InvalidProfile,
        },
{
    match profile_id {
        0 => Ok(Profile::Imix),
        1 => Ok(Profile::Rfc2544),
        _ => Err(ProfileError::InvalidProfile),
    }
}

/// A run of the benchmark suite: the tests that are to be run, how many of
/// them are done, and whether the suite still runs.
#[derive(Clone, Debug)]
pub struct RfcRun {
    pub tests: Vec<RfcTest>,
    /// Number of tests that have been run.
    pub position: usize,
    /// Whether the suite runs.
    pub running: bool,
    /// Whether a test has failed.
    pub failed: bool,
}

impl RfcRun {
    /// The test that is to be run next; none once all are done or one has
    /// failed.
    pub open spec fn next(&self) -> Option<RfcTest> {
        if self.running && self.position < self.tests@.len() {
            Some(self.tests@[self.position as int])
        } else {
            None
        }
    }

    /// Prepares a run of the suite for a request with `streams` streams that
    /// asks for the tests `test_id`. A request with another number of
    /// streams than one is refused. An unknown test makes a run that has
    /// failed and does not run.
    pub fn run_rfc(streams: usize, test_id: u8) -> (r: Result<RfcRun, ProfileError>)
        ensures
            match r {
                Ok(run) => {
                    &&& streams == 1
                    &&& match tests_of(test_id) {
                        Some(tests) => run.tests@ == tests && run.position == 0 && run.running
                            && !run.failed,
                        None => run.tests@.len() == 0 && !run.running && run.failed,
                    }
                },
                Err(e) => streams != 1 && e == ProfileError::NotOneStream,
            },
    {
        if streams != 1 {
            return Err(ProfileError::NotOneStream);
        }
        let mut tests: Vec<RfcTest> = Vec::new();
        if test_id == 0 {
            tests.push(RfcTest::Throughput);
            tests.push(RfcTest::Latency);
            tests.push(RfcTest::FrameLossRate);
            tests.push(RfcTest::Reset);
        } else if test_id == 1 {
            tests.push(RfcTest::Throughput);
        } else if test_id == 2 {
            tests.push(RfcTest::Latency);
        } else if test_id == 3 {
            tests.push(RfcTest::FrameLossRate);
        } else if test_id == 4 {
            tests.push(RfcTest::Reset);
        } else {
            return Ok(RfcRun { tests, position: 0, running: false, failed: true });
        }
        proof {
            assert(tests@ =~= tests_of(test_id)->0);
        }
        Ok(RfcRun { tests, position: 0, running: true, failed: false })
    }

    /// The test that is to be run next.
    pub fn next_test(&self) -> (test: Option<RfcTest>)
        ensures
            test == self.next(),
    {
        if self.running && self.position < self.tests.len() {
            Some(self.tests[self.position])
        } else {
            None
        }
    }

    /// Takes in how the test that `next_test` gave has ended. A test that
    /// has failed ends the run: the tests after it are not run. After the
    /// last test the suite does not run any more.
    pub fn handle_test_result(&mut self, succeeded: bool)
        ensures
            final(self).tests == old(self).tests,
            old(self).next() is None ==> *final(self) == *old(self),
            old(self).next() is Some ==> {
                &&& final(self).position == old(self).position + 1
                &&& final(self).failed == (old(self).failed || !succeeded)
                &&& final(self).running == (succeeded && old(self).position + 1 < old(self).tests@.len())
            },
    {
        if !(self.running && self.position < self.tests.len()) {
            return ;
        }
        self.position = self.position + 1;
        if !succeeded {
            self.failed = true;
            self.running = false;
        } else if self.position >= self.tests.len() {
            self.running = false;
        }
    }

    /// The run is cancelled: no further test is run.
    pub fn abort(&mut self)
        ensures
            final(self).tests == old(self).tests,
            final(self).position == old(self).position,
            final(self).failed == old(self).failed,
            !final(self).running,
            final(self).next() is None,
    {
        self.running = false;
    }
}

} // verus!
