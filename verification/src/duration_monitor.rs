//! Tests that last for a given time, and runs of several tests one after
//! another.
//!
//! Both are written as the decisions of a loop that someone else runs: the
//! loop reports what has happened, and is told what to do next.

use vstd::prelude::*;

verus! {

/// Milliseconds between two looks at a running test.
pub const POLL_MILLIS: u64 = 100;

/// Milliseconds between the end of one test of a run and the start of the
/// next.
pub const SETTLE_MILLIS: u64 = 2000;

/// How a test that lasts for a given time has ended.
#[derive(Clone, Copy, Debug, PartialEq, Eq, Structural)]
pub enum WatchOutcome {
    /// The time was over and traffic generation was stopped.
    Elapsed,
    /// Traffic generation had been stopped by someone else.
    StoppedExternally,
    /// The test was cancelled.
    Cancelled,
    /// Traffic generation was to be stopped and could not be.
    StopFailed,
}

/// What the loop that watches a test is to do next.
#[derive(Clone, Copy, Debug, PartialEq, Eq, Structural)]
pub enum WatchAction {
    /// Wait for so many milliseconds, then report a tick.
    Wait { millis: u64 },
    /// Stop traffic generation, then report whether that succeeded.
    StopGeneration,
    /// Leave the loop.
    Finish { outcome: WatchOutcome },
}

/// Where the watch over a test stands.
#[derive(Clone, Copy, Debug, PartialEq, Eq, Structural)]
pub enum WatchPhase {
    /// The test runs and is looked at from time to time.
    Polling,
    /// Traffic generation is being stopped; the watch ends as `then` if that
    /// succeeds.
    Stopping { then: WatchOutcome },
    /// The watch is over.
    Finished { outcome: WatchOutcome },
}

/// Watches over a test that lasts for a given time.
#[derive(Clone, Copy, Debug, PartialEq, Eq, Structural)]
pub struct DurationMonitor {
    /// How long the test lasts, in milliseconds; `None` for a test that runs
    /// until it is stopped.
    pub duration_millis: Option<u64>,
    pub phase: WatchPhase,
}

/// Milliseconds to wait before the next look: the time between two looks,
/// or what is left of the test if that is less.
pub open spec fn wait_millis(duration_millis: Option<u64>, elapsed_millis: u64) -> u64 {
    match duration_millis {
        Some(d) => if elapsed_millis >= d {
            0
        } else if d - elapsed_millis < POLL_MILLIS {
            (d - elapsed_millis) as u64
        } else {
            POLL_MILLIS
        },
        None => POLL_MILLIS,
    }
}

impl DurationMonitor {
    /// What the watch does in the phase it is in.
    pub open spec fn action(self, elapsed_millis: u64) -> WatchAction {
        match self.phase {
            WatchPhase::Polling => WatchAction::Wait {
                millis: wait_millis(self.duration_millis, elapsed_millis),
            },
            WatchPhase::Stopping { .. } => WatchAction::StopGeneration,
            WatchPhase::Finished { outcome } => WatchAction::Finish { outcome },
        }
    }

    /// The time of the test is over.
    pub open spec fn is_over(self, elapsed_millis: u64) -> bool {
        self.duration_millis matches Some(d) && elapsed_millis >= d
    }

    /// The watch after a look at the test. A test that does not run any
    /// more was stopped by someone else, and the watch is over. A test
    /// whose time is over is stopped. Any other test runs on.
    pub open spec fn after_tick(self, running: bool, elapsed_millis: u64) -> DurationMonitor {
        match self.phase {
            WatchPhase::Polling => if !running {
                DurationMonitor {
                    phase: WatchPhase::Finished { outcome: WatchOutcome::StoppedExternally },
                    ..self
                }
            } else if self.is_over(elapsed_millis) {
                DurationMonitor {
                    phase: WatchPhase::Stopping { then: WatchOutcome::Elapsed },
                    ..self
                }
            } else {
                self
            },
            _ => self,
        }
    }

    /// The watch after the test has been cancelled: traffic generation is
    /// stopped if it runs, and the watch is over.
    pub open spec fn after_cancel(self, running: bool) -> DurationMonitor {
        match self.phase {
            WatchPhase::Polling => if running {
                DurationMonitor {
                    phase: WatchPhase::Stopping { then: WatchOutcome::Cancelled },
                    ..self
                }
            } else {
                DurationMonitor {
                    phase: WatchPhase::Finished { outcome: WatchOutcome::Cancelled },
                    ..self
                }
            },
            _ => self,
        }
    }

    /// The watch after traffic generation has been stopped, or could not
    /// be.
    pub open spec fn after_stop(self, stopped: bool) -> DurationMonitor {
        match self.phase {
            WatchPhase::Stopping { then } => DurationMonitor {
                phase: WatchPhase::Finished {
                    outcome: if stopped {
                        then
                    } else {
                        WatchOutcome::StopFailed
                    },
                },
                ..self
            },
            _ => self,
        }
    }

    /// A watch over a test that has just been started.
    pub fn start(duration_millis: Option<u64>) -> (m: DurationMonitor)
        ensures
            m == (DurationMonitor { duration_millis, phase: WatchPhase::Polling }),
    {
        DurationMonitor { duration_millis, phase: WatchPhase::Polling }
    }

    /// What is to be done next, `elapsed_millis` after the test was started.
    pub fn next_action(&self, elapsed_millis: u64) -> (action: WatchAction)
        ensures
            action == self.action(elapsed_millis),
    {
        match self.phase {
            WatchPhase::Polling => {
                let millis = match self.duration_millis {
                    Some(d) => if d >= elapsed_millis && d - elapsed_millis < POLL_MILLIS {
                        d - elapsed_millis
                    } else if d < elapsed_millis {
                        0
                    } else {
                        POLL_MILLIS
                    },
                    None => POLL_MILLIS,
                };
                WatchAction::Wait { millis }
            },
            WatchPhase::Stopping { .. } => WatchAction::StopGeneration,
            WatchPhase::Finished { outcome } => WatchAction::Finish { outcome },
        }
    }

    /// A look at the test: `running` says whether traffic generation runs,
    /// `elapsed_millis` how long ago the test was started.
    pub fn on_tick(&mut self, running: bool, elapsed_millis: u64)
        ensures
            *final(self) == old(self).after_tick(running, elapsed_millis),
    {
        match self.phase {
            WatchPhase::Polling => {
                if !running {
                    self.phase = WatchPhase::Finished { outcome: WatchOutcome::StoppedExternally };
                } else {
                    match self.duration_millis {
                        Some(d) => {
                            if elapsed_millis >= d {
                                self.phase = WatchPhase::Stopping { then: WatchOutcome::Elapsed };
                            }
                        },
                        None => {},
                    }
                }
            },
            _ => {},
        }
    }

    /// The test is cancelled; `running` says whether traffic generation
    /// runs.
    pub fn on_cancel(&mut self, running: bool)
        ensures
            *final(self) == old(self).after_cancel(running),
    {
        match self.phase {
            WatchPhase::Polling => {
                if running {
                    self.phase = WatchPhase::Stopping { then: WatchOutcome::Cancelled };
                } else {
                    self.phase = WatchPhase::Finished { outcome: WatchOutcome::Cancelled };
                }
            },
            _ => {},
        }
    }

    /// Traffic generation has been stopped, or could not be.
    pub fn on_stop_result(&mut self, stopped: bool)
        ensures
            *final(self) == old(self).after_stop(stopped),
    {
        match self.phase {
            WatchPhase::Stopping { then } => {
                let outcome = if stopped {
                    then
                } else {
                    WatchOutcome::StopFailed
                };
                self.phase = WatchPhase::Finished { outcome };
            },
            _ => {},
        }
    }
}

/// A watch that is over stays over, whatever is reported to it, and a
/// failure to stop traffic generation is never taken for a cancellation.
pub proof fn lemma_finished_watch_is_final(
    monitor: DurationMonitor,
    running: bool,
    elapsed_millis: u64,
    stopped: bool,
)
    ensures
        monitor.phase is Finished ==> {
            &&& monitor.after_tick(running, elapsed_millis) == monitor
            &&& monitor.after_cancel(running) == monitor
            &&& monitor.after_stop(stopped) == monitor
        },
        monitor.phase is Stopping ==> (monitor.after_stop(false).phase == WatchPhase::Finished {
            outcome: WatchOutcome::StopFailed,
        }),
        monitor.phase is Polling ==> !(monitor.after_cancel(running).phase is Polling),
{
}

/// What the loop that runs several tests is to do next.
#[derive(Clone, Copy, Debug, PartialEq, Eq, Structural)]
pub enum RunAction {
    /// Start test `index`, then wait and report a tick.
    StartTest { index: usize },
    /// Wait for so many milliseconds, then report a tick.
    Wait { millis: u64 },
    /// Copy the statistics of the test that has ended into the history,
    /// wait for so many milliseconds, then report that this is done.
    CopyStatistics { settle_millis: u64 },
    /// Stop traffic generation, then leave the loop.
    StopGeneration,
    /// Leave the loop.
    Finish,
}

/// Where a run of several tests stands.
#[derive(Clone, Copy, Debug, PartialEq, Eq, Structural)]
pub enum RunPhase {
    /// Test `index` is to be started.
    Starting { index: usize },
    /// Test `index` runs.
    Running { index: usize },
    /// Test `index` has ended; its statistics are copied and the device
    /// settles.
    Settling { index: usize },
    /// The run was cancelled while a test ran.
    Aborting,
    /// The run is over.
    Finished,
}

/// Runs several tests one after another.
#[derive(Clone, Copy, Debug, PartialEq, Eq, Structural)]
pub struct MultipleTests {
    /// Number of tests of the run.
    pub total: usize,
    pub phase: RunPhase,
    /// The run was cancelled.
    pub cancelled: bool,
}

/// What is reported to a run of several tests.
#[derive(Clone, Copy, Debug, PartialEq, Eq, Structural)]
pub enum RunEvent {
    /// The test that was to be started has been started.
    Started,
    /// A look at the running test: whether traffic generation runs.
    Tick { running: bool },
    /// The statistics are copied and the device has settled.
    Settled,
    /// The run is cancelled.
    Cancel,
    /// Traffic generation has been stopped after a cancellation.
    Stopped,
}

impl MultipleTests {
    /// A run of `total` tests before its first test.
    pub open spec fn begin(total: usize) -> MultipleTests {
        MultipleTests {
            total,
            phase: if total == 0 {
                RunPhase::Finished
            } else {
                RunPhase::Starting { index: 0 }
            },
            cancelled: false,
        }
    }

    /// What the run does in the phase it is in.
    pub open spec fn action(self) -> RunAction {
        match self.phase {
            RunPhase::Starting { index } => RunAction::StartTest { index },
            RunPhase::Running { .. } => RunAction::Wait { millis: POLL_MILLIS },
            RunPhase::Settling { .. } => RunAction::CopyStatistics { settle_millis: SETTLE_MILLIS },
            RunPhase::Aborting => RunAction::StopGeneration,
            RunPhase::Finished => RunAction::Finish,
        }
    }

    /// Whether a test of the run is in progress, as far as the run knows.
    pub open spec fn running(self) -> bool {
        self.phase is Running
    }

    /// The run after an event. A test that has been started runs. A running
    /// test whose traffic generation has ended is over: its statistics are
    /// copied, and the next test is started once the device has settled, or
    /// the run is over after the last test. A cancellation stops the test
    /// that runs and ends the run; no test is started after it.
    pub open spec fn after(self, event: RunEvent) -> MultipleTests {
        match (self.phase, event) {
            (RunPhase::Finished, _) => self,
            (RunPhase::Aborting, RunEvent::Stopped) => MultipleTests {
                phase: RunPhase::Finished,
                ..self
            },
            (RunPhase::Aborting, _) => self,
            (RunPhase::Running { .. }, RunEvent::Cancel) => MultipleTests {
                phase: RunPhase::Aborting,
                cancelled: true,
                ..self
            },
            (_, RunEvent::Cancel) => MultipleTests {
                phase: RunPhase::Finished,
                cancelled: true,
                ..self
            },
            (RunPhase::Starting { index }, RunEvent::Started) => MultipleTests {
                phase: RunPhase::Running { index },
                ..self
            },
            (RunPhase::Running { index }, RunEvent::Tick { running }) => if running {
                self
            } else {
                MultipleTests { phase: RunPhase::Settling { index }, ..self }
            },
            (RunPhase::Settling { index }, RunEvent::Settled) => if index + 1 < self.total {
                MultipleTests { phase: RunPhase::Starting { index: (index + 1) as usize }, ..self }
            } else {
                MultipleTests { phase: RunPhase::Finished, ..self }
            },
            _ => self,
        }
    }

    /// The run after a sequence of events.
    pub open spec fn after_all(self, events: Seq<RunEvent>) -> MultipleTests
        decreases events.len(),
    {
        if events.len() == 0 {
            self
        } else {
            self.after(events[0]).after_all(events.subrange(1, events.len() as int))
        }
    }

    /// A run of `total` tests.
    pub fn new(total: usize) -> (run: MultipleTests)
        ensures
            run == MultipleTests::begin(total),
    {
        MultipleTests {
            total,
            phase: if total == 0 {
                RunPhase::Finished
            } else {
                RunPhase::Starting { index: 0 }
            },
            cancelled: false,
        }
    }

    /// What is to be done next.
    pub fn next_action(&self) -> (action: RunAction)
        ensures
            action == self.action(),
    {
        match self.phase {
            RunPhase::Starting { index } => RunAction::StartTest { index },
            RunPhase::Running { .. } => RunAction::Wait { millis: POLL_MILLIS },
            RunPhase::Settling { .. } => RunAction::CopyStatistics { settle_millis: SETTLE_MILLIS },
            RunPhase::Aborting => RunAction::StopGeneration,
            RunPhase::Finished => RunAction::Finish,
        }
    }

    /// Takes in an event.
    pub fn on_event(&mut self, event: RunEvent)
        ensures
            *final(self) == old(self).after(event),
    {
        match self.phase {
            RunPhase::Finished => {},
            RunPhase::Aborting => {
                match event {
                    RunEvent::Stopped => {
                        self.phase = RunPhase::Finished;
                    },
                    _ => {},
                }
            },
            RunPhase::Running { index } => {
                match event {
                    RunEvent::Cancel => {
                        self.phase = RunPhase::Aborting;
                        self.cancelled = true;
                    },
                    RunEvent::Tick { running } => {
                        if !running {
                            self.phase = RunPhase::Settling { index };
                        }
                    },
                    _ => {},
                }
            },
            RunPhase::Starting { index } => {
                match event {
                    RunEvent::Cancel => {
                        self.phase = RunPhase::Finished;
                        self.cancelled = true;
                    },
                    RunEvent::Started => {
                        self.phase = RunPhase::Running { index };
                    },
                    _ => {},
                }
            },
            RunPhase::Settling { index } => {
                match event {
                    RunEvent::Cancel => {
                        self.phase = RunPhase::Finished;
                        self.cancelled = true;
                    },
                    RunEvent::Settled => {
                        if index < self.total && index + 1 < self.total {
                            self.phase = RunPhase::Starting { index: index + 1 };
                        } else {
                            self.phase = RunPhase::Finished;
                        }
                    },
                    _ => {},
                }
            },
        }
    }
}

/// Cancellation of a run of several tests. Once a run is cancelled, no test
/// runs as far as the run knows, a test that ran is stopped, and whatever
/// is reported afterwards, no test is started and none runs.
pub proof fn lemma_cancelled_run_starts_nothing(run: MultipleTests, events: Seq<RunEvent>)
    ensures
        ({
            let cancelled = run.after(RunEvent::Cancel);
            let later = cancelled.after_all(events);
            &&& !cancelled.running()
            &&& run.running() ==> cancelled.action() == RunAction::StopGeneration
            &&& !run.running() && !(run.phase is Aborting) ==> cancelled.action()
                == RunAction::Finish
            &&& !later.running()
            &&& !(later.action() is StartTest)
            &&& later.action() == RunAction::StopGeneration || later.action() == RunAction::Finish
        }),
    decreases events.len(),
{
    let cancelled = run.after(RunEvent::Cancel);
    lemma_ended_run_stays_ended(cancelled, events);
}

/// A run that is being stopped or is over stays so.
pub proof fn lemma_ended_run_stays_ended(run: MultipleTests, events: Seq<RunEvent>)
    requires
        run.phase is Aborting || run.phase is Finished,
    ensures
        run.after_all(events).phase is Aborting || run.after_all(events).phase is Finished,
    decreases events.len(),
{
    if events.len() > 0 {
        lemma_ended_run_stays_ended(run.after(events[0]), events.subrange(1, events.len() as int));
    }
}

/// The tests of a run are started in their order: a test is started only
/// after the one before it has run and the device has settled.
pub proof fn lemma_tests_start_in_order(run: MultipleTests, event: RunEvent)
    ensures
        run.after(event).phase matches RunPhase::Starting { index } ==> {
            ||| run.phase == (RunPhase::Starting { index })
            ||| index >= 1 && run.phase == (RunPhase::Settling { index: (index - 1) as usize })
                && event == RunEvent::Settled
        },
{
}

} // verus!
