//! What is asked of the controller from outside, and what it answers.

use crate::rate_monitor::{
    max_of, min_of, rtt_statistics, sampled_iat_values, IATStatistics, PortMonitor, RTTStatistics,
};
use crate::simple_stats::{is_floor_sqrt, mean_of, sample_variance_of};
use crate::statistics::RttHistogramConfig;
use vstd::prelude::*;

verus! {

/// A request to set the histogram of a port.
#[derive(Clone, Copy, Debug, PartialEq, Eq, Structural)]
pub struct HistogramConfigRequest {
    /// Number of the front panel port.
    pub port: u32,
    pub config: RttHistogramConfig,
}

/// How a query for the per-second histories is to be thinned out.
#[derive(Clone, Copy, Debug, PartialEq, Eq, Structural)]
pub struct Params {
    /// About how many points of each history are wanted; all of them where
    /// this is not given.
    pub limit: Option<usize>,
}

/// What a request to stop traffic generation asks for.
#[derive(Clone, Copy, Debug, PartialEq, Eq, Structural)]
pub struct StopTrafficGenParams {
    /// Whether only the test that runs is to end, and the run of several
    /// tests is to go on with the next.
    pub skip: Option<bool>,
}

impl StopTrafficGenParams {
    /// Whether a run of several tests is cancelled as a whole.
    pub open spec fn cancels_run(self) -> bool {
        self.skip != Some(true)
    }

    /// Whether a run of several tests is cancelled as a whole: it is,
    /// unless only the test that runs is to be skipped.
    pub fn cancel_multiple_tests(&self) -> (cancel: bool)
        ensures
            cancel == self.cancels_run(),
    {
        match self.skip {
            Some(true) => false,
            _ => true,
        }
    }
}

/// The generation of the device.
#[derive(Clone, Copy, Debug, PartialEq, Eq, Structural)]
pub enum Asic {
    Tofino1,
    Tofino2,
}

impl Asic {
    pub fn of(is_tofino2: bool) -> (asic: Asic)
        ensures
            asic == if is_tofino2 {
                Asic::Tofino2
            } else {
                Asic::Tofino1
            },
    {
        if is_tofino2 {
            Asic::Tofino2
        } else {
            Asic::Tofino1
        }
    }
}

/// What the controller says of itself.
#[derive(Clone, Debug)]
pub struct Online {
    pub status: String,
    /// Version of the controller.
    pub version: String,
    pub asic: Asic,
    /// Whether the ports loop back by themselves.
    pub loopback: bool,
}

impl Online {
    /// The answer of a controller that is up.
    pub fn new(version: String, is_tofino2: bool, loopback: bool) -> (o: Online)
        ensures
            o.status@ == "online"@,
            o.version@ == version@,
            o.asic == if is_tofino2 {
                Asic::Tofino2
            } else {
                Asic::Tofino1
            },
            o.loopback == loopback,
    {
        Online { status: "online".to_owned(), version, asic: Asic::of(is_tofino2), loopback }
    }
}

/// A query for the statistics of one port.
#[derive(Clone, Copy, Debug, PartialEq, Eq, Structural)]
pub struct PortStats {
    /// Number of the port.
    pub pid: u32,
}

/// A request to let a port answer address resolution requests, or not.
#[derive(Clone, Copy, Debug, PartialEq, Eq, Structural)]
pub struct ArpReply {
    /// Number of the port.
    pub pid: u32,
    pub arp_reply: bool,
}

/// The value of a match key, as text.
#[derive(Clone, Debug)]
pub struct Value {
    pub value: String,
}

/// One entry of a table: its match keys by name, and its action and the
/// action's data by name.
#[derive(Clone, Debug)]
pub struct TableDescriptor {
    pub key: Vec<(String, Value)>,
    pub data: Vec<(String, String)>,
}

/// The entries of the tables of the data plane, by the name of the table.
#[derive(Clone, Debug)]
pub struct Tables {
    pub tables: Vec<(String, Vec<TableDescriptor>)>,
}

/// The run that is on, or the last one.
#[derive(Clone, Copy, Debug, PartialEq, Eq, Structural)]
pub struct Experiment {
    /// When the run was started, in milliseconds of some clock.
    pub start: u64,
    /// Whether the run is on.
    pub running: bool,
}

/// Milliseconds since the start of the run; zero where the clock is
/// before the start.
pub open spec fn millis_since(start: u64, now: u64) -> u64 {
    if now >= start {
        (now - start) as u64
    } else {
        0
    }
}

/// Whole seconds of the run that have passed, and no more than a `u32`
/// holds; zero while no run is on.
pub open spec fn elapsed_seconds(experiment: Experiment, now: u64) -> u32 {
    if !experiment.running {
        0
    } else if millis_since(experiment.start, now) / 1000 > u32::MAX {
        u32::MAX
    } else {
        (millis_since(experiment.start, now) / 1000) as u32
    }
}

impl Experiment {
    /// No run is on.
    pub fn new(now: u64) -> (e: Experiment)
        ensures
            e == (Experiment { start: now, running: false }),
    {
        Experiment { start: now, running: false }
    }

    /// Milliseconds since the start of the run, by a clock that shows
    /// `now`.
    pub fn elapsed_millis(&self, now: u64) -> (millis: u64)
        ensures
            millis == millis_since(self.start, now),
    {
        if now >= self.start {
            now - self.start
        } else {
            0
        }
    }

    /// Whole seconds of the run that have passed.
    pub fn elapsed_time(&self, now: u64) -> (seconds: u32)
        ensures
            seconds == elapsed_seconds(*self, now),
    {
        if !self.running {
            return 0;
        }
        let seconds = self.elapsed_millis(now) / 1000;
        if seconds > u32::MAX as u64 {
            u32::MAX
        } else {
            seconds as u32
        }
    }
}

/// The statistics of one port at one moment.
#[derive(Clone, Copy, Debug, PartialEq, Eq, Structural)]
pub struct PortStatistics {
    /// Number of the front panel port.
    pub port: u32,
    pub tx_rate_l1: u64,
    pub tx_rate_l2: u64,
    pub rx_rate_l1: u64,
    pub rx_rate_l2: u64,
    pub packet_loss: u64,
    pub out_of_order: u64,
    pub iats: IATStatistics,
    pub rtts: RTTStatistics,
}

/// The statistics of a port at this moment: its rates and counters, the
/// statistics of its stored round-trip times, and the statistics of the
/// inter-arrival times, from the stored samples in sample mode and from the
/// data plane's registers otherwise.
pub fn get_statistics(monitor: &PortMonitor, sample_mode: bool) -> (s: PortStatistics)
    requires
        monitor.wf(),
    ensures
        s.port == monitor.port,
        s.tx_rate_l1 == monitor.rates.tx_rate_l1,
        s.tx_rate_l2 == monitor.rates.tx_rate_l2,
        s.rx_rate_l1 == monitor.rates.rx_rate_l1,
        s.rx_rate_l2 == monitor.rates.rx_rate_l2,
        s.packet_loss == monitor.rates.packet_loss,
        s.out_of_order == monitor.rates.out_of_order,
        s.rtts.mean == mean_of(monitor.samples.rtt@),
        s.rtts.min == min_of(monitor.samples.rtt@),
        s.rtts.max == max_of(monitor.samples.rtt@),
        s.rtts.current == if monitor.samples.rtt@.len() == 0 {
            0
        } else {
            monitor.samples.rtt@.last()
        },
        s.rtts.n == monitor.samples.rtt@.len(),
        is_floor_sqrt(sample_variance_of(monitor.samples.rtt@), s.rtts.jitter as nat),
        !sample_mode ==> s.iats == monitor.iats,
        sample_mode ==> {
            &&& s.iats.tx.mean == mean_of(monitor.samples.tx_iat@)
            &&& s.iats.tx.n == monitor.samples.tx_iat@.len()
            &&& s.iats.tx.mae == 0
            &&& s.iats.tx.std matches Some(d) && is_floor_sqrt(
                sample_variance_of(monitor.samples.tx_iat@),
                d as nat,
            )
            &&& s.iats.rx.mean == mean_of(monitor.samples.rx_iat@)
            &&& s.iats.rx.n == monitor.samples.rx_iat@.len()
            &&& s.iats.rx.mae == 0
            &&& s.iats.rx.std matches Some(d) && is_floor_sqrt(
                sample_variance_of(monitor.samples.rx_iat@),
                d as nat,
            )
        },
{
    let iats = if sample_mode {
        IATStatistics {
            tx: sampled_iat_values(&monitor.samples.tx_iat),
            rx: sampled_iat_values(&monitor.samples.rx_iat),
        }
    } else {
        monitor.iats
    };
    PortStatistics {
        port: monitor.port,
        tx_rate_l1: monitor.rates.tx_rate_l1,
        tx_rate_l2: monitor.rates.tx_rate_l2,
        rx_rate_l1: monitor.rates.rx_rate_l1,
        rx_rate_l2: monitor.rates.rx_rate_l2,
        packet_loss: monitor.rates.packet_loss,
        out_of_order: monitor.rates.out_of_order,
        iats,
        rtts: rtt_statistics(&monitor.samples.rtt),
    }
}

} // verus!
