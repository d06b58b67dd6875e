//! Control-plane core of a hardware traffic generator: pacing of packet
//! emission, live rate and loss statistics from hardware telemetry, the
//! round-trip-time histogram and its match rules, the rules that steer
//! frames through the switch, and the decisions of the benchmark suite.
//!
//! Every quantity is an integer. Rates are bits per second unless a name says
//! otherwise, times are nanoseconds, and fractions are carried as a numerator
//! and a denominator or in a fixed unit that the item documents.

pub mod api;
pub mod arp;
pub mod config;
pub mod duration_monitor;
pub mod error;
pub mod frame_size_monitor;
pub mod frame_type_monitor;
pub mod histogram;
pub mod histogram_data;
pub mod optimization;
pub mod ports;
pub mod profiles;
pub mod rate_monitor;
pub mod rfc_tests;
pub mod simple_stats;
pub mod statistics;
pub mod switch_rules;
pub mod ternary;
pub mod time_series;
pub mod traffic_gen;
pub mod types;
pub mod validate;
