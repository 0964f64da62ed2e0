//! Verified core of the steady-state actor runtime: telemetry units, core
//! balancing, ring-slice copying and the rolling statistics behind alerts.

pub mod actor_units;
pub mod channel_units;
pub mod core_balancer;
pub mod telemetry_window;
pub mod troupe;
pub mod core_rx;
pub mod channel_stats_labels;
pub mod rolling_window;
pub mod stats_compare;
pub mod channel_stats;
pub mod actor_stats;
pub mod affinity;
pub mod channel_builder;
