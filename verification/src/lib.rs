//! Supervisory controller for an off-grid solar power installation.
//!
//! The library holds the verified core: the relay safety state machine, the
//! Modbus retry and throttle policy, the telemetry data model with its
//! versioned envelope, the line-oriented wire codec, windowed aggregation,
//! and the archival and reactor decision logic. The thin binary around it
//! performs the actual I/O.

use vstd::prelude::*;
use vstd::string::StringExecFns;

pub mod archive;
pub mod codec;
pub mod modbus;
pub mod prostar;
pub mod publisher;
pub mod reactor;
pub mod rpi;
pub mod settings_codec;
pub mod stats_codec;
pub mod wire;

verus! {

/// The commanded state of the three power-path relays.
#[derive(Debug, Clone, Copy, PartialEq, Eq, Structural)]
pub struct Phy {
    pub solar: bool,
    pub battery: bool,
    pub master: bool,
}

/// A telemetry record as it appears in the log: the versioned envelope.
/// Readers accept every version; writers emit the newest. From the second
/// revision on, the envelope's own timestamp is the authoritative one.
#[derive(Debug, Clone, Copy, PartialEq, Eq, Structural)]
pub enum Stats {
    V0(prostar::Stats),
    V1 { controller: prostar::Stats, phy: Phy },
    V2 { timestamp: i64, controller: Option<prostar::Stats>, phy: Phy },
    V3 { timestamp: i64, controller: Option<prostar::Stats> },
}

/// The newest-version image of an envelope: the authoritative timestamp
/// and the controller snapshot, if that tick had one.
pub open spec fn upgrade_spec(s: Stats) -> Stats {
    match s {
        Stats::V3 { timestamp, controller } => Stats::V3 { timestamp, controller },
        Stats::V2 { timestamp, controller, phy: _ } => Stats::V3 { timestamp, controller },
        Stats::V1 { controller, phy: _ } => Stats::V3 {
            timestamp: controller.timestamp,
            controller: Some(controller),
        },
        Stats::V0(st) => Stats::V3 { timestamp: st.timestamp, controller: Some(st) },
    }
}

/// The authoritative timestamp of an envelope.
pub open spec fn timestamp_spec(s: Stats) -> i64 {
    match s {
        Stats::V0(st) => st.timestamp,
        Stats::V1 { controller, phy: _ } => controller.timestamp,
        Stats::V2 { timestamp, .. } => timestamp,
        Stats::V3 { timestamp, .. } => timestamp,
    }
}

/// The same envelope with its authoritative timestamp replaced.
pub open spec fn with_timestamp(s: Stats, ts: i64) -> Stats {
    match s {
        Stats::V0(st) => Stats::V0(prostar::Stats { timestamp: ts, ..st }),
        Stats::V1 { controller, phy } => Stats::V1 {
            controller: prostar::Stats { timestamp: ts, ..controller },
            phy,
        },
        Stats::V2 { timestamp: _, controller, phy } => Stats::V2 {
            timestamp: ts,
            controller,
            phy,
        },
        Stats::V3 { timestamp: _, controller } => Stats::V3 { timestamp: ts, controller },
    }
}

impl Stats {
    /// Bring the record up to the newest envelope version.
    pub fn upgrade(self) -> (r: Self)
        ensures
            r == upgrade_spec(self),
    {
        match self {
            Stats::V3 { timestamp, controller } => Stats::V3 { timestamp, controller },
            Stats::V2 { timestamp, controller, phy: _ } => Stats::V3 { timestamp, controller },
            Stats::V1 { controller, phy: _ } => Stats::V3 {
                timestamp: controller.timestamp,
                controller: Some(controller),
            },
            Stats::V0(st) => Stats::V3 { timestamp: st.timestamp, controller: Some(st) },
        }
    }

    /// The authoritative timestamp, milliseconds since the Unix epoch.
    pub fn timestamp(&self) -> (r: i64)
        ensures
            r == timestamp_spec(*self),
    {
        match self {
            Stats::V0(st) => st.timestamp,
            Stats::V1 { controller, .. } => controller.timestamp,
            Stats::V2 { timestamp, .. } => *timestamp,
            Stats::V3 { timestamp, .. } => *timestamp,
        }
    }

    /// Borrow the authoritative timestamp, wherever this version keeps it.
    pub fn timestamp_mut(&mut self) -> (r: &mut i64)
        ensures
            *r == timestamp_spec(*old(self)),
            *final(self) == with_timestamp(*old(self), *final(r)),
    {
        match self {
            Stats::V0(st) => &mut st.timestamp,
            Stats::V1 { controller, .. } => &mut controller.timestamp,
            Stats::V2 { timestamp, .. } => timestamp,
            Stats::V3 { timestamp, .. } => timestamp,
        }
    }

    /// Replace the authoritative timestamp, wherever this version keeps it.
    pub fn set_timestamp(&mut self, ts: i64)
        ensures
            *final(self) == with_timestamp(*old(self), ts),
    {
        match self {
            Stats::V0(st) => st.timestamp = ts,
            Stats::V1 { controller, .. } => controller.timestamp = ts,
            Stats::V2 { timestamp, .. } => *timestamp = ts,
            Stats::V3 { timestamp, .. } => *timestamp = ts,
        }
    }
}

/// Upgrading is idempotent: a record already at the newest version is left
/// exactly as it stands.
pub proof fn lemma_upgrade_idempotent(s: Stats)
    ensures
        upgrade_spec(upgrade_spec(s)) == upgrade_spec(s),
{
}

/// Upgrading keeps the authoritative timestamp.
pub proof fn lemma_upgrade_keeps_timestamp(s: Stats)
    ensures
        timestamp_spec(upgrade_spec(s)) == timestamp_spec(s),
{
}

/// A request from a local or remote operator, as carried on the control
/// socket and funnelled into the reactor.
#[derive(Debug, Clone, Copy, PartialEq, Eq, Structural)]
pub enum FromClient {
    SetCharging(bool),
    SetLoad(bool),
    SetPhySolar(bool),
    SetPhyBattery(bool),
    SetPhyMaster(bool),
    ResetController,
    LogRotated,
    Stop,
    TailStats,
    ReadSettings,
    WriteSettings(prostar::Settings),
}

/// A reply to an operator request, or a pushed telemetry record.
#[derive(Debug, Clone, PartialEq)]
pub enum ToClient {
    Stats(Stats),
    Settings(prostar::Settings),
    CmdOk,
    CmdErr(String),
}

/// The supervisor's configuration, as read from its configuration file.
#[derive(Debug, Clone)]
pub struct Config {
    pub device: String,
    pub modbus_id: u8,
    pub run_directory: String,
    pub archive_directory: String,
    pub stats_interval: u64,
    pub log_level: String,
    pub netidx_base: String,
    pub netidx_bind: String,
    pub netidx_spn: Option<String>,
}

impl Config {
    /// Where the daemon's pid file lives.
    pub fn pid_file(&self) -> (r: String)
        ensures
            r@ == self.run_directory@ + "/solar.pid"@,
    {
        let mut s = self.run_directory.clone();
        s.append("/solar.pid");
        s
    }

    /// Where the control socket is bound.
    pub fn control_socket(&self) -> (r: String)
        ensures
            r@ == self.run_directory@ + "/control"@,
    {
        let mut s = self.run_directory.clone();
        s.append("/control");
        s
    }

    /// Where the live telemetry log is appended.
    pub fn log_file(&self) -> (r: String)
        ensures
            r@ == self.run_directory@ + "/solar.log"@,
    {
        let mut s = self.run_directory.clone();
        s.append("/solar.log");
        s
    }
}

/// The three files that archive one calendar date: every sample, the
/// 1-minute aggregates, and the 10-minute aggregates, each gzipped.
#[derive(Debug, Clone)]
pub struct ArchivedDay {
    pub all: String,
    pub one_minute_averages: String,
    pub ten_minute_averages: String,
}

} // verus!
