//! The main reactor's decisions: what each operator command asks of the
//! session or the relays, what each tick writes to the telemetry log, and
//! how the master-relay request is answered. The event loop around these
//! decisions lives in the binary; every choice it makes is taken here.

use vstd::prelude::*;
use vstd::string::StringExecFns;
use crate::FromClient;
use crate::ToClient;
use crate::Stats;
use crate::prostar;
use crate::prostar::Coil;
use crate::wire;

verus! {

/// What the reactor does with one operator command.
#[derive(Debug, Clone, Copy, PartialEq, Eq, Structural)]
pub enum CommandPlan {
    /// Write a coil through the retry ladder.
    WriteCoil(Coil, bool),
    /// Write a coil once, best-effort, and report it done: the reset coil
    /// never answers.
    WriteCoilBestEffort(Coil, bool),
    /// Drive the solar contactor through the safety manager.
    PhySolar(bool),
    /// Drive the battery contactor through the safety manager.
    PhyBattery(bool),
    /// Drive the converter enable through the safety manager.
    PhyMaster(bool),
    /// Read the controller settings and reply with them.
    ReadSettings,
    /// Write the controller settings, updating the published copy on
    /// success.
    WriteSettings(prostar::Settings),
    /// Reopen the live log, fatal on failure, and reply done.
    Rotate,
    /// Add the requester to the telemetry roster; ticks will push records.
    Tail,
    /// Reply done, let the reply drain, and leave the loop.
    Quit,
}

/// The reactor's dispatch of one command: charge and load requests become
/// coil writes with the coil's sense inverted, the reset request is the
/// one best-effort write, and relay requests go to the safety manager.
pub open spec fn plan_of_command(cmd: FromClient) -> CommandPlan {
    match cmd {
        FromClient::SetCharging(b) => CommandPlan::WriteCoil(Coil::ChargeDisconnect, !b),
        FromClient::SetLoad(b) => CommandPlan::WriteCoil(Coil::LoadDisconnect, !b),
        FromClient::SetPhySolar(b) => CommandPlan::PhySolar(b),
        FromClient::SetPhyBattery(b) => CommandPlan::PhyBattery(b),
        FromClient::SetPhyMaster(b) => CommandPlan::PhyMaster(b),
        FromClient::ResetController => CommandPlan::WriteCoilBestEffort(Coil::ResetControl, true),
        FromClient::LogRotated => CommandPlan::Rotate,
        FromClient::Stop => CommandPlan::Quit,
        FromClient::TailStats => CommandPlan::Tail,
        FromClient::ReadSettings => CommandPlan::ReadSettings,
        FromClient::WriteSettings(s) => CommandPlan::WriteSettings(s),
    }
}

/// Decide what one operator command asks for.
pub fn handle_command(cmd: &FromClient) -> (r: CommandPlan)
    ensures
        r == plan_of_command(*cmd),
{
    match cmd {
        FromClient::SetCharging(b) => CommandPlan::WriteCoil(Coil::ChargeDisconnect, !*b),
        FromClient::SetLoad(b) => CommandPlan::WriteCoil(Coil::LoadDisconnect, !*b),
        FromClient::SetPhySolar(b) => CommandPlan::PhySolar(*b),
        FromClient::SetPhyBattery(b) => CommandPlan::PhyBattery(*b),
        FromClient::SetPhyMaster(b) => CommandPlan::PhyMaster(*b),
        FromClient::ResetController => CommandPlan::WriteCoilBestEffort(
            Coil::ResetControl,
            true,
        ),
        FromClient::LogRotated => CommandPlan::Rotate,
        FromClient::Stop => CommandPlan::Quit,
        FromClient::TailStats => CommandPlan::Tail,
        FromClient::ReadSettings => CommandPlan::ReadSettings,
        FromClient::WriteSettings(s) => CommandPlan::WriteSettings(*s),
    }
}

/// The reply to a master-relay request: asked high while both contactors
/// are low, the relay stays low by design and the requester is told so;
/// every other outcome is acknowledged.
pub fn master_reply(requested: bool, actual: bool) -> (r: ToClient)
    ensures
        requested && !actual ==> (r matches ToClient::CmdErr(m) && m@
            == "design rules prohibit setting the master relay"@),
        !(requested && !actual) ==> r == ToClient::CmdOk,
        wire::to_client_wf(r),
{
    if requested && !actual {
        proof {
            reveal_strlit("design rules prohibit setting the master relay");
        }
        let m = String::from_str("design rules prohibit setting the master relay");
        proof {
            assert(vstd::utf8::is_ascii_chars(m@)) by {
                assert forall|t: int| 0 <= t < m@.len() implies '\0' <= #[trigger] m@[t]
                    <= '\u{7f}' by {
                }
            }
        }
        ToClient::CmdErr(m)
    } else {
        ToClient::CmdOk
    }
}

/// The log line one tick appends: the newest envelope version, stamped
/// with the tick's wall-clock time, carrying the snapshot the read
/// produced, or nothing when the read failed, so the series has no gaps.
pub fn tick_log_line(now_ms: i64, controller: Option<prostar::Stats>) -> (r: Vec<u8>)
    ensures
        r@ == wire::enc_stats_line(Stats::V3 { timestamp: now_ms, controller }),
{
    let env = Stats::V3 { timestamp: now_ms, controller };
    wire::encode_stats_line(&env)
}

/// The record pushed to every tailing subscriber on a tick: exactly the
/// envelope the log line holds.
pub fn tick_broadcast(now_ms: i64, controller: Option<prostar::Stats>) -> (r: ToClient)
    ensures
        r == ToClient::Stats(Stats::V3 { timestamp: now_ms, controller }),
        wire::to_client_wf(r),
{
    ToClient::Stats(Stats::V3 { timestamp: now_ms, controller })
}

/// Whether a tick still needs to fetch the initial settings.
pub fn tick_reads_settings(initsettings: bool) -> (r: bool)
    ensures
        r == !initsettings,
{
    !initsettings
}

} // verus!
