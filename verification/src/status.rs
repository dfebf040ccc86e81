//! The watch endpoint: what a session that hands in a tracking identifier is
//! told, either at once from the registry or after waiting on the outcome
//! bus.

use vstd::prelude::*;
use vstd::string::StringExecFns;

use crate::ping::{sm_view, BroadcastCommand, BroadcastCommands, StatusMap, ValueV};
use crate::text::{dec_string, spec_dec};

verus! {

/// The prefix the terminal frame carries for each outcome.
pub open spec fn command_prefix(c: BroadcastCommands) -> Seq<char> {
    match c {
        BroadcastCommands::Success => "start_"@,
        BroadcastCommands::Timeout => "timeout_"@,
        BroadcastCommands::Error => "error_"@,
    }
}

/// The terminal frame for an outcome: its prefix followed by the id.
pub open spec fn terminal_frame(c: BroadcastCommands, id: Seq<char>) -> Seq<char> {
    command_prefix(c) + id
}

/// The frame for an unknown tracking identifier.
pub open spec fn notfound_frame(id: Seq<char>) -> Seq<char> {
    "notfound_"@ + id
}

/// The informational frame carrying the estimated wake duration.
pub open spec fn eta_frame(eta: u64, id: Seq<char>) -> Seq<char> {
    "eta_"@ + spec_dec(eta as nat) + "_"@ + id
}

/// The terminal frame for an outcome, as text.
pub fn terminal_text(c: BroadcastCommands, id: &String) -> (r: String)
    ensures
        r@ == terminal_frame(c, id@),
{
    let p: &str = match c {
        BroadcastCommands::Success => "start_",
        BroadcastCommands::Timeout => "timeout_",
        BroadcastCommands::Error => "error_",
    };
    let mut s = p.to_owned();
    s.append(id.as_str());
    s
}

/// The frame for an unknown tracking identifier, as text.
pub fn notfound_text(id: &String) -> (r: String)
    ensures
        r@ == notfound_frame(id@),
{
    let mut s = "notfound_".to_owned();
    s.append(id.as_str());
    s
}

/// The informational eta frame, as text.
pub fn eta_text(eta: u64, id: &String) -> (r: String)
    ensures
        r@ == eta_frame(eta, id@),
{
    let mut s = "eta_".to_owned();
    let d = dec_string(eta);
    s.append(d.as_str());
    s.append("_");
    s.append(id.as_str());
    s
}

impl BroadcastCommand {
    /// The text frame this outcome is reported with.
    pub fn to_text(&self) -> (r: String)
        ensures
            r@ == terminal_frame(self.command, self.uuid@),
    {
        terminal_text(self.command, &self.uuid)
    }
}

/// What a watch session is to do for a tracking identifier.
#[derive(Clone, Debug)]
pub enum WatchPlan {
    /// The identifier is unknown: report so and end the session.
    NotFound { frame: String },
    /// The watch already resolved: report the eta frame and the terminal
    /// frame at once, with no bus wait, and end the session.
    Report { eta_frame: String, terminal: String },
    /// The watch is still unresolved: report the eta frame, then subscribe
    /// to the outcome bus and wait for the matching message.
    Wait { eta_frame: String },
}

/// Mathematical value of a `WatchPlan`.
pub enum WatchV {
    NotFound { frame: Seq<char> },
    Report { eta_frame: Seq<char>, terminal: Seq<char> },
    Wait { eta_frame: Seq<char> },
}

impl View for WatchPlan {
    type V = WatchV;

    open spec fn view(&self) -> WatchV {
        match self {
            WatchPlan::NotFound { frame } => WatchV::NotFound { frame: frame@ },
            WatchPlan::Report { eta_frame, terminal } => WatchV::Report {
                eta_frame: eta_frame@,
                terminal: terminal@,
            },
            WatchPlan::Wait { eta_frame } => WatchV::Wait { eta_frame: eta_frame@ },
        }
    }
}

/// What a watch session is told, given what the registry holds: an unknown
/// id is reported not found; a resolved entry is reported at once from the
/// registry alone; an unresolved entry means waiting on the bus.
pub open spec fn spec_watch(m: Map<Seq<char>, ValueV>, id: Seq<char>) -> WatchV {
    if !m.dom().contains(id) {
        WatchV::NotFound { frame: notfound_frame(id) }
    } else {
        match m[id].resolved {
            Some(c) => WatchV::Report {
                eta_frame: eta_frame(m[id].eta, id),
                terminal: terminal_frame(c, id),
            },
            None => WatchV::Wait { eta_frame: eta_frame(m[id].eta, id) },
        }
    }
}

/// Decides a watch session's reply from the registry.
pub fn watch_plan(m: &StatusMap, id: &String) -> (p: WatchPlan)
    ensures
        p@ == spec_watch(sm_view(*m), id@),
{
    match crate::ping::registry_get(m, id) {
        None => WatchPlan::NotFound { frame: notfound_text(id) },
        Some(v) => {
            let ef = eta_text(v.eta, id);
            match v.resolved {
                Some(c) => WatchPlan::Report { eta_frame: ef, terminal: terminal_text(c, id) },
                None => WatchPlan::Wait { eta_frame: ef },
            }
        },
    }
}

/// One bus message as seen by the watch session for `id`: a message for
/// another identifier is discarded, the matching one yields its terminal
/// frame.
pub fn receive_step(msg: &BroadcastCommand, id: &String) -> (r: Option<String>)
    ensures
        msg.uuid@ != id@ ==> r is None,
        msg.uuid@ == id@ ==> (r matches Some(t) && t@ == terminal_frame(msg.command, id@)),
{
    if msg.uuid == *id {
        Some(msg.to_text())
    } else {
        None
    }
}

/// Law: a watch that arrives after its entry was removed — the grace window
/// after resolution has passed — is told the identifier is unknown.
pub proof fn lemma_watch_after_purge(m: Map<Seq<char>, ValueV>, id: Seq<char>)
    ensures
        spec_watch(m.remove(id), id) == (WatchV::NotFound { frame: notfound_frame(id) }),
{
}

/// Law: a watch on an already-resolved entry (inside the grace window) is
/// told the terminal frame straight from the registry, with no bus wait.
pub proof fn lemma_resolved_watch_reports(m: Map<Seq<char>, ValueV>, id: Seq<char>, c: BroadcastCommands)
    requires
        m.dom().contains(id),
        m[id].resolved == Some(c),
    ensures
        spec_watch(m, id) == (WatchV::Report {
            eta_frame: eta_frame(m[id].eta, id),
            terminal: terminal_frame(c, id),
        }),
{
}

} // verus!
