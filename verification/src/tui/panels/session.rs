//! What the panels make of the events their background tasks send: the log they show and the
//! state they move to.

use vstd::prelude::*;

use crate::report::table::views;
use crate::text::concat2;
use crate::text::chars_of;
use crate::tui::panels::server::ServerPanelState;
use crate::tui::panels::BenchmarkPhase;

verus! {

/// How a benchmark task ended: the result lines of both ends, or an error.
pub enum BenchmarkOutcome {
    Done { client: Vec<String>, server: Vec<String> },
    Error(String),
}

/// The log lines a finished benchmark adds: the client's lines under `> sender (client)`, a
/// blank line, then the server's lines under `> receiver (server)`.
pub open spec fn done_lines(client: Seq<Seq<char>>, server: Seq<Seq<char>>) -> Seq<Seq<char>> {
    seq!["> sender (client)"@] + client + seq![Seq::<char>::empty(), "> receiver (server)"@] + server
}

/// Appends strings to a log.
fn append_lines(log: &mut Vec<String>, lines: Vec<String>)
    ensures
        views(final(log)@) == views(old(log)@) + views(lines@),
{
    let ghost start = log@;
    let mut i: usize = 0;
    while i < lines.len()
        invariant
            i <= lines@.len(),
            views(log@) == views(start) + views(lines@.take(i as int)),
        decreases lines@.len() - i,
    {
        let ghost before = log@;
        log.push(lines[i].clone());
        proof {
            assert(views(log@) =~= views(before) + seq![lines@[i as int]@]);
            assert(views(lines@.take(i + 1)) =~= views(lines@.take(i as int)) + seq![lines@[i as int]@]);
        }
        i = i + 1;
    }
    assert(lines@.take(lines@.len() as int) =~= lines@);
}

/// Handles the outcome of a running benchmark: a finished benchmark logs both ends' results and
/// shows them; an error is logged after `! ` and shown.
pub fn benchmark_outcome_step(log: &mut Vec<String>, outcome: BenchmarkOutcome) -> (r: BenchmarkPhase)
    ensures
        match outcome {
            BenchmarkOutcome::Done { client, server } => {
                &&& r == BenchmarkPhase::Done
                &&& views(final(log)@) == views(old(log)@) + done_lines(views(client@), views(server@))
            },
            BenchmarkOutcome::Error(e) => {
                &&& r == BenchmarkPhase::Error
                &&& views(final(log)@) == views(old(log)@).push("! "@ + e@)
            },
        },
{
    match outcome {
        BenchmarkOutcome::Done { client, server } => {
            let ghost start = log@;
            log.push(String::from_str("> sender (client)"));
            assert(views(log@) =~= views(start) + seq!["> sender (client)"@]);
            append_lines(log, client);
            let ghost a = log@;
            log.push(String::new());
            assert(views(log@) =~= views(a).push(Seq::<char>::empty()));
            let ghost b = log@;
            log.push(String::from_str("> receiver (server)"));
            assert(views(log@) =~= views(b).push("> receiver (server)"@));
            let ghost mid = log@;
            append_lines(log, server);
            proof {
                assert(views(mid) =~= views(start) + seq!["> sender (client)"@] + views(client@)
                    + seq![Seq::<char>::empty(), "> receiver (server)"@]);
            }
            BenchmarkPhase::Done
        },
        BenchmarkOutcome::Error(e) => {
            let ec = chars_of(e.as_str());
            log.push(concat2("! ", ec.as_slice()));
            proof {
                assert(views(log@) =~= views(old(log)@).push("! "@ + e@));
            }
            BenchmarkPhase::Error
        },
    }
}

/// The phase after the benchmark task ended: a panel still running goes back to idle (the task
/// ended without an outcome), any other keeps its phase.
pub fn benchmark_task_finished(phase: BenchmarkPhase) -> (r: BenchmarkPhase)
    ensures
        r == (if phase == BenchmarkPhase::Running { BenchmarkPhase::Idle } else { phase }),
{
    if phase == BenchmarkPhase::Running {
        BenchmarkPhase::Idle
    } else {
        phase
    }
}

/// What the server task reports.
pub enum ServerEvent {
    /// The server listens on this address.
    Listening { addr: String },
    /// A client session started.
    SessionStarted { peer: String, session_type: String },
    /// The result lines of a session.
    SessionResult(Vec<String>),
    /// A client session ended.
    SessionEnded { peer: String },
    Error(String),
}

/// What the server panel does with its session clock after an event.
#[derive(Debug, Clone, Copy, PartialEq, Eq, Structural)]
pub enum SessionClock {
    Start,
    Stop,
    Keep,
}

/// The server panel's state, log and session flag.
pub struct ServerSession {
    pub state: ServerPanelState,
    pub log: Vec<String>,
    pub session_in_progress: bool,
}

impl ServerSession {
    /// Handles an event of the server task: listening makes the panel run; a session start is
    /// logged as `+ peer  [type]` (after a blank line when the log is not empty); results are
    /// logged; a session end is logged as `> peer  done`; an error is logged after `! ` and,
    /// while running, shown.
    pub fn on_event(&mut self, event: ServerEvent) -> (r: SessionClock)
        ensures
            match event {
                ServerEvent::Listening { addr } => {
                    &&& r == SessionClock::Keep
                    &&& final(self).state matches ServerPanelState::Running { addr: a } && a@ == addr@
                    &&& views(final(self).log@) == views(old(self).log@)
                    &&& final(self).session_in_progress == old(self).session_in_progress
                },
                ServerEvent::SessionStarted { peer, session_type } => {
                    &&& r == SessionClock::Start
                    &&& final(self).state == old(self).state
                    &&& views(final(self).log@) == (if old(self).log@.len() > 0 {
                        views(old(self).log@).push(Seq::empty())
                    } else {
                        views(old(self).log@)
                    }).push("+ "@ + peer@ + "  ["@ + session_type@ + "]"@)
                    &&& final(self).session_in_progress
                },
                ServerEvent::SessionResult(lines) => {
                    &&& r == SessionClock::Keep
                    &&& final(self).state == old(self).state
                    &&& views(final(self).log@) == views(old(self).log@) + views(lines@)
                    &&& final(self).session_in_progress == old(self).session_in_progress
                },
                ServerEvent::SessionEnded { peer } => {
                    &&& r == SessionClock::Stop
                    &&& final(self).state == old(self).state
                    &&& views(final(self).log@) == views(old(self).log@).push("> "@ + peer@ + "  done"@)
                    &&& !final(self).session_in_progress
                },
                ServerEvent::Error(e) => {
                    &&& r == SessionClock::Stop
                    &&& (old(self).state is Running ==> (final(self).state matches ServerPanelState::Error(m) && m@ == e@))
                    &&& (!(old(self).state is Running) ==> final(self).state == old(self).state)
                    &&& views(final(self).log@) == views(old(self).log@).push("! "@ + e@)
                    &&& !final(self).session_in_progress
                },
            },
    {
        match event {
            ServerEvent::Listening { addr } => {
                self.state = ServerPanelState::Running { addr };
                SessionClock::Keep
            },
            ServerEvent::SessionStarted { peer, session_type } => {
                if self.log.len() > 0 {
                    self.log.push(String::new());
                }
                let mut line = String::from_str("+ ");
                line.append(peer.as_str());
                line.append("  [");
                line.append(session_type.as_str());
                line.append("]");
                self.log.push(line);
                self.session_in_progress = true;
                SessionClock::Start
            },
            ServerEvent::SessionResult(lines) => {
                append_lines(&mut self.log, lines);
                SessionClock::Keep
            },
            ServerEvent::SessionEnded { peer } => {
                let mut line = String::from_str("> ");
                line.append(peer.as_str());
                line.append("  done");
                self.log.push(line);
                self.session_in_progress = false;
                SessionClock::Stop
            },
            ServerEvent::Error(e) => {
                let ec = chars_of(e.as_str());
                self.log.push(concat2("! ", ec.as_slice()));
                self.session_in_progress = false;
                if self.state.is_busy() {
                    self.state = ServerPanelState::Error(e);
                }
                SessionClock::Stop
            },
        }
    }

    /// The server task ended: a running panel goes back to idle.
    pub fn on_task_finished(&mut self)
        ensures
            old(self).state is Running ==> final(self).state is Idle,
            !(old(self).state is Running) ==> final(self).state == old(self).state,
            final(self).log == old(self).log,
            final(self).session_in_progress == old(self).session_in_progress,
    {
        if self.state.is_busy() {
            self.state = ServerPanelState::Idle;
        }
    }
}

} // verus!
