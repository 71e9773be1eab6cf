//! Decision logic of the session log writer.  One thread owns the log file;
//! every formatted line funnels to it through a channel.  The loop around it
//! (which does the file I/O) asks this state machine what to do for each
//! event: write a line, sync the file, idle, or stop.  Syncs are batched: a
//! sync is asked for only after a quiet period in which something was
//! written, or when the writer is told to finish.

use vstd::prelude::*;

verus! {

use vstd::string::*;

/// What the log writer's loop observed in one iteration: a line to persist,
/// the explicit end-of-session sentinel, or a receive timeout.
pub enum LogEvent {
    Line(String),
    Exit,
    TimedOut,
}

/// What the log writer's loop must do next.  `Write` carries the exact
/// bytes-to-be of one CRLF-terminated record.  `SyncAndStop` asks for one
/// final sync before the writer exits.
pub enum LogAction {
    Write(String),
    Sync,
    SyncAndStop,
    Idle,
    Stop,
}

/// The log writer's own state: whether everything written so far has been
/// synced to disk.
pub struct LogWriterState {
    pub synced: bool,
}

impl LogWriterState {
    /// A fresh writer has written nothing, so it counts as synced.
    pub fn new() -> (r: LogWriterState)
        ensures
            r.synced,
    {
        LogWriterState { synced: true }
    }

    /// One decision step.  Once the cancellation flag reads dead the writer
    /// stops at once, whatever the event, so shutdown latency is bounded by
    /// one receive timeout.  While alive: a received line is written as the
    /// line text plus CRLF; the exit sentinel stops the writer, with a last
    /// sync if writes are outstanding; a quiet period syncs outstanding
    /// writes and otherwise idles.
    pub fn on_event(&mut self, alive: bool, event: LogEvent) -> (action: LogAction)
        ensures
            (match (alive, event) {
                (false, _) => action is Stop && final(self).synced == old(self).synced,
                (true, LogEvent::Line(s)) => (match action {
                    LogAction::Write(w) => w@ == s@ + seq!['\r', '\n'],
                    _ => false,
                }) && !final(self).synced,
                (true, LogEvent::Exit) => (if old(self).synced {
                    action is Stop
                } else {
                    action is SyncAndStop
                }) && final(self).synced,
                (true, LogEvent::TimedOut) => (if old(self).synced {
                    action is Idle
                } else {
                    action is Sync
                }) && final(self).synced,
            }),
    {
        if !alive {
            return LogAction::Stop;
        }
        match event {
            LogEvent::Line(s) => {
                self.synced = false;
                let w = s.concat("\r\n");
                proof {
                    reveal_strlit("\r\n");
                    assert("\r\n"@ =~= seq!['\r', '\n']);
                }
                LogAction::Write(w)
            },
            LogEvent::Exit => {
                let was_synced = self.synced;
                self.synced = true;
                if was_synced {
                    LogAction::Stop
                } else {
                    LogAction::SyncAndStop
                }
            },
            LogEvent::TimedOut => {
                let was_synced = self.synced;
                self.synced = true;
                if was_synced {
                    LogAction::Idle
                } else {
                    LogAction::Sync
                }
            },
        }
    }
}

/// The session log's file name: `<project>_<stamp>.log`.  The directory
/// (named after the project) and the stamp itself are the caller's business.
pub fn log_file_name(project_name: &str, stamp: &str) -> (name: String)
    ensures
        name@ == project_name@ + seq!['_'] + stamp@ + seq!['.', 'l', 'o', 'g'],
{
    let mut name = project_name.to_owned();
    name.append("_");
    name.append(stamp);
    name.append(".log");
    proof {
        reveal_strlit("_");
        reveal_strlit(".log");
        assert("_"@ =~= seq!['_']);
        assert(".log"@ =~= seq!['.', 'l', 'o', 'g']);
    }
    name
}

} // verus!
