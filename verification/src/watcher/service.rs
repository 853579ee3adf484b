//! The life of the watcher for one shelf: made, running, shutting down,
//! stopped.
//!
//! The service decides what may happen when; the caller owns the file
//! watcher and the two workers that run the debouncer and the handler.

use std::time::Duration;
use vstd::prelude::*;
use vstd::string::*;
use crate::error::OraError;
use crate::watcher::debounce::{DebounceState, Debouncer};
use crate::watcher::handler::FileIndexHandler;

verus! {

/// Where a watcher service stands in its life.
#[derive(Clone, Copy, Debug, PartialEq, Eq, Structural)]
pub enum Phase {
    /// Made, not started yet.
    Created,
    /// The file watcher and both workers run.
    Running,
    /// The file watcher is being stopped and the workers run dry.
    ShuttingDown,
    /// Over. A stopped service stays stopped.
    Stopped,
}

/// One thing to do to shut a running service down.
#[derive(Clone, Copy, Debug, PartialEq, Eq, Structural)]
pub enum ShutdownStep {
    /// Stop the file watcher, so that no new change comes in.
    StopWatcher,
    /// Wait for the worker that runs the debouncer to end.
    JoinDebouncer,
    /// Wait for the worker that runs the handler to end.
    JoinHandler,
}

/// The watcher for one shelf.
pub struct WatcherService {
    handler: FileIndexHandler,
    phase: Phase,
    duration: Duration,
    watch_path: String,
}

/// What a start that was refused says.
pub open spec fn refusal() -> Seq<char> {
    seq![
        'w',
        'a',
        't',
        'c',
        'h',
        'e',
        'r',
        ' ',
        's',
        'e',
        'r',
        'v',
        'i',
        'c',
        'e',
        ' ',
        'w',
        'a',
        's',
        ' ',
        's',
        't',
        'a',
        'r',
        't',
        'e',
        'd',
        ' ',
        'b',
        'e',
        'f',
        'o',
        'r',
        'e',
    ]
}

/// The steps that shut a service in the given phase down, in order: the
/// file watcher first, the debouncer's worker next, the handler's worker last.
/// Only a running service has anything to stop.
pub open spec fn shutdown_steps(phase: Phase) -> Seq<ShutdownStep> {
    if phase == Phase::Running {
        seq![ShutdownStep::StopWatcher, ShutdownStep::JoinDebouncer, ShutdownStep::JoinHandler]
    } else {
        Seq::empty()
    }
}

/// The phase that asking for a shutdown leads to.
pub open spec fn phase_after_shutdown(phase: Phase) -> Phase {
    match phase {
        Phase::Created => Phase::Stopped,
        Phase::Running => Phase::ShuttingDown,
        Phase::ShuttingDown => Phase::ShuttingDown,
        Phase::Stopped => Phase::Stopped,
    }
}

impl WatcherService {
    /// Where the service stands in its life.
    pub closed spec fn phase_of(&self) -> Phase {
        self.phase
    }

    /// The directory that is watched.
    pub closed spec fn watched(&self) -> Seq<char> {
        self.watch_path@
    }

    /// The quiet time after which a change is passed on.
    pub closed spec fn quiet_time(&self) -> Duration {
        self.duration
    }

    /// A service for the shelf at `shelf_path`, not started yet.
    pub fn create(shelf_path: &str, debounce_duration: Duration) -> (r: WatcherService)
        ensures
            r.phase_of() == Phase::Created,
            r.watched() == shelf_path@,
            r.quiet_time() == debounce_duration,
    {
        WatcherService {
            handler: FileIndexHandler::new(),
            phase: Phase::Created,
            duration: debounce_duration,
            watch_path: shelf_path.to_string(),
        }
    }

    /// Where the service stands in its life.
    pub fn phase(&self) -> (r: Phase)
        ensures
            r == self.phase_of(),
    {
        self.phase
    }

    /// The directory that is watched.
    pub fn watch_path(&self) -> (r: &str)
        ensures
            r@ == self.watched(),
    {
        self.watch_path.as_str()
    }

    /// The handler that the settled changes go to.
    pub fn handler(&self) -> (r: FileIndexHandler)
        ensures
            r == (FileIndexHandler {  }),
    {
        self.handler
    }

    /// Starts the service, given how starting the file watcher on the
    /// watched directory went. Only a service that was made and never
    /// started can start: it runs from now on, and the debouncer for its
    /// worker comes back, idle, with the service's quiet time.
    ///
    /// Where the file watcher did not start, the service fails with the
    /// watcher's error and stays as it was. A service that was started before
    /// refuses with `Other` and stays as it was.
    pub fn run(&mut self, watcher: Result<(), notify::Error>) -> (r: Result<Debouncer, OraError>)
        ensures
            final(self).watched() == old(self).watched(),
            final(self).quiet_time() == old(self).quiet_time(),
            old(self).phase_of() != Phase::Created ==> final(self).phase_of() == old(
                self,
            ).phase_of() && r is Err && r->Err_0 is Other && r->Err_0->Other_0@ == refusal(),
            old(self).phase_of() == Phase::Created ==> match watcher {
                Ok(_) => final(self).phase_of() == Phase::Running && r is Ok && r->Ok_0.state() == (
                DebounceState { pending: Map::empty(), issued: 0 }) && r->Ok_0.quiet_time() == old(
                    self,
                ).quiet_time(),
                Err(e) => final(self).phase_of() == Phase::Created && r == Err::<
                    Debouncer,
                    OraError,
                >(OraError::Watcher(e)),
            },
    {
        match self.phase {
            Phase::Created => {},
            _ => {
                proof {
                    reveal_strlit("watcher service was started before");
                }
                let what = String::from_str("watcher service was started before");
                assert(what@ =~= refusal());
                return Err(OraError::Other(what));
            },
        }
        match watcher {
            Ok(_) => {
                self.phase = Phase::Running;
                Ok(Debouncer::new(self.duration))
            },
            Err(e) => Err(OraError::Watcher(e)),
        }
    }

    /// Asks for the shutdown. A running service starts shutting down, and the
    /// steps come back in the order in which they are to be taken: the file
    /// watcher is stopped first, so that nothing new comes in while the
    /// workers run dry. The debouncer's worker drops the changes that have
    /// not settled when its input closes; the handler's worker ends once the
    /// changes that did settle are handled. A service that never ran is
    /// stopped at once.
    pub fn shutdown(&mut self) -> (r: Vec<ShutdownStep>)
        ensures
            r@ == shutdown_steps(old(self).phase_of()),
            final(self).phase_of() == phase_after_shutdown(old(self).phase_of()),
            final(self).watched() == old(self).watched(),
            final(self).quiet_time() == old(self).quiet_time(),
    {
        let mut steps: Vec<ShutdownStep> = Vec::new();
        match self.phase {
            Phase::Created => {
                self.phase = Phase::Stopped;
            },
            Phase::Running => {
                steps.push(ShutdownStep::StopWatcher);
                steps.push(ShutdownStep::JoinDebouncer);
                steps.push(ShutdownStep::JoinHandler);
                self.phase = Phase::ShuttingDown;
            },
            _ => {},
        }
        assert(steps@ =~= shutdown_steps(old(self).phase_of()));
        steps
    }

    /// Takes in that the steps of the shutdown were taken: a service that
    /// was shutting down is stopped. In any other phase nothing changes.
    pub fn stopped(&mut self)
        ensures
            final(self).phase_of() == if old(self).phase_of() == Phase::ShuttingDown {
                Phase::Stopped
            } else {
                old(self).phase_of()
            },
            final(self).watched() == old(self).watched(),
            final(self).quiet_time() == old(self).quiet_time(),
    {
        match self.phase {
            Phase::ShuttingDown => {
                self.phase = Phase::Stopped;
            },
            _ => {},
        }
    }
}

/// A stopped service stays stopped, whatever is asked of it: neither a
/// shutdown nor its completion leads anywhere else, and no phase but
/// `Created` leads to `Running`.
pub proof fn law_stopped_is_final(phase: Phase)
    ensures
        phase_after_shutdown(Phase::Stopped) == Phase::Stopped,
        shutdown_steps(Phase::Stopped) == Seq::<ShutdownStep>::empty(),
        phase_after_shutdown(phase) != Phase::Running,
        phase_after_shutdown(phase) != Phase::Created,
{
}

} // verus!
