use vstd::prelude::*;

use crate::middleware::{Middleware, Status};
use crate::request::Request;
use crate::response::Response;

verus! {

/// The mark a [`Probe::Recorder`] appends after its id when entered.
pub const ENTER_MARK: u64 = 1;

/// The mark a [`Probe::Recorder`] appends after its id on exit.
pub const EXIT_MARK: u64 = 2;

/// The mark a [`Probe::Recorder`] appends after its id when notified of an
/// error.
pub const ERROR_MARK: u64 = 3;

/// What a [`Probe::Recorder`] answers when entered.
pub enum Reaction {
    /// Return [`Status::Continue`].
    Proceed,
    /// Return [`Status::Unwind`].
    Stop,
    /// Return [`Status::Error`] with this payload.
    Fail(String),
}

/// A middleware for exercising and observing a chain.
///
/// A chain stores one middleware type, so the classic instrumentation
/// handlers live here as variants of a single enum.
pub enum Probe {
    /// Counts its own enter and exit calls and always continues — the
    /// counters saturate rather than wrap.
    CallCount {
        /// How many times `enter` has run.
        enter: u64,
        /// How many times `exit` has run.
        exit: u64,
    },
    /// Claims every request: its `enter` returns [`Status::Unwind`].
    Stopper,
    /// Appends its id and a phase mark to the response on every operation,
    /// so a test can read the exact call order back; its `enter` answers
    /// whatever its reaction says.
    Recorder {
        /// The id written in front of each phase mark.
        id: u64,
        /// What `enter` answers.
        reaction: Reaction,
    },
}

/// A saturating count of one more call.
pub open spec fn bump(c: u64) -> u64 {
    if c < u64::MAX {
        (c + 1) as u64
    } else {
        c
    }
}

impl View for Probe {
    type V = Probe;

    open spec fn view(&self) -> Probe {
        *self
    }
}

impl Middleware for Probe {
    type Err = String;

    open spec fn enter_model(pre: Probe, req: Seq<u64>, res: Seq<u64>) -> (
        Probe,
        Seq<u64>,
        Seq<u64>,
        Status<Seq<char>>,
    ) {
        match pre {
            Probe::CallCount { enter, exit } => (
                Probe::CallCount { enter: bump(enter), exit },
                req,
                res,
                Status::Continue,
            ),
            Probe::Stopper => (pre, req, res, Status::Unwind),
            Probe::Recorder { id, reaction } => {
                let res2 = res.push(id).push(ENTER_MARK);
                match reaction {
                    Reaction::Proceed => (pre, req, res2, Status::Continue),
                    Reaction::Stop => (pre, req, res2, Status::Unwind),
                    Reaction::Fail(p) => (pre, req, res2, Status::Error(p@)),
                }
            },
        }
    }

    open spec fn exit_model(pre: Probe, req: Seq<u64>, res: Seq<u64>) -> (
        Probe,
        Seq<u64>,
        Seq<u64>,
        Status<Seq<char>>,
    ) {
        match pre {
            Probe::CallCount { enter, exit } => (
                Probe::CallCount { enter, exit: bump(exit) },
                req,
                res,
                Status::Continue,
            ),
            Probe::Stopper => (pre, req, res, Status::Continue),
            Probe::Recorder { id, reaction } => (
                pre,
                req,
                res.push(id).push(EXIT_MARK),
                Status::Continue,
            ),
        }
    }

    open spec fn error_model(pre: Probe, req: Seq<u64>, res: Seq<u64>, e: Seq<char>) -> (
        Probe,
        Seq<u64>,
        Seq<u64>,
    ) {
        match pre {
            Probe::Recorder { id, reaction } => (pre, req, res.push(id).push(ERROR_MARK)),
            _ => (pre, req, res),
        }
    }

    fn enter(&mut self, request: &mut Request, response: &mut Response) -> (s: Status<String>) {
        match self {
            Probe::CallCount { enter, exit } => {
                *enter = if *enter < u64::MAX {
                    *enter + 1
                } else {
                    *enter
                };
                Status::Continue
            },
            Probe::Stopper => Status::Unwind,
            Probe::Recorder { id, reaction } => {
                response.body.push(*id);
                response.body.push(ENTER_MARK);
                match reaction {
                    Reaction::Proceed => Status::Continue,
                    Reaction::Stop => Status::Unwind,
                    Reaction::Fail(p) => Status::Error(p.clone()),
                }
            },
        }
    }

    fn exit(&mut self, request: &mut Request, response: &mut Response) -> (s: Status<String>) {
        match self {
            Probe::CallCount { enter, exit } => {
                *exit = if *exit < u64::MAX {
                    *exit + 1
                } else {
                    *exit
                };
                Status::Continue
            },
            Probe::Stopper => Status::Continue,
            Probe::Recorder { id, reaction } => {
                response.body.push(*id);
                response.body.push(EXIT_MARK);
                Status::Continue
            },
        }
    }

    fn on_error(&mut self, request: &mut Request, response: &mut Response, error: &String) {
        match self {
            Probe::Recorder { id, reaction } => {
                response.body.push(*id);
                response.body.push(ERROR_MARK);
            },
            _ => {},
        }
    }

    fn duplicate(&self) -> (m: Self) {
        match self {
            Probe::CallCount { enter, exit } => Probe::CallCount { enter: *enter, exit: *exit },
            Probe::Stopper => Probe::Stopper,
            Probe::Recorder { id, reaction } => Probe::Recorder {
                id: *id,
                reaction: match reaction {
                    Reaction::Proceed => Reaction::Proceed,
                    Reaction::Stop => Reaction::Stop,
                    Reaction::Fail(p) => Reaction::Fail(p.clone()),
                },
            },
        }
    }
}

} // verus!

