//! The launcher's course of action, as a machine: each answer from outside
//! moves it from one phase to the next and yields the next command.
//!
//! Nothing here touches a path or a byte. The machine sees only what the
//! decisions depend on (whether a file exists, whether the runtime directory
//! is stale, how a child ended) and says what is to be done next. What holds
//! of every run is stated on this machine, in [`crate::world`].

use crate::archive::ArchiveFault;
use crate::invoke::{setup_ok, setup_succeeded, ChildResult};
use crate::staleness::Freshness;
use vstd::prelude::*;

verus! {

/// The exit status of a run that did what it was asked to.
pub const EXIT_SUCCESS: i32 = 0;

/// The exit status that stands for a runtime that ended without one.
pub const EXIT_ABNORMAL: i32 = 255;

/// The exit status of a launcher that refuses to run in its own source tree.
pub const EXIT_REFUSED: i32 = 1;

/// The exit status of a launcher that could not do its own part.
pub const EXIT_FAILURE: i32 = 101;

/// What the launcher is asked to do.
#[derive(Debug, Clone, Copy, PartialEq, Eq, Structural)]
pub enum Request {
    /// Delete the runtime directory, and stop.
    Clean,
    /// Hand the arguments on to the runtime.
    Forward,
}

/// The file-system work that can fail.
#[derive(Debug, Clone, Copy, PartialEq, Eq, Structural)]
pub enum FsTask {
    /// Deleting the runtime directory on request.
    Clean,
    /// Reading the two modification times.
    Inspect,
    /// Deleting a stale runtime directory.
    Invalidate,
    /// Carrying out the plan of unpacking.
    Unpack,
    /// Creating the provisioning marker.
    Mark,
}

/// Why the launcher gave up.
#[derive(Debug, Clone, Copy, PartialEq, Eq, Structural)]
pub enum LaunchError {
    /// The path of the running executable, or its stem, cannot be had.
    Locator,
    /// The payload cannot be read as an archive.
    Archive(ArchiveFault),
    /// The entry at `index` would be unpacked outside the working directory.
    UnsafeEntry { index: usize },
    /// File-system work failed.
    Filesystem(FsTask),
    /// A child process could not be started or waited for.
    Spawn,
    /// The setup run did not end with status 0.
    Provisioning,
    /// An answer came that the phase does not expect.
    Protocol,
}

/// How a run of the launcher ends.
#[derive(Debug, Clone, Copy, PartialEq, Eq, Structural)]
pub enum Outcome {
    /// The runtime ran and exited with `code`.
    Ran { code: i32 },
    /// The runtime was ended from outside and left no code.
    Signalled,
    /// The runtime directory was deleted on request.
    Cleaned,
    /// The launcher stands in its own source tree.
    Refused,
    /// The launcher gave up.
    Failed(LaunchError),
}

impl Outcome {
    /// The exit status that belongs to the outcome.
    pub open spec fn status(self) -> i32 {
        match self {
            Outcome::Ran { code } => code,
            Outcome::Signalled => EXIT_ABNORMAL,
            Outcome::Cleaned => EXIT_SUCCESS,
            Outcome::Refused => EXIT_REFUSED,
            Outcome::Failed(_) => EXIT_FAILURE,
        }
    }

    /// The exit status that belongs to the outcome.
    pub fn code(&self) -> (status: i32)
        ensures
            status == self.status(),
    {
        match self {
            Outcome::Ran { code } => *code,
            Outcome::Signalled => EXIT_ABNORMAL,
            Outcome::Cleaned => EXIT_SUCCESS,
            Outcome::Refused => EXIT_REFUSED,
            Outcome::Failed(_) => EXIT_FAILURE,
        }
    }
}

/// The outcome of a run whose runtime ended as `result`.
pub open spec fn ended(result: ChildResult) -> Outcome {
    match result {
        ChildResult::Exited { code } => Outcome::Ran { code },
        ChildResult::Signalled => Outcome::Signalled,
    }
}

/// The outcome of a run whose runtime ended as `result`: its exit status is
/// the runtime's own code, or 255 where the runtime left none.
pub fn outcome_of(result: ChildResult) -> (outcome: Outcome)
    ensures
        outcome == ended(result),
        outcome.status() == match result {
            ChildResult::Exited { code } => code,
            ChildResult::Signalled => 255,
        },
{
    match result {
        ChildResult::Exited { code } => Outcome::Ran { code },
        ChildResult::Signalled => Outcome::Signalled,
    }
}

/// Where a run stands: what was asked last, and is awaited.
#[derive(Debug, Clone, Copy, PartialEq, Eq, Structural)]
pub enum Phase {
    /// Nothing was asked yet.
    Start,
    /// The path of the executable.
    Locating,
    /// Whether the source tree's marker exists.
    Guarding,
    /// The deletion of the runtime directory, on request.
    Cleaning,
    /// Whether the runtime directory exists.
    Sighting,
    /// The modification time of the executable.
    DatingExecutable,
    /// The modification time of the runtime directory.
    DatingRuntime,
    /// The deletion of the stale runtime directory.
    Invalidating,
    /// The bytes of the payload.
    Loading,
    /// The unpacking of the payload.
    Unpacking,
    /// Whether the dependency descriptor exists.
    SeekingDescriptor,
    /// Whether the provisioning marker exists.
    SeekingMarker,
    /// The end of the setup run.
    Provisioning,
    /// The creation of the provisioning marker.
    Marking,
    /// The end of the runtime.
    Delegating,
    /// The run is over.
    Finished,
}

/// An answer from outside, reduced to what the decisions depend on.
#[derive(Debug, Clone, Copy, PartialEq, Eq)]
pub enum Signal {
    /// The run begins.
    Begin,
    /// The executable's path and stem are known, or not.
    Located(bool),
    /// The file asked for exists, or not.
    Found(bool),
    /// The executable's modification time was read, or not.
    Timed(bool),
    /// The runtime directory's modification time was read and compared with
    /// the executable's, or could not be read.
    Compared(Option<Freshness>),
    /// The file-system work asked for was done, or failed.
    Done(bool),
    /// The payload was read and its unpacking planned, or why not.
    Loaded(Option<LaunchError>),
    /// The child ended, or could not be started.
    Exited(Option<ChildResult>),
}

/// What the launcher asks for next.
#[derive(Debug, Clone, Copy, PartialEq, Eq, Structural)]
pub enum Command {
    /// Find the path of the running executable.
    Locate,
    /// See whether the source tree's marker exists.
    ProbeSourceMarker,
    /// Delete the runtime directory and all in it.
    RemoveRuntime,
    /// See whether the runtime directory exists.
    ProbeRuntime,
    /// Read the executable's modification time.
    DateExecutable,
    /// Read the runtime directory's modification time.
    DateRuntime,
    /// Read the payload.
    LoadPayload,
    /// Carry out the plan of unpacking.
    Unpack,
    /// See whether the dependency descriptor exists.
    ProbeDescriptor,
    /// See whether the provisioning marker exists.
    ProbeMarker,
    /// Run the one-time setup.
    RunSetup,
    /// Create the provisioning marker.
    WriteMarker,
    /// Run the runtime with the forwarded arguments.
    RunRuntime,
    /// End the run.
    Exit(Outcome),
}

/// One move of the machine: the phase it enters and the command it gives.
#[derive(Debug, Clone, Copy, PartialEq, Eq, Structural)]
pub struct Turn {
    pub phase: Phase,
    pub command: Command,
}

/// The move that ends the run with `outcome`.
pub open spec fn ending(outcome: Outcome) -> Turn {
    Turn { phase: Phase::Finished, command: Command::Exit(outcome) }
}

/// The move that gives up with `error`.
pub open spec fn failing(error: LaunchError) -> Turn {
    ending(Outcome::Failed(error))
}

/// The move into `phase` with `command`.
pub open spec fn going(phase: Phase, command: Command) -> Turn {
    Turn { phase, command }
}

/// The move that the machine makes in `phase` on `signal`, for a run that
/// was asked `request`.
///
/// The source tree's marker is looked for first, right after the executable
/// is located. A request to clean is served next, and never goes further.
/// Otherwise the runtime directory is judged: a stale one is deleted, a
/// missing one unpacked, a fresh one left alone. Setup runs only where the
/// descriptor exists and the marker does not, and the marker is written only
/// after a setup that ended with status 0. Then the runtime runs, and its end
/// is the launcher's. An answer that the phase does not await, or a failure,
/// ends the run.
pub open spec fn next(request: Request, phase: Phase, signal: Signal) -> Turn {
    match (phase, signal) {
        (Phase::Start, Signal::Begin) => going(Phase::Locating, Command::Locate),
        (Phase::Locating, Signal::Located(true)) => going(
            Phase::Guarding,
            Command::ProbeSourceMarker,
        ),
        (Phase::Locating, Signal::Located(false)) => failing(LaunchError::Locator),
        (Phase::Guarding, Signal::Found(true)) => ending(Outcome::Refused),
        (Phase::Guarding, Signal::Found(false)) => match request {
            Request::Clean => going(Phase::Cleaning, Command::RemoveRuntime),
            Request::Forward => going(Phase::Sighting, Command::ProbeRuntime),
        },
        (Phase::Cleaning, Signal::Done(true)) => ending(Outcome::Cleaned),
        (Phase::Cleaning, Signal::Done(false)) => failing(LaunchError::Filesystem(FsTask::Clean)),
        (Phase::Sighting, Signal::Found(true)) => going(
            Phase::DatingExecutable,
            Command::DateExecutable,
        ),
        (Phase::Sighting, Signal::Found(false)) => going(Phase::Loading, Command::LoadPayload),
        (Phase::DatingExecutable, Signal::Timed(true)) => going(
            Phase::DatingRuntime,
            Command::DateRuntime,
        ),
        (Phase::DatingExecutable, Signal::Timed(false)) => failing(
            LaunchError::Filesystem(FsTask::Inspect),
        ),
        (Phase::DatingRuntime, Signal::Compared(Some(Freshness::Stale))) => going(
            Phase::Invalidating,
            Command::RemoveRuntime,
        ),
        (Phase::DatingRuntime, Signal::Compared(Some(Freshness::Fresh))) => going(
            Phase::SeekingDescriptor,
            Command::ProbeDescriptor,
        ),
        (Phase::DatingRuntime, Signal::Compared(None)) => failing(
            LaunchError::Filesystem(FsTask::Inspect),
        ),
        (Phase::Invalidating, Signal::Done(true)) => going(Phase::Loading, Command::LoadPayload),
        (Phase::Invalidating, Signal::Done(false)) => failing(
            LaunchError::Filesystem(FsTask::Invalidate),
        ),
        (Phase::Loading, Signal::Loaded(None)) => going(Phase::Unpacking, Command::Unpack),
        (Phase::Loading, Signal::Loaded(Some(error))) => failing(error),
        (Phase::Unpacking, Signal::Done(true)) => going(
            Phase::SeekingDescriptor,
            Command::ProbeDescriptor,
        ),
        (Phase::Unpacking, Signal::Done(false)) => failing(
            LaunchError::Filesystem(FsTask::Unpack),
        ),
        (Phase::SeekingDescriptor, Signal::Found(true)) => going(
            Phase::SeekingMarker,
            Command::ProbeMarker,
        ),
        (Phase::SeekingDescriptor, Signal::Found(false)) => going(
            Phase::Delegating,
            Command::RunRuntime,
        ),
        (Phase::SeekingMarker, Signal::Found(true)) => going(
            Phase::Delegating,
            Command::RunRuntime,
        ),
        (Phase::SeekingMarker, Signal::Found(false)) => going(
            Phase::Provisioning,
            Command::RunSetup,
        ),
        (Phase::Provisioning, Signal::Exited(Some(result))) => if setup_succeeded(result) {
            going(Phase::Marking, Command::WriteMarker)
        } else {
            failing(LaunchError::Provisioning)
        },
        (Phase::Provisioning, Signal::Exited(None)) => failing(LaunchError::Spawn),
        (Phase::Marking, Signal::Done(true)) => going(Phase::Delegating, Command::RunRuntime),
        (Phase::Marking, Signal::Done(false)) => failing(LaunchError::Filesystem(FsTask::Mark)),
        (Phase::Delegating, Signal::Exited(Some(result))) => ending(ended(result)),
        (Phase::Delegating, Signal::Exited(None)) => failing(LaunchError::Spawn),
        _ => failing(LaunchError::Protocol),
    }
}

/// Ends the run with `outcome`.
fn end(outcome: Outcome) -> (turn: Turn)
    ensures
        turn == ending(outcome),
{
    Turn { phase: Phase::Finished, command: Command::Exit(outcome) }
}

/// Gives up with `error`.
fn fail(error: LaunchError) -> (turn: Turn)
    ensures
        turn == failing(error),
{
    end(Outcome::Failed(error))
}

/// Goes into `phase` with `command`.
fn go(phase: Phase, command: Command) -> (turn: Turn)
    ensures
        turn == going(phase, command),
{
    Turn { phase, command }
}

/// Makes the machine's move in `phase` on `signal`.
pub fn advance(request: Request, phase: Phase, signal: Signal) -> (turn: Turn)
    ensures
        turn == next(request, phase, signal),
{
    match phase {
        Phase::Start => match signal {
            Signal::Begin => go(Phase::Locating, Command::Locate),
            _ => fail(LaunchError::Protocol),
        },
        Phase::Locating => match signal {
            Signal::Located(true) => go(Phase::Guarding, Command::ProbeSourceMarker),
            Signal::Located(false) => fail(LaunchError::Locator),
            _ => fail(LaunchError::Protocol),
        },
        Phase::Guarding => match signal {
            Signal::Found(true) => end(Outcome::Refused),
            Signal::Found(false) => match request {
                Request::Clean => go(Phase::Cleaning, Command::RemoveRuntime),
                Request::Forward => go(Phase::Sighting, Command::ProbeRuntime),
            },
            _ => fail(LaunchError::Protocol),
        },
        Phase::Cleaning => match signal {
            Signal::Done(true) => end(Outcome::Cleaned),
            Signal::Done(false) => fail(LaunchError::Filesystem(FsTask::Clean)),
            _ => fail(LaunchError::Protocol),
        },
        Phase::Sighting => match signal {
            Signal::Found(true) => go(Phase::DatingExecutable, Command::DateExecutable),
            Signal::Found(false) => go(Phase::Loading, Command::LoadPayload),
            _ => fail(LaunchError::Protocol),
        },
        Phase::DatingExecutable => match signal {
            Signal::Timed(true) => go(Phase::DatingRuntime, Command::DateRuntime),
            Signal::Timed(false) => fail(LaunchError::Filesystem(FsTask::Inspect)),
            _ => fail(LaunchError::Protocol),
        },
        Phase::DatingRuntime => match signal {
            Signal::Compared(Some(Freshness::Stale)) => go(
                Phase::Invalidating,
                Command::RemoveRuntime,
            ),
            Signal::Compared(Some(Freshness::Fresh)) => go(
                Phase::SeekingDescriptor,
                Command::ProbeDescriptor,
            ),
            Signal::Compared(None) => fail(LaunchError::Filesystem(FsTask::Inspect)),
            _ => fail(LaunchError::Protocol),
        },
        Phase::Invalidating => match signal {
            Signal::Done(true) => go(Phase::Loading, Command::LoadPayload),
            Signal::Done(false) => fail(LaunchError::Filesystem(FsTask::Invalidate)),
            _ => fail(LaunchError::Protocol),
        },
        Phase::Loading => match signal {
            Signal::Loaded(None) => go(Phase::Unpacking, Command::Unpack),
            Signal::Loaded(Some(error)) => fail(error),
            _ => fail(LaunchError::Protocol),
        },
        Phase::Unpacking => match signal {
            Signal::Done(true) => go(Phase::SeekingDescriptor, Command::ProbeDescriptor),
            Signal::Done(false) => fail(LaunchError::Filesystem(FsTask::Unpack)),
            _ => fail(LaunchError::Protocol),
        },
        Phase::SeekingDescriptor => match signal {
            Signal::Found(true) => go(Phase::SeekingMarker, Command::ProbeMarker),
            Signal::Found(false) => go(Phase::Delegating, Command::RunRuntime),
            _ => fail(LaunchError::Protocol),
        },
        Phase::SeekingMarker => match signal {
            Signal::Found(true) => go(Phase::Delegating, Command::RunRuntime),
            Signal::Found(false) => go(Phase::Provisioning, Command::RunSetup),
            _ => fail(LaunchError::Protocol),
        },
        Phase::Provisioning => match signal {
            Signal::Exited(Some(result)) => if setup_ok(result) {
                go(Phase::Marking, Command::WriteMarker)
            } else {
                fail(LaunchError::Provisioning)
            },
            Signal::Exited(None) => fail(LaunchError::Spawn),
            _ => fail(LaunchError::Protocol),
        },
        Phase::Marking => match signal {
            Signal::Done(true) => go(Phase::Delegating, Command::RunRuntime),
            Signal::Done(false) => fail(LaunchError::Filesystem(FsTask::Mark)),
            _ => fail(LaunchError::Protocol),
        },
        Phase::Delegating => match signal {
            Signal::Exited(Some(result)) => end(outcome_of(result)),
            Signal::Exited(None) => fail(LaunchError::Spawn),
            _ => fail(LaunchError::Protocol),
        },
        Phase::Finished => fail(LaunchError::Protocol),
    }
}

/// The commands that the machine gives, one for each of `signals`, when it
/// starts in `phase`.
pub open spec fn run(request: Request, phase: Phase, signals: Seq<Signal>) -> Seq<Command>
    decreases signals.len(),
{
    if signals.len() == 0 {
        Seq::empty()
    } else {
        seq![next(request, phase, signals[0]).command] + run(
            request,
            next(request, phase, signals[0]).phase,
            signals.skip(1),
        )
    }
}

/// `command` starts a child process.
pub open spec fn spawns(command: Command) -> bool {
    command == Command::RunSetup || command == Command::RunRuntime
}

/// `command` reads the payload or unpacks it.
pub open spec fn extracts(command: Command) -> bool {
    command == Command::LoadPayload || command == Command::Unpack
}

/// `command` changes what the runtime directory holds.
pub open spec fn alters_runtime(command: Command) -> bool {
    ||| command == Command::RemoveRuntime
    ||| command == Command::Unpack
    ||| command == Command::RunSetup
    ||| command == Command::WriteMarker
}

} // verus!
