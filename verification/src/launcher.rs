//! The launcher: the machine of [`crate::flow`], dressed with the paths,
//! arguments and bytes of one run.
//!
//! The launcher never touches the outside itself. Each call of
//! [`Launcher::step`] takes the answer to the last action and hands back the
//! next action; whoever drives it carries the actions out.

use crate::archive::ArchiveFault;
use crate::extract::{extract_runtime, planned_as, step_models, Load, Step, StepModel};
use crate::flow::{advance, next, Command, LaunchError, Outcome, Phase, Request, Signal};
use crate::invoke::{
    runtime_invocation, runtime_run, setup_invocation, setup_run, texts, ChildResult, Invocation,
    InvocationModel,
};
use crate::layout::{
    marker_in, marker_path, runtime_dir_for, runtime_dir_name, DESCRIPTOR, SOURCE_MARKER,
};
use crate::locator::{exec_stem, get_exec_stem};
use crate::staleness::{assess, freshness, ModTime};
use vstd::prelude::*;

verus! {

/// The first argument that asks for the runtime directory to be deleted.
pub const CLEAN_COMMAND: &'static str = "clean";

/// What the arguments `args` ask for: to clean where the first of them is
/// `clean`, and to be handed on to the runtime otherwise.
pub open spec fn requested(args: Seq<Seq<char>>) -> Request {
    if args.len() > 0 && args[0] == CLEAN_COMMAND@ {
        Request::Clean
    } else {
        Request::Forward
    }
}

/// Tells what the arguments ask for.
pub fn route(args: &Vec<String>) -> (request: Request)
    ensures
        request == requested(texts(args@)),
{
    if args.len() > 0 && args[0] == String::from_str(CLEAN_COMMAND) {
        Request::Clean
    } else {
        Request::Forward
    }
}

/// An answer from outside to the launcher's last action.
#[derive(Debug, Clone, PartialEq, Eq)]
pub enum Event {
    /// The run begins: there was no action yet.
    Begin,
    /// The path of the running executable, or `None` where it cannot be had.
    Executable(Option<String>),
    /// Whether the path asked for exists.
    Found(bool),
    /// The modification time asked for, or `None` where it cannot be read.
    Modified(Option<ModTime>),
    /// Whether the file-system work asked for succeeded.
    Done(bool),
    /// The bytes of the file asked for, or `None` where it cannot be read.
    Payload(Option<Vec<u8>>),
    /// How the child ended, or `None` where it could not be started or
    /// waited for.
    Child(Option<ChildResult>),
}

/// What a child is run for.
#[derive(Debug, Clone, Copy, PartialEq, Eq, Structural)]
pub enum Purpose {
    /// The one-time setup of dependencies.
    Setup,
    /// The runtime itself.
    Runtime,
}

/// What the launcher wants done next.
#[derive(Debug, Clone, PartialEq, Eq)]
pub enum Action {
    /// Report the path of the running executable.
    Locate,
    /// Report whether `path` exists.
    Probe { path: String },
    /// Report the modification time of `path`.
    Modified { path: String },
    /// Delete the directory `path` and all in it.
    RemoveDirAll { path: String },
    /// Report the bytes of the file `path`.
    ReadFile { path: String },
    /// Carry out `steps` in order, stopping at the first that fails.
    Unpack { steps: Vec<Step> },
    /// Run `invocation` with the launcher's own standard streams, wait for
    /// it, and report how it ended.
    Run { invocation: Invocation, purpose: Purpose },
    /// Create the empty file `path`.
    CreateFile { path: String },
    /// End the run with `outcome`.
    Exit { outcome: Outcome },
}

/// An [`Action`] as plain data.
pub enum ActionModel {
    Locate,
    Probe { path: Seq<char> },
    Modified { path: Seq<char> },
    RemoveDirAll { path: Seq<char> },
    ReadFile { path: Seq<char> },
    Unpack { steps: Seq<StepModel> },
    Run { invocation: InvocationModel, purpose: Purpose },
    CreateFile { path: Seq<char> },
    Exit { outcome: Outcome },
}

impl View for Action {
    type V = ActionModel;

    open spec fn view(&self) -> ActionModel {
        match *self {
            Action::Locate => ActionModel::Locate,
            Action::Probe { path } => ActionModel::Probe { path: path@ },
            Action::Modified { path } => ActionModel::Modified { path: path@ },
            Action::RemoveDirAll { path } => ActionModel::RemoveDirAll { path: path@ },
            Action::ReadFile { path } => ActionModel::ReadFile { path: path@ },
            Action::Unpack { steps } => ActionModel::Unpack { steps: step_models(steps@) },
            Action::Run { invocation, purpose } => ActionModel::Run {
                invocation: invocation@,
                purpose,
            },
            Action::CreateFile { path } => ActionModel::CreateFile { path: path@ },
            Action::Exit { outcome } => ActionModel::Exit { outcome },
        }
    }
}

/// `load` is what planning the unpacking of `payload` into `runtime_dir`
/// gives, where a payload that could not be had is an archive failure.
pub open spec fn loading(payload: Option<Seq<u8>>, runtime_dir: Seq<char>, load: Load) -> bool {
    match payload {
        Some(bytes) => planned_as(bytes, runtime_dir, load),
        None => load == Load::Failed(LaunchError::Archive(ArchiveFault::Unavailable)),
    }
}

/// One run of the launcher, between two actions.
#[derive(Debug)]
pub struct Launcher {
    /// What the arguments ask for.
    pub request: Request,
    /// What was asked last, and is awaited.
    pub phase: Phase,
    /// The arguments to hand on: all but the launcher's own name.
    pub args: Vec<String>,
    /// The path of the running executable, once it is located.
    pub executable: String,
    /// The name of the runtime directory, once the executable is located.
    pub runtime_dir: String,
    /// The executable's modification time, once it is read.
    pub executable_modified: Option<ModTime>,
}

/// What `event` tells the machine, for a launcher that stands as `launcher`
/// and whose planning, if `event` brings a payload, gave `load`.
pub open spec fn signal_of(launcher: Launcher, event: Event, load: Load) -> Signal {
    match event {
        Event::Begin => Signal::Begin,
        Event::Executable(path) => Signal::Located(path matches Some(p) && exec_stem(p@) is Some),
        Event::Found(found) => Signal::Found(found),
        Event::Modified(time) => if launcher.phase == Phase::DatingRuntime {
            Signal::Compared(
                match (launcher.executable_modified, time) {
                    (Some(executable), Some(runtime)) => Some(freshness(executable, runtime)),
                    _ => None,
                },
            )
        } else {
            Signal::Timed(time is Some)
        },
        Event::Done(done) => Signal::Done(done),
        Event::Payload(_) => Signal::Loaded(
            match load {
                Load::Steps(_) => None,
                Load::Failed(error) => Some(error),
            },
        ),
        Event::Child(result) => Signal::Exited(result),
    }
}

/// What `event` leaves of the launcher `before`, when the machine moves into
/// `phase`: the executable's path and the runtime directory's name are set
/// when the executable is located, the executable's modification time when
/// it is read, and nothing else changes.
pub open spec fn settled(before: Launcher, event: Event, phase: Phase, after: Launcher) -> bool {
    &&& after.request == before.request
    &&& after.phase == phase
    &&& texts(after.args@) == texts(before.args@)
    &&& if before.phase == Phase::Locating && phase == Phase::Guarding {
        event matches Event::Executable(Some(path)) && after.executable@ == path@ && Some(
            after.runtime_dir@,
        ) == match exec_stem(path@) {
            Some(name) => Some(runtime_dir_name(name)),
            None => None,
        }
    } else {
        after.executable@ == before.executable@ && after.runtime_dir@ == before.runtime_dir@
    }
    &&& after.executable_modified == if before.phase == Phase::DatingExecutable {
        match event {
            Event::Modified(time) => time,
            _ => before.executable_modified,
        }
    } else {
        before.executable_modified
    }
}

/// The action that carries `command` for the launcher `launcher`, whose
/// planning gave `load`.
pub open spec fn dressed(launcher: Launcher, command: Command, load: Load) -> ActionModel {
    match command {
        Command::Locate => ActionModel::Locate,
        Command::ProbeSourceMarker => ActionModel::Probe { path: SOURCE_MARKER@ },
        Command::RemoveRuntime => ActionModel::RemoveDirAll { path: launcher.runtime_dir@ },
        Command::ProbeRuntime => ActionModel::Probe { path: launcher.runtime_dir@ },
        Command::DateExecutable => ActionModel::Modified { path: launcher.executable@ },
        Command::DateRuntime => ActionModel::Modified { path: launcher.runtime_dir@ },
        Command::LoadPayload => ActionModel::ReadFile { path: launcher.executable@ },
        Command::Unpack => ActionModel::Unpack {
            steps: match load {
                Load::Steps(steps) => steps,
                Load::Failed(_) => Seq::empty(),
            },
        },
        Command::ProbeDescriptor => ActionModel::Probe { path: DESCRIPTOR@ },
        Command::ProbeMarker => ActionModel::Probe { path: marker_in(launcher.runtime_dir@) },
        Command::RunSetup => ActionModel::Run {
            invocation: setup_run(launcher.runtime_dir@),
            purpose: Purpose::Setup,
        },
        Command::WriteMarker => ActionModel::CreateFile {
            path: marker_in(launcher.runtime_dir@),
        },
        Command::RunRuntime => ActionModel::Run {
            invocation: runtime_run(launcher.runtime_dir@, texts(launcher.args@)),
            purpose: Purpose::Runtime,
        },
        Command::Exit(outcome) => ActionModel::Exit { outcome },
    }
}

/// The bytes that `event` brings, if it brings a payload.
pub open spec fn payload_of(event: Event) -> Option<Seq<u8>> {
    match event {
        Event::Payload(Some(bytes)) => Some(bytes@),
        _ => None,
    }
}

/// On `event`, with planning that gave `load`, the launcher `before` takes
/// the machine's move, becomes `after`, and asks for `action`.
pub open spec fn stepped(
    before: Launcher,
    event: Event,
    load: Load,
    after: Launcher,
    action: ActionModel,
) -> bool {
    let turn = next(before.request, before.phase, signal_of(before, event, load));
    &&& before.phase == Phase::Loading && event is Payload ==> loading(
        payload_of(event),
        before.runtime_dir@,
        load,
    )
    &&& settled(before, event, turn.phase, after)
    &&& action == dressed(after, turn.command, load)
}

impl Launcher {
    /// A launcher for a run with the arguments `args`, before its first step.
    pub fn new(args: Vec<String>) -> (launcher: Launcher)
        ensures
            launcher.phase == Phase::Start,
            launcher.request == requested(texts(args@)),
            launcher.args@ == args@,
            launcher.executable@.len() == 0,
            launcher.runtime_dir@.len() == 0,
            launcher.executable_modified is None,
    {
        let request = route(&args);
        Launcher {
            request,
            phase: Phase::Start,
            args,
            executable: String::new(),
            runtime_dir: String::new(),
            executable_modified: None,
        }
    }

    /// Builds the action that carries `command`.
    fn dress(&self, command: Command, steps: Vec<Step>) -> (action: Action)
        ensures
            action@ == dressed(*self, command, Load::Steps(step_models(steps@))),
            !(command is Unpack) ==> forall|load: Load| action@ == dressed(*self, command, load),
    {
        match command {
            Command::Locate => Action::Locate,
            Command::ProbeSourceMarker => Action::Probe { path: String::from_str(SOURCE_MARKER) },
            Command::RemoveRuntime => Action::RemoveDirAll { path: self.runtime_dir.clone() },
            Command::ProbeRuntime => Action::Probe { path: self.runtime_dir.clone() },
            Command::DateExecutable => Action::Modified { path: self.executable.clone() },
            Command::DateRuntime => Action::Modified { path: self.runtime_dir.clone() },
            Command::LoadPayload => Action::ReadFile { path: self.executable.clone() },
            Command::Unpack => Action::Unpack { steps },
            Command::ProbeDescriptor => Action::Probe { path: String::from_str(DESCRIPTOR) },
            Command::ProbeMarker => Action::Probe { path: marker_path(self.runtime_dir.as_str()) },
            Command::RunSetup => Action::Run {
                invocation: setup_invocation(self.runtime_dir.as_str()),
                purpose: Purpose::Setup,
            },
            Command::WriteMarker => Action::CreateFile {
                path: marker_path(self.runtime_dir.as_str()),
            },
            Command::RunRuntime => Action::Run {
                invocation: runtime_invocation(self.runtime_dir.as_str(), &self.args),
                purpose: Purpose::Runtime,
            },
            Command::Exit(outcome) => Action::Exit { outcome },
        }
    }

    /// Takes the answer to the last action and hands back the next one.
    ///
    /// The launcher makes the move of the machine for what `event` tells. A
    /// payload that arrives while it is awaited is read and its unpacking
    /// planned on the spot; the plan goes out with the next action.
    pub fn step(&mut self, event: Event) -> (action: Action)
        ensures
            exists|load: Load| stepped(*old(self), event, load, *final(self), action@),
    {
        let ghost before = *self;
        let mut steps: Vec<Step> = Vec::new();
        let ghost mut load = Load::Failed(LaunchError::Protocol);
        let ghost given = event;
        let signal = match event {
            Event::Begin => Signal::Begin,
            Event::Executable(path) => match path {
                Some(p) => match get_exec_stem(p.as_str()) {
                    Ok(name) => {
                        if matches!(self.phase, Phase::Locating) {
                            self.executable = p;
                            self.runtime_dir = runtime_dir_for(name.as_str());
                        }
                        Signal::Located(true)
                    },
                    Err(_) => Signal::Located(false),
                },
                None => Signal::Located(false),
            },
            Event::Found(found) => Signal::Found(found),
            Event::Modified(time) => match self.phase {
                Phase::DatingRuntime => Signal::Compared(
                    match (self.executable_modified, time) {
                        (Some(executable), Some(runtime)) => Some(assess(executable, runtime)),
                        _ => None,
                    },
                ),
                Phase::DatingExecutable => {
                    self.executable_modified = time;
                    Signal::Timed(time.is_some())
                },
                _ => Signal::Timed(time.is_some()),
            },
            Event::Done(done) => Signal::Done(done),
            Event::Payload(payload) => match self.phase {
                Phase::Loading => match payload {
                    Some(bytes) => match extract_runtime(bytes, self.runtime_dir.as_str()) {
                        Ok(planned) => {
                            steps = planned;
                            proof {
                                load = Load::Steps(step_models(steps@));
                            }
                            Signal::Loaded(None)
                        },
                        Err(error) => {
                            proof {
                                load = Load::Failed(error);
                            }
                            Signal::Loaded(Some(error))
                        },
                    },
                    None => {
                        proof {
                            load = Load::Failed(LaunchError::Archive(ArchiveFault::Unavailable));
                        }
                        Signal::Loaded(Some(LaunchError::Archive(ArchiveFault::Unavailable)))
                    },
                },
                _ => Signal::Loaded(Some(LaunchError::Protocol)),
            },
            Event::Child(result) => Signal::Exited(result),
        };
        assert(signal == signal_of(before, given, load));
        let turn = advance(self.request, self.phase, signal);
        self.phase = turn.phase;
        let action = self.dress(turn.command, steps);
        assert(stepped(before, given, load, *self, action@));
        action
    }
}

} // verus!
