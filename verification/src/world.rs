//! What holds of whole runs.
//!
//! The machine of [`crate::flow`] is run here against a model of its
//! surroundings in which nothing fails: files are where they were left, every
//! deletion, unpacking and write succeeds, and children end as foretold. On
//! that model the launcher's promises are stated for runs from start to exit,
//! and for runs that follow one another. Promises that must hold whatever the
//! surroundings answer are stated on the machine alone.

use crate::flow::{
    alters_runtime, ended, extracts, going, next, run, spawns, Command, Outcome, Phase, Request,
    Signal,
};
use crate::invoke::ChildResult;
use crate::staleness::{freshness, Freshness, ModTime};
use vstd::prelude::*;

verus! {

/// A runtime directory, as far as decisions depend on it.
pub struct Runtime {
    /// When it was last modified.
    pub modified: ModTime,
    /// Whether it holds the provisioning marker.
    pub marker: bool,
}

/// The launcher's surroundings, as far as decisions depend on them.
pub struct World {
    /// Whether the working directory holds the source tree's marker.
    pub source_marker: bool,
    /// When the executable was last modified.
    pub executable: ModTime,
    /// The runtime directory, if it exists.
    pub runtime: Option<Runtime>,
    /// Whether the working directory holds a dependency descriptor.
    pub descriptor: bool,
    /// The time that an unpacking would leave on the runtime directory.
    pub clock: ModTime,
    /// How a setup run would end.
    pub setup: ChildResult,
    /// How the runtime would end.
    pub child: ChildResult,
    /// How often the payload was unpacked so far.
    pub unpacked: nat,
    /// How often the setup ran so far.
    pub provisioned: nat,
}

/// What carrying out `command` in `world` leaves of it, and answers.
pub open spec fn answer(world: World, command: Command) -> (World, Signal) {
    match command {
        Command::Locate => (world, Signal::Located(true)),
        Command::ProbeSourceMarker => (world, Signal::Found(world.source_marker)),
        Command::RemoveRuntime => if world.runtime is Some {
            (World { runtime: None, ..world }, Signal::Done(true))
        } else {
            (world, Signal::Done(false))
        },
        Command::ProbeRuntime => (world, Signal::Found(world.runtime is Some)),
        Command::DateExecutable => (world, Signal::Timed(true)),
        Command::DateRuntime => match world.runtime {
            Some(runtime) => (
                world,
                Signal::Compared(Some(freshness(world.executable, runtime.modified))),
            ),
            None => (world, Signal::Compared(None)),
        },
        Command::LoadPayload => (world, Signal::Loaded(None)),
        Command::Unpack => (
            World {
                runtime: Some(Runtime { modified: world.clock, marker: false }),
                unpacked: world.unpacked + 1,
                ..world
            },
            Signal::Done(true),
        ),
        Command::ProbeDescriptor => (world, Signal::Found(world.descriptor)),
        Command::ProbeMarker => (
            world,
            Signal::Found(world.runtime matches Some(runtime) && runtime.marker),
        ),
        Command::RunSetup => (
            World { provisioned: world.provisioned + 1, ..world },
            Signal::Exited(Some(world.setup)),
        ),
        Command::WriteMarker => match world.runtime {
            Some(runtime) => (
                World { runtime: Some(Runtime { marker: true, ..runtime }), ..world },
                Signal::Done(true),
            ),
            None => (world, Signal::Done(false)),
        },
        Command::RunRuntime => (world, Signal::Exited(Some(world.child))),
        Command::Exit(_) => (world, Signal::Begin),
    }
}

/// How far `phase` is from the end of a run, at most.
pub open spec fn distance(phase: Phase) -> nat {
    match phase {
        Phase::Start => 15,
        Phase::Locating => 14,
        Phase::Guarding => 13,
        Phase::Cleaning => 12,
        Phase::Sighting => 11,
        Phase::DatingExecutable => 10,
        Phase::DatingRuntime => 9,
        Phase::Invalidating => 8,
        Phase::Loading => 7,
        Phase::Unpacking => 6,
        Phase::SeekingDescriptor => 5,
        Phase::SeekingMarker => 4,
        Phase::Provisioning => 3,
        Phase::Marking => 2,
        Phase::Delegating => 1,
        Phase::Finished => 0,
    }
}

/// A run, or the rest of one: the commands given, in order, and the world
/// that they leave.
pub struct Session {
    pub commands: Seq<Command>,
    pub world: World,
}

/// The rest of a run that stands in `phase` and is answered `signal`.
pub open spec fn session(request: Request, world: World, phase: Phase, signal: Signal) -> Session
    decreases distance(phase),
{
    let turn = next(request, phase, signal);
    if turn.command is Exit || distance(turn.phase) >= distance(phase) {
        Session { commands: seq![turn.command], world }
    } else {
        let rest = session(
            request,
            answer(world, turn.command).0,
            turn.phase,
            answer(world, turn.command).1,
        );
        Session { commands: seq![turn.command] + rest.commands, world: rest.world }
    }
}

/// A whole run in `world`.
pub open spec fn launch(request: Request, world: World) -> Session {
    session(request, world, Phase::Start, Signal::Begin)
}

/// Every move of the machine either ends the run or brings its end nearer:
/// no run goes on for ever, and none gives more than fifteen commands.
pub proof fn every_run_ends(request: Request, phase: Phase, signal: Signal)
    ensures
        next(request, phase, signal).command is Exit || distance(
            next(request, phase, signal).phase,
        ) < distance(phase),
{
}

/// A request to clean, where the runtime directory exists and the launcher is
/// not in its source tree, deletes the directory and ends with status 0,
/// having asked for nothing else.
pub proof fn clean_removes_and_stops(world: World)
    requires
        !world.source_marker,
        world.runtime is Some,
    ensures
        launch(Request::Clean, world).commands == seq![
            Command::Locate,
            Command::ProbeSourceMarker,
            Command::RemoveRuntime,
            Command::Exit(Outcome::Cleaned),
        ],
        launch(Request::Clean, world).world.runtime is None,
        Outcome::Cleaned.status() == 0,
{
    reveal_with_fuel(session, 5);
    assert(launch(Request::Clean, world).commands =~= seq![
        Command::Locate,
        Command::ProbeSourceMarker,
        Command::RemoveRuntime,
        Command::Exit(Outcome::Cleaned),
    ]);
}

/// The phases that a run asked to clean can be in.
spec fn cleaning_phase(phase: Phase) -> bool {
    ||| phase == Phase::Start
    ||| phase == Phase::Locating
    ||| phase == Phase::Guarding
    ||| phase == Phase::Cleaning
    ||| phase == Phase::Finished
}

proof fn lemma_clean_run(phase: Phase, signals: Seq<Signal>)
    requires
        cleaning_phase(phase),
    ensures
        run(Request::Clean, phase, signals).len() == signals.len(),
        forall|i: int|
            0 <= i < signals.len() ==> {
                let command = #[trigger] run(Request::Clean, phase, signals)[i];
                !spawns(command) && !extracts(command)
            },
    decreases signals.len(),
{
    if signals.len() > 0 {
        lemma_clean_run(next(Request::Clean, phase, signals[0]).phase, signals.skip(1));
    }
}

/// Whatever is answered, a run that was asked to clean never starts a child
/// process and never unpacks.
pub proof fn clean_never_spawns(signals: Seq<Signal>)
    ensures
        forall|i: int|
            0 <= i < run(Request::Clean, Phase::Start, signals).len() ==> {
                let command = #[trigger] run(Request::Clean, Phase::Start, signals)[i];
                !spawns(command) && !extracts(command)
            },
{
    lemma_clean_run(Phase::Start, signals);
}

/// A run that finds its runtime directory fresh, and nothing left to
/// provision, reads no payload, unpacks nothing, and leaves the directory as
/// it found it. It ends as the runtime ends.
pub proof fn fresh_runtime_is_reused(world: World)
    requires
        !world.source_marker,
        world.runtime matches Some(runtime) && freshness(world.executable, runtime.modified)
            == Freshness::Fresh && !(world.descriptor && !runtime.marker),
    ensures
        launch(Request::Forward, world).world == world,
        forall|i: int|
            0 <= i < launch(Request::Forward, world).commands.len() ==> {
                let command = #[trigger] launch(Request::Forward, world).commands[i];
                !extracts(command) && !alters_runtime(command)
            },
        launch(Request::Forward, world).commands.last() == Command::Exit(ended(world.child)),
{
    reveal_with_fuel(session, 10);
    let commands = launch(Request::Forward, world).commands;
    let head = seq![
        Command::Locate,
        Command::ProbeSourceMarker,
        Command::ProbeRuntime,
        Command::DateExecutable,
        Command::DateRuntime,
        Command::ProbeDescriptor,
    ];
    if world.descriptor {
        assert(commands =~= head + seq![
            Command::ProbeMarker,
            Command::RunRuntime,
            Command::Exit(ended(world.child)),
        ]);
    } else {
        assert(commands =~= head + seq![Command::RunRuntime, Command::Exit(ended(world.child))]);
    }
}

/// A run that finds its runtime directory stale deletes it and unpacks the
/// payload anew, before anything else is done with the directory.
pub proof fn stale_runtime_is_rebuilt(world: World)
    requires
        !world.source_marker,
        world.runtime matches Some(runtime) && freshness(world.executable, runtime.modified)
            == Freshness::Stale,
    ensures
        launch(Request::Forward, world).commands.len() > 8,
        launch(Request::Forward, world).commands.take(8) == seq![
            Command::Locate,
            Command::ProbeSourceMarker,
            Command::ProbeRuntime,
            Command::DateExecutable,
            Command::DateRuntime,
            Command::RemoveRuntime,
            Command::LoadPayload,
            Command::Unpack,
        ],
        launch(Request::Forward, world).world.unpacked == world.unpacked + 1,
        launch(Request::Forward, world).world.runtime matches Some(runtime) && runtime.modified
            == world.clock,
{
    reveal_with_fuel(session, 15);
    assert(launch(Request::Forward, world).commands.take(8) =~= seq![
        Command::Locate,
        Command::ProbeSourceMarker,
        Command::ProbeRuntime,
        Command::DateExecutable,
        Command::DateRuntime,
        Command::RemoveRuntime,
        Command::LoadPayload,
        Command::Unpack,
    ]);
}

/// A run without a runtime directory unpacks the payload once.
pub proof fn missing_runtime_is_unpacked(world: World)
    requires
        !world.source_marker,
        world.runtime is None,
    ensures
        launch(Request::Forward, world).commands.len() > 5,
        launch(Request::Forward, world).commands.take(5) == seq![
            Command::Locate,
            Command::ProbeSourceMarker,
            Command::ProbeRuntime,
            Command::LoadPayload,
            Command::Unpack,
        ],
        launch(Request::Forward, world).world.unpacked == world.unpacked + 1,
        launch(Request::Forward, world).world.runtime is Some,
{
    reveal_with_fuel(session, 12);
    assert(launch(Request::Forward, world).commands.take(5) =~= seq![
        Command::Locate,
        Command::ProbeSourceMarker,
        Command::ProbeRuntime,
        Command::LoadPayload,
        Command::Unpack,
    ]);
}

/// Whatever is answered after a runtime directory was found stale, no child
/// is started before the directory was deleted and the payload unpacked, each
/// with success.
pub proof fn stale_runtime_is_never_run(request: Request, rest: Seq<Signal>)
    ensures
        ({
            let commands = run(
                request,
                Phase::DatingRuntime,
                seq![Signal::Compared(Some(Freshness::Stale))] + rest,
            );
            &&& commands.len() == rest.len() + 1
            &&& commands[0] == Command::RemoveRuntime
            &&& forall|i: int|
                0 <= i < commands.len() && spawns(#[trigger] commands[i]) ==> {
                    &&& i > 3
                    &&& rest[0] == Signal::Done(true)
                    &&& commands[1] == Command::LoadPayload
                    &&& rest[1] == Signal::Loaded(None)
                    &&& commands[2] == Command::Unpack
                    &&& rest[2] == Signal::Done(true)
                }
        }),
{
    let signals = seq![Signal::Compared(Some(Freshness::Stale))] + rest;
    let commands = run(request, Phase::DatingRuntime, signals);
    lemma_run_len(request, Phase::DatingRuntime, signals);
    assert(signals.skip(1) =~= rest);
    if rest.len() > 0 {
        lemma_run_len(request, Phase::Invalidating, rest);
        let second = next(request, Phase::Invalidating, rest[0]);
        if rest[0] == Signal::Done(true) {
            if rest.len() > 1 {
                lemma_run_len(request, Phase::Loading, rest.skip(1));
                assert(rest.skip(1)[0] == rest[1]);
                if rest[1] == Signal::Loaded(None) {
                    if rest.len() > 2 {
                        lemma_run_len(request, Phase::Unpacking, rest.skip(1).skip(1));
                        assert(rest.skip(1).skip(1)[0] == rest[2]);
                        if rest[2] != Signal::Done(true) {
                            lemma_finished_run(
                                request,
                                next(request, Phase::Unpacking, rest[2]).phase,
                                rest.skip(1).skip(1).skip(1),
                            );
                        }
                    }
                } else {
                    lemma_finished_run(
                        request,
                        next(request, Phase::Loading, rest[1]).phase,
                        rest.skip(1).skip(1),
                    );
                }
            }
        } else {
            lemma_finished_run(request, second.phase, rest.skip(1));
        }
    }
}

/// A run gives one command for each answer.
proof fn lemma_run_len(request: Request, phase: Phase, signals: Seq<Signal>)
    ensures
        run(request, phase, signals).len() == signals.len(),
    decreases signals.len(),
{
    if signals.len() > 0 {
        lemma_run_len(request, next(request, phase, signals[0]).phase, signals.skip(1));
    }
}

/// A run that is over gives nothing but exits.
proof fn lemma_finished_run(request: Request, phase: Phase, signals: Seq<Signal>)
    requires
        phase == Phase::Finished,
    ensures
        run(request, phase, signals).len() == signals.len(),
        forall|i: int|
            0 <= i < signals.len() ==> (#[trigger] run(request, phase, signals)[i]) is Exit,
    decreases signals.len(),
{
    if signals.len() > 0 {
        lemma_finished_run(request, Phase::Finished, signals.skip(1));
    }
}

/// The search for the descriptor, with which the use of the runtime
/// directory begins, follows a directory that was found fresh or one that
/// was unpacked just now, and nothing else; and the payload is read only
/// where the directory is missing or was deleted just now.
pub proof fn runtime_is_fresh_or_new(request: Request, phase: Phase, signal: Signal)
    ensures
        next(request, phase, signal).phase == Phase::SeekingDescriptor <==> (phase
            == Phase::DatingRuntime && signal == Signal::Compared(Some(Freshness::Fresh))) || (phase
            == Phase::Unpacking && signal == Signal::Done(true)),
        next(request, phase, signal).command == Command::LoadPayload <==> (phase
            == Phase::Sighting && signal == Signal::Found(false)) || (phase
            == Phase::Invalidating && signal == Signal::Done(true)),
{
}

/// The setup follows a descriptor that was found and a marker that was not,
/// and nothing else; the marker is written after a setup that ended with
/// status 0, and after nothing else.
pub proof fn setup_only_when_due(request: Request, phase: Phase, signal: Signal)
    ensures
        next(request, phase, signal).command == Command::RunSetup <==> phase
            == Phase::SeekingMarker && signal == Signal::Found(false),
        next(request, phase, signal).phase == Phase::SeekingMarker <==> phase
            == Phase::SeekingDescriptor && signal == Signal::Found(true),
        next(request, phase, signal).command == Command::WriteMarker <==> phase
            == Phase::Provisioning && signal == Signal::Exited(
            Some(ChildResult::Exited { code: 0 }),
        ),
{
}

/// The world after a setup that succeeded in `world`: set up once more, and
/// with the marker in the runtime directory.
pub open spec fn provisioned(world: World) -> World {
    World {
        runtime: Some(Runtime { marker: true, ..world.runtime->0 }),
        provisioned: world.provisioned + 1,
        ..world
    }
}

/// The world after the payload was unpacked in `world`.
pub open spec fn unpacked(world: World) -> World {
    World {
        runtime: Some(Runtime { modified: world.clock, marker: false }),
        unpacked: world.unpacked + 1,
        ..world
    }
}

/// From the search for the descriptor on, a run that is due a setup, and
/// whose setup succeeds, sets up and writes the marker.
proof fn lemma_setup_tail(world: World, phase: Phase, signal: Signal)
    requires
        next(Request::Forward, phase, signal) == going(
            Phase::SeekingDescriptor,
            Command::ProbeDescriptor,
        ),
        distance(phase) > distance(Phase::SeekingDescriptor),
        world.descriptor,
        world.runtime matches Some(runtime) && !runtime.marker,
        world.setup == (ChildResult::Exited { code: 0 }),
    ensures
        session(Request::Forward, world, phase, signal).world == provisioned(world),
{
    reveal_with_fuel(session, 7);
}

/// The first of the runs of [`setup_runs_once`], where the runtime directory
/// is missing.
proof fn lemma_setup_after_unpacking(world: World)
    requires
        !world.source_marker,
        world.descriptor,
        world.runtime is None,
        world.setup == (ChildResult::Exited { code: 0 }),
    ensures
        launch(Request::Forward, world).world == provisioned(unpacked(world)),
{
    lemma_setup_tail(unpacked(world), Phase::Unpacking, Signal::Done(true));
    reveal_with_fuel(session, 6);
}

/// The first of the runs of [`setup_runs_once`], where the runtime directory
/// is stale.
proof fn lemma_setup_after_rebuilding(world: World)
    requires
        !world.source_marker,
        world.descriptor,
        world.runtime matches Some(runtime) && freshness(world.executable, runtime.modified)
            == Freshness::Stale,
        world.setup == (ChildResult::Exited { code: 0 }),
    ensures
        launch(Request::Forward, world).world == provisioned(unpacked(world)),
{
    lemma_setup_tail(unpacked(world), Phase::Unpacking, Signal::Done(true));
    assert(unpacked(World { runtime: None, ..world }) == unpacked(world));
    reveal_with_fuel(session, 9);
}

/// The first of the runs of [`setup_runs_once`], where the runtime directory
/// is fresh.
proof fn lemma_setup_in_place(world: World)
    requires
        !world.source_marker,
        world.descriptor,
        world.runtime matches Some(runtime) && !runtime.marker && freshness(
            world.executable,
            runtime.modified,
        ) == Freshness::Fresh,
        world.setup == (ChildResult::Exited { code: 0 }),
    ensures
        launch(Request::Forward, world).world == provisioned(world),
{
    lemma_setup_tail(world, Phase::DatingRuntime, Signal::Compared(Some(Freshness::Fresh)));
    reveal_with_fuel(session, 6);
}

/// With a descriptor in place and a setup that succeeds, three runs in a row
/// set up once: the first does, and writes the marker; the second and third
/// find the marker, start no setup, and leave everything as it is.
pub proof fn setup_runs_once(world: World)
    requires
        !world.source_marker,
        world.descriptor,
        world.runtime matches Some(runtime) ==> !runtime.marker,
        world.setup == (ChildResult::Exited { code: 0 }),
        freshness(world.executable, world.clock) == Freshness::Fresh,
    ensures
        ({
            let first = launch(Request::Forward, world);
            let second = launch(Request::Forward, first.world);
            let third = launch(Request::Forward, second.world);
            &&& first.world.provisioned == world.provisioned + 1
            &&& first.world.runtime matches Some(runtime) && runtime.marker
            &&& second.world == first.world
            &&& third.world == first.world
            &&& !second.commands.contains(Command::RunSetup)
            &&& !second.commands.contains(Command::WriteMarker)
            &&& !third.commands.contains(Command::RunSetup)
            &&& !third.commands.contains(Command::WriteMarker)
        }),
{
    match world.runtime {
        None => lemma_setup_after_unpacking(world),
        Some(runtime) => if freshness(world.executable, runtime.modified) == Freshness::Stale {
            lemma_setup_after_rebuilding(world)
        } else {
            lemma_setup_in_place(world)
        },
    }
    let first = launch(Request::Forward, world);
    fresh_runtime_is_reused(first.world);
    let second = launch(Request::Forward, first.world);
    assert forall|i: int| 0 <= i < second.commands.len() implies second.commands[i]
        != Command::RunSetup && second.commands[i] != Command::WriteMarker by {
        assert(!alters_runtime(second.commands[i]));
    }
}

/// The runtime's exit code is the launcher's exit status; a runtime that
/// left none gives 255.
pub proof fn runtime_status_is_handed_on(request: Request, result: ChildResult)
    ensures
        next(request, Phase::Delegating, Signal::Exited(Some(result))).command matches Command::Exit(
            outcome,
        ) && outcome.status() == match result {
            ChildResult::Exited { code } => code,
            ChildResult::Signalled => 255,
        },
{
}

} // verus!
