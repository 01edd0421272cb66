use feet::archive::ArchiveFault;
use feet::flow::{
    advance, Command, FsTask, LaunchError, Outcome, Phase, Request, Signal, Turn, EXIT_FAILURE,
    EXIT_REFUSED, EXIT_SUCCESS,
};
use feet::invoke::ChildResult;
use feet::staleness::Freshness;

fn commands(request: Request, signals: &[Signal]) -> Vec<Command> {
    let mut phase = Phase::Start;
    let mut given = Vec::new();
    for signal in signals {
        let turn = advance(request, phase, *signal);
        phase = turn.phase;
        given.push(turn.command);
    }
    given
}

fn failed(error: LaunchError) -> Turn {
    Turn { phase: Phase::Finished, command: Command::Exit(Outcome::Failed(error)) }
}

#[test]
fn exit_statuses() {
    assert_eq!(EXIT_SUCCESS, 0);
    assert_eq!(EXIT_REFUSED, 1);
    assert_eq!(Outcome::Ran { code: 17 }.code(), 17);
    assert_eq!(Outcome::Ran { code: 0 }.code(), 0);
    assert_eq!(Outcome::Signalled.code(), 255);
    assert_eq!(Outcome::Cleaned.code(), 0);
    assert_eq!(Outcome::Refused.code(), 1);
    assert_eq!(Outcome::Failed(LaunchError::Spawn).code(), EXIT_FAILURE);
}

#[test]
fn failure_status_is_distinct() {
    assert_ne!(EXIT_FAILURE, EXIT_SUCCESS);
    assert_ne!(EXIT_FAILURE, EXIT_REFUSED);
    assert_ne!(EXIT_FAILURE, 255);
}

#[test]
fn first_run_unpacks_and_delegates() {
    let given = commands(
        Request::Forward,
        &[
            Signal::Begin,
            Signal::Located(true),
            Signal::Found(false),
            Signal::Found(false),
            Signal::Loaded(None),
            Signal::Done(true),
            Signal::Found(false),
            Signal::Exited(Some(ChildResult::Exited { code: 0 })),
        ],
    );
    assert_eq!(
        given,
        vec![
            Command::Locate,
            Command::ProbeSourceMarker,
            Command::ProbeRuntime,
            Command::LoadPayload,
            Command::Unpack,
            Command::ProbeDescriptor,
            Command::RunRuntime,
            Command::Exit(Outcome::Ran { code: 0 }),
        ]
    );
}

#[test]
fn fresh_runtime_is_not_unpacked_again() {
    let given = commands(
        Request::Forward,
        &[
            Signal::Begin,
            Signal::Located(true),
            Signal::Found(false),
            Signal::Found(true),
            Signal::Timed(true),
            Signal::Compared(Some(Freshness::Fresh)),
            Signal::Found(false),
            Signal::Exited(Some(ChildResult::Exited { code: 3 })),
        ],
    );
    assert_eq!(
        given,
        vec![
            Command::Locate,
            Command::ProbeSourceMarker,
            Command::ProbeRuntime,
            Command::DateExecutable,
            Command::DateRuntime,
            Command::ProbeDescriptor,
            Command::RunRuntime,
            Command::Exit(Outcome::Ran { code: 3 }),
        ]
    );
}

#[test]
fn stale_runtime_is_deleted_and_unpacked() {
    let given = commands(
        Request::Forward,
        &[
            Signal::Begin,
            Signal::Located(true),
            Signal::Found(false),
            Signal::Found(true),
            Signal::Timed(true),
            Signal::Compared(Some(Freshness::Stale)),
            Signal::Done(true),
            Signal::Loaded(None),
            Signal::Done(true),
        ],
    );
    assert_eq!(
        given[5..].to_vec(),
        vec![
            Command::RemoveRuntime,
            Command::LoadPayload,
            Command::Unpack,
            Command::ProbeDescriptor
        ]
    );
}

#[test]
fn clean_deletes_and_exits_with_success() {
    let given = commands(
        Request::Clean,
        &[Signal::Begin, Signal::Located(true), Signal::Found(false), Signal::Done(true)],
    );
    assert_eq!(
        given,
        vec![
            Command::Locate,
            Command::ProbeSourceMarker,
            Command::RemoveRuntime,
            Command::Exit(Outcome::Cleaned),
        ]
    );
}

#[test]
fn clean_without_a_runtime_directory_fails() {
    assert_eq!(
        advance(Request::Clean, Phase::Cleaning, Signal::Done(false)),
        failed(LaunchError::Filesystem(FsTask::Clean))
    );
}

#[test]
fn source_tree_is_refused_before_anything_else() {
    for request in [Request::Clean, Request::Forward] {
        assert_eq!(
            advance(request, Phase::Guarding, Signal::Found(true)),
            Turn { phase: Phase::Finished, command: Command::Exit(Outcome::Refused) }
        );
    }
}

#[test]
fn setup_runs_when_descriptor_is_there_and_marker_is_not() {
    let request = Request::Forward;
    assert_eq!(
        advance(request, Phase::SeekingDescriptor, Signal::Found(true)),
        Turn { phase: Phase::SeekingMarker, command: Command::ProbeMarker }
    );
    assert_eq!(
        advance(request, Phase::SeekingMarker, Signal::Found(false)),
        Turn { phase: Phase::Provisioning, command: Command::RunSetup }
    );
    assert_eq!(
        advance(
            request,
            Phase::Provisioning,
            Signal::Exited(Some(ChildResult::Exited { code: 0 }))
        ),
        Turn { phase: Phase::Marking, command: Command::WriteMarker }
    );
    assert_eq!(
        advance(request, Phase::Marking, Signal::Done(true)),
        Turn { phase: Phase::Delegating, command: Command::RunRuntime }
    );
}

#[test]
fn marker_suppresses_setup() {
    assert_eq!(
        advance(Request::Forward, Phase::SeekingMarker, Signal::Found(true)),
        Turn { phase: Phase::Delegating, command: Command::RunRuntime }
    );
}

#[test]
fn failed_setup_writes_no_marker() {
    for result in [ChildResult::Exited { code: 2 }, ChildResult::Signalled] {
        assert_eq!(
            advance(Request::Forward, Phase::Provisioning, Signal::Exited(Some(result))),
            failed(LaunchError::Provisioning)
        );
    }
    assert_eq!(
        advance(Request::Forward, Phase::Provisioning, Signal::Exited(None)),
        failed(LaunchError::Spawn)
    );
}

#[test]
fn runtime_end_is_the_launchers_end() {
    assert_eq!(
        advance(
            Request::Forward,
            Phase::Delegating,
            Signal::Exited(Some(ChildResult::Exited { code: 17 }))
        ),
        Turn { phase: Phase::Finished, command: Command::Exit(Outcome::Ran { code: 17 }) }
    );
    assert_eq!(
        advance(Request::Forward, Phase::Delegating, Signal::Exited(Some(ChildResult::Signalled))),
        Turn { phase: Phase::Finished, command: Command::Exit(Outcome::Signalled) }
    );
    assert_eq!(
        advance(Request::Forward, Phase::Delegating, Signal::Exited(None)),
        failed(LaunchError::Spawn)
    );
}

#[test]
fn every_failure_has_its_error() {
    let request = Request::Forward;
    assert_eq!(
        advance(request, Phase::Locating, Signal::Located(false)),
        failed(LaunchError::Locator)
    );
    assert_eq!(
        advance(request, Phase::DatingExecutable, Signal::Timed(false)),
        failed(LaunchError::Filesystem(FsTask::Inspect))
    );
    assert_eq!(
        advance(request, Phase::DatingRuntime, Signal::Compared(None)),
        failed(LaunchError::Filesystem(FsTask::Inspect))
    );
    assert_eq!(
        advance(request, Phase::Invalidating, Signal::Done(false)),
        failed(LaunchError::Filesystem(FsTask::Invalidate))
    );
    assert_eq!(
        advance(
            request,
            Phase::Loading,
            Signal::Loaded(Some(LaunchError::Archive(ArchiveFault::Invalid)))
        ),
        failed(LaunchError::Archive(ArchiveFault::Invalid))
    );
    assert_eq!(
        advance(request, Phase::Loading, Signal::Loaded(Some(LaunchError::UnsafeEntry { index: 4 }))),
        failed(LaunchError::UnsafeEntry { index: 4 })
    );
    assert_eq!(
        advance(request, Phase::Unpacking, Signal::Done(false)),
        failed(LaunchError::Filesystem(FsTask::Unpack))
    );
    assert_eq!(
        advance(request, Phase::Marking, Signal::Done(false)),
        failed(LaunchError::Filesystem(FsTask::Mark))
    );
}

#[test]
fn unexpected_answer_ends_the_run() {
    assert_eq!(
        advance(Request::Forward, Phase::Start, Signal::Found(true)),
        failed(LaunchError::Protocol)
    );
    assert_eq!(
        advance(Request::Forward, Phase::Delegating, Signal::Done(true)),
        failed(LaunchError::Protocol)
    );
    assert_eq!(
        advance(Request::Forward, Phase::Finished, Signal::Begin),
        failed(LaunchError::Protocol)
    );
}

#[test]
fn clean_never_gives_a_spawning_command() {
    let answers = [
        Signal::Begin,
        Signal::Located(true),
        Signal::Located(false),
        Signal::Found(true),
        Signal::Found(false),
        Signal::Timed(true),
        Signal::Compared(Some(Freshness::Stale)),
        Signal::Compared(Some(Freshness::Fresh)),
        Signal::Done(true),
        Signal::Done(false),
        Signal::Loaded(None),
        Signal::Exited(Some(ChildResult::Exited { code: 0 })),
    ];
    for first in answers {
        for second in answers {
            for third in answers {
                let given =
                    commands(Request::Clean, &[Signal::Begin, first, second, third, Signal::Begin]);
                for command in given {
                    assert_ne!(command, Command::RunRuntime);
                    assert_ne!(command, Command::RunSetup);
                    assert_ne!(command, Command::Unpack);
                }
            }
        }
    }
}
