use feet::archive::ArchiveFault;
use feet::extract::Step;
use feet::flow::{FsTask, LaunchError, Outcome, Phase, Request};
use feet::invoke::{ChildResult, Invocation};
use feet::launcher::{route, Action, Event, Launcher, Purpose};
use feet::staleness::ModTime;
use std::collections::BTreeMap;
use std::io::{Cursor, Write};
use zip::write::{FileOptions, ZipWriter};

const SCRIPT: &[u8] = b"print('on my feet')\n";
const PYTHON: &[u8] = b"\x7fELF interpreter";

fn payload() -> Vec<u8> {
    let mut writer = ZipWriter::new(Cursor::new(Vec::new()));
    writer.add_directory("feet/", FileOptions::default()).unwrap();
    writer.add_directory("feet/cpython/", FileOptions::default()).unwrap();
    writer
        .start_file("feet/cpython/python", FileOptions::default().unix_permissions(0o755))
        .unwrap();
    writer.write_all(PYTHON).unwrap();
    writer.start_file("feet/feet.py", FileOptions::default().unix_permissions(0o644)).unwrap();
    writer.write_all(SCRIPT).unwrap();
    let mut image = b"launcher machine code".to_vec();
    image.extend(writer.finish().unwrap().into_inner());
    image
}

fn words(args: &[&str]) -> Vec<String> {
    args.iter().map(|arg| arg.to_string()).collect()
}

/// A file system and a process table in memory.
#[derive(Clone, Debug, PartialEq)]
struct Disk {
    files: BTreeMap<String, Vec<u8>>,
    dirs: BTreeMap<String, ModTime>,
    modes: BTreeMap<String, u32>,
}

struct Machine {
    executable: Option<String>,
    executable_modified: ModTime,
    image: Option<Vec<u8>>,
    disk: Disk,
    clock: i64,
    setup_result: Option<ChildResult>,
    runtime_result: Option<ChildResult>,
    spawned: Vec<(Invocation, Purpose)>,
    actions: Vec<Action>,
}

fn plain(path: &str) -> String {
    path.trim_start_matches("./").to_string()
}

impl Machine {
    fn new() -> Machine {
        Machine {
            executable: Some("/opt/tools/app.bin".to_string()),
            executable_modified: ModTime { secs: 1_000, nanos: 0 },
            image: Some(payload()),
            disk: Disk { files: BTreeMap::new(), dirs: BTreeMap::new(), modes: BTreeMap::new() },
            clock: 2_000,
            setup_result: Some(ChildResult::Exited { code: 0 }),
            runtime_result: Some(ChildResult::Exited { code: 0 }),
            spawned: Vec::new(),
            actions: Vec::new(),
        }
    }

    fn now(&mut self) -> ModTime {
        self.clock += 1;
        ModTime { secs: self.clock, nanos: 0 }
    }

    fn touch_parent(&mut self, path: &str) {
        if let Some((dir, _)) = path.rsplit_once('/') {
            let now = self.now();
            self.disk.dirs.insert(dir.to_string(), now);
        }
    }

    fn has(&self, path: &str) -> bool {
        self.disk.files.contains_key(path) || self.disk.dirs.contains_key(path)
    }

    fn remove_dir_all(&mut self, path: &str) -> bool {
        if !self.disk.dirs.contains_key(path) {
            return false;
        }
        let below = format!("{}/", path);
        self.disk.dirs.retain(|name, _| name != path && !name.starts_with(&below));
        self.disk.files.retain(|name, _| !name.starts_with(&below));
        self.disk.modes.retain(|name, _| name != path && !name.starts_with(&below));
        true
    }

    fn apply(&mut self, step: &Step) -> bool {
        match step {
            Step::CreateDirAll { path } => {
                let mut prefix = String::new();
                for part in path.split('/') {
                    if !prefix.is_empty() {
                        prefix.push('/');
                    }
                    prefix.push_str(part);
                    if self.disk.files.contains_key(&prefix) {
                        return false;
                    }
                    if !self.disk.dirs.contains_key(&prefix) {
                        let now = self.now();
                        self.disk.dirs.insert(prefix.clone(), now);
                    }
                }
                true
            }
            Step::WriteFile { path, content } => {
                if let Some((dir, _)) = path.rsplit_once('/') {
                    if !self.disk.dirs.contains_key(dir) {
                        return false;
                    }
                }
                self.disk.files.insert(path.clone(), content.clone());
                self.touch_parent(path);
                true
            }
            Step::SetMode { path, mode } => {
                if !self.has(path) {
                    return false;
                }
                self.disk.modes.insert(path.clone(), *mode);
                true
            }
            Step::Rename { from, to } => {
                let under = format!("{}/", to);
                let populated = self.disk.files.keys().any(|name| name.starts_with(&under))
                    || self.disk.dirs.keys().any(|name| name.starts_with(&under));
                if !self.disk.dirs.contains_key(from)
                    || self.disk.files.contains_key(to)
                    || populated
                {
                    return false;
                }
                self.disk.dirs.remove(to);
                let below = format!("{}/", from);
                let moved = |name: &String| {
                    if name == from {
                        to.clone()
                    } else if name.starts_with(&below) {
                        format!("{}/{}", to, &name[below.len()..])
                    } else {
                        name.clone()
                    }
                };
                self.disk.files =
                    self.disk.files.iter().map(|(k, v)| (moved(k), v.clone())).collect();
                self.disk.dirs = self.disk.dirs.iter().map(|(k, v)| (moved(k), *v)).collect();
                self.disk.modes = self.disk.modes.iter().map(|(k, v)| (moved(k), *v)).collect();
                true
            }
            Step::Report { .. } => true,
        }
    }

    fn perform(&mut self, action: &Action) -> Event {
        match action {
            Action::Locate => Event::Executable(self.executable.clone()),
            Action::Probe { path } => Event::Found(self.has(&plain(path))),
            Action::Modified { path } => {
                if Some(path) == self.executable.as_ref() {
                    Event::Modified(Some(self.executable_modified))
                } else {
                    Event::Modified(self.disk.dirs.get(&plain(path)).copied())
                }
            }
            Action::RemoveDirAll { path } => Event::Done(self.remove_dir_all(&plain(path))),
            Action::ReadFile { path } => {
                if Some(path) == self.executable.as_ref() {
                    Event::Payload(self.image.clone())
                } else {
                    Event::Payload(self.disk.files.get(&plain(path)).cloned())
                }
            }
            Action::Unpack { steps } => Event::Done(steps.iter().all(|step| self.apply(step))),
            Action::Run { invocation, purpose } => {
                if !self.disk.files.contains_key(&invocation.program) {
                    return Event::Child(None);
                }
                self.spawned.push((invocation.clone(), *purpose));
                Event::Child(match purpose {
                    Purpose::Setup => self.setup_result,
                    Purpose::Runtime => self.runtime_result,
                })
            }
            Action::CreateFile { path } => {
                self.disk.files.insert(plain(path), Vec::new());
                self.touch_parent(&plain(path));
                Event::Done(true)
            }
            Action::Exit { .. } => unreachable!(),
        }
    }

    /// Runs the launcher from start to exit.
    fn launch(&mut self, args: &[&str]) -> Outcome {
        self.spawned.clear();
        self.actions.clear();
        let mut launcher = Launcher::new(words(args));
        let mut event = Event::Begin;
        for _ in 0..32 {
            let action = launcher.step(event);
            self.actions.push(action.clone());
            if let Action::Exit { outcome } = action {
                assert_eq!(launcher.phase, Phase::Finished);
                return outcome;
            }
            event = self.perform(&action);
        }
        panic!("the launcher does not come to an end");
    }

    fn unpackings(&self) -> usize {
        self.actions.iter().filter(|action| matches!(action, Action::Unpack { .. })).count()
    }

    fn setups(&self) -> usize {
        self.spawned.iter().filter(|(_, purpose)| *purpose == Purpose::Setup).count()
    }
}

#[test]
fn first_argument_clean_asks_to_clean() {
    assert_eq!(route(&words(&["clean"])), Request::Clean);
    assert_eq!(route(&words(&["clean", "--all"])), Request::Clean);
    assert_eq!(route(&words(&[])), Request::Forward);
    assert_eq!(route(&words(&["run", "clean"])), Request::Forward);
    assert_eq!(route(&words(&["cleaner"])), Request::Forward);
    assert_eq!(route(&words(&["Clean"])), Request::Forward);
}

#[test]
fn new_launcher_waits_for_its_start() {
    let launcher = Launcher::new(words(&["run"]));
    assert_eq!(launcher.phase, Phase::Start);
    assert_eq!(launcher.request, Request::Forward);
    assert_eq!(launcher.args, words(&["run"]));
    assert_eq!(launcher.executable_modified, None);
}

#[test]
fn first_run_materialises_the_runtime_directory() {
    let mut machine = Machine::new();
    assert_eq!(machine.launch(&[]), Outcome::Ran { code: 0 });
    assert_eq!(machine.unpackings(), 1);
    assert_eq!(machine.disk.files.get("app_data/feet.py").map(Vec::as_slice), Some(SCRIPT));
    assert_eq!(machine.disk.files.get("app_data/cpython/python").map(Vec::as_slice), Some(PYTHON));
    assert_eq!(machine.disk.modes.get("app_data/cpython/python").map(|m| m & 0o7777), Some(0o755));
    assert_eq!(machine.disk.modes.get("app_data/feet.py").map(|m| m & 0o7777), Some(0o644));
    assert!(machine.disk.dirs.contains_key("app_data/cpython"));
    assert!(!machine.disk.dirs.contains_key("feet"));
    assert!(machine.disk.files.keys().all(|name| name.starts_with("app_data/")));
}

#[test]
fn second_run_reuses_the_runtime_directory() {
    let mut machine = Machine::new();
    machine.launch(&[]);
    let before = machine.disk.clone();
    assert_eq!(machine.launch(&[]), Outcome::Ran { code: 0 });
    assert_eq!(machine.unpackings(), 0);
    assert!(!machine.actions.iter().any(|action| matches!(
        action,
        Action::ReadFile { .. } | Action::RemoveDirAll { .. } | Action::CreateFile { .. }
    )));
    assert_eq!(machine.disk, before);
}

#[test]
fn newer_executable_has_the_runtime_directory_rebuilt() {
    let mut machine = Machine::new();
    machine.launch(&[]);
    machine.disk.files.insert("app_data/leftover.txt".to_string(), b"old".to_vec());
    machine.executable_modified = machine.now();
    assert_eq!(machine.launch(&[]), Outcome::Ran { code: 0 });
    assert_eq!(machine.unpackings(), 1);
    let removed = machine
        .actions
        .iter()
        .position(|action| *action == Action::RemoveDirAll { path: "app_data".to_string() });
    let unpacked = machine.actions.iter().position(|action| matches!(action, Action::Unpack { .. }));
    assert!(removed.unwrap() < unpacked.unwrap());
    assert!(!machine.disk.files.contains_key("app_data/leftover.txt"));
    assert_eq!(machine.disk.files.len(), 2);
    assert_eq!(machine.disk.files.get("app_data/feet.py").map(Vec::as_slice), Some(SCRIPT));
    assert_eq!(machine.disk.files.get("app_data/cpython/python").map(Vec::as_slice), Some(PYTHON));
}

#[test]
fn older_executable_leaves_the_runtime_directory() {
    let mut machine = Machine::new();
    machine.launch(&[]);
    machine.executable_modified = ModTime { secs: 5, nanos: 0 };
    machine.launch(&[]);
    assert_eq!(machine.unpackings(), 0);
}

#[test]
fn arguments_reach_the_runtime_as_given() {
    let mut machine = Machine::new();
    machine.launch(&["run", "--flag"]);
    assert_eq!(
        machine.spawned,
        vec![(
            Invocation {
                program: "app_data/cpython/python".to_string(),
                args: words(&["app_data/feet.py", "run", "--flag"]),
            },
            Purpose::Runtime
        )]
    );
}

#[test]
fn exit_code_of_the_runtime_is_the_launchers() {
    let mut machine = Machine::new();
    machine.runtime_result = Some(ChildResult::Exited { code: 17 });
    let outcome = machine.launch(&["run"]);
    assert_eq!(outcome, Outcome::Ran { code: 17 });
    assert_eq!(outcome.code(), 17);
}

#[test]
fn runtime_ended_by_a_signal_gives_255() {
    let mut machine = Machine::new();
    machine.runtime_result = Some(ChildResult::Signalled);
    let outcome = machine.launch(&[]);
    assert_eq!(outcome, Outcome::Signalled);
    assert_eq!(outcome.code(), 255);
}

#[test]
fn setup_runs_on_the_first_of_three_runs_only() {
    let mut machine = Machine::new();
    machine.disk.files.insert("requirements.txt".to_string(), b"requests\n".to_vec());

    assert_eq!(machine.launch(&[]), Outcome::Ran { code: 0 });
    assert_eq!(machine.setups(), 1);
    assert_eq!(
        machine.spawned[0],
        (
            Invocation {
                program: "app_data/cpython/python".to_string(),
                args: words(&["app_data/feet.py", "library", "--update"]),
            },
            Purpose::Setup
        )
    );
    assert_eq!(machine.spawned[1].1, Purpose::Runtime);
    assert!(machine.disk.files.contains_key("app_data/requirements_installed.txt"));
    let after_first = machine.disk.clone();

    for _ in 0..2 {
        assert_eq!(machine.launch(&[]), Outcome::Ran { code: 0 });
        assert_eq!(machine.setups(), 0);
        assert!(!machine.actions.iter().any(|action| matches!(action, Action::CreateFile { .. })));
        assert_eq!(machine.disk, after_first);
    }
}

#[test]
fn no_descriptor_no_setup() {
    let mut machine = Machine::new();
    machine.launch(&[]);
    assert_eq!(machine.setups(), 0);
    assert!(!machine.disk.files.contains_key("app_data/requirements_installed.txt"));
    assert!(!machine
        .actions
        .contains(&Action::Probe { path: "app_data/requirements_installed.txt".to_string() }));
}

#[test]
fn failed_setup_is_fatal_and_tried_again() {
    let mut machine = Machine::new();
    machine.disk.files.insert("requirements.txt".to_string(), Vec::new());
    machine.setup_result = Some(ChildResult::Exited { code: 1 });
    assert_eq!(machine.launch(&[]), Outcome::Failed(LaunchError::Provisioning));
    assert!(!machine.disk.files.contains_key("app_data/requirements_installed.txt"));
    assert_eq!(machine.spawned.len(), 1);

    machine.setup_result = Some(ChildResult::Exited { code: 0 });
    assert_eq!(machine.launch(&[]), Outcome::Ran { code: 0 });
    assert_eq!(machine.setups(), 1);
    assert!(machine.disk.files.contains_key("app_data/requirements_installed.txt"));
}

#[test]
fn clean_deletes_the_runtime_directory_and_spawns_nothing() {
    let mut machine = Machine::new();
    machine.launch(&[]);
    let outcome = machine.launch(&["clean"]);
    assert_eq!(outcome, Outcome::Cleaned);
    assert_eq!(outcome.code(), 0);
    assert!(machine.spawned.is_empty());
    assert!(machine.disk.files.is_empty());
    assert!(machine.disk.dirs.is_empty());
    assert_eq!(
        machine.actions,
        vec![
            Action::Locate,
            Action::Probe { path: "./feetmaker.py".to_string() },
            Action::RemoveDirAll { path: "app_data".to_string() },
            Action::Exit { outcome: Outcome::Cleaned },
        ]
    );
}

#[test]
fn clean_with_nothing_to_clean_fails() {
    let mut machine = Machine::new();
    let outcome = machine.launch(&["clean"]);
    assert_eq!(outcome, Outcome::Failed(LaunchError::Filesystem(FsTask::Clean)));
    assert_ne!(outcome.code(), 0);
    assert!(machine.spawned.is_empty());
}

#[test]
fn launcher_refuses_to_run_in_its_source_tree() {
    let mut machine = Machine::new();
    machine.disk.files.insert("feetmaker.py".to_string(), Vec::new());
    let before = machine.disk.clone();
    for args in [&[][..], &["clean"][..], &["run"][..]] {
        let outcome = machine.launch(args);
        assert_eq!(outcome, Outcome::Refused);
        assert_eq!(outcome.code(), 1);
        assert!(machine.spawned.is_empty());
        assert_eq!(machine.disk, before);
    }
}

#[test]
fn unknown_executable_is_a_locator_failure() {
    let mut machine = Machine::new();
    machine.executable = None;
    assert_eq!(machine.launch(&[]), Outcome::Failed(LaunchError::Locator));
    assert_eq!(machine.actions.len(), 2);
}

#[test]
fn unreadable_payload_is_an_archive_failure() {
    let mut machine = Machine::new();
    machine.image = None;
    assert_eq!(
        machine.launch(&[]),
        Outcome::Failed(LaunchError::Archive(ArchiveFault::Unavailable))
    );
    assert!(machine.disk.dirs.is_empty());
}

#[test]
fn payload_without_archive_is_an_archive_failure() {
    let mut machine = Machine::new();
    machine.image = Some(b"machine code and nothing behind it, which is no archive".to_vec());
    assert_eq!(machine.launch(&[]), Outcome::Failed(LaunchError::Archive(ArchiveFault::Invalid)));
    assert!(machine.disk.dirs.is_empty());
    assert!(machine.spawned.is_empty());
}

#[test]
fn failed_unpacking_leaves_no_runtime_directory() {
    let mut machine = Machine::new();
    // A file where the staging directory is to be created makes the first
    // step fail.
    machine.disk.files.insert("feet".to_string(), Vec::new());
    assert_eq!(machine.launch(&[]), Outcome::Failed(LaunchError::Filesystem(FsTask::Unpack)));
    assert!(!machine.disk.dirs.contains_key("app_data"));
    assert!(machine.spawned.is_empty());
}

#[test]
fn missing_interpreter_is_a_spawn_failure() {
    let mut machine = Machine::new();
    machine.launch(&[]);
    machine.disk.files.remove("app_data/cpython/python");
    machine.executable_modified = ModTime { secs: 5, nanos: 0 };
    assert_eq!(machine.launch(&[]), Outcome::Failed(LaunchError::Spawn));
}

#[test]
fn answer_out_of_turn_ends_the_run() {
    let mut launcher = Launcher::new(words(&[]));
    assert_eq!(launcher.step(Event::Begin), Action::Locate);
    assert_eq!(
        launcher.step(Event::Done(true)),
        Action::Exit { outcome: Outcome::Failed(LaunchError::Protocol) }
    );
    assert_eq!(
        launcher.step(Event::Begin),
        Action::Exit { outcome: Outcome::Failed(LaunchError::Protocol) }
    );
}

#[test]
fn payload_out_of_turn_is_not_unpacked() {
    let mut launcher = Launcher::new(words(&[]));
    assert_eq!(
        launcher.step(Event::Payload(Some(payload()))),
        Action::Exit { outcome: Outcome::Failed(LaunchError::Protocol) }
    );
}

#[test]
fn unreadable_times_are_a_file_system_failure() {
    let mut launcher = Launcher::new(words(&[]));
    launcher.step(Event::Begin);
    launcher.step(Event::Executable(Some("/bin/app".to_string())));
    launcher.step(Event::Found(false));
    assert_eq!(
        launcher.step(Event::Found(true)),
        Action::Modified { path: "/bin/app".to_string() }
    );
    assert_eq!(
        launcher.step(Event::Modified(Some(ModTime { secs: 9, nanos: 0 }))),
        Action::Modified { path: "app_data".to_string() }
    );
    assert_eq!(
        launcher.step(Event::Modified(None)),
        Action::Exit { outcome: Outcome::Failed(LaunchError::Filesystem(FsTask::Inspect)) }
    );
}

#[test]
fn unpacking_never_merges_with_what_is_there() {
    let mut machine = Machine::new();
    machine.disk.dirs.insert("app_data".to_string(), ModTime { secs: 1, nanos: 0 });
    machine.disk.files.insert("app_data/old.txt".to_string(), b"old".to_vec());
    let steps = feet::extract::extract_runtime(payload(), "app_data").unwrap();
    let done = steps.iter().all(|step| machine.apply(step));
    assert!(!done);
    let below: Vec<&String> =
        machine.disk.files.keys().filter(|name| name.starts_with("app_data/")).collect();
    assert_eq!(below, vec!["app_data/old.txt"]);
    assert_eq!(machine.disk.files.get("app_data/old.txt").map(Vec::as_slice), Some(&b"old"[..]));
    assert!(!machine.disk.dirs.keys().any(|name| name.starts_with("app_data/")));
}

#[test]
fn unpacking_alone_brings_the_whole_payload() {
    let mut machine = Machine::new();
    let steps = feet::extract::extract_runtime(payload(), "app_data").unwrap();
    assert!(steps.iter().all(|step| machine.apply(step)));
    let files: Vec<&String> = machine.disk.files.keys().collect();
    assert_eq!(files, vec!["app_data/cpython/python", "app_data/feet.py"]);
    let dirs: Vec<&String> = machine.disk.dirs.keys().collect();
    assert_eq!(dirs, vec!["app_data", "app_data/cpython"]);
    assert_eq!(machine.disk.files["app_data/feet.py"], SCRIPT.to_vec());
    assert_eq!(machine.disk.files["app_data/cpython/python"], PYTHON.to_vec());
}

#[test]
fn unpacking_replaces_an_empty_runtime_directory() {
    let mut machine = Machine::new();
    machine.disk.dirs.insert("app_data".to_string(), ModTime { secs: 1, nanos: 0 });
    let steps = feet::extract::extract_runtime(payload(), "app_data").unwrap();
    assert!(steps.iter().all(|step| machine.apply(step)));
    let files: Vec<&String> = machine.disk.files.keys().collect();
    assert_eq!(files, vec!["app_data/cpython/python", "app_data/feet.py"]);
}

#[test]
fn launchers_with_a_backslash_in_their_names_do_not_share_a_directory() {
    let mut first = Launcher::new(words(&[]));
    first.step(Event::Begin);
    first.step(Event::Executable(Some("/opt/x\\feet".to_string())));
    let mut second = Launcher::new(words(&[]));
    second.step(Event::Begin);
    second.step(Event::Executable(Some("/opt/y\\feet".to_string())));
    if std::path::MAIN_SEPARATOR == '/' {
        assert_eq!(first.runtime_dir, "x\\feet_data");
        assert_eq!(second.runtime_dir, "y\\feet_data");
    }
    assert_eq!(first.phase, Phase::Guarding);
}
