use feet::flow::{outcome_of, Outcome, EXIT_ABNORMAL};
use feet::invoke::{runtime_invocation, setup_invocation, setup_ok, ChildResult, Invocation};
use feet::layout::{interpreter_path, marker_path, runtime_dir_for, script_path};

#[test]
fn runtime_receives_the_arguments_as_given() {
    let forwarded = vec!["run".to_string(), "--flag".to_string()];
    assert_eq!(
        runtime_invocation("app_data", &forwarded),
        Invocation {
            program: "app_data/cpython/python".to_string(),
            args: vec!["app_data/feet.py".to_string(), "run".to_string(), "--flag".to_string()],
        }
    );
}

#[test]
fn runtime_without_arguments_gets_the_script_alone() {
    assert_eq!(
        runtime_invocation("app_data", &Vec::new()),
        Invocation {
            program: "app_data/cpython/python".to_string(),
            args: vec!["app_data/feet.py".to_string()],
        }
    );
}

#[test]
fn arguments_are_not_interpreted() {
    let forwarded =
        vec!["--".to_string(), "".to_string(), "clean".to_string(), "a b".to_string()];
    let invocation = runtime_invocation("x_data", &forwarded);
    assert_eq!(invocation.args[1..].to_vec(), forwarded);
}

#[test]
fn setup_asks_the_script_to_update_the_library() {
    assert_eq!(
        setup_invocation("app_data"),
        Invocation {
            program: "app_data/cpython/python".to_string(),
            args: vec![
                "app_data/feet.py".to_string(),
                "library".to_string(),
                "--update".to_string()
            ],
        }
    );
}

#[test]
fn exit_code_seventeen_is_handed_on() {
    assert_eq!(outcome_of(ChildResult::Exited { code: 17 }), Outcome::Ran { code: 17 });
    assert_eq!(outcome_of(ChildResult::Exited { code: 17 }).code(), 17);
}

#[test]
fn exit_codes_are_handed_on_unchanged() {
    assert_eq!(outcome_of(ChildResult::Exited { code: 0 }).code(), 0);
    assert_eq!(outcome_of(ChildResult::Exited { code: -1 }).code(), -1);
    assert_eq!(outcome_of(ChildResult::Exited { code: 255 }).code(), 255);
}

#[test]
fn a_child_without_exit_code_gives_255() {
    assert_eq!(EXIT_ABNORMAL, 255);
    assert_eq!(outcome_of(ChildResult::Signalled), Outcome::Signalled);
    assert_eq!(outcome_of(ChildResult::Signalled).code(), 255);
}

#[test]
fn setup_succeeds_only_with_status_zero() {
    assert!(setup_ok(ChildResult::Exited { code: 0 }));
    assert!(!setup_ok(ChildResult::Exited { code: 1 }));
    assert!(!setup_ok(ChildResult::Signalled));
}

#[test]
fn files_of_the_runtime_directory() {
    assert_eq!(runtime_dir_for("feet"), "feet_data");
    assert_eq!(interpreter_path("feet_data"), "feet_data/cpython/python");
    assert_eq!(script_path("feet_data"), "feet_data/feet.py");
    assert_eq!(marker_path("feet_data"), "feet_data/requirements_installed.txt");
}
