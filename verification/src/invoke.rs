//! The two child processes: the one-time setup of dependencies, and the
//! runtime itself, to which the launcher's arguments are handed on as they
//! came.

use crate::layout::{interpreter_in, interpreter_path, script_in, script_path};
use vstd::prelude::*;

verus! {

/// The first argument of the setup run, after the entry script.
pub const SETUP_COMMAND: &'static str = "library";

/// The second argument of the setup run.
pub const SETUP_FLAG: &'static str = "--update";

/// A child process to run: a program and its arguments, in order.
#[derive(Debug, Clone, PartialEq, Eq)]
pub struct Invocation {
    pub program: String,
    pub args: Vec<String>,
}

/// An [`Invocation`] as plain data.
pub struct InvocationModel {
    pub program: Seq<char>,
    pub args: Seq<Seq<char>>,
}

/// The texts of `words`, in order.
pub open spec fn texts(words: Seq<String>) -> Seq<Seq<char>> {
    words.map_values(|w: String| w@)
}

impl View for Invocation {
    type V = InvocationModel;

    open spec fn view(&self) -> InvocationModel {
        InvocationModel { program: self.program@, args: texts(self.args@) }
    }
}

/// How a child process ended.
#[derive(Debug, Clone, Copy, PartialEq, Eq, Structural)]
pub enum ChildResult {
    /// It exited, with this code.
    Exited { code: i32 },
    /// It was ended from outside and left no code.
    Signalled,
}

/// The run of the runtime in `runtime_dir` with the arguments `forwarded`:
/// the interpreter, the entry script, then the arguments as they are.
pub open spec fn runtime_run(runtime_dir: Seq<char>, forwarded: Seq<Seq<char>>) -> InvocationModel {
    InvocationModel {
        program: interpreter_in(runtime_dir),
        args: seq![script_in(runtime_dir)] + forwarded,
    }
}

/// The setup run in `runtime_dir`: the interpreter, the entry script, and the
/// two fixed words that ask it to bring the declared dependencies in.
pub open spec fn setup_run(runtime_dir: Seq<char>) -> InvocationModel {
    InvocationModel {
        program: interpreter_in(runtime_dir),
        args: seq![script_in(runtime_dir), SETUP_COMMAND@, SETUP_FLAG@],
    }
}

/// A setup run that ended as `result` has succeeded.
pub open spec fn setup_succeeded(result: ChildResult) -> bool {
    result == (ChildResult::Exited { code: 0 })
}

/// Builds the run of the runtime in `runtime_dir`, handing on `forwarded`
/// unchanged and in order.
pub fn runtime_invocation(runtime_dir: &str, forwarded: &Vec<String>) -> (invocation: Invocation)
    ensures
        invocation@ == runtime_run(runtime_dir@, texts(forwarded@)),
{
    let mut args: Vec<String> = Vec::new();
    args.push(script_path(runtime_dir));
    let mut index: usize = 0;
    while index < forwarded.len()
        invariant
            index <= forwarded.len(),
            texts(args@) == seq![script_in(runtime_dir@)] + texts(forwarded@).take(index as int),
        decreases forwarded.len() - index,
    {
        let ghost before = texts(args@);
        args.push(forwarded[index].clone());
        assert(texts(args@) =~= before.push(forwarded@[index as int]@));
        assert(texts(forwarded@).take(index + 1) =~= texts(forwarded@).take(index as int).push(
            forwarded@[index as int]@,
        ));
        index = index + 1;
    }
    assert(texts(forwarded@).take(index as int) =~= texts(forwarded@));
    Invocation { program: interpreter_path(runtime_dir), args }
}

/// Builds the setup run in `runtime_dir`.
pub fn setup_invocation(runtime_dir: &str) -> (invocation: Invocation)
    ensures
        invocation@ == setup_run(runtime_dir@),
{
    let mut args: Vec<String> = Vec::new();
    args.push(script_path(runtime_dir));
    args.push(String::from_str(SETUP_COMMAND));
    args.push(String::from_str(SETUP_FLAG));
    assert(texts(args@) =~= seq![script_in(runtime_dir@), SETUP_COMMAND@, SETUP_FLAG@]);
    Invocation { program: interpreter_path(runtime_dir), args }
}

/// Tells whether a setup run that ended as `result` has succeeded.
pub fn setup_ok(result: ChildResult) -> (ok: bool)
    ensures
        ok == setup_succeeded(result),
{
    match result {
        ChildResult::Exited { code } => code == 0,
        ChildResult::Signalled => false,
    }
}

} // verus!
