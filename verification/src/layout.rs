//! Where things lie: the name of the runtime directory, the files inside it,
//! and the two files that are looked for in the working directory.

use crate::paths::{is_separator, join, joined, plain_name};
use vstd::prelude::*;

verus! {

/// What is appended to the executable's stem to name its runtime directory.
pub const RUNTIME_SUFFIX: &'static str = "_data";

/// The interpreter, relative to the runtime directory.
pub const INTERPRETER: &'static str = "cpython/python";

/// The entry script, relative to the runtime directory.
pub const ENTRY_SCRIPT: &'static str = "feet.py";

/// The marker of completed provisioning, relative to the runtime directory.
pub const PROVISIONING_MARKER: &'static str = "requirements_installed.txt";

/// The dependency descriptor, looked for in the working directory.
pub const DESCRIPTOR: &'static str = "./requirements.txt";

/// The file that marks the launcher's own source tree.
pub const SOURCE_MARKER: &'static str = "./feetmaker.py";

/// The name of the runtime directory that belongs to the stem `stem`.
pub open spec fn runtime_dir_name(stem: Seq<char>) -> Seq<char> {
    stem + RUNTIME_SUFFIX@
}

/// The interpreter's path in the runtime directory `runtime_dir`.
pub open spec fn interpreter_in(runtime_dir: Seq<char>) -> Seq<char> {
    joined(runtime_dir, INTERPRETER@)
}

/// The entry script's path in the runtime directory `runtime_dir`.
pub open spec fn script_in(runtime_dir: Seq<char>) -> Seq<char> {
    joined(runtime_dir, ENTRY_SCRIPT@)
}

/// The provisioning marker's path in the runtime directory `runtime_dir`.
pub open spec fn marker_in(runtime_dir: Seq<char>) -> Seq<char> {
    joined(runtime_dir, PROVISIONING_MARKER@)
}

/// A stem that holds neither `/` nor `\\` names a runtime directory with a
/// plain name: one entry of the working directory.
pub proof fn runtime_dir_is_a_plain_name(stem: Seq<char>)
    requires
        forall|i: int| 0 <= i < stem.len() ==> !is_separator(#[trigger] stem[i]),
    ensures
        plain_name(runtime_dir_name(stem)),
{
    reveal_strlit("_data");
    let name = runtime_dir_name(stem);
    assert(name.len() == stem.len() + 5);
    assert(name != seq!['.']) by {
        assert(seq!['.'].len() == 1);
    }
    assert(name != seq!['.', '.']) by {
        assert(seq!['.', '.'].len() == 2);
    }
    assert forall|i: int| 0 <= i < name.len() implies !is_separator(#[trigger] name[i]) by {
        if i < stem.len() {
            assert(name[i] == stem[i]);
        } else {
            assert(name[i] == RUNTIME_SUFFIX@[i - stem.len()]);
        }
    }
}

/// Executables with different stems have different runtime directories.
pub proof fn runtime_dirs_differ(first: Seq<char>, second: Seq<char>)
    requires
        first != second,
    ensures
        runtime_dir_name(first) != runtime_dir_name(second),
{
    if runtime_dir_name(first) == runtime_dir_name(second) {
        assert(runtime_dir_name(first).len() == first.len() + RUNTIME_SUFFIX@.len());
        assert(runtime_dir_name(second).len() == second.len() + RUNTIME_SUFFIX@.len());
        assert(first.len() == second.len());
        assert forall|i: int| 0 <= i < first.len() implies first[i] == second[i] by {
            assert(runtime_dir_name(first)[i] == first[i]);
            assert(runtime_dir_name(second)[i] == second[i]);
        }
        assert(first =~= second);
    }
}

/// Names the runtime directory of the executable with stem `stem`.
pub fn runtime_dir_for(stem: &str) -> (name: String)
    ensures
        name@ == runtime_dir_name(stem@),
{
    String::from_str(stem).concat(RUNTIME_SUFFIX)
}

/// The path of the interpreter in `runtime_dir`.
pub fn interpreter_path(runtime_dir: &str) -> (path: String)
    ensures
        path@ == interpreter_in(runtime_dir@),
{
    join(runtime_dir, INTERPRETER)
}

/// The path of the entry script in `runtime_dir`.
pub fn script_path(runtime_dir: &str) -> (path: String)
    ensures
        path@ == script_in(runtime_dir@),
{
    join(runtime_dir, ENTRY_SCRIPT)
}

/// The path of the provisioning marker in `runtime_dir`.
pub fn marker_path(runtime_dir: &str) -> (path: String)
    ensures
        path@ == marker_in(runtime_dir@),
{
    join(runtime_dir, PROVISIONING_MARKER)
}

} // verus!
