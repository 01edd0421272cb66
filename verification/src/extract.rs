//! Unpacking the payload: from the entries of the archive to the steps that
//! materialise them on disk.
//!
//! The plan is a list of plain steps, in the order in which they are to be
//! carried out. Entries are unpacked below the working directory, under the
//! staging directory that the payload itself names; the last file-system step
//! renames the staging directory to the runtime directory, so that the
//! runtime directory's name appears only once everything is in place.

use crate::archive::{
    all_readable, archive_listing, entries_of, entry_models, fails_with, payload_limit,
    proposed_path, read_archive, ArchiveEntry, ArchiveFault, EntryModel,
};
use crate::flow::LaunchError;
use crate::paths::{
    confined, is_confined, is_separator, lemma_last_of, lemma_parent_confined,
    lemma_reaches_last, names_directory, parent, parent_of, plain_name,
};
use vstd::prelude::*;

verus! {

/// The directory that the payload's entries lie under.
pub const STAGING_DIR: &'static str = "feet";

/// What to show of the progress of unpacking.
#[derive(Debug, Clone, Copy, PartialEq, Eq, Structural)]
pub enum Notice {
    /// Unpacking starts.
    Begin,
    /// One more entry is unpacked.
    Tick,
    /// One more entry is unpacked, and so many percent of them all.
    Percent { done: u8 },
    /// Unpacking is complete.
    Done,
}

/// One step of unpacking.
#[derive(Debug, Clone, PartialEq, Eq)]
pub enum Step {
    /// Create the directory `path` and every missing ancestor.
    CreateDirAll { path: String },
    /// Create the file `path` and write `content` to it, byte for byte.
    WriteFile { path: String, content: Vec<u8> },
    /// Set the POSIX permission bits of `path`, where the platform has them.
    SetMode { path: String, mode: u32 },
    /// Rename `from` to `to`.
    Rename { from: String, to: String },
    /// Show `notice`.
    Report { notice: Notice },
}

/// A [`Step`] as plain data.
pub enum StepModel {
    CreateDirAll { path: Seq<char> },
    WriteFile { path: Seq<char>, content: Seq<u8> },
    SetMode { path: Seq<char>, mode: u32 },
    Rename { from: Seq<char>, to: Seq<char> },
    Report { notice: Notice },
}

impl View for Step {
    type V = StepModel;

    open spec fn view(&self) -> StepModel {
        match *self {
            Step::CreateDirAll { path } => StepModel::CreateDirAll { path: path@ },
            Step::WriteFile { path, content } => StepModel::WriteFile {
                path: path@,
                content: content@,
            },
            Step::SetMode { path, mode } => StepModel::SetMode { path: path@, mode },
            Step::Rename { from, to } => StepModel::Rename { from: from@, to: to@ },
            Step::Report { notice } => StepModel::Report { notice },
        }
    }
}

/// The views of `steps`, in order.
pub open spec fn step_models(steps: Seq<Step>) -> Seq<StepModel> {
    steps.map_values(|s: Step| s@)
}

/// An entry whose path would leave the directory it is unpacked into.
#[derive(Debug, Clone, Copy, PartialEq, Eq, Structural)]
pub struct Escape {
    /// The position of the entry in the archive.
    pub index: usize,
}

/// How many percent of `total` entries lie before the entry at `index`.
pub open spec fn percent_before(index: int, total: int) -> int {
    if 0 <= index < total {
        index * 100 / total
    } else {
        100
    }
}

/// A percentage of entries is a number from 0 to 100.
pub proof fn percent_is_at_most_a_hundred(index: int, total: int)
    ensures
        0 <= percent_before(index, total) <= 100,
{
    if 0 <= index < total {
        assert(0 <= index * 100 / total < 100) by (nonlinear_arith)
            requires
                0 <= index < total,
        ;
    }
}

/// The notice that follows the entry at `index` of `total`: a percentage at
/// every hundredth entry, a tick at every other.
pub open spec fn mark(index: int, total: int) -> Notice {
    if index > 0 && index % 100 == 0 {
        Notice::Percent { done: percent_before(index, total) as u8 }
    } else {
        Notice::Tick
    }
}

/// The steps that put `entry` in place: a directory is created with its
/// ancestors; a file has its parent directory created, where its path names
/// one, and is then written.
pub open spec fn placing_steps(entry: EntryModel) -> Seq<StepModel> {
    if names_directory(entry.name) {
        seq![StepModel::CreateDirAll { path: entry.path }]
    } else if parent(entry.path).len() > 0 {
        seq![
            StepModel::CreateDirAll { path: parent(entry.path) },
            StepModel::WriteFile { path: entry.path, content: entry.content },
        ]
    } else {
        seq![StepModel::WriteFile { path: entry.path, content: entry.content }]
    }
}

/// The step that applies the mode of `entry`, where it carries one.
pub open spec fn mode_steps(entry: EntryModel) -> Seq<StepModel> {
    match entry.mode {
        Some(mode) => seq![StepModel::SetMode { path: entry.path, mode }],
        None => Seq::empty(),
    }
}

/// All the steps for the entry at `index` of `total`: it is put in place, its
/// mode is applied, and one notice is shown.
pub open spec fn entry_steps(entry: EntryModel, index: int, total: int) -> Seq<StepModel> {
    placing_steps(entry) + mode_steps(entry) + seq![
        StepModel::Report { notice: mark(index, total) },
    ]
}

/// The opening notice and the steps for the first `count` of `entries`.
pub open spec fn steps_through(entries: Seq<EntryModel>, count: int) -> Seq<StepModel>
    decreases count,
{
    if count <= 0 {
        seq![StepModel::Report { notice: Notice::Begin }]
    } else {
        steps_through(entries, count - 1) + entry_steps(
            entries[count - 1],
            count - 1,
            entries.len() as int,
        )
    }
}

/// The whole plan: every entry in stored order, then the rename of the
/// staging directory to `runtime_dir`, then the closing notice.
pub open spec fn plan(entries: Seq<EntryModel>, runtime_dir: Seq<char>) -> Seq<StepModel> {
    steps_through(entries, entries.len() as int) + seq![
        StepModel::Rename { from: STAGING_DIR@, to: runtime_dir },
        StepModel::Report { notice: Notice::Done },
    ]
}

/// The path of every one of `entries` is confined.
pub open spec fn all_confined(entries: Seq<EntryModel>) -> bool {
    forall|i: int| 0 <= i < entries.len() ==> confined((#[trigger] entries[i]).path)
}

/// The entry at `index` is the first of `entries` whose path is not
/// confined.
pub open spec fn escapes_at(entries: Seq<EntryModel>, index: int) -> bool {
    &&& 0 <= index < entries.len()
    &&& !confined(entries[index].path)
    &&& forall|i: int| 0 <= i < index ==> confined((#[trigger] entries[i]).path)
}

/// The path that `step` creates, writes or changes, if it does so.
pub open spec fn touched(step: StepModel) -> Option<Seq<char>> {
    match step {
        StepModel::CreateDirAll { path } => Some(path),
        StepModel::WriteFile { path, .. } => Some(path),
        StepModel::SetMode { path, .. } => Some(path),
        StepModel::Rename { .. } => None,
        StepModel::Report { .. } => None,
    }
}

/// No step of a plan for entries with confined paths creates, writes or
/// changes anything but a confined path: unpacking never reaches outside the
/// directory it works in.
pub proof fn plan_stays_inside(entries: Seq<EntryModel>, runtime_dir: Seq<char>)
    requires
        all_confined(entries),
    ensures
        forall|k: int|
            0 <= k < plan(entries, runtime_dir).len() ==> match touched(
                #[trigger] plan(entries, runtime_dir)[k],
            ) {
                Some(path) => confined(path),
                None => true,
            },
{
    lemma_steps_confined(entries, entries.len() as int);
}

/// The steps for the first `count` entries touch confined paths only.
proof fn lemma_steps_confined(entries: Seq<EntryModel>, count: int)
    requires
        all_confined(entries),
        count <= entries.len(),
    ensures
        forall|k: int|
            0 <= k < steps_through(entries, count).len() ==> match touched(
                #[trigger] steps_through(entries, count)[k],
            ) {
                Some(path) => confined(path),
                None => true,
            },
    decreases count,
{
    if count > 0 {
        lemma_steps_confined(entries, count - 1);
        assert(confined(entries[count - 1].path));
        lemma_parent_confined(entries[count - 1].path);
    }
}

/// Every step for one of the first `count` entries is among the steps for
/// them all.
proof fn lemma_steps_hold(entries: Seq<EntryModel>, count: int, i: int, step: StepModel)
    requires
        0 <= i < count <= entries.len(),
        entry_steps(entries[i], i, entries.len() as int).contains(step),
    ensures
        steps_through(entries, count).contains(step),
    decreases count,
{
    let before = steps_through(entries, count - 1);
    let last = entry_steps(entries[count - 1], count - 1, entries.len() as int);
    if i == count - 1 {
        let k = choose|k: int| 0 <= k < last.len() && last[k] == step;
        assert((before + last)[before.len() + k] == step);
    } else {
        lemma_steps_hold(entries, count - 1, i, step);
        let k = choose|k: int| 0 <= k < before.len() && before[k] == step;
        assert((before + last)[k] == step);
    }
}

/// No entry is left out: the plan creates every directory of the payload,
/// writes every file with its stored bytes, and applies every stored mode.
pub proof fn every_entry_is_placed(entries: Seq<EntryModel>, runtime_dir: Seq<char>, i: int)
    requires
        0 <= i < entries.len(),
    ensures
        names_directory(entries[i].name) ==> plan(entries, runtime_dir).contains(
            StepModel::CreateDirAll { path: entries[i].path },
        ),
        !names_directory(entries[i].name) ==> plan(entries, runtime_dir).contains(
            StepModel::WriteFile { path: entries[i].path, content: entries[i].content },
        ),
        entries[i].mode matches Some(mode) ==> plan(entries, runtime_dir).contains(
            StepModel::SetMode { path: entries[i].path, mode },
        ),
{
    let entry = entries[i];
    let total = entries.len() as int;
    let own = entry_steps(entry, i, total);
    let steps = steps_through(entries, total);
    let whole = plan(entries, runtime_dir);
    assert forall|step: StepModel| own.contains(step) implies whole.contains(step) by {
        lemma_steps_hold(entries, total, i, step);
        let k = choose|k: int| 0 <= k < steps.len() && steps[k] == step;
        assert(whole[k] == step);
    }
    let placing = placing_steps(entry);
    if names_directory(entry.name) {
        assert(own[0] == StepModel::CreateDirAll { path: entry.path });
    } else {
        let written = StepModel::WriteFile { path: entry.path, content: entry.content };
        assert(own[placing.len() - 1] == written);
    }
    match entry.mode {
        Some(mode) => {
            assert(own[placing.len() as int] == StepModel::SetMode { path: entry.path, mode });
        },
        None => {},
    }
}

/// `path` is `dir` or lies below it.
pub open spec fn under(path: Seq<char>, dir: Seq<char>) -> bool {
    &&& path.len() >= dir.len()
    &&& path.take(dir.len() as int) == dir
    &&& (path.len() == dir.len() || is_separator(path[dir.len() as int]))
}

/// The path of every one of `entries` is the staging directory or lies
/// below it.
pub open spec fn all_staged(entries: Seq<EntryModel>) -> bool {
    forall|i: int| 0 <= i < entries.len() ==> under((#[trigger] entries[i]).path, STAGING_DIR@)
}

/// The staging directory's name is a plain name of four letters.
pub proof fn lemma_staging_dir()
    ensures
        plain_name(STAGING_DIR@),
        STAGING_DIR@.len() == 4,
{
    reveal_strlit("feet");
    let name = STAGING_DIR@;
    assert(name.len() == 4);
    assert(name[0] == 'f' && name[1] == 'e' && name[2] == 'e' && name[3] == 't');
    assert(name != seq!['.']) by {
        assert(seq!['.'].len() == 1);
    }
    assert(name != seq!['.', '.']) by {
        assert(seq!['.', '.'].len() == 2);
    }
    assert forall|i: int| 0 <= i < name.len() implies !is_separator(#[trigger] name[i]) by {
        if i == 0 {
        } else if i == 1 {
        } else if i == 2 {
        } else {
        }
    }
}

/// No runtime directory bears the staging directory's name.
pub proof fn runtime_dir_is_not_staging(stem: Seq<char>)
    ensures
        crate::layout::runtime_dir_name(stem) != STAGING_DIR@,
{
    reveal_strlit("feet");
    reveal_strlit("_data");
    assert(STAGING_DIR@.len() == 4);
    assert(crate::layout::RUNTIME_SUFFIX@.len() == 5);
    assert(crate::layout::runtime_dir_name(stem).len() == stem.len() + 5);
}

/// A path below a directory with a plain name has its parent there too,
/// unless it is the directory itself.
pub proof fn lemma_parent_under(path: Seq<char>, dir: Seq<char>)
    requires
        under(path, dir),
        plain_name(dir),
        parent(path).len() > 0,
    ensures
        under(parent(path), dir),
{
    lemma_last_of(path, '/', '\\');
    if path.len() == dir.len() {
        assert(path =~= dir);
        assert(is_separator(path[crate::paths::last_separator(path)]));
    } else {
        lemma_reaches_last(path, '/', '\\', dir.len() as int);
        assert(parent(path).take(dir.len() as int) =~= path.take(dir.len() as int));
    }
}

/// Two directories with plain names hold a common path only if they are one.
pub proof fn lemma_one_home(path: Seq<char>, first: Seq<char>, second: Seq<char>)
    requires
        under(path, first),
        under(path, second),
        plain_name(first),
        plain_name(second),
    ensures
        first == second,
{
    if first.len() < second.len() {
        assert(path.take(second.len() as int)[first.len() as int] == path[first.len() as int]);
    } else if second.len() < first.len() {
        assert(path.take(first.len() as int)[second.len() as int] == path[second.len() as int]);
    }
}

/// Where the payload keeps to its staging directory, no step before the
/// closing rename creates, writes or changes anything at or below the
/// runtime directory: its name comes into being with the rename, when
/// every entry is in place.
pub proof fn runtime_dir_appears_last(entries: Seq<EntryModel>, runtime_dir: Seq<char>)
    requires
        all_staged(entries),
        plain_name(runtime_dir),
        runtime_dir != STAGING_DIR@,
    ensures
        plan(entries, runtime_dir).len() == steps_through(entries, entries.len() as int).len() + 2,
        plan(entries, runtime_dir)[plan(entries, runtime_dir).len() - 2] == (StepModel::Rename {
            from: STAGING_DIR@,
            to: runtime_dir,
        }),
        forall|k: int|
            0 <= k < plan(entries, runtime_dir).len() - 2 ==> match touched(
                #[trigger] plan(entries, runtime_dir)[k],
            ) {
                Some(path) => !under(path, runtime_dir),
                None => true,
            },
{
    lemma_steps_staged(entries, entries.len() as int);
    lemma_staging_dir();
    let steps = steps_through(entries, entries.len() as int);
    assert forall|k: int| 0 <= k < steps.len() implies match touched(#[trigger] steps[k]) {
        Some(path) => !under(path, runtime_dir),
        None => true,
    } by {
        match touched(steps[k]) {
            Some(path) => {
                if under(path, runtime_dir) {
                    lemma_one_home(path, runtime_dir, STAGING_DIR@);
                }
            },
            None => {},
        }
    }
}

/// The steps for the first `count` entries of a payload that keeps to its
/// staging directory touch nothing outside it, and rename nothing.
pub proof fn lemma_steps_staged(entries: Seq<EntryModel>, count: int)
    requires
        all_staged(entries),
        count <= entries.len(),
    ensures
        forall|k: int|
            0 <= k < steps_through(entries, count).len() ==> match touched(
                #[trigger] steps_through(entries, count)[k],
            ) {
                Some(path) => under(path, STAGING_DIR@),
                None => steps_through(entries, count)[k] is Report,
            },
    decreases count,
{
    if count > 0 {
        lemma_steps_staged(entries, count - 1);
        lemma_staging_dir();
        assert(under(entries[count - 1].path, STAGING_DIR@));
        if parent(entries[count - 1].path).len() > 0 {
            lemma_parent_under(entries[count - 1].path, STAGING_DIR@);
        }
    }
}

/// The notice that follows the entry at `index` of `total`.
pub fn progress_mark(index: usize, total: usize) -> (notice: Notice)
    ensures
        notice == mark(index as int, total as int),
{
    if index > 0 && index % 100 == 0 {
        if index < total {
            let done: u128 = (index as u128) * 100 / (total as u128);
            Notice::Percent { done: done as u8 }
        } else {
            Notice::Percent { done: 100 }
        }
    } else {
        Notice::Tick
    }
}

/// Appends `step` to `steps`.
fn push_step(steps: &mut Vec<Step>, step: Step)
    ensures
        step_models(final(steps)@) == step_models(old(steps)@).push(step@),
{
    steps.push(step);
    assert(step_models(steps@) =~= step_models(old(steps)@).push(step@));
}

/// Plans the unpacking of `entries` and the rename to `runtime_dir`.
///
/// Every entry's path is tested first: the plan is made only if each is
/// confined, and otherwise the first entry that is not is reported. The plan
/// holds, for each entry in stored order, the steps that put it in place with
/// its stored bytes and mode, and ends with the rename of the staging
/// directory.
pub fn plan_extraction(entries: Vec<ArchiveEntry>, runtime_dir: &str) -> (planned: Result<
    Vec<Step>,
    Escape,
>)
    ensures
        match planned {
            Ok(steps) => {
                &&& all_confined(entry_models(entries@))
                &&& step_models(steps@) == plan(entry_models(entries@), runtime_dir@)
            },
            Err(escape) => escapes_at(entry_models(entries@), escape.index as int),
        },
{
    let ghost models = entry_models(entries@);
    let total = entries.len();
    let mut checked: usize = 0;
    while checked < total
        invariant
            checked <= total == entries@.len(),
            forall|i: int| 0 <= i < checked ==> confined((#[trigger] entries@[i]).path@),
        decreases total - checked,
    {
        if !is_confined(entries[checked].path.as_str()) {
            return Err(Escape { index: checked });
        }
        checked = checked + 1;
    }
    assert(all_confined(models));
    let mut steps: Vec<Step> = Vec::new();
    push_step(&mut steps, Step::Report { notice: Notice::Begin });
    assert(step_models(steps@) =~= steps_through(models, 0));
    let mut index: usize = 0;
    for entry in it: entries
        invariant
            it.seq() == entries@,
            index == it.index(),
            total == entries@.len(),
            models == entry_models(entries@),
            step_models(steps@) == steps_through(models, index as int),
    {
        let ghost model = entry@;
        let ghost before = step_models(steps@);
        assert(model == models[index as int]);
        let is_dir = entry.is_dir();
        let ArchiveEntry { name: _, path, content, mode } = entry;
        if is_dir {
            push_step(&mut steps, Step::CreateDirAll { path: path.clone() });
        } else {
            let dir = parent_of(path.as_str());
            if !dir.as_str().is_empty() {
                push_step(&mut steps, Step::CreateDirAll { path: dir });
            }
            push_step(&mut steps, Step::WriteFile { path: path.clone(), content });
        }
        assert(step_models(steps@) =~= before + placing_steps(model));
        match mode {
            Some(mode) => {
                push_step(&mut steps, Step::SetMode { path, mode });
            },
            None => {},
        }
        assert(step_models(steps@) =~= before + placing_steps(model) + mode_steps(model));
        push_step(&mut steps, Step::Report { notice: progress_mark(index, total) });
        assert(step_models(steps@) =~= before + entry_steps(model, index as int, total as int));
        index = index + 1;
    }
    push_step(
        &mut steps,
        Step::Rename { from: String::from_str(STAGING_DIR), to: String::from_str(runtime_dir) },
    );
    push_step(&mut steps, Step::Report { notice: Notice::Done });
    assert(step_models(steps@) =~= plan(models, runtime_dir@));
    Ok(steps)
}

/// What planning the unpacking of a payload gives: the steps, or why there
/// are none.
pub enum Load {
    Steps(Seq<StepModel>),
    Failed(LaunchError),
}

/// A result of planning, as plain data.
pub open spec fn outcome_model(planned: Result<Vec<Step>, LaunchError>) -> Load {
    match planned {
        Ok(steps) => Load::Steps(step_models(steps@)),
        Err(error) => Load::Failed(error),
    }
}

/// `load` is what planning the unpacking of `payload` into `runtime_dir`
/// gives.
///
/// Where the payload is over the limit, does not open as an archive, or one
/// of its entries cannot be read, it is an archive failure. Where the path of
/// an entry is not confined, it is the refusal of the first such entry.
/// Otherwise it is the plan for the entries of the payload, each with its
/// stored name, mode and bytes.
pub open spec fn planned_as(payload: Seq<u8>, runtime_dir: Seq<char>, load: Load) -> bool {
    if payload.len() > payload_limit() {
        load == Load::Failed(LaunchError::Archive(ArchiveFault::TooLarge))
    } else {
        planned_within(payload, runtime_dir, load)
    }
}

/// `load` is what planning the unpacking of a `payload` within the limit
/// gives.
pub open spec fn planned_within(payload: Seq<u8>, runtime_dir: Seq<char>, load: Load) -> bool {
    let listing = archive_listing(payload);
    match load {
        Load::Failed(LaunchError::Archive(fault)) => fails_with(listing, fault),
        Load::Failed(LaunchError::UnsafeEntry { index }) => all_readable(listing) && escapes_at(
            entries_of(listing->0),
            index as int,
        ),
        Load::Failed(_) => false,
        Load::Steps(steps) => {
            &&& all_readable(listing)
            &&& all_confined(entries_of(listing->0))
            &&& steps == plan(entries_of(listing->0), runtime_dir)
        },
    }
}

/// A payload within the limit, whose entries can all be read and are all
/// given confined paths by the reader, is unpacked whole: planning gives a
/// plan, and the plan creates every directory of the payload, writes every
/// file with its stored bytes, applies every stored mode, and ends, before
/// the closing notice, with the rename to the runtime directory.
pub proof fn payload_is_unpacked_whole(
    payload: Seq<u8>,
    runtime_dir: Seq<char>,
    load: Load,
    i: int,
)
    requires
        planned_as(payload, runtime_dir, load),
        payload.len() <= payload_limit(),
        all_readable(archive_listing(payload)),
        all_confined(entries_of(archive_listing(payload)->0)),
        0 <= i < archive_listing(payload)->0.len(),
    ensures
        load matches Load::Steps(steps) && ({
            let stored = archive_listing(payload)->0[i]->0;
            let path = proposed_path(stored.name);
            &&& names_directory(stored.name) ==> steps.contains(StepModel::CreateDirAll { path })
            &&& !names_directory(stored.name) ==> steps.contains(
                StepModel::WriteFile { path, content: stored.content->0 },
            )
            &&& stored.mode matches Some(mode) ==> steps.contains(
                StepModel::SetMode { path, mode },
            )
            &&& steps.len() >= 2
            &&& steps[steps.len() - 2] == (StepModel::Rename {
                from: STAGING_DIR@,
                to: runtime_dir,
            })
        }),
{
    let entries = entries_of(archive_listing(payload)->0);
    match load {
        Load::Failed(LaunchError::UnsafeEntry { index }) => {
            assert(confined(entries[index as int].path));
        },
        _ => {},
    }
    every_entry_is_placed(entries, runtime_dir, i);
}

/// Plans the materialisation of the runtime directory `runtime_dir` from the
/// bytes of the payload.
///
/// The payload is read as an archive and its unpacking planned. An archive
/// that does not open, or an entry that cannot be read, is an archive
/// failure; an entry whose path is not confined is refused; in neither case
/// is there a plan.
pub fn extract_runtime(payload: Vec<u8>, runtime_dir: &str) -> (planned: Result<
    Vec<Step>,
    LaunchError,
>)
    ensures
        planned_as(payload@, runtime_dir@, outcome_model(planned)),
{
    let entries = match read_archive(payload) {
        Ok(entries) => entries,
        Err(fault) => {
            return Err(LaunchError::Archive(fault));
        },
    };
    match plan_extraction(entries, runtime_dir) {
        Ok(steps) => Ok(steps),
        Err(escape) => Err(LaunchError::UnsafeEntry { index: escape.index }),
    }
}

} // verus!
