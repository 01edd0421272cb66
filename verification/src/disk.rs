//! What a plan does to a disk.
//!
//! The disk is modelled as far as unpacking goes: which paths exist, which of
//! them are directories, what the files hold, and which modes were set. Each
//! step either takes effect or fails, as the file system would have it, and
//! a plan stops at the first step that fails. On this model it is shown that
//! unpacking leaves the runtime directory alone until the closing rename,
//! and that the rename brings it into being whole or not at all.

use crate::archive::{archive_listing, entries_of, entry_of, payload_limit, EntryModel};
use crate::extract::{
    all_staged, entry_steps, lemma_one_home, lemma_parent_under, lemma_staging_dir,
    lemma_steps_staged, mode_steps, placing_steps, plan, planned_as, steps_through, touched,
    under, Load, Notice, StepModel, STAGING_DIR,
};
use crate::paths::{lemma_last_of, names_directory, parent, plain_name};
use vstd::prelude::*;

verus! {

/// What a path leads to.
pub enum Node {
    Dir,
    File { content: Seq<u8> },
}

/// A disk: the paths that exist, with what they lead to, and the modes that
/// were set.
pub struct Disk {
    pub nodes: Map<Seq<char>, Node>,
    pub modes: Map<Seq<char>, u32>,
}

/// `path` is a directory on `disk`.
pub open spec fn is_dir(disk: Disk, path: Seq<char>) -> bool {
    disk.nodes.contains_key(path) && disk.nodes[path] is Dir
}

/// `path` is a file on `disk`.
pub open spec fn is_file(disk: Disk, path: Seq<char>) -> bool {
    disk.nodes.contains_key(path) && disk.nodes[path] is File
}

/// `dir` is `path` itself or one of the directories that lead to it.
pub open spec fn leads_to(dir: Seq<char>, path: Seq<char>) -> bool {
    dir.len() > 0 && under(path, dir)
}

/// A file stands where a directory that leads to `path` would have to be.
pub open spec fn blocked(disk: Disk, path: Seq<char>) -> bool {
    exists|dir: Seq<char>| #[trigger] leads_to(dir, path) && is_file(disk, dir)
}

/// Something exists below `dir`.
pub open spec fn populated(disk: Disk, dir: Seq<char>) -> bool {
    exists|path: Seq<char>|
        #[trigger] under(path, dir) && path != dir && disk.nodes.contains_key(path)
}

/// A rename cannot take the name `dir`: a file bears it, or something exists
/// below it.
pub open spec fn taken(disk: Disk, dir: Seq<char>) -> bool {
    is_file(disk, dir) || populated(disk, dir)
}

/// The path that `path`, at or below `from`, has once `from` is named `to`.
pub open spec fn moved(path: Seq<char>, from: Seq<char>, to: Seq<char>) -> Seq<char> {
    to + path.skip(from.len() as int)
}

/// The disk after `step`, or `None` where the step fails.
///
/// A directory is created with all that lead to it, unless a file stands in
/// the way. A file is written where its parent is a directory and no
/// directory bears its name. A mode is set on what exists. A rename moves a
/// directory with all below it to a name that is free or borne by an empty
/// directory, which it replaces. (Some file systems refuse the empty
/// directory too; what is shown of a rename that took effect holds there of
/// fewer runs.)
pub open spec fn apply(disk: Disk, step: StepModel) -> Option<Disk> {
    match step {
        StepModel::CreateDirAll { path } => if blocked(disk, path) {
            None
        } else {
            Some(
                Disk {
                    nodes: Map::new(
                        |k: Seq<char>| disk.nodes.contains_key(k) || leads_to(k, path),
                        |k: Seq<char>|
                            if leads_to(k, path) {
                                Node::Dir
                            } else {
                                disk.nodes[k]
                            },
                    ),
                    ..disk
                },
            )
        },
        StepModel::WriteFile { path, content } => if (parent(path).len() > 0 && !is_dir(
            disk,
            parent(path),
        )) || is_dir(disk, path) {
            None
        } else {
            Some(Disk { nodes: disk.nodes.insert(path, Node::File { content }), ..disk })
        },
        StepModel::SetMode { path, mode } => if disk.nodes.contains_key(path) {
            Some(Disk { modes: disk.modes.insert(path, mode), ..disk })
        } else {
            None
        },
        StepModel::Rename { from, to } => if !is_dir(disk, from) || taken(disk, to) {
            None
        } else {
            Some(
                Disk {
                    nodes: Map::new(
                        |k: Seq<char>|
                            if under(k, to) {
                                disk.nodes.contains_key(moved(k, to, from))
                            } else {
                                disk.nodes.contains_key(k) && !under(k, from)
                            },
                        |k: Seq<char>|
                            if under(k, to) {
                                disk.nodes[moved(k, to, from)]
                            } else {
                                disk.nodes[k]
                            },
                    ),
                    modes: Map::new(
                        |k: Seq<char>|
                            if under(k, to) {
                                disk.modes.contains_key(moved(k, to, from))
                            } else {
                                disk.modes.contains_key(k) && !under(k, from)
                            },
                        |k: Seq<char>|
                            if under(k, to) {
                                disk.modes[moved(k, to, from)]
                            } else {
                                disk.modes[k]
                            },
                    ),
                },
            )
        },
        StepModel::Report { .. } => Some(disk),
    }
}

/// Where carrying out steps has got to: the disk as it stands, and whether
/// every step so far took effect.
pub struct Progress {
    pub disk: Disk,
    pub done: bool,
}

/// Carries out `steps` on `disk` in order, and stops at the first that
/// fails.
pub open spec fn carry_out(disk: Disk, steps: Seq<StepModel>) -> Progress
    decreases steps.len(),
{
    if steps.len() == 0 {
        Progress { disk, done: true }
    } else {
        let before = carry_out(disk, steps.drop_last());
        if !before.done {
            before
        } else {
            match apply(before.disk, steps.last()) {
                Some(after) => Progress { disk: after, done: true },
                None => Progress { disk: before.disk, done: false },
            }
        }
    }
}

/// `first` and `second` agree at `path`: it exists on both or on neither,
/// leads to the same, and has the same mode set or none.
pub open spec fn same_at(first: Disk, second: Disk, path: Seq<char>) -> bool {
    &&& first.nodes.contains_key(path) == second.nodes.contains_key(path)
    &&& first.nodes.contains_key(path) ==> first.nodes[path] == second.nodes[path]
    &&& first.modes.contains_key(path) == second.modes.contains_key(path)
    &&& first.modes.contains_key(path) ==> first.modes[path] == second.modes[path]
}

/// `first` and `second` agree on every path that is not `home` nor below it.
pub open spec fn same_outside(first: Disk, second: Disk, home: Seq<char>) -> bool {
    forall|k: Seq<char>| !(#[trigger] under(k, home)) ==> same_at(first, second, k)
}

/// `first` and `second` agree on `home` and every path below it.
pub open spec fn same_under(first: Disk, second: Disk, home: Seq<char>) -> bool {
    forall|k: Seq<char>| #[trigger] under(k, home) ==> same_at(first, second, k)
}

/// What leads to a path below a directory with a plain name lies below that
/// directory too.
proof fn lemma_leads_within(dir: Seq<char>, path: Seq<char>, home: Seq<char>)
    requires
        leads_to(dir, path),
        under(path, home),
        plain_name(home),
    ensures
        under(dir, home),
{
    if dir.len() < home.len() {
        assert(path.take(home.len() as int)[dir.len() as int] == path[dir.len() as int]);
    } else {
        assert(dir.take(home.len() as int) =~= path.take(home.len() as int));
        if dir.len() > home.len() {
            assert(dir[home.len() as int] == path.take(dir.len() as int)[home.len() as int]);
        }
    }
}

/// A step that touches a path at or below `home`, and renames nothing,
/// changes nothing outside `home`.
proof fn lemma_step_keeps(disk: Disk, step: StepModel, home: Seq<char>)
    requires
        plain_name(home),
        match touched(step) {
            Some(path) => under(path, home),
            None => step is Report,
        },
        apply(disk, step) is Some,
    ensures
        same_outside(disk, apply(disk, step)->0, home),
{
    let after = apply(disk, step)->0;
    assert forall|k: Seq<char>| !(#[trigger] under(k, home)) implies same_at(disk, after, k) by {
        match step {
            StepModel::CreateDirAll { path } => {
                if leads_to(k, path) {
                    lemma_leads_within(k, path, home);
                }
            },
            _ => {},
        }
    }
}

/// Steps that touch paths at or below `home` only, and rename nothing, leave
/// all else as it was, however far they get.
pub proof fn lemma_steps_keep(disk: Disk, steps: Seq<StepModel>, home: Seq<char>)
    requires
        plain_name(home),
        forall|i: int|
            0 <= i < steps.len() ==> match touched(#[trigger] steps[i]) {
                Some(path) => under(path, home),
                None => steps[i] is Report,
            },
    ensures
        same_outside(disk, carry_out(disk, steps).disk, home),
    decreases steps.len(),
{
    if steps.len() > 0 {
        let before = carry_out(disk, steps.drop_last());
        assert forall|i: int| 0 <= i < steps.drop_last().len() implies match touched(
            #[trigger] steps.drop_last()[i],
        ) {
            Some(path) => under(path, home),
            None => steps.drop_last()[i] is Report,
        } by {
            assert(steps.drop_last()[i] == steps[i]);
        }
        lemma_steps_keep(disk, steps.drop_last(), home);
        if before.done && apply(before.disk, steps.last()) is Some {
            assert(steps.last() == steps[steps.len() - 1]);
            lemma_step_keeps(before.disk, steps.last(), home);
        }
    }
}

/// Stale and new content never merge.
///
/// For a payload that keeps to its staging directory, and a runtime
/// directory with a plain name of its own: whatever the disk holds, and
/// however far the plan gets, nothing at or below the runtime directory
/// changes before the closing rename. Where the runtime directory holds
/// anything, or is a file, the plan fails and leaves it as it was. Where the
/// plan succeeds, the runtime directory was missing or empty, and it then
/// holds what the staging directory held when the last entry was in place,
/// and nothing else.
pub proof fn stale_and_new_never_merge(
    disk: Disk,
    entries: Seq<EntryModel>,
    runtime_dir: Seq<char>,
)
    requires
        all_staged(entries),
        plain_name(runtime_dir),
        runtime_dir != STAGING_DIR@,
    ensures
        ({
            let staged = carry_out(disk, steps_through(entries, entries.len() as int));
            let end = carry_out(disk, plan(entries, runtime_dir));
            &&& same_under(disk, staged.disk, runtime_dir)
            &&& taken(disk, runtime_dir) ==> !end.done && same_under(
                disk,
                end.disk,
                runtime_dir,
            )
            &&& end.done ==> {
                &&& staged.done
                &&& !taken(disk, runtime_dir)
                &&& forall|k: Seq<char>|
                    #[trigger] under(k, runtime_dir) ==> {
                        &&& end.disk.nodes.contains_key(k) == staged.disk.nodes.contains_key(
                            moved(k, runtime_dir, STAGING_DIR@),
                        )
                        &&& end.disk.nodes.contains_key(k) ==> end.disk.nodes[k]
                            == staged.disk.nodes[moved(k, runtime_dir, STAGING_DIR@)]
                    }
            }
        }),
{
    let steps = steps_through(entries, entries.len() as int);
    let whole = plan(entries, runtime_dir);
    let rename = StepModel::Rename { from: STAGING_DIR@, to: runtime_dir };
    let staged = carry_out(disk, steps);
    lemma_steps_staged(entries, entries.len() as int);
    lemma_staging_dir();
    lemma_steps_keep(disk, steps, STAGING_DIR@);
    assert forall|k: Seq<char>| #[trigger] under(k, runtime_dir) implies !under(
        k,
        STAGING_DIR@,
    ) by {
        if under(k, STAGING_DIR@) {
            lemma_one_home(k, runtime_dir, STAGING_DIR@);
        }
    }
    assert(same_under(disk, staged.disk, runtime_dir));
    assert(whole.drop_last() =~= steps.push(rename));
    assert(whole.drop_last().drop_last() =~= steps);
    assert(whole.drop_last().last() == rename);
    let renamed = carry_out(disk, whole.drop_last());
    let end = carry_out(disk, whole);
    assert(under(runtime_dir, runtime_dir)) by {
        assert(runtime_dir.take(runtime_dir.len() as int) =~= runtime_dir);
    }
    assert(same_at(disk, staged.disk, runtime_dir));
    if populated(disk, runtime_dir) {
        let there = choose|path: Seq<char>|
            #[trigger] under(path, runtime_dir) && path != runtime_dir
                && disk.nodes.contains_key(path);
        assert(same_at(disk, staged.disk, there));
        assert(populated(staged.disk, runtime_dir));
    }
    if taken(disk, runtime_dir) {
        assert(taken(staged.disk, runtime_dir));
    }
    if end.done {
        assert(renamed.done);
        assert(staged.done);
        assert(!taken(staged.disk, runtime_dir));
    }
}

/// No two of `entries` have the same path.
pub open spec fn distinct_paths(entries: Seq<EntryModel>) -> bool {
    forall|i: int, j: int|
        0 <= i < j < entries.len() ==> (#[trigger] entries[i]).path != (#[trigger] entries[j]).path
}

/// `entry` is in place on `disk`, where what lay at or below `from` now lies
/// at or below `to`: a directory is a directory; a file is a file with the
/// entry's bytes, and all that leads to it are directories; and the entry's
/// mode, where it has one, is set.
pub open spec fn in_place(disk: Disk, entry: EntryModel, from: Seq<char>, to: Seq<char>) -> bool {
    let path = moved(entry.path, from, to);
    &&& names_directory(entry.name) ==> is_dir(disk, path)
    &&& !names_directory(entry.name) ==> {
        &&& disk.nodes.contains_key(path)
        &&& disk.nodes[path] == (Node::File { content: entry.content })
        &&& forall|dir: Seq<char>| #[trigger]
            leads_to(dir, parent(entry.path)) ==> is_dir(disk, moved(dir, from, to))
    }
    &&& entry.mode matches Some(mode) ==> disk.modes.contains_key(path) && disk.modes[path]
        == mode
}

/// `entry` is in place on `disk`, where it was unpacked.
pub open spec fn placed(disk: Disk, entry: EntryModel) -> bool {
    &&& names_directory(entry.name) ==> is_dir(disk, entry.path)
    &&& !names_directory(entry.name) ==> {
        &&& disk.nodes.contains_key(entry.path)
        &&& disk.nodes[entry.path] == (Node::File { content: entry.content })
        &&& forall|dir: Seq<char>| #[trigger]
            leads_to(dir, parent(entry.path)) ==> is_dir(disk, dir)
    }
    &&& entry.mode matches Some(mode) ==> disk.modes.contains_key(entry.path)
        && disk.modes[entry.path] == mode
}

/// `step` neither writes the file `path` nor sets its mode, and renames
/// nothing.
pub open spec fn spares(step: StepModel, path: Seq<char>) -> bool {
    match step {
        StepModel::WriteFile { path: written, .. } => written != path,
        StepModel::SetMode { path: set, .. } => set != path,
        StepModel::Rename { .. } => false,
        _ => true,
    }
}

/// Carrying out two lists of steps one after the other is carrying out the
/// one list that they make.
proof fn lemma_carry_on(disk: Disk, first: Seq<StepModel>, second: Seq<StepModel>)
    ensures
        carry_out(disk, first + second) == if carry_out(disk, first).done {
            carry_out(carry_out(disk, first).disk, second)
        } else {
            carry_out(disk, first)
        },
    decreases second.len(),
{
    if second.len() == 0 {
        assert(first + second =~= first);
    } else {
        assert((first + second).drop_last() =~= first + second.drop_last());
        assert((first + second).last() == second.last());
        lemma_carry_on(disk, first, second.drop_last());
    }
}

/// A step that takes effect and spares the path of an entry leaves the entry
/// in place.
proof fn lemma_step_spares(disk: Disk, step: StepModel, entry: EntryModel)
    requires
        placed(disk, entry),
        spares(step, entry.path),
        apply(disk, step) is Some,
    ensures
        placed(apply(disk, step)->0, entry),
{
    let after = apply(disk, step)->0;
    match step {
        StepModel::CreateDirAll { path } => {
            if !names_directory(entry.name) {
                if leads_to(entry.path, path) {
                    assert(is_file(disk, entry.path));
                    assert(blocked(disk, path));
                }
            }
        },
        StepModel::WriteFile { path, content } => {
            if !names_directory(entry.name) {
                assert forall|dir: Seq<char>| #[trigger]
                    leads_to(dir, parent(entry.path)) implies is_dir(after, dir) by {
                    assert(is_dir(disk, dir));
                }
            }
        },
        _ => {},
    }
}

/// Steps that take effect and spare the path of an entry leave the entry in
/// place.
proof fn lemma_steps_spare(disk: Disk, steps: Seq<StepModel>, entry: EntryModel)
    requires
        placed(disk, entry),
        forall|i: int| 0 <= i < steps.len() ==> spares(#[trigger] steps[i], entry.path),
        carry_out(disk, steps).done,
    ensures
        placed(carry_out(disk, steps).disk, entry),
    decreases steps.len(),
{
    if steps.len() > 0 {
        let before = carry_out(disk, steps.drop_last());
        assert forall|i: int| 0 <= i < steps.drop_last().len() implies spares(
            #[trigger] steps.drop_last()[i],
            entry.path,
        ) by {
            assert(steps.drop_last()[i] == steps[i]);
        }
        lemma_steps_spare(disk, steps.drop_last(), entry);
        assert(steps.last() == steps[steps.len() - 1]);
        lemma_step_spares(before.disk, steps.last(), entry);
    }
}

/// The parent of a path is shorter than the path, where it names one.
proof fn lemma_parent_shorter(path: Seq<char>)
    ensures
        parent(path).len() < path.len() || path.len() == 0,
{
    lemma_last_of(path, '/', '\\');
}

/// The steps for an entry, where they all take effect, put the entry in
/// place.
proof fn lemma_entry_placed(disk: Disk, entry: EntryModel, index: int, total: int)
    requires
        entry.path.len() > 0,
        carry_out(disk, entry_steps(entry, index, total)).done,
    ensures
        placed(carry_out(disk, entry_steps(entry, index, total)).disk, entry),
{
    let placing = placing_steps(entry);
    let rest = mode_steps(entry) + seq![
        StepModel::Report { notice: crate::extract::mark(index, total) },
    ];
    assert(entry_steps(entry, index, total) =~= placing + rest);
    lemma_carry_on(disk, placing, rest);
    let put = carry_out(disk, placing);
    reveal_with_fuel(carry_out, 4);
    lemma_parent_shorter(entry.path);
    assert(leads_to(entry.path, entry.path)) by {
        assert(entry.path.take(entry.path.len() as int) =~= entry.path);
    }
    if !names_directory(entry.name) && parent(entry.path).len() > 0 {
        let made = apply(disk, placing[0])->0;
        assert(placing.drop_last() =~= seq![placing[0]]);
        assert(placing.drop_last().drop_last() =~= Seq::<StepModel>::empty());
        assert forall|dir: Seq<char>| #[trigger]
            leads_to(dir, parent(entry.path)) implies is_dir(put.disk, dir) by {
            assert(is_dir(made, dir));
        }
    } else {
        assert(placing.drop_last() =~= Seq::<StepModel>::empty());
    }
    assert(placed(Disk { modes: put.disk.modes, ..put.disk }, EntryModel { mode: None, ..entry }));
    match entry.mode {
        Some(mode) => {
            assert(rest.drop_last() =~= seq![StepModel::SetMode { path: entry.path, mode }]);
            assert(rest.drop_last().drop_last() =~= Seq::<StepModel>::empty());
        },
        None => {
            assert(rest.drop_last() =~= Seq::<StepModel>::empty());
        },
    }
}

/// Where the steps for the first `count` entries all take effect, each of
/// those entries is in place.
proof fn lemma_entries_placed(disk: Disk, entries: Seq<EntryModel>, count: int)
    requires
        all_staged(entries),
        distinct_paths(entries),
        0 <= count <= entries.len(),
        carry_out(disk, steps_through(entries, count)).done,
    ensures
        forall|i: int|
            0 <= i < count ==> placed(
                carry_out(disk, steps_through(entries, count)).disk,
                #[trigger] entries[i],
            ),
    decreases count,
{
    if count > 0 {
        let before = steps_through(entries, count - 1);
        let last = entries[count - 1];
        let own = entry_steps(last, count - 1, entries.len() as int);
        lemma_carry_on(disk, before, own);
        let sofar = carry_out(disk, before);
        lemma_entries_placed(disk, entries, count - 1);
        lemma_staging_dir();
        assert(under(last.path, STAGING_DIR@));
        lemma_entry_placed(sofar.disk, last, count - 1, entries.len() as int);
        assert forall|i: int| 0 <= i < count - 1 implies placed(
            carry_out(sofar.disk, own).disk,
            #[trigger] entries[i],
        ) by {
            assert(entries[i].path != last.path);
            lemma_steps_spare(sofar.disk, own, entries[i]);
        }
    }
}

/// A path at or below a directory, moved with it and moved back, is the
/// path; and moved, it lies at or below the directory's new name.
proof fn lemma_moved(path: Seq<char>, from: Seq<char>, to: Seq<char>)
    requires
        under(path, from),
    ensures
        under(moved(path, from, to), to),
        moved(moved(path, from, to), to, from) == path,
{
    let there = moved(path, from, to);
    assert(there.take(to.len() as int) =~= to);
    assert(there.skip(to.len() as int) =~= path.skip(from.len() as int));
    assert(from + path.skip(from.len() as int) =~= path) by {
        assert(path.take(from.len() as int) == from);
    }
}

/// Extraction is complete.
///
/// For a payload that keeps to its staging directory and names no path
/// twice, and a runtime directory with a plain name of its own: where every
/// step of the plan takes effect, every entry of the payload is in place
/// below the runtime directory. Each directory is a directory there; each
/// file is a file with its stored bytes, below directories only; and each
/// stored mode is set.
pub proof fn every_entry_arrives(
    disk: Disk,
    entries: Seq<EntryModel>,
    runtime_dir: Seq<char>,
    i: int,
)
    requires
        all_staged(entries),
        distinct_paths(entries),
        plain_name(runtime_dir),
        runtime_dir != STAGING_DIR@,
        carry_out(disk, plan(entries, runtime_dir)).done,
        0 <= i < entries.len(),
    ensures
        in_place(
            carry_out(disk, plan(entries, runtime_dir)).disk,
            entries[i],
            STAGING_DIR@,
            runtime_dir,
        ),
{
    let steps = steps_through(entries, entries.len() as int);
    let whole = plan(entries, runtime_dir);
    let rename = StepModel::Rename { from: STAGING_DIR@, to: runtime_dir };
    let staged = carry_out(disk, steps);
    let end = carry_out(disk, whole);
    assert(whole.drop_last() =~= steps.push(rename));
    assert(whole.drop_last().drop_last() =~= steps);
    assert(whole.drop_last().last() == rename);
    assert(whole.last() == (StepModel::Report { notice: Notice::Done }));
    assert(carry_out(disk, whole.drop_last()).done);
    assert(staged.done);
    assert(end.disk == apply(staged.disk, rename)->0);
    lemma_entries_placed(disk, entries, entries.len() as int);
    lemma_staging_dir();
    let entry = entries[i];
    assert(placed(staged.disk, entry));
    assert(under(entry.path, STAGING_DIR@));
    lemma_moved(entry.path, STAGING_DIR@, runtime_dir);
    if !names_directory(entry.name) {
        assert forall|dir: Seq<char>| #[trigger]
            leads_to(dir, parent(entry.path)) implies is_dir(
            end.disk,
            moved(dir, STAGING_DIR@, runtime_dir),
        ) by {
            lemma_parent_under(entry.path, STAGING_DIR@);
            lemma_leads_within(dir, parent(entry.path), STAGING_DIR@);
            lemma_moved(dir, STAGING_DIR@, runtime_dir);
            assert(is_dir(staged.disk, dir));
        }
    }
}

/// A payload arrives as it is stored.
///
/// Where planning gave steps for a payload, the reader's paths for its
/// entries keep to the staging directory and are all different, the runtime
/// directory has a plain name of its own, and every step takes effect: each
/// entry that the payload stores is in place below the runtime directory,
/// with the bytes and the mode that the payload stores for it.
pub proof fn payload_arrives_as_stored(
    payload: Seq<u8>,
    runtime_dir: Seq<char>,
    steps: Seq<StepModel>,
    disk: Disk,
    i: int,
)
    requires
        planned_as(payload, runtime_dir, Load::Steps(steps)),
        all_staged(entries_of(archive_listing(payload)->0)),
        distinct_paths(entries_of(archive_listing(payload)->0)),
        plain_name(runtime_dir),
        runtime_dir != STAGING_DIR@,
        carry_out(disk, steps).done,
        0 <= i < archive_listing(payload)->0.len(),
    ensures
        in_place(
            carry_out(disk, steps).disk,
            entry_of(archive_listing(payload)->0[i]->0),
            STAGING_DIR@,
            runtime_dir,
        ),
{
    let entries = entries_of(archive_listing(payload)->0);
    assert(payload.len() <= payload_limit());
    every_entry_arrives(disk, entries, runtime_dir, i);
}

/// What leads to what leads to a path leads to the path.
proof fn lemma_leads_on(dir: Seq<char>, via: Seq<char>, path: Seq<char>)
    requires
        leads_to(dir, via),
        leads_to(via, path),
    ensures
        leads_to(dir, path),
{
    assert(path.take(dir.len() as int) =~= via.take(dir.len() as int));
    if dir.len() < via.len() {
        assert(path.take(via.len() as int)[dir.len() as int] == path[dir.len() as int]);
    }
}

/// The parent of a path leads to the path.
proof fn lemma_parent_leads(path: Seq<char>)
    requires
        parent(path).len() > 0,
    ensures
        leads_to(parent(path), path),
{
    lemma_last_of(path, '/', '\\');
}

/// Steps that touch nothing but what leads to `target`, and rename nothing,
/// bring nothing into being but what leads to `target`, however far they
/// get.
proof fn lemma_steps_add(disk: Disk, steps: Seq<StepModel>, target: Seq<char>)
    requires
        forall|i: int|
            0 <= i < steps.len() ==> match touched(#[trigger] steps[i]) {
                Some(path) => leads_to(path, target),
                None => steps[i] is Report,
            },
    ensures
        forall|k: Seq<char>| #[trigger]
            carry_out(disk, steps).disk.nodes.contains_key(k) ==> disk.nodes.contains_key(k)
                || leads_to(k, target),
    decreases steps.len(),
{
    if steps.len() > 0 {
        let before = carry_out(disk, steps.drop_last());
        assert forall|i: int| 0 <= i < steps.drop_last().len() implies match touched(
            #[trigger] steps.drop_last()[i],
        ) {
            Some(path) => leads_to(path, target),
            None => steps.drop_last()[i] is Report,
        } by {
            assert(steps.drop_last()[i] == steps[i]);
        }
        lemma_steps_add(disk, steps.drop_last(), target);
        assert(steps.last() == steps[steps.len() - 1]);
        let after = carry_out(disk, steps).disk;
        assert forall|k: Seq<char>| #[trigger] after.nodes.contains_key(k) implies
            disk.nodes.contains_key(k) || leads_to(k, target) by {
            if !before.disk.nodes.contains_key(k) {
                match steps.last() {
                    StepModel::CreateDirAll { path } => {
                        lemma_leads_on(k, path, target);
                    },
                    _ => {},
                }
            }
        }
    }
}

/// What exists after the steps for the first `count` entries, however far
/// they got, existed before or leads to one of those entries.
proof fn lemma_only_entries(disk: Disk, entries: Seq<EntryModel>, count: int)
    requires
        all_staged(entries),
        0 <= count <= entries.len(),
    ensures
        forall|k: Seq<char>| #[trigger]
            carry_out(disk, steps_through(entries, count)).disk.nodes.contains_key(k)
                ==> disk.nodes.contains_key(k) || exists|i: int|
                0 <= i < count && leads_to(k, (#[trigger] entries[i]).path),
    decreases count,
{
    if count > 0 {
        let before = steps_through(entries, count - 1);
        let last = entries[count - 1];
        let own = entry_steps(last, count - 1, entries.len() as int);
        lemma_carry_on(disk, before, own);
        let sofar = carry_out(disk, before);
        lemma_only_entries(disk, entries, count - 1);
        lemma_staging_dir();
        assert(under(last.path, STAGING_DIR@));
        assert(leads_to(last.path, last.path)) by {
            assert(last.path.take(last.path.len() as int) =~= last.path);
        }
        if parent(last.path).len() > 0 {
            lemma_parent_leads(last.path);
        }
        lemma_steps_add(sofar.disk, own, last.path);
        let after = carry_out(disk, steps_through(entries, count)).disk;
        assert forall|k: Seq<char>| #[trigger] after.nodes.contains_key(k) implies
            disk.nodes.contains_key(k) || exists|i: int|
            0 <= i < count && leads_to(k, (#[trigger] entries[i]).path) by {
            if !disk.nodes.contains_key(k) {
                if sofar.disk.nodes.contains_key(k) {
                    let i = choose|i: int|
                        0 <= i < count - 1 && leads_to(k, (#[trigger] entries[i]).path);
                    assert(0 <= i < count && leads_to(k, entries[i].path));
                } else {
                    assert(leads_to(k, entries[count - 1].path));
                }
            }
        }
    } else {
        let begin = steps_through(entries, 0);
        assert(begin.drop_last() =~= Seq::<StepModel>::empty());
        reveal_with_fuel(carry_out, 2);
    }
}

/// The runtime directory holds the payload and nothing else.
///
/// For a payload that keeps to its staging directory, and a runtime
/// directory with a plain name of its own, on a disk where the staging
/// directory is missing or empty: where every step of the plan takes effect,
/// all that exists at or below the runtime directory is what leads to an
/// entry of the payload, or is the runtime directory itself.
pub proof fn nothing_else_arrives(
    disk: Disk,
    entries: Seq<EntryModel>,
    runtime_dir: Seq<char>,
    k: Seq<char>,
)
    requires
        all_staged(entries),
        plain_name(runtime_dir),
        runtime_dir != STAGING_DIR@,
        !populated(disk, STAGING_DIR@),
        carry_out(disk, plan(entries, runtime_dir)).done,
        under(k, runtime_dir),
        carry_out(disk, plan(entries, runtime_dir)).disk.nodes.contains_key(k),
    ensures
        k == runtime_dir || exists|i: int|
            0 <= i < entries.len() && leads_to(
                moved(k, runtime_dir, STAGING_DIR@),
                (#[trigger] entries[i]).path,
            ),
{
    stale_and_new_never_merge(disk, entries, runtime_dir);
    lemma_only_entries(disk, entries, entries.len() as int);
    let staged = carry_out(disk, steps_through(entries, entries.len() as int));
    let source = moved(k, runtime_dir, STAGING_DIR@);
    assert(staged.disk.nodes.contains_key(source));
    lemma_moved(k, runtime_dir, STAGING_DIR@);
    assert(under(source, STAGING_DIR@));
    if k != runtime_dir {
        assert(source != STAGING_DIR@) by {
            assert(source.len() == STAGING_DIR@.len() + k.len() - runtime_dir.len());
            if k.len() == runtime_dir.len() {
                assert(k.take(runtime_dir.len() as int) =~= k);
            }
        }
        assert(!disk.nodes.contains_key(source));
    }
}

} // verus!
