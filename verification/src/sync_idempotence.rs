//! A pass over files that a pass has just brought in step writes nothing.

use crate::analyze_custom_xml::Entry;
use crate::round_trip::{extract_inverts_reconstruct, round_trips};
use crate::sync_custom_xml::{
    action_of, canonical_text, fresh_run, needs_write, step_of, Action, Event, Run,
};
use crate::text::joined;
use vstd::prelude::*;

verus! {

/// The files of a folder tree: the content of each file by its path.
pub type Files = Map<Seq<char>, Seq<char>>;

/// What reading the file at `path` hands back.
pub open spec fn read_file(files: Files, path: Seq<char>) -> Option<Seq<char>> {
    if files.contains_key(path) {
        Some(files[path])
    } else {
        None
    }
}

/// The state of the pass and the files after the caller has carried out the
/// action of `run` on `files`, every write working, and the pass has taken
/// what the caller handed back.
pub open spec fn served(run: Run, files: Files) -> (Run, Files) {
    match action_of(run) {
        Action::Read { path } => (step_of(run, Event::Content(read_file(files, path))), files),
        Action::Write { path, content } => (
            step_of(run, Event::WriteResult(true)),
            files.insert(path, content),
        ),
        Action::Finish { .. } => (run, files),
    }
}

/// The number of actions that the pass may still ask for.
pub open spec fn remaining(run: Run) -> nat {
    if run.position >= run.entries.len() {
        0
    } else if run.awaiting_write {
        (2 * (run.entries.len() - run.position) - 1) as nat
    } else {
        (2 * (run.entries.len() - run.position)) as nat
    }
}

/// The state of the pass and the files when the pass, served from `run` on,
/// has finished.
pub open spec fn completed(run: Run, files: Files) -> (Run, Files)
    decreases remaining(run),
{
    if run.position >= run.entries.len() {
        (run, files)
    } else {
        let next = served(run, files);
        completed(next.0, next.1)
    }
}

/// The file of `entry` in `folder` holds the record of the entry.
pub open spec fn in_step(entry: Entry, folder: Seq<char>, files: Files) -> bool {
    !needs_write(read_file(files, joined(folder, entry.name)), entry.record)
}

/// Every record of the manifest comes back unchanged from its canonical
/// text.
pub open spec fn all_round_trip(entries: Seq<Entry>) -> bool {
    forall|i: int| 0 <= i < entries.len() ==> round_trips((#[trigger] entries[i]).record)
}

/// Entries that name the same file hold the same record.
pub open spec fn one_record_per_file(entries: Seq<Entry>) -> bool {
    forall|i: int, j: int|
        0 <= i < entries.len() && 0 <= j < entries.len() && (#[trigger] entries[i]).name == (
        #[trigger] entries[j]).name ==> entries[i].record == entries[j].record
}

proof fn lemma_joined_injective(folder: Seq<char>, a: Seq<char>, b: Seq<char>)
    requires
        joined(folder, a) == joined(folder, b),
    ensures
        a == b,
{
    let left = joined(folder, a);
    let right = joined(folder, b);
    assert(left.len() == folder.len() + 1 + a.len());
    assert(right.len() == folder.len() + 1 + b.len());
    assert forall|i: int| 0 <= i < a.len() implies a[i] == b[i] by {
        assert(left[folder.len() + 1 + i] == a[i]);
        assert(right[folder.len() + 1 + i] == b[i]);
    }
    assert(a =~= b);
}

/// When a pass finishes, every entry is in step with the files, provided
/// the entries that were done before are.
proof fn lemma_pass_leaves_in_step(run: Run, files: Files)
    requires
        all_round_trip(run.entries),
        one_record_per_file(run.entries),
        run.position <= run.entries.len(),
        forall|i: int| 0 <= i < run.position ==> in_step(#[trigger] run.entries[i], run.folder, files),
    ensures
        ({
            let end = completed(run, files);
            &&& end.0.entries == run.entries
            &&& end.0.folder == run.folder
            &&& forall|i: int|
                0 <= i < run.entries.len() ==> in_step(#[trigger] run.entries[i], run.folder, end.1)
        }),
    decreases remaining(run),
{
    if run.position < run.entries.len() {
        let p = run.position as int;
        let entry = run.entries[p];
        let path = joined(run.folder, entry.name);
        let next = served(run, files);
        if run.awaiting_write {
            let text = canonical_text(entry.record);
            assert(next.1 == files.insert(path, text));
            assert(round_trips(run.entries[p].record));
            extract_inverts_reconstruct(entry.record);
            assert forall|i: int| 0 <= i < next.0.position implies in_step(
                #[trigger] run.entries[i],
                run.folder,
                next.1,
            ) by {
                let other = joined(run.folder, run.entries[i].name);
                if other == path {
                    lemma_joined_injective(run.folder, run.entries[i].name, entry.name);
                    assert(run.entries[i].record == run.entries[p].record);
                } else {
                    assert(read_file(next.1, other) == read_file(files, other));
                }
            }
        } else {
            assert(next.1 == files);
        }
        lemma_pass_leaves_in_step(next.0, next.1);
    }
}

/// A pass over files with which every entry is in step skips every entry
/// that is left, and leaves the files as they are.
proof fn lemma_pass_in_step(run: Run, files: Files)
    requires
        run.position <= run.entries.len(),
        !run.awaiting_write,
        forall|i: int|
            0 <= i < run.entries.len() ==> in_step(#[trigger] run.entries[i], run.folder, files),
    ensures
        ({
            let end = completed(run, files);
            &&& end.1 == files
            &&& end.0.synced == run.synced
            &&& end.0.failed == run.failed
            &&& end.0.skipped == run.skipped + (run.entries.len() - run.position)
            &&& end.0.position == run.entries.len()
        }),
    decreases remaining(run),
{
    if run.position < run.entries.len() {
        let next = served(run, files);
        assert(in_step(run.entries[run.position as int], run.folder, files));
        lemma_pass_in_step(next.0, next.1);
    }
}

/// A second pass writes nothing.
///
/// Take a manifest whose records all come back unchanged from their
/// canonical text and in which entries that name the same file hold the same
/// record. Run a pass over any files, every write working, and then a second
/// pass over the files that the first one left. The second pass leaves the
/// files as they are, writes none, fails on none, and skips as many entries
/// as the manifest has.
pub proof fn second_pass_writes_nothing(
    entries: Seq<Entry>,
    folder: Seq<char>,
    create_folder: bool,
    files: Files,
)
    requires
        all_round_trip(entries),
        one_record_per_file(entries),
    ensures
        ({
            let first = completed(fresh_run(entries, folder, create_folder), files);
            let second = completed(fresh_run(entries, folder, false), first.1);
            &&& second.1 == first.1
            &&& second.0.synced == 0
            &&& second.0.failed == 0
            &&& second.0.skipped == entries.len()
        }),
{
    let first = completed(fresh_run(entries, folder, create_folder), files);
    lemma_pass_leaves_in_step(fresh_run(entries, folder, create_folder), files);
    lemma_pass_in_step(fresh_run(entries, folder, false), first.1);
}

} // verus!
