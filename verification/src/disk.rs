//! A model of what the actions of a script leave on disk, to state that a
//! repeated submission changes nothing.

use crate::action::ActionView;
use crate::endpoint::EndpointView;
use crate::json::EvaluationView;
use crate::script::script_of;
use vstd::prelude::*;

verus! {

/// The part of a file system that a script can touch: the directories that
/// exist and the content of each file.
#[verifier::ext_equal]
pub struct Disk {
    pub dirs: Set<Seq<char>>,
    pub files: Map<Seq<char>, Seq<u8>>,
}

/// The disk after one action went through. Ensuring a directory adds it, and
/// leaves one that exists as it is. Writing a file replaces what the path
/// held, or adds the file. The other actions do not touch the disk.
pub open spec fn perform(disk: Disk, action: ActionView) -> Disk {
    match action {
        ActionView::EnsureDir { path } => Disk { dirs: disk.dirs.insert(path), files: disk.files },
        ActionView::WriteFile { path, bytes } => Disk {
            dirs: disk.dirs,
            files: disk.files.insert(path, bytes),
        },
        _ => disk,
    }
}

/// The disk after all the actions went through, first to last.
pub open spec fn replay(disk: Disk, actions: Seq<ActionView>) -> Disk
    decreases actions.len(),
{
    if actions.len() == 0 {
        disk
    } else {
        perform(replay(disk, actions.drop_last()), actions.last())
    }
}

/// The directories that the actions ensure.
pub open spec fn ensured(actions: Seq<ActionView>) -> Set<Seq<char>> {
    Set::new(
        |path: Seq<char>|
            exists|i: int|
                0 <= i < actions.len() && #[trigger] actions[i] == (ActionView::EnsureDir { path }),
    )
}

/// The bytes that the last write to `path` among the actions leaves there,
/// if any of them writes to it.
pub open spec fn last_written(actions: Seq<ActionView>, path: Seq<char>) -> Option<Seq<u8>>
    decreases actions.len(),
{
    if actions.len() == 0 {
        None
    } else {
        match actions.last() {
            ActionView::WriteFile { path: written, bytes } if written == path => Some(bytes),
            _ => last_written(actions.drop_last(), path),
        }
    }
}

/// Ensuring a directory that exists changes nothing.
pub proof fn lemma_ensuring_an_existing_dir(disk: Disk, path: Seq<char>)
    requires
        disk.dirs.contains(path),
    ensures
        perform(disk, ActionView::EnsureDir { path }) == disk,
{
    assert(disk.dirs.insert(path) =~= disk.dirs);
}

/// After a replay the disk holds the directories it had and those that
/// the actions ensure.
pub proof fn lemma_replay_dirs(disk: Disk, actions: Seq<ActionView>)
    ensures
        replay(disk, actions).dirs == disk.dirs.union(ensured(actions)),
    decreases actions.len(),
{
    if actions.len() == 0 {
        assert(replay(disk, actions).dirs =~= disk.dirs.union(ensured(actions)));
    } else {
        let before = actions.drop_last();
        lemma_replay_dirs(disk, before);
        assert forall|path: Seq<char>| ensured(actions).contains(path) <==> (ensured(
            before,
        ).contains(path) || actions.last() == (ActionView::EnsureDir { path })) by {
            if ensured(actions).contains(path) {
                let i = choose|i: int|
                    0 <= i < actions.len() && #[trigger] actions[i] == (ActionView::EnsureDir {
                        path,
                    });
                if i < before.len() {
                    assert(before[i] == actions[i]);
                }
            }
            if ensured(before).contains(path) {
                let i = choose|i: int|
                    0 <= i < before.len() && #[trigger] before[i] == (ActionView::EnsureDir {
                        path,
                    });
                assert(actions[i] == before[i]);
            }
            if actions.last() == (ActionView::EnsureDir { path }) {
                assert(actions[actions.len() - 1] == (ActionView::EnsureDir { path }));
            }
        }
        assert(replay(disk, actions).dirs =~= disk.dirs.union(ensured(actions)));
    }
}

/// After a replay a file that was written holds the bytes of its last write,
/// and every other path is as it was: a file with the content it had, or no
/// file.
pub proof fn lemma_replay_file(disk: Disk, actions: Seq<ActionView>, path: Seq<char>)
    ensures
        replay(disk, actions).files.dom().contains(path) <==> (disk.files.dom().contains(path)
            || last_written(actions, path) is Some),
        last_written(actions, path) is Some ==> replay(disk, actions).files[path] == last_written(
            actions,
            path,
        )->0,
        last_written(actions, path) is None ==> replay(disk, actions).files[path]
            == disk.files[path],
    decreases actions.len(),
{
    if actions.len() > 0 {
        lemma_replay_file(disk, actions.drop_last(), path);
    }
}

/// Going through the same actions a second time leaves the disk as the first
/// time left it: every file holds the bytes it held, and no file or
/// directory is added.
pub proof fn lemma_replay_twice(disk: Disk, actions: Seq<ActionView>)
    ensures
        replay(replay(disk, actions), actions) == replay(disk, actions),
{
    let once = replay(disk, actions);
    let twice = replay(once, actions);
    lemma_replay_dirs(disk, actions);
    lemma_replay_dirs(once, actions);
    assert(twice.dirs =~= once.dirs);
    assert forall|path: Seq<char>| #[trigger]
        twice.files.dom().contains(path) == once.files.dom().contains(path) by {
        lemma_replay_file(disk, actions, path);
        lemma_replay_file(once, actions, path);
    }
    assert forall|path: Seq<char>| #[trigger] twice.files[path] == once.files[path] by {
        lemma_replay_file(disk, actions, path);
        lemma_replay_file(once, actions, path);
    }
    assert(twice.files =~= once.files);
}

/// A submission that is repeated with the same nodes, the same slot and the
/// same results, and whose actions all go through both times, leaves on
/// disk what the first one left.
pub proof fn lemma_resubmission_changes_nothing(
    cfg: EndpointView,
    nodes: Seq<(Seq<char>, Seq<char>)>,
    results: Seq<EvaluationView>,
    slot: u64,
    disk: Disk,
)
    ensures
        replay(
            replay(disk, script_of(cfg, nodes, results, slot).actions),
            script_of(cfg, nodes, results, slot).actions,
        ) == replay(disk, script_of(cfg, nodes, results, slot).actions),
{
    lemma_replay_twice(disk, script_of(cfg, nodes, results, slot).actions);
}

} // verus!
