//! What a copy across storage volumes asks of the disk, stated for every
//! tree of files and directories.
//!
//! A rename that cannot be done directly, because source and destination
//! lie on different volumes, copies the source to the destination and then
//! deletes the source. Here the tree under the source is described as a
//! mathematical value, and the requests that the copy makes for it are
//! shown to mirror the tree below the destination, entry by entry.

use vstd::prelude::*;
use crate::error::IoFailure;
use crate::explorer::FileMeta;
use crate::fs::FsReply;
use crate::fs::FsRequest;
use crate::fs::Step;
use crate::operations::child_pairs;
use crate::operations::copy_goes_on;
use crate::operations::follows;
use crate::operations::name_views;
use crate::operations::pair_views;
use crate::operations::rename_starts;
use crate::operations::Operation;
use crate::path::joined;

verus! {

/// What lies under a path: a file, or a directory with its entries by name,
/// in the order in which the disk lists them.
pub enum Tree {
    File,
    Dir(Seq<(Seq<char>, Tree)>),
}

/// A request of a copy, by the paths it names.
pub enum CopyAsk {
    /// The metadata of the path is read.
    Kind(Seq<char>),
    /// The file is copied from the first path to the second.
    CopyFile(Seq<char>, Seq<char>),
    /// The directory is made, with the directories above it.
    MakeDir(Seq<char>),
    /// The entries of the directory are listed.
    List(Seq<char>),
}

/// Whether the step asks for what `ask` describes.
pub open spec fn asks(step: Step, ask: CopyAsk) -> bool {
    match ask {
        CopyAsk::Kind(p) => step matches Step::Ask(FsRequest::Metadata { path }) && path@ == p,
        CopyAsk::CopyFile(f, t) => step matches Step::Ask(FsRequest::CopyFile { from, to }) && from@
            == f && to@ == t,
        CopyAsk::MakeDir(p) => step matches Step::Ask(FsRequest::CreateDirAll { path }) && path@
            == p,
        CopyAsk::List(p) => step matches Step::Ask(FsRequest::ListDir { path }) && path@ == p,
    }
}

/// The names of the entries, in order.
pub open spec fn names_of(entries: Seq<(Seq<char>, Tree)>) -> Seq<Seq<char>> {
    Seq::new(entries.len(), |i: int| entries[i].0)
}

/// The requests that mirror the tree `tree` under `from` below `to`, in
/// order: a file is examined and copied; a directory is examined, made
/// below `to`, listed, and then each of its entries is mirrored under its
/// name, one after the other, each with everything below it.
pub open spec fn copy_plan(tree: Tree, from: Seq<char>, to: Seq<char>) -> Seq<CopyAsk>
    decreases tree,
{
    match tree {
        Tree::File => seq![CopyAsk::Kind(from), CopyAsk::CopyFile(from, to)],
        Tree::Dir(entries) => seq![CopyAsk::Kind(from), CopyAsk::MakeDir(to), CopyAsk::List(from)]
            + entries_plan(entries, from, to),
    }
}

/// The requests that mirror the entries of the directory `from` below `to`.
pub open spec fn entries_plan(entries: Seq<(Seq<char>, Tree)>, from: Seq<char>, to: Seq<char>) -> Seq<
    CopyAsk,
>
    decreases entries,
{
    if entries.len() == 0 {
        Seq::empty()
    } else {
        copy_plan(entries[0].1, joined(from, entries[0].0), joined(to, entries[0].0))
            + entries_plan(entries.drop_first(), from, to)
    }
}

/// The number of requests that mirror the tree.
pub open spec fn steps(tree: Tree) -> nat
    decreases tree,
{
    match tree {
        Tree::File => 2,
        Tree::Dir(entries) => 3 + entries_steps(entries),
    }
}

/// The number of requests that mirror the entries.
pub open spec fn entries_steps(entries: Seq<(Seq<char>, Tree)>) -> nat
    decreases entries,
{
    if entries.len() == 0 {
        0
    } else {
        steps(entries[0].1) + entries_steps(entries.drop_first())
    }
}

/// Whether `replies` are what a disk that holds `tree` replies to the
/// requests that mirror it, when every request succeeds.
pub open spec fn replies_fit(tree: Tree, replies: Seq<FsReply>) -> bool
    decreases tree,
{
    match tree {
        Tree::File => {
            &&& replies.len() == 2
            &&& replies[0] matches FsReply::Metadata(meta)
            &&& meta.is_file
            &&& replies[1] == FsReply::Done
        },
        Tree::Dir(entries) => {
            &&& replies.len() >= 3
            &&& replies[0] matches FsReply::Metadata(meta)
            &&& !meta.is_file
            &&& replies[1] == FsReply::Done
            &&& replies[2] matches FsReply::Names(names)
            &&& name_views(names@) == names_of(entries)
            &&& entries_fit(entries, replies.skip(3))
        },
    }
}

/// Whether `replies` are what a disk replies to the requests that mirror
/// the entries.
pub open spec fn entries_fit(entries: Seq<(Seq<char>, Tree)>, replies: Seq<FsReply>) -> bool
    decreases entries,
{
    if entries.len() == 0 {
        replies.len() == 0
    } else {
        let n = steps(entries[0].1) as int;
        &&& replies.len() >= n
        &&& replies_fit(entries[0].1, replies.take(n))
        &&& entries_fit(entries.drop_first(), replies.skip(n))
    }
}

/// Whether `trace` holds the states of an operation and what it wanted,
/// from the start on, when it was handed `replies` one after the other.
pub open spec fn consistent(trace: Seq<(Operation, Step)>, replies: Seq<FsReply>) -> bool {
    &&& trace.len() == replies.len() + 1
    &&& forall|i: int|
        0 <= i < replies.len() ==> follows(
            trace[i].0,
            #[trigger] replies[i],
            trace[i + 1].0,
            trace[i + 1].1,
        )
}

/// A part of a consistent trace is consistent.
proof fn lemma_consistent_part(trace: Seq<(Operation, Step)>, replies: Seq<FsReply>, n: int)
    requires
        consistent(trace, replies),
        0 <= n <= replies.len(),
    ensures
        consistent(trace.take(n + 1), replies.take(n)),
        consistent(trace.skip(n), replies.skip(n)),
{
    let head = trace.take(n + 1);
    let head_replies = replies.take(n);
    assert forall|i: int| 0 <= i < head_replies.len() implies follows(
        head[i].0,
        #[trigger] head_replies[i],
        head[i + 1].0,
        head[i + 1].1,
    ) by {
        assert(head_replies[i] == replies[i]);
    }
    let tail = trace.skip(n);
    let tail_replies = replies.skip(n);
    assert forall|i: int| 0 <= i < tail_replies.len() implies follows(
        tail[i].0,
        #[trigger] tail_replies[i],
        tail[i + 1].0,
        tail[i + 1].1,
    ) by {
        assert(tail_replies[i] == replies[n + i]);
        assert(tail[i] == trace[n + i]);
        assert(tail[i + 1] == trace[n + i + 1]);
    }
}

/// As many replies fit a tree as there are requests that mirror it.
proof fn lemma_plan_length(tree: Tree, from: Seq<char>, to: Seq<char>)
    ensures
        copy_plan(tree, from, to).len() == steps(tree),
    decreases tree,
{
    match tree {
        Tree::File => {},
        Tree::Dir(entries) => {
            lemma_entries_plan_length(entries, from, to);
        },
    }
}

/// As many replies fit the entries as there are requests that mirror them.
proof fn lemma_entries_plan_length(entries: Seq<(Seq<char>, Tree)>, from: Seq<char>, to: Seq<char>)
    ensures
        entries_plan(entries, from, to).len() == entries_steps(entries),
    decreases entries,
{
    if entries.len() > 0 {
        lemma_plan_length(entries[0].1, joined(from, entries[0].0), joined(to, entries[0].0));
        lemma_entries_plan_length(entries.drop_first(), from, to);
    }
}

/// The replies that fit a tree are as many as its steps.
proof fn lemma_fit_length(tree: Tree, replies: Seq<FsReply>)
    requires
        replies_fit(tree, replies),
    ensures
        replies.len() == steps(tree),
    decreases tree,
{
    match tree {
        Tree::File => {},
        Tree::Dir(entries) => {
            lemma_entries_fit_length(entries, replies.skip(3));
        },
    }
}

/// The replies that fit the entries are as many as their steps.
proof fn lemma_entries_fit_length(entries: Seq<(Seq<char>, Tree)>, replies: Seq<FsReply>)
    requires
        entries_fit(entries, replies),
    ensures
        replies.len() == entries_steps(entries),
    decreases entries,
{
    if entries.len() > 0 {
        let n = steps(entries[0].1) as int;
        lemma_fit_length(entries[0].1, replies.take(n));
        lemma_entries_fit_length(entries.drop_first(), replies.skip(n));
    }
}

/// The pairs that a copy still has to mirror for the entries of a
/// directory, the first entry last.
pub open spec fn pending_entries(entries: Seq<(Seq<char>, Tree)>, from: Seq<char>, to: Seq<char>) -> Seq<
    (Seq<char>, Seq<char>),
> {
    child_pairs(from, to, names_of(entries)).reverse()
}

/// The first entry is the last of the pending pairs, in front of which
/// stand the pairs of the other entries.
proof fn lemma_pending_entries(entries: Seq<(Seq<char>, Tree)>, from: Seq<char>, to: Seq<char>)
    requires
        entries.len() > 0,
    ensures
        pending_entries(entries, from, to) == pending_entries(entries.drop_first(), from, to).push(
            (joined(from, entries[0].0), joined(to, entries[0].0)),
        ),
{
    let all = child_pairs(from, to, names_of(entries));
    let rest = child_pairs(from, to, names_of(entries.drop_first()));
    assert forall|i: int| 0 <= i < rest.len() implies rest[i] == all[i + 1] by {
        assert(names_of(entries.drop_first())[i] == names_of(entries)[i + 1]);
    }
    assert(all.reverse() =~= rest.reverse().push(all[0]));
}

/// A copy that goes on with a tree as its next pair asks, step by step, for
/// what mirrors the tree, and then goes on with what was pending before.
pub proof fn lemma_copy_mirrors_tree(
    tree: Tree,
    from: Seq<char>,
    to: Seq<char>,
    pending: Seq<(Seq<char>, Seq<char>)>,
    source: String,
    trace: Seq<(Operation, Step)>,
    replies: Seq<FsReply>,
)
    requires
        consistent(trace, replies),
        replies_fit(tree, replies),
        copy_goes_on(trace[0].0, trace[0].1, pending.push((from, to)), source),
    ensures
        replies.len() == copy_plan(tree, from, to).len(),
        forall|i: int|
            0 <= i < replies.len() ==> asks((#[trigger] trace[i]).1, copy_plan(tree, from, to)[i]),
        copy_goes_on(trace.last().0, trace.last().1, pending, source),
    decreases tree, 1nat,
{
    lemma_plan_length(tree, from, to);
    lemma_fit_length(tree, replies);
    let plan = copy_plan(tree, from, to);
    assert(pending.push((from, to)).last() == (from, to));
    assert(pending.push((from, to)).drop_last() == pending);
    assert(follows(trace[0].0, replies[0], trace[1].0, trace[1].1));
    assert(follows(trace[1].0, replies[1], trace[2].0, trace[2].1));
    match tree {
        Tree::File => {
            assert(trace.last() == trace[2]);
        },
        Tree::Dir(entries) => {
            assert(follows(trace[2].0, replies[2], trace[3].0, trace[3].1));
            lemma_consistent_part(trace, replies, 3);
            let tail = trace.skip(3);
            let tail_replies = replies.skip(3);
            assert(tail[0] == trace[3]);
            lemma_copy_mirrors_entries(entries, from, to, pending, source, tail, tail_replies);
            assert(tail.last() == trace.last());
            assert forall|i: int| 0 <= i < replies.len() implies asks(
                (#[trigger] trace[i]).1,
                plan[i],
            ) by {
                if i >= 3 {
                    assert(trace[i] == tail[i - 3]);
                    assert(plan[i] == entries_plan(entries, from, to)[i - 3]);
                }
            }
        },
    }
}

/// A copy that goes on with the entries of a directory as its next pairs
/// asks, step by step, for what mirrors the entries, and then goes on with
/// what was pending before.
pub proof fn lemma_copy_mirrors_entries(
    entries: Seq<(Seq<char>, Tree)>,
    from: Seq<char>,
    to: Seq<char>,
    pending: Seq<(Seq<char>, Seq<char>)>,
    source: String,
    trace: Seq<(Operation, Step)>,
    replies: Seq<FsReply>,
)
    requires
        consistent(trace, replies),
        entries_fit(entries, replies),
        copy_goes_on(trace[0].0, trace[0].1, pending + pending_entries(entries, from, to), source),
    ensures
        replies.len() == entries_plan(entries, from, to).len(),
        forall|i: int|
            0 <= i < replies.len() ==> asks(
                (#[trigger] trace[i]).1,
                entries_plan(entries, from, to)[i],
            ),
        copy_goes_on(trace.last().0, trace.last().1, pending, source),
    decreases entries, 0nat,
{
    lemma_entries_plan_length(entries, from, to);
    lemma_entries_fit_length(entries, replies);
    if entries.len() == 0 {
        assert(pending_entries(entries, from, to) == Seq::<(Seq<char>, Seq<char>)>::empty());
        assert(pending + pending_entries(entries, from, to) == pending);
        assert(trace.last() == trace[0]);
    } else {
        let first = entries[0].1;
        let first_from = joined(from, entries[0].0);
        let first_to = joined(to, entries[0].0);
        let others = entries.drop_first();
        let n = steps(first) as int;
        lemma_pending_entries(entries, from, to);
        let below = pending + pending_entries(others, from, to);
        assert(pending + pending_entries(entries, from, to) == below.push((first_from, first_to)));
        lemma_consistent_part(trace, replies, n);
        let head = trace.take(n + 1);
        let tail = trace.skip(n);
        assert(head[0] == trace[0]);
        lemma_copy_mirrors_tree(
            first,
            first_from,
            first_to,
            below,
            source,
            head,
            replies.take(n),
        );
        assert(head.last() == trace[n]);
        assert(tail[0] == trace[n]);
        lemma_copy_mirrors_entries(others, from, to, pending, source, tail, replies.skip(n));
        assert(tail.last() == trace.last());
        let plan = entries_plan(entries, from, to);
        lemma_plan_length(first, first_from, first_to);
        assert forall|i: int| 0 <= i < replies.len() implies asks((#[trigger] trace[i]).1, plan[i]) by {
            if i < n {
                assert(trace[i] == head[i]);
                assert(replies.take(n).len() == n);
                assert(plan[i] == copy_plan(first, first_from, first_to)[i]);
            } else {
                assert(trace[i] == tail[i - n]);
                assert(plan[i] == entries_plan(others, from, to)[i - n]);
            }
        }
    }
}


/// What the tree holds at the end of a route, where the route leads
/// somewhere. A route names, directory by directory, the position of the
/// entry to go on with.
pub open spec fn found(tree: Tree, route: Seq<int>) -> Option<Tree>
    decreases route.len(),
{
    if route.len() == 0 {
        Some(tree)
    } else {
        match tree {
            Tree::Dir(entries) if 0 <= route[0] < entries.len() => found(
                entries[route[0]].1,
                route.drop_first(),
            ),
            _ => None,
        }
    }
}

/// The path of what lies at the end of a route through `tree`, when the
/// tree lies at `base`.
pub open spec fn place(tree: Tree, base: Seq<char>, route: Seq<int>) -> Seq<char>
    decreases route.len(),
{
    if route.len() == 0 {
        base
    } else {
        match tree {
            Tree::Dir(entries) if 0 <= route[0] < entries.len() => place(
                entries[route[0]].1,
                joined(base, entries[route[0]].0),
                route.drop_first(),
            ),
            _ => base,
        }
    }
}

/// The requests that mirror one entry are among the requests that mirror
/// all entries.
proof fn lemma_entry_plan_is_part(
    entries: Seq<(Seq<char>, Tree)>,
    from: Seq<char>,
    to: Seq<char>,
    index: int,
    ask: CopyAsk,
)
    requires
        0 <= index < entries.len(),
        copy_plan(
            entries[index].1,
            joined(from, entries[index].0),
            joined(to, entries[index].0),
        ).contains(ask),
    ensures
        entries_plan(entries, from, to).contains(ask),
    decreases entries, index,
{
    let first = copy_plan(entries[0].1, joined(from, entries[0].0), joined(to, entries[0].0));
    let others = entries_plan(entries.drop_first(), from, to);
    if index == 0 {
        let k = choose|k: int| 0 <= k < first.len() && first[k] == ask;
        assert((first + others)[k] == ask);
    } else {
        assert(entries.drop_first()[index - 1] == entries[index]);
        lemma_entry_plan_is_part(entries.drop_first(), from, to, index - 1, ask);
        let k = choose|k: int| 0 <= k < others.len() && others[k] == ask;
        assert((first + others)[first.len() + k] == ask);
    }
}

/// A copy mirrors the whole tree: every file in it is copied to the same
/// place below the destination, and every directory in it is made at the
/// same place below the destination.
pub proof fn lemma_plan_mirrors_every_entry(
    tree: Tree,
    from: Seq<char>,
    to: Seq<char>,
    route: Seq<int>,
)
    requires
        found(tree, route) is Some,
    ensures
        found(tree, route) == Some(Tree::File) ==> copy_plan(tree, from, to).contains(
            CopyAsk::CopyFile(place(tree, from, route), place(tree, to, route)),
        ),
        found(tree, route)->0 is Dir ==> copy_plan(tree, from, to).contains(
            CopyAsk::MakeDir(place(tree, to, route)),
        ),
    decreases route.len(),
{
    let plan = copy_plan(tree, from, to);
    if route.len() == 0 {
        match tree {
            Tree::File => {
                assert(plan[1] == CopyAsk::CopyFile(from, to));
            },
            Tree::Dir(entries) => {
                assert(plan[1] == CopyAsk::MakeDir(to));
            },
        }
    } else {
        match tree {
            Tree::File => {},
            Tree::Dir(entries) => {
                let index = route[0];
                let entry = entries[index].1;
                let entry_from = joined(from, entries[index].0);
                let entry_to = joined(to, entries[index].0);
                let rest = route.drop_first();
                lemma_plan_mirrors_every_entry(entry, entry_from, entry_to, rest);
                let ask = if found(tree, route) == Some(Tree::File) {
                    CopyAsk::CopyFile(place(tree, from, route), place(tree, to, route))
                } else {
                    CopyAsk::MakeDir(place(tree, to, route))
                };
                assert(copy_plan(entry, entry_from, entry_to).contains(ask));
                lemma_entry_plan_is_part(entries, from, to, index, ask);
                let inner = entries_plan(entries, from, to);
                let k = choose|k: int| 0 <= k < inner.len() && inner[k] == ask;
                assert(plan[3 + k] == ask);
            },
        }
    }
}

/// A rename that fails because source and destination lie on different
/// storage volumes goes on as a copy that mirrors the tree under the source
/// below the destination, and then deletes the source: a file is removed, a
/// directory is removed with everything in it. With every request
/// succeeding the rename succeeds.
pub proof fn lemma_cross_device_rename_mirrors_tree(
    tree: Tree,
    old_path: Seq<char>,
    new_path: Seq<char>,
    failure: IoFailure,
    kind: FileMeta,
    trace: Seq<(Operation, Step)>,
    replies: Seq<FsReply>,
)
    requires
        failure.is_cross_device(),
        kind.is_file == (tree is File),
        consistent(trace, replies),
        rename_starts(trace[0], old_path, new_path),
        replies.len() == steps(tree) + 3,
        replies[0] == FsReply::Failed(failure),
        replies_fit(tree, replies.subrange(1, 1 + steps(tree) as int)),
        replies[1 + steps(tree) as int] == FsReply::Metadata(kind),
        replies[2 + steps(tree) as int] == FsReply::Done,
    ensures
        trace[0].1 matches Step::Ask(FsRequest::Rename { from, to }) && from@ == old_path && to@
            == new_path,
        copy_plan(tree, old_path, new_path).len() == steps(tree),
        forall|i: int|
            0 <= i < steps(tree) ==> asks(
                (#[trigger] trace[1 + i]).1,
                copy_plan(tree, old_path, new_path)[i],
            ),
        asks(trace[1 + steps(tree) as int].1, CopyAsk::Kind(old_path)),
        tree is File ==> (trace[2 + steps(tree) as int].1 matches Step::Ask(
            FsRequest::RemoveFile { path },
        ) && path@ == old_path),
        tree is Dir ==> (trace[2 + steps(tree) as int].1 matches Step::Ask(
            FsRequest::RemoveDirAll { path },
        ) && path@ == old_path),
        trace.last().1.succeeds(),
{
    let n = steps(tree) as int;
    let none = Seq::<(Seq<char>, Seq<char>)>::empty();
    assert(follows(trace[0].0, replies[0], trace[1].0, trace[1].1));
    let source = trace[1].0->CopyKind_source;
    match trace[1].0 {
        Operation::CopyKind { from, to, rest, source } => {
            assert(pair_views(rest@) == none);
        },
        _ => {},
    }
    assert(none.push((old_path, new_path)).last() == (old_path, new_path));
    assert(none.push((old_path, new_path)).drop_last() == none);
    assert(copy_goes_on(trace[1].0, trace[1].1, none.push((old_path, new_path)), source));
    lemma_consistent_part(trace, replies, 1);
    lemma_consistent_part(trace.skip(1), replies.skip(1), n);
    let middle = trace.skip(1).take(n + 1);
    let middle_replies = replies.skip(1).take(n);
    assert(middle_replies == replies.subrange(1, 1 + n));
    assert(middle[0] == trace[1]);
    lemma_copy_mirrors_tree(tree, old_path, new_path, none, source, middle, middle_replies);
    assert(middle.last() == trace[1 + n]);
    assert forall|i: int| 0 <= i < n implies asks(
        (#[trigger] trace[1 + i]).1,
        copy_plan(tree, old_path, new_path)[i],
    ) by {
        assert(middle[i] == trace[1 + i]);
    }
    assert(follows(trace[1 + n].0, replies[1 + n], trace[2 + n].0, trace[2 + n].1));
    assert(follows(trace[2 + n].0, replies[2 + n], trace[3 + n].0, trace[3 + n].1));
    assert(trace.last() == trace[3 + n]);
}

} // verus!
