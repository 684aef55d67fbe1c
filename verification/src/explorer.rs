//! Directory listings: which entries of a walk are listed, in which order,
//! and how a listing is cut into pages.

use vstd::prelude::*;
use vstd::seq_lib::*;
use vstd::string::*;
use crate::error::AppError;
use crate::error::ErrorKind;
use crate::error::ErrorView;
use crate::fs::fail;
use crate::fs::reject_reply;
use crate::fs::unexpected_reply;
use crate::fs::FsReply;
use crate::fs::FsRequest;
use crate::fs::Outcome;
use crate::fs::Step;
use crate::path::file_name;
use crate::path::final_name;
use crate::path::same_path;
use crate::path::same_place;
use crate::text::concat;
use crate::text::chars_of;
use crate::text::lemma_text_order_strict;
use crate::text::lemma_text_order_total;
use crate::text::lowercase;
use crate::text::precedes;
use crate::text::text_before;
use crate::text::to_lowercase;
use crate::types::DirectoryPage;
use crate::types::FileNode;
use crate::types::Timestamp;

verus! {

/// Which entries a scan lists.
#[derive(Debug, Clone)]
pub struct ScanOptions {
    /// Whether entries whose name starts with a dot are listed.
    pub include_hidden: bool,
    /// How deep the walk goes: 0 is the directory alone, 1 adds its direct
    /// children, and so on.
    pub max_depth: usize,
}

impl Default for ScanOptions {
    fn default() -> (options: ScanOptions)
        ensures
            !options.include_hidden,
            options.max_depth == 1,
    {
        ScanOptions { include_hidden: false, max_depth: 1 }
    }
}

/// What the file system says of one file or directory.
#[derive(Debug, Clone, Copy, PartialEq, Eq, Structural)]
pub struct FileMeta {
    /// Whether it is a regular file.
    pub is_file: bool,
    /// Whether it is a directory.
    pub is_dir: bool,
    /// Its size in bytes.
    pub len: u64,
    /// When it was last modified, where that is known.
    pub modified: Option<Timestamp>,
}

/// One entry found by walking a directory.
#[derive(Debug, Clone)]
pub struct WalkEntry {
    /// The path of the entry.
    pub path: String,
    /// The name of the entry.
    pub name: String,
    /// What the file system says of the entry; absent where it could not be
    /// read.
    pub metadata: Option<FileMeta>,
}

/// Whether a name marks its entry as hidden.
pub open spec fn hidden(name: Seq<char>) -> bool {
    name.len() > 0 && name[0] == '.'
}

/// Whether an entry found by walking `root` is listed: the directory itself
/// is not, an entry whose metadata could not be read is not, and a hidden
/// entry is listed only on request.
pub open spec fn listable(entry: WalkEntry, root: Seq<char>, include_hidden: bool) -> bool {
    &&& !same_place(entry.path@, root)
    &&& entry.metadata is Some
    &&& include_hidden || !hidden(entry.name@)
}

/// The node that stands for an entry whose metadata was read: it holds a
/// size exactly where the entry is a file, and its children are not loaded.
pub open spec fn node_of(entry: WalkEntry) -> FileNode {
    FileNode {
        path: entry.path,
        name: entry.name,
        is_file: entry.metadata->0.is_file,
        size: if entry.metadata->0.is_file {
            Some(entry.metadata->0.len)
        } else {
            None
        },
        modified: entry.metadata->0.modified,
        children: None,
    }
}

/// The nodes of the entries that are listed, in the order of the walk.
pub open spec fn collected(entries: Seq<WalkEntry>, root: Seq<char>, include_hidden: bool) -> Seq<
    FileNode,
>
    decreases entries.len(),
{
    if entries.len() == 0 {
        Seq::empty()
    } else {
        let front = collected(entries.drop_last(), root, include_hidden);
        if listable(entries.last(), root, include_hidden) {
            front.push(node_of(entries.last()))
        } else {
            front
        }
    }
}

/// The text by which a node is ordered among its kind: its name in lowercase.
pub open spec fn sort_name(node: FileNode) -> Seq<char> {
    lowercase(node.name@)
}

/// Whether `a` must stand before `b` in a listing: a directory before a file;
/// among directories, and among files, the one whose lowercase name stands
/// first in the dictionary.
pub open spec fn comes_before(a: FileNode, b: FileNode) -> bool {
    (!a.is_file && b.is_file) || (a.is_file == b.is_file && text_before(sort_name(a), sort_name(b)))
}

/// Whether the order of a listing does not tell the two nodes apart.
pub open spec fn same_rank(a: FileNode, b: FileNode) -> bool {
    a.is_file == b.is_file && sort_name(a) == sort_name(b)
}

/// Whether no node of the listing must stand before an earlier one.
pub open spec fn ordered(listing: Seq<FileNode>) -> bool {
    forall|i: int, j: int|
        0 <= i < j < listing.len() ==> !comes_before(#[trigger] listing[j], #[trigger] listing[i])
}

/// The test for having the rank of `r`.
pub open spec fn of_rank(r: FileNode) -> spec_fn(FileNode) -> bool {
    |n: FileNode| same_rank(n, r)
}

/// The nodes of the listing that have the rank of `r`, in their order.
pub open spec fn ranked(listing: Seq<FileNode>, r: FileNode) -> Seq<FileNode> {
    listing.filter(of_rank(r))
}

/// Whether `listing` holds the nodes of `nodes` in listing order: the same
/// nodes, none before one that must stand before it, and nodes of one rank
/// in the order they had in `nodes`.
pub open spec fn sorted_from(listing: Seq<FileNode>, nodes: Seq<FileNode>) -> bool {
    &&& ordered(listing)
    &&& listing.to_multiset() == nodes.to_multiset()
    &&& forall|r: FileNode| #[trigger] ranked(listing, r) == ranked(nodes, r)
}

/// The order of a listing is a strict order in which the nodes of one rank
/// are exactly those it does not tell apart.
pub proof fn lemma_listing_order(a: FileNode, b: FileNode, c: FileNode)
    ensures
        !comes_before(a, a),
        comes_before(a, b) ==> !comes_before(b, a),
        comes_before(a, b) && comes_before(b, c) ==> comes_before(a, c),
        same_rank(a, b) <==> !comes_before(a, b) && !comes_before(b, a),
        comes_before(a, c) ==> comes_before(a, b) || comes_before(b, c),
{
    lemma_text_order_strict(sort_name(a), sort_name(b), sort_name(c));
    lemma_text_order_strict(sort_name(b), sort_name(a), sort_name(c));
    lemma_text_order_strict(sort_name(a), sort_name(c), sort_name(b));
    lemma_text_order_total(sort_name(a), sort_name(b));
    lemma_text_order_total(sort_name(b), sort_name(c));
}

/// Whether `a` must stand before `b` in a listing.
fn node_precedes(a: &FileNode, b: &FileNode) -> (before: bool)
    ensures
        before == comes_before(*a, *b),
{
    if a.is_file != b.is_file {
        !a.is_file
    } else {
        let a_name = to_lowercase(a.name.as_str());
        let b_name = to_lowercase(b.name.as_str());
        precedes(&chars_of(a_name.as_str()), &chars_of(b_name.as_str()))
    }
}

/// A filter that nothing passes gives nothing.
proof fn lemma_filter_nothing(s: Seq<FileNode>, pred: spec_fn(FileNode) -> bool)
    requires
        forall|i: int| 0 <= i < s.len() ==> !pred(#[trigger] s[i]),
    ensures
        s.filter(pred) == Seq::<FileNode>::empty(),
    decreases s.len(),
{
    reveal(Seq::filter);
    if s.len() > 0 {
        lemma_filter_nothing(s.drop_last(), pred);
    }
}

/// A node put in front becomes the first of its rank; the other ranks stay
/// as they are.
proof fn lemma_prepend_ranks(s: Seq<FileNode>, x: FileNode, r: FileNode)
    ensures
        ranked(seq![x] + s, r) == if same_rank(x, r) {
            seq![x] + ranked(s, r)
        } else {
            ranked(s, r)
        },
{
    let pred = of_rank(r);
    let none = Seq::<FileNode>::empty();
    broadcast use Seq::filter_distributes_over_add;
    broadcast use Seq::lemma_filter_push;

    assert(seq![x] == none.push(x));
    lemma_filter_nothing(none, pred);
    assert((seq![x] + s).filter(pred) == seq![x].filter(pred) + s.filter(pred));
    if same_rank(x, r) {
        assert(seq![x].filter(pred) == seq![x]);
    } else {
        assert(seq![x].filter(pred) == none);
        assert(none + s.filter(pred) == s.filter(pred));
    }
}

/// A node put in front of a listing whose first node must not stand before
/// it keeps the listing ordered.
proof fn lemma_prepend_ordered(s: Seq<FileNode>, x: FileNode)
    requires
        ordered(s),
        s.len() > 0 ==> !comes_before(s[0], x),
    ensures
        ordered(seq![x] + s),
{
    let t = seq![x] + s;
    assert forall|i: int, j: int| 0 <= i < j < t.len() implies !comes_before(
        #[trigger] t[j],
        #[trigger] t[i],
    ) by {
        assert(t[j] == s[j - 1]);
        if i == 0 {
            if j - 1 > 0 {
                lemma_listing_order(s[j - 1], s[0], x);
            }
        } else {
            assert(t[i] == s[i - 1]);
        }
    }
}

/// Whether `merged` holds the nodes of `left` and `right` in listing order,
/// those of `left` before those of `right` within every rank.
pub open spec fn merged_from(merged: Seq<FileNode>, left: Seq<FileNode>, right: Seq<FileNode>) -> bool {
    &&& ordered(merged)
    &&& merged.to_multiset() == left.to_multiset().add(right.to_multiset())
    &&& forall|r: FileNode| #[trigger] ranked(merged, r) == ranked(left, r) + ranked(right, r)
}

/// A merged listing grows at its front by a node of the right listing that
/// must stand before every node taken from the left one.
proof fn lemma_merge_takes_right(
    done: Seq<FileNode>,
    from_left: Seq<FileNode>,
    from_right: Seq<FileNode>,
    x: FileNode,
)
    requires
        merged_from(done, from_left, from_right),
        done.len() > 0 ==> !comes_before(done[0], x),
        forall|k: int| 0 <= k < from_left.len() ==> comes_before(x, #[trigger] from_left[k]),
    ensures
        merged_from(seq![x] + done, from_left, seq![x] + from_right),
{
    lemma_prepend_ordered(done, x);
    assert(seq![x] + done == done.insert(0, x));
    assert(seq![x] + from_right == from_right.insert(0, x));
    to_multiset_insert(done, 0, x);
    to_multiset_insert(from_right, 0, x);
    assert((seq![x] + done).to_multiset() == from_left.to_multiset().add(
        (seq![x] + from_right).to_multiset(),
    )) by {
        broadcast use vstd::multiset::group_multiset_axioms;

        assert(from_left.to_multiset().add(from_right.to_multiset()).insert(x)
            =~= from_left.to_multiset().add(from_right.to_multiset().insert(x)));
    }
    assert forall|r: FileNode| #[trigger]
        ranked(seq![x] + done, r) == ranked(from_left, r) + ranked(seq![x] + from_right, r) by {
        lemma_prepend_ranks(done, x, r);
        lemma_prepend_ranks(from_right, x, r);
        assert(ranked(done, r) == ranked(from_left, r) + ranked(from_right, r));
        if same_rank(x, r) {
            assert forall|k: int| 0 <= k < from_left.len() implies !of_rank(r)(
                #[trigger] from_left[k],
            ) by {
                lemma_listing_order(x, from_left[k], r);
            }
            lemma_filter_nothing(from_left, of_rank(r));
            assert(seq![x] + (ranked(from_left, r) + ranked(from_right, r)) == ranked(from_left, r)
                + (seq![x] + ranked(from_right, r)));
        }
    }
}

/// A merged listing grows at its front by a node of the left listing.
proof fn lemma_merge_takes_left(
    done: Seq<FileNode>,
    from_left: Seq<FileNode>,
    from_right: Seq<FileNode>,
    y: FileNode,
)
    requires
        merged_from(done, from_left, from_right),
        done.len() > 0 ==> !comes_before(done[0], y),
    ensures
        merged_from(seq![y] + done, seq![y] + from_left, from_right),
{
    lemma_prepend_ordered(done, y);
    assert(seq![y] + done == done.insert(0, y));
    assert(seq![y] + from_left == from_left.insert(0, y));
    to_multiset_insert(done, 0, y);
    to_multiset_insert(from_left, 0, y);
    assert((seq![y] + done).to_multiset() == (seq![y] + from_left).to_multiset().add(
        from_right.to_multiset(),
    )) by {
        broadcast use vstd::multiset::group_multiset_axioms;

        assert(from_left.to_multiset().add(from_right.to_multiset()).insert(y)
            =~= from_left.to_multiset().insert(y).add(from_right.to_multiset()));
    }
    assert forall|r: FileNode| #[trigger]
        ranked(seq![y] + done, r) == ranked(seq![y] + from_left, r) + ranked(from_right, r) by {
        lemma_prepend_ranks(done, y, r);
        lemma_prepend_ranks(from_left, y, r);
        assert(ranked(done, r) == ranked(from_left, r) + ranked(from_right, r));
        if same_rank(y, r) {
            assert(seq![y] + (ranked(from_left, r) + ranked(from_right, r)) == (seq![y] + ranked(
                from_left,
                r,
            )) + ranked(from_right, r));
        }
    }
}

/// Nothing is the merged listing of nothing and nothing.
proof fn lemma_merge_of_nothing()
    ensures
        merged_from(
            Seq::<FileNode>::empty(),
            Seq::<FileNode>::empty(),
            Seq::<FileNode>::empty(),
        ),
{
    let none = Seq::<FileNode>::empty();
    assert(none.to_multiset().add(none.to_multiset()) == none.to_multiset()) by {
        broadcast use vstd::multiset::group_multiset_axioms;

        none.to_multiset_ensures();
        assert(none.to_multiset().add(none.to_multiset()) =~= none.to_multiset());
    }
    assert forall|r: FileNode| #[trigger] ranked(none, r) == ranked(none, r) + ranked(none, r) by {
        lemma_filter_nothing(none, of_rank(r));
    }
}

/// Two listings in one: the nodes of both in listing order, those of `left`
/// before those of `right` where the order does not tell them apart.
fn merge(left: Vec<FileNode>, right: Vec<FileNode>) -> (merged: Vec<FileNode>)
    requires
        ordered(left@),
        ordered(right@),
    ensures
        merged_from(merged@, left@, right@),
{
    let mut a = left;
    let mut b = right;
    let mut rev: Vec<FileNode> = Vec::new();
    proof {
        let none = Seq::<FileNode>::empty();
        assert(rev@.reverse() == none);
        assert(left@.skip(left@.len() as int) == none);
        assert(right@.skip(right@.len() as int) == none);
        assert(a@ == left@.take(a@.len() as int));
        assert(b@ == right@.take(b@.len() as int));
        lemma_merge_of_nothing();
    }
    while a.len() > 0 || b.len() > 0
        invariant
            a@.len() <= left@.len(),
            b@.len() <= right@.len(),
            a@ == left@.take(a@.len() as int),
            b@ == right@.take(b@.len() as int),
            ordered(left@),
            ordered(right@),
            merged_from(
                rev@.reverse(),
                left@.skip(a@.len() as int),
                right@.skip(b@.len() as int),
            ),
            rev@.len() > 0 && a@.len() > 0 ==> !comes_before(rev@.last(), a@.last()),
            rev@.len() > 0 && b@.len() > 0 ==> !comes_before(rev@.last(), b@.last()),
            b@.len() > 0 ==> forall|k: int|
                a@.len() <= k < left@.len() ==> comes_before(b@.last(), #[trigger] left@[k]),
        decreases a.len() + b.len(),
    {
        let ghost i = a@.len() as int;
        let ghost j = b@.len() as int;
        let ghost done = rev@.reverse();
        let ghost from_left = left@.skip(i);
        let ghost from_right = right@.skip(j);
        let take_right = if b.len() == 0 {
            false
        } else if a.len() == 0 {
            true
        } else {
            !node_precedes(&b[b.len() - 1], &a[a.len() - 1])
        };
        if take_right {
            let x = b.pop().unwrap();
            proof {
                assert(x == right@[j - 1]);
                assert(right@.skip(j - 1) == seq![x] + from_right);
                assert(rev@.push(x).reverse() == seq![x] + done);
                assert(done.len() > 0 ==> done[0] == rev@.last());
                assert forall|k: int| 0 <= k < from_left.len() implies comes_before(
                    x,
                    #[trigger] from_left[k],
                ) by {
                    assert(from_left[k] == left@[i + k]);
                }
                lemma_merge_takes_right(done, from_left, from_right, x);
                assert(b@ == right@.take(j - 1));
                if j - 1 > 0 {
                    assert(b@.last() == right@[j - 2]);
                    assert forall|k: int| i <= k < left@.len() implies comes_before(
                        b@.last(),
                        #[trigger] left@[k],
                    ) by {
                        lemma_listing_order(x, b@.last(), left@[k]);
                    }
                }
                if i > 0 {
                    assert(a@.last() == left@[i - 1]);
                }
            }
            rev.push(x);
        } else {
            let y = a.pop().unwrap();
            proof {
                assert(y == left@[i - 1]);
                assert(left@.skip(i - 1) == seq![y] + from_left);
                assert(rev@.push(y).reverse() == seq![y] + done);
                assert(done.len() > 0 ==> done[0] == rev@.last());
                lemma_merge_takes_left(done, from_left, from_right, y);
                assert(a@ == left@.take(i - 1));
                if i - 1 > 0 {
                    assert(a@.last() == left@[i - 2]);
                }
                if j > 0 {
                    assert(b@.last() == right@[j - 1]);
                    lemma_listing_order(b@.last(), y, y);
                }
            }
            rev.push(y);
        }
    }
    let ghost whole = rev@.reverse();
    proof {
        assert(left@.skip(0) == left@);
        assert(right@.skip(0) == right@);
    }
    let mut merged: Vec<FileNode> = Vec::new();
    while rev.len() > 0
        invariant
            rev@.len() <= whole.len(),
            rev@.len() + merged@.len() == whole.len(),
            rev@ == whole.reverse().take(rev@.len() as int),
            merged@ == whole.take(merged@.len() as int),
        decreases rev.len(),
    {
        let ghost n = rev@.len() as int;
        let x = rev.pop().unwrap();
        proof {
            assert(x == whole.reverse()[n - 1]);
            assert(x == whole[whole.len() - n]);
            assert(whole.take(merged@.len() as int + 1) == whole.take(merged@.len() as int).push(x));
        }
        merged.push(x);
    }
    proof {
        assert(whole.take(whole.len() as int) == whole);
    }
    merged
}

/// The nodes in listing order: directories first, then files, each kind by
/// lowercase name; nodes that the order does not tell apart stay as they
/// were.
pub fn sort_nodes(nodes: Vec<FileNode>) -> (listing: Vec<FileNode>)
    ensures
        sorted_from(listing@, nodes@),
    decreases nodes@.len(),
{
    if nodes.len() <= 1 {
        return nodes;
    }
    let mut left = nodes;
    let half = left.len() / 2;
    let right = left.split_off(half);
    let ghost first = left@;
    let ghost second = right@;
    let sorted_left = sort_nodes(left);
    let sorted_right = sort_nodes(right);
    let listing = merge(sorted_left, sorted_right);
    proof {
        assert(nodes@ == first + second);
        lemma_multiset_commutative(first, second);
        assert forall|r: FileNode| #[trigger] ranked(listing@, r) == ranked(nodes@, r) by {
            broadcast use Seq::filter_distributes_over_add;

            assert(ranked(first + second, r) == ranked(first, r) + ranked(second, r));
        }
    }
    listing
}

/// Whether a name marks its entry as hidden.
pub fn is_hidden(name: &str) -> (b: bool)
    ensures
        b == hidden(name@),
{
    let chars = chars_of(name);
    chars.len() > 0 && chars[0] == '.'
}

/// The nodes of the entries that are listed, in the order of the walk.
fn collect(entries: Vec<WalkEntry>, root: &str, include_hidden: bool) -> (nodes: Vec<FileNode>)
    ensures
        nodes@ == collected(entries@, root@, include_hidden),
{
    let mut nodes: Vec<FileNode> = Vec::new();
    for entry in it: entries.into_iter()
        invariant
            it.seq() == entries@,
            nodes@ == collected(it.seq().take(it.index() as int), root@, include_hidden),
    {
        proof {
            let next = it.seq().take(it.index() + 1);
            assert(next.drop_last() == it.seq().take(it.index() as int));
            assert(next.last() == entry);
        }
        let is_root = same_path(entry.path.as_str(), root);
        let shown = include_hidden || !is_hidden(entry.name.as_str());
        match entry.metadata {
            Some(meta) => {
                if !is_root && shown {
                    let size = if meta.is_file {
                        Some(meta.len)
                    } else {
                        None
                    };
                    nodes.push(
                        FileNode::new(entry.path, entry.name, meta.is_file, size, meta.modified),
                    );
                }
            },
            None => {},
        }
    }
    proof {
        assert(entries@.take(entries@.len() as int) == entries@);
    }
    nodes
}

/// The listing made of what a walk of `root` found: the nodes of the
/// entries that are listed, in listing order.
pub fn list_entries(entries: Vec<WalkEntry>, root: &str, include_hidden: bool) -> (listing: Vec<
    FileNode,
>)
    ensures
        sorted_from(listing@, collected(entries@, root@, include_hidden)),
{
    sort_nodes(collect(entries, root, include_hidden))
}

/// Every collected node holds a size exactly where it is a file, and has no
/// children loaded.
pub proof fn lemma_collected_nodes(entries: Seq<WalkEntry>, root: Seq<char>, include_hidden: bool)
    ensures
        collected(entries, root, include_hidden).len() <= entries.len(),
        forall|i: int|
            0 <= i < collected(entries, root, include_hidden).len() ==> {
                let node = #[trigger] collected(entries, root, include_hidden)[i];
                &&& node.unexpanded()
                &&& node.sized_as_file()
                &&& include_hidden || !hidden(node.name@)
                &&& !same_place(node.path@, root)
            },
    decreases entries.len(),
{
    if entries.len() > 0 {
        lemma_collected_nodes(entries.drop_last(), root, include_hidden);
    }
}

/// A listing holds exactly the nodes it was sorted from.
pub proof fn lemma_sorted_members(listing: Seq<FileNode>, nodes: Seq<FileNode>)
    requires
        sorted_from(listing, nodes),
    ensures
        listing.len() == nodes.len(),
        forall|i: int| 0 <= i < listing.len() ==> nodes.contains(#[trigger] listing[i]),
        forall|i: int| 0 <= i < nodes.len() ==> listing.contains(#[trigger] nodes[i]),
{
    to_multiset_len(listing);
    to_multiset_len(nodes);
    assert forall|i: int| 0 <= i < listing.len() implies nodes.contains(#[trigger] listing[i]) by {
        assert(listing.contains(listing[i]));
        to_multiset_contains(listing, listing[i]);
        to_multiset_contains(nodes, listing[i]);
    }
    assert forall|i: int| 0 <= i < nodes.len() implies listing.contains(#[trigger] nodes[i]) by {
        assert(nodes.contains(nodes[i]));
        to_multiset_contains(listing, nodes[i]);
        to_multiset_contains(nodes, nodes[i]);
    }
}

/// The first node of a listing is the first of its rank.
proof fn lemma_first_of_rank(s: Seq<FileNode>)
    requires
        s.len() > 0,
    ensures
        ranked(s, s[0]).len() > 0,
        ranked(s, s[0])[0] == s[0],
        forall|r: FileNode| !same_rank(s[0], r) ==> #[trigger] ranked(s, r) == ranked(s.drop_first(), r),
        ranked(s.drop_first(), s[0]) == ranked(s, s[0]).drop_first(),
{
    let x = s[0];
    let t = s.drop_first();
    assert(s == seq![x] + t);
    lemma_prepend_ranks(t, x, x);
    assert((seq![x] + ranked(t, x)).drop_first() == ranked(t, x));
    assert forall|r: FileNode| !same_rank(x, r) implies #[trigger] ranked(s, r) == ranked(t, r) by {
        lemma_prepend_ranks(t, x, r);
    }
}

/// The order of a listing leaves no choice: two listings of the same nodes
/// are the same listing.
pub proof fn lemma_listing_is_unique(a: Seq<FileNode>, b: Seq<FileNode>, nodes: Seq<FileNode>)
    requires
        sorted_from(a, nodes),
        sorted_from(b, nodes),
    ensures
        a == b,
{
    lemma_sorted_members(a, nodes);
    lemma_sorted_members(b, nodes);
    assert forall|r: FileNode| #[trigger] ranked(a, r) == ranked(b, r) by {
        assert(ranked(a, r) == ranked(nodes, r));
        assert(ranked(b, r) == ranked(nodes, r));
    }
    lemma_same_ranks_same_listing(a, b);
}

/// Two ordered listings of equal length that agree rank by rank are the
/// same listing.
proof fn lemma_same_ranks_same_listing(a: Seq<FileNode>, b: Seq<FileNode>)
    requires
        ordered(a),
        ordered(b),
        a.len() == b.len(),
        forall|r: FileNode| #[trigger] ranked(a, r) == ranked(b, r),
    ensures
        a == b,
    decreases a.len(),
{
    if a.len() == 0 {
        assert(a =~= b);
    } else {
        let x = a[0];
        let y = b[0];
        lemma_first_of_rank(a);
        lemma_first_of_rank(b);
        // The first of `a` stands somewhere in `b`, and the first of `b`
        // somewhere in `a`; being first in an ordered listing, neither must
        // stand before the other, so they have one rank.
        assert(ranked(b, x) == ranked(a, x));
        assert(ranked(a, y) == ranked(b, y));
        let in_b = ranked(b, x)[0];
        assert(in_b == x);
        broadcast use Seq::lemma_filter_contains_rev;

        assert(ranked(b, x).contains(x)) by {
            assert(ranked(b, x)[0] == x);
        }
        assert(b.contains(x));
        assert(ranked(a, y).contains(y)) by {
            assert(ranked(a, y)[0] == y);
        }
        assert(a.contains(y));
        let i = choose|i: int| 0 <= i < b.len() && b[i] == x;
        let j = choose|j: int| 0 <= j < a.len() && a[j] == y;
        if i > 0 {
            assert(!comes_before(b[i], b[0]));
        }
        if j > 0 {
            assert(!comes_before(a[j], a[0]));
        }
        lemma_listing_order(x, y, x);
        lemma_listing_order(y, x, y);
        assert(same_rank(x, y));
        lemma_rank_is_shared(b, x, y);
        assert(ranked(b, y) == ranked(b, x));
        assert(x == y);
        let ta = a.drop_first();
        let tb = b.drop_first();
        assert forall|i: int, j: int| 0 <= i < j < ta.len() implies !comes_before(
            #[trigger] ta[j],
            #[trigger] ta[i],
        ) by {
            assert(ta[i] == a[i + 1]);
            assert(ta[j] == a[j + 1]);
        }
        assert forall|i: int, j: int| 0 <= i < j < tb.len() implies !comes_before(
            #[trigger] tb[j],
            #[trigger] tb[i],
        ) by {
            assert(tb[i] == b[i + 1]);
            assert(tb[j] == b[j + 1]);
        }
        assert forall|r: FileNode| #[trigger] ranked(ta, r) == ranked(tb, r) by {
            assert(ranked(a, r) == ranked(b, r));
            if same_rank(x, r) {
                lemma_rank_is_shared(ta, x, r);
                lemma_rank_is_shared(tb, x, r);
                lemma_rank_is_shared(a, x, r);
                lemma_rank_is_shared(b, x, r);
            }
        }
        lemma_same_ranks_same_listing(ta, tb);
        assert(a == seq![x] + ta);
        assert(b == seq![y] + tb);
    }
}

/// Nodes of one rank have the same nodes of their rank in every listing.
proof fn lemma_rank_is_shared(s: Seq<FileNode>, x: FileNode, y: FileNode)
    requires
        same_rank(x, y),
    ensures
        ranked(s, x) == ranked(s, y),
    decreases s.len(),
{
    reveal(Seq::filter);
    if s.len() > 0 {
        lemma_rank_is_shared(s.drop_last(), x, y);
    }
}

/// Where the page that starts at `offset` starts in a listing of `total`
/// nodes.
pub open spec fn page_start(total: int, offset: int) -> int {
    if offset < total {
        offset
    } else {
        total
    }
}

/// Where the page of at most `limit` nodes that starts at `offset` ends in a
/// listing of `total` nodes.
pub open spec fn page_end(total: int, offset: int, limit: int) -> int {
    if offset + limit < total {
        offset + limit
    } else {
        total
    }
}

/// Whether `page` is the window of `listing` that starts at `offset` and
/// holds at most `limit` nodes.
pub open spec fn is_page_of(page: DirectoryPage, listing: Seq<FileNode>, offset: int, limit: int) -> bool {
    &&& page.nodes@ == listing.subrange(
        page_start(listing.len() as int, offset),
        page_end(listing.len() as int, offset, limit),
    )
    &&& page.total_count == listing.len()
    &&& page.has_more == (offset + page.nodes@.len() < listing.len())
}

/// The window of `listing` that starts at `offset` and holds at most `limit`
/// nodes. An offset behind the end gives an empty page.
pub fn page_of(listing: Vec<FileNode>, offset: usize, limit: usize) -> (page: DirectoryPage)
    ensures
        is_page_of(page, listing@, offset as int, limit as int),
        page.nodes@.len() <= limit,
        page.has_more == (offset + limit < listing@.len()),
{
    let total = listing.len();
    let start = if offset < total { offset } else { total };
    let end = if limit < total - start { start + limit } else { total };
    let mut front = listing;
    front.truncate(end);
    let nodes = front.split_off(start);
    proof {
        assert(nodes@ == listing@.subrange(start as int, end as int));
    }
    DirectoryPage::new(nodes, total, end < total)
}

/// What a scan is for.
#[derive(Debug, Clone, Copy, PartialEq, Eq, Structural)]
pub enum Purpose {
    /// The listing itself.
    Listing,
    /// The number of entries in the listing.
    Count,
    /// One page of the listing.
    Page { offset: usize, limit: usize },
    /// The node of the directory, with the listing as its children.
    Children { modified: Option<Timestamp> },
}

/// A scan of a directory in progress.
#[derive(Debug)]
pub enum Scan {
    /// The metadata of the directory is awaited.
    Kind { path: String, include_hidden: bool },
    /// Whether the path is a directory is awaited.
    Check { path: String, options: ScanOptions, purpose: Purpose },
    /// The entries of the walk are awaited.
    Walk { path: String, include_hidden: bool, purpose: Purpose },
    /// The scan has ended.
    Finished,
}

/// The error of a scan of something that is not a directory.
pub open spec fn not_a_directory(path: Seq<char>) -> ErrorView {
    ErrorView { kind: ErrorKind::InvalidPath, message: path + " is not a directory"@ }
}

/// The name under which the node of a directory is shown: the last name of
/// its path, or nothing where the path has none.
pub open spec fn shown_name(path: Seq<char>) -> Seq<char> {
    match final_name(path) {
        Some(name) => name,
        None => Seq::empty(),
    }
}

/// Whether `outcome` is what a scan of `path` for `purpose` hands back when
/// the walk found `entries`.
pub open spec fn scan_outcome(
    outcome: Outcome,
    path: Seq<char>,
    include_hidden: bool,
    purpose: Purpose,
    entries: Seq<WalkEntry>,
) -> bool {
    let nodes = collected(entries, path, include_hidden);
    match purpose {
        Purpose::Listing => {
            &&& outcome matches Outcome::Listing(listing)
            &&& sorted_from(listing@, nodes)
        },
        Purpose::Count => {
            &&& outcome matches Outcome::Count(count)
            &&& count == nodes.len()
        },
        Purpose::Page { offset, limit } => {
            &&& outcome matches Outcome::Page(page)
            &&& exists|listing: Seq<FileNode>|
                #[trigger] sorted_from(listing, nodes) && is_page_of(
                    page,
                    listing,
                    offset as int,
                    limit as int,
                )
        },
        Purpose::Children { modified } => {
            &&& outcome matches Outcome::Node(node)
            &&& node.path@ == path
            &&& node.name@ == shown_name(path)
            &&& !node.is_file
            &&& node.size is None
            &&& node.modified == modified
            &&& node.children matches Some(children)
            &&& sorted_from(children@, nodes)
            &&& node.shallow()
        },
    }
}

/// Whether a scan in state `before` that is handed `reply` goes on as
/// `after` and wants `step`.
pub open spec fn scan_follows(before: Scan, reply: FsReply, after: Scan, step: Step) -> bool {
    match before {
        Scan::Kind { path, include_hidden } => match reply {
            FsReply::Metadata(meta) => if meta.is_dir {
                &&& after == (Scan::Check {
                    path,
                    options: ScanOptions { include_hidden, max_depth: 1 },
                    purpose: Purpose::Children { modified: meta.modified },
                })
                &&& step == Step::Ask(FsRequest::IsDir { path })
            } else {
                after == Scan::Finished && step.fails_with(not_a_directory(path@))
            },
            FsReply::Failed(failure) => after == Scan::Finished && step.fails_as(failure),
            _ => after == Scan::Finished && step.fails_with(unexpected_reply()),
        },
        Scan::Check { path, options, purpose } => match reply {
            FsReply::IsDir(true) => {
                &&& after == (Scan::Walk { path, include_hidden: options.include_hidden, purpose })
                &&& step == Step::Ask(
                    FsRequest::Walk {
                        root: path,
                        max_depth: options.max_depth,
                        skip_hidden: !options.include_hidden,
                    },
                )
            },
            FsReply::IsDir(false) => after == Scan::Finished && step.fails_with(
                not_a_directory(path@),
            ),
            FsReply::Failed(failure) => after == Scan::Finished && step.fails_as(failure),
            _ => after == Scan::Finished && step.fails_with(unexpected_reply()),
        },
        Scan::Walk { path, include_hidden, purpose } => match reply {
            FsReply::Entries(entries) => {
                &&& after == Scan::Finished
                &&& step matches Step::Done(Ok(outcome))
                &&& scan_outcome(outcome, path@, include_hidden, purpose, entries@)
            },
            FsReply::Failed(failure) => after == Scan::Finished && step.fails_as(failure),
            _ => after == Scan::Finished && step.fails_with(unexpected_reply()),
        },
        Scan::Finished => after == Scan::Finished && step.fails_with(unexpected_reply()),
    }
}

/// Whether `scan` and `step` start a scan of `path` for `purpose`: whether
/// the path is a directory is asked first.
pub open spec fn scan_starts(
    scan: Scan,
    step: Step,
    path: Seq<char>,
    options: ScanOptions,
    purpose: Purpose,
) -> bool {
    &&& scan matches Scan::Check { path: p, options: o, purpose: u }
    &&& p@ == path
    &&& o == options
    &&& u == purpose
    &&& step == Step::Ask(FsRequest::IsDir { path: p })
}

/// Whether `out` starts the lazy read of the directory `path`: the metadata
/// of the directory is asked first.
pub open spec fn lazy_starts(out: (Scan, Step), path: Seq<char>, include_hidden: bool) -> bool {
    &&& out.0 matches Scan::Kind { path: p, include_hidden: h }
    &&& p@ == path
    &&& h == include_hidden
    &&& out.1 == Step::Ask(FsRequest::Metadata { path: p })
}

/// The error of a scan of something that is not a directory.
fn refuse_scan(path: &str) -> (step: Step)
    ensures
        step.fails_with(not_a_directory(path@)),
{
    Step::Done(Err(AppError::InvalidPath(concat(path, " is not a directory"))))
}

/// Starts a scan of `path` for `purpose`.
fn start_scan(path: String, options: ScanOptions, purpose: Purpose) -> (out: (Scan, Step))
    ensures
        out.0 == (Scan::Check { path, options, purpose }),
        out.1 == Step::Ask(FsRequest::IsDir { path }),
{
    let asked = path.clone();
    (Scan::Check { path, options, purpose }, Step::Ask(FsRequest::IsDir { path: asked }))
}

/// Starts the scan of the directory `path`: the listing of the entries that
/// `options` selects, directories first, then files, each kind by lowercase
/// name.
pub fn scan_directory(path: &str, options: &ScanOptions) -> (out: (Scan, Step))
    ensures
        scan_starts(out.0, out.1, path@, *options, Purpose::Listing),
{
    let options = ScanOptions {
        include_hidden: options.include_hidden,
        max_depth: options.max_depth,
    };
    start_scan(path.to_owned(), options, Purpose::Listing)
}

/// Starts the lazy read of the directory `path`: its node, with its direct
/// children loaded and nothing below them. The metadata of the directory is
/// asked first.
pub fn read_directory_lazy(path: &str, include_hidden: bool) -> (out: (Scan, Step))
    ensures
        lazy_starts(out, path@, include_hidden),
{
    let path = path.to_owned();
    let asked = path.clone();
    (Scan::Kind { path, include_hidden }, Step::Ask(FsRequest::Metadata { path: asked }))
}

/// Starts the read of one page of the directory `path`: the listing of its
/// direct children is made anew, and the nodes from `offset` on, `limit` at
/// most, are cut out of it.
pub fn get_directory_page(path: &str, offset: usize, limit: usize, include_hidden: bool) -> (out: (
    Scan,
    Step,
))
    ensures
        scan_starts(
            out.0,
            out.1,
            path@,
            ScanOptions { include_hidden, max_depth: 1 },
            Purpose::Page { offset, limit },
        ),
{
    start_scan(
        path.to_owned(),
        ScanOptions { include_hidden, max_depth: 1 },
        Purpose::Page { offset, limit },
    )
}

/// Starts the count of the direct children of the directory `path`: the
/// length that its listing would have.
pub fn count_directory_items(path: &str, include_hidden: bool) -> (out: (Scan, Step))
    ensures
        scan_starts(
            out.0,
            out.1,
            path@,
            ScanOptions { include_hidden, max_depth: 1 },
            Purpose::Count,
        ),
{
    start_scan(path.to_owned(), ScanOptions { include_hidden, max_depth: 1 }, Purpose::Count)
}

/// What a scan of `path` for `purpose` hands back when the walk found
/// `entries`.
fn finish_scan(path: String, include_hidden: bool, purpose: Purpose, entries: Vec<WalkEntry>) -> (outcome:
    Outcome)
    ensures
        scan_outcome(outcome, path@, include_hidden, purpose, entries@),
{
    let listing = list_entries(entries, path.as_str(), include_hidden);
    let ghost nodes = collected(entries@, path@, include_hidden);
    proof {
        lemma_sorted_members(listing@, nodes);
    }
    match purpose {
        Purpose::Listing => Outcome::Listing(listing),
        Purpose::Count => Outcome::Count(listing.len()),
        Purpose::Page { offset, limit } => {
            let ghost whole = listing@;
            let page = page_of(listing, offset, limit);
            proof {
                assert(sorted_from(whole, nodes) && is_page_of(
                    page,
                    whole,
                    offset as int,
                    limit as int,
                ));
            }
            Outcome::Page(page)
        },
        Purpose::Children { modified } => {
            let name = match file_name(path.as_str()) {
                Some(name) => name,
                None => String::new(),
            };
            proof {
                lemma_collected_nodes(entries@, path@, include_hidden);
                assert forall|i: int| 0 <= i < listing@.len() implies (#[trigger] listing@[i]).unexpanded() by {
                    assert(nodes.contains(listing@[i]));
                }
            }
            let node = FileNode::new(path, name, false, None, modified).with_children(listing);
            Outcome::Node(node)
        },
    }
}

impl Scan {
    /// Takes in the reply to what the scan asked, and moves on.
    pub fn advance(self, reply: FsReply) -> (out: (Scan, Step))
        ensures
            scan_follows(self, reply, out.0, out.1),
    {
        match self {
            Scan::Kind { path, include_hidden } => match reply {
                FsReply::Metadata(meta) => {
                    if meta.is_dir {
                        start_scan(
                            path,
                            ScanOptions { include_hidden, max_depth: 1 },
                            Purpose::Children { modified: meta.modified },
                        )
                    } else {
                        (Scan::Finished, refuse_scan(path.as_str()))
                    }
                },
                FsReply::Failed(failure) => (Scan::Finished, fail(failure)),
                _ => (Scan::Finished, reject_reply()),
            },
            Scan::Check { path, options, purpose } => match reply {
                FsReply::IsDir(is_dir) => {
                    if is_dir {
                        let root = path.clone();
                        let include_hidden = options.include_hidden;
                        (
                            Scan::Walk { path, include_hidden, purpose },
                            Step::Ask(
                                FsRequest::Walk {
                                    root,
                                    max_depth: options.max_depth,
                                    skip_hidden: !include_hidden,
                                },
                            ),
                        )
                    } else {
                        (Scan::Finished, refuse_scan(path.as_str()))
                    }
                },
                FsReply::Failed(failure) => (Scan::Finished, fail(failure)),
                _ => (Scan::Finished, reject_reply()),
            },
            Scan::Walk { path, include_hidden, purpose } => match reply {
                FsReply::Entries(entries) => (
                    Scan::Finished,
                    Step::Done(Ok(finish_scan(path, include_hidden, purpose, entries))),
                ),
                FsReply::Failed(failure) => (Scan::Finished, fail(failure)),
                _ => (Scan::Finished, reject_reply()),
            },
            Scan::Finished => (Scan::Finished, reject_reply()),
        }
    }
}

} // verus!
