//! File operations on validated paths: read, describe, write atomically,
//! create, delete and rename, each as a sequence of requests to the file
//! system.
//!
//! The paths are trusted: they have been through validation. Every
//! operation ends with success or with one error; none ends half way.

use vstd::prelude::*;
use vstd::string::*;
use crate::error::AppError;
use crate::error::ErrorKind;
use crate::error::ErrorView;
use crate::error::IoFailure;
use crate::explorer::FileMeta;
use crate::explorer::shown_name;
use crate::fs::fail;
use crate::fs::reject_reply;
use crate::fs::unexpected_reply;
use crate::fs::FsReply;
use crate::fs::FsRequest;
use crate::fs::Outcome;
use crate::fs::Step;
use crate::path::absolute;
use crate::path::file_name;
use crate::path::is_name;
use crate::path::lemma_joined_components;
use crate::path::lemma_names_have_no_separator;
use crate::path::lemma_parent_components;
use crate::path::lemma_single_name;
use crate::path::segments;
use crate::path::final_name;
use crate::path::join;
use crate::path::joined;
use crate::path::parent;
use crate::path::parent_of;
use crate::text::concat;
use crate::text::decimal;
use crate::text::push_decimal;
use crate::types::FileNode;

verus! {

/// The largest size, in bytes, of a file that is read: 4 GiB.
pub const MAX_FILE_SIZE: u64 = 4294967296;

/// A file operation in progress.
#[derive(Debug)]
pub enum Operation {
    /// A read awaits the size of the file.
    ReadSize { path: String },
    /// A read awaits the text of the file.
    ReadText,
    /// A description awaits the metadata.
    Describe { path: String },
    /// An atomic write awaits the writing of the temporary file.
    WriteTemp { path: String, temp: String },
    /// An atomic write awaits the renaming of the temporary file over the
    /// target.
    WriteRename { temp: String },
    /// An atomic write whose renaming failed awaits the removal of the
    /// temporary file.
    WriteCleanup { failure: IoFailure },
    /// The operation awaits its last request.
    Last,
    /// A deletion awaits the metadata of what it deletes.
    DeleteKind { path: String },
    /// A rename awaits the direct renaming.
    RenameDirect { from: String, to: String },
    /// A copy awaits the metadata of `from`. The pairs in `rest` are copied
    /// after it, the last one first; `source` is deleted in the end.
    CopyKind { from: String, to: String, rest: Vec<(String, String)>, source: String },
    /// A copy awaits the copying of a file.
    CopyFile { rest: Vec<(String, String)>, source: String },
    /// A copy awaits the creation of the directory `to`.
    CopyDir { from: String, to: String, rest: Vec<(String, String)>, source: String },
    /// A copy awaits the names of the entries of `from`.
    CopyList { from: String, to: String, rest: Vec<(String, String)>, source: String },
    /// The operation has ended.
    Finished,
}

/// The error of a read of a file of `len` bytes, which is too large.
pub open spec fn too_large(len: u64) -> ErrorView {
    ErrorView {
        kind: ErrorKind::FileTooLarge,
        message: "File size "@ + decimal(len as nat) + " bytes exceeds maximum of "@ + decimal(
            MAX_FILE_SIZE as nat,
        ) + " bytes"@,
    }
}

/// The error of a write to a path without a file name.
pub open spec fn no_file_name() -> ErrorView {
    ErrorView { kind: ErrorKind::InvalidPath, message: "Invalid file name"@ }
}

/// The temporary file through which `path` is written: in the same directory,
/// named like the file with `.tmp` behind it. A path without a file name
/// has none.
pub open spec fn temp_path_of(path: Seq<char>) -> Option<Seq<char>> {
    match final_name(path) {
        Some(name) => Some(joined(parent_of(path)->0, name + ".tmp"@)),
        None => None,
    }
}

/// The views of the pairs in `pairs`.
pub open spec fn pair_views(pairs: Seq<(String, String)>) -> Seq<(Seq<char>, Seq<char>)> {
    pairs.map_values(|p: (String, String)| (p.0@, p.1@))
}

/// The views of the names in `names`.
pub open spec fn name_views(names: Seq<String>) -> Seq<Seq<char>> {
    names.map_values(|n: String| n@)
}

/// For each name, the entry of that name in `from` paired with the entry of
/// that name in `to`.
pub open spec fn child_pairs(from: Seq<char>, to: Seq<char>, names: Seq<Seq<char>>) -> Seq<
    (Seq<char>, Seq<char>),
> {
    Seq::new(names.len(), |i: int| (joined(from, names[i]), joined(to, names[i])))
}

/// The node that describes `path` with metadata `meta`.
pub open spec fn describes(node: FileNode, path: String, meta: FileMeta) -> bool {
    &&& node.path == path
    &&& node.name@ == shown_name(path@)
    &&& node.is_file == meta.is_file
    &&& node.size == if meta.is_file {
        Some(meta.len)
    } else {
        None
    }
    &&& node.modified == meta.modified
    &&& node.children is None
}

/// Whether a copy that has `pending` left to copy, the last pair first, goes
/// on as `after` and wants `step`: the next pair is examined, or, with
/// nothing left, the source is deleted.
pub open spec fn copy_goes_on(
    after: Operation,
    step: Step,
    pending: Seq<(Seq<char>, Seq<char>)>,
    source: String,
) -> bool {
    if pending.len() == 0 {
        &&& after == (Operation::DeleteKind { path: source })
        &&& step == Step::Ask(FsRequest::Metadata { path: source })
    } else {
        &&& after matches Operation::CopyKind { from, to, rest, source: s }
        &&& s == source
        &&& (from@, to@) == pending.last()
        &&& pair_views(rest@) == pending.drop_last()
        &&& step == Step::Ask(FsRequest::Metadata { path: from })
    }
}

/// Whether an operation in state `before` that is handed `reply` goes on as
/// `after` and wants `step`.
pub open spec fn follows(before: Operation, reply: FsReply, after: Operation, step: Step) -> bool {
    match before {
        Operation::ReadSize { path } => match reply {
            FsReply::Metadata(meta) => if meta.len > MAX_FILE_SIZE {
                after == Operation::Finished && step.fails_with(too_large(meta.len))
            } else {
                after == Operation::ReadText && step == Step::Ask(FsRequest::ReadText { path })
            },
            FsReply::Failed(failure) => after == Operation::Finished && step.fails_as(failure),
            _ => after == Operation::Finished && step.fails_with(unexpected_reply()),
        },
        Operation::ReadText => match reply {
            FsReply::Text(text) => after == Operation::Finished && step == Step::Done(
                Ok(Outcome::Text(text)),
            ),
            FsReply::Failed(failure) => after == Operation::Finished && step.fails_as(failure),
            _ => after == Operation::Finished && step.fails_with(unexpected_reply()),
        },
        Operation::Describe { path } => match reply {
            FsReply::Metadata(meta) => {
                &&& after == Operation::Finished
                &&& step matches Step::Done(Ok(Outcome::Node(node)))
                &&& describes(node, path, meta)
            },
            FsReply::Failed(failure) => after == Operation::Finished && step.fails_as(failure),
            _ => after == Operation::Finished && step.fails_with(unexpected_reply()),
        },
        Operation::WriteTemp { path, temp } => match reply {
            FsReply::Done => {
                &&& after == (Operation::WriteRename { temp })
                &&& step == Step::Ask(FsRequest::Rename { from: temp, to: path })
            },
            FsReply::Failed(failure) => after == Operation::Finished && step.fails_as(failure),
            _ => after == Operation::Finished && step.fails_with(unexpected_reply()),
        },
        Operation::WriteRename { temp } => match reply {
            FsReply::Done => after == Operation::Finished && step.succeeds(),
            FsReply::Failed(failure) => {
                &&& after == (Operation::WriteCleanup { failure })
                &&& step == Step::Ask(FsRequest::RemoveFile { path: temp })
            },
            _ => after == Operation::Finished && step.fails_with(unexpected_reply()),
        },
        Operation::WriteCleanup { failure } => after == Operation::Finished && step.fails_as(
            failure,
        ),
        Operation::Last => match reply {
            FsReply::Done => after == Operation::Finished && step.succeeds(),
            FsReply::Failed(failure) => after == Operation::Finished && step.fails_as(failure),
            _ => after == Operation::Finished && step.fails_with(unexpected_reply()),
        },
        Operation::DeleteKind { path } => match reply {
            FsReply::Metadata(meta) => {
                &&& after == Operation::Last
                &&& step == if meta.is_file {
                    Step::Ask(FsRequest::RemoveFile { path })
                } else {
                    Step::Ask(FsRequest::RemoveDirAll { path })
                }
            },
            FsReply::Failed(failure) => after == Operation::Finished && step.fails_as(failure),
            _ => after == Operation::Finished && step.fails_with(unexpected_reply()),
        },
        Operation::RenameDirect { from, to } => match reply {
            FsReply::Done => after == Operation::Finished && step.succeeds(),
            FsReply::Failed(failure) => if failure.is_cross_device() {
                &&& after matches Operation::CopyKind { from: f, to: t, rest, source }
                &&& f == from
                &&& t == to
                &&& rest@.len() == 0
                &&& source == from
                &&& step == Step::Ask(FsRequest::Metadata { path: from })
            } else {
                after == Operation::Finished && step.fails_as(failure)
            },
            _ => after == Operation::Finished && step.fails_with(unexpected_reply()),
        },
        Operation::CopyKind { from, to, rest, source } => match reply {
            FsReply::Metadata(meta) => if meta.is_file {
                &&& after == (Operation::CopyFile { rest, source })
                &&& step == Step::Ask(FsRequest::CopyFile { from, to })
            } else {
                &&& after == (Operation::CopyDir { from, to, rest, source })
                &&& step == Step::Ask(FsRequest::CreateDirAll { path: to })
            },
            FsReply::Failed(failure) => after == Operation::Finished && step.fails_as(failure),
            _ => after == Operation::Finished && step.fails_with(unexpected_reply()),
        },
        Operation::CopyFile { rest, source } => match reply {
            FsReply::Done => copy_goes_on(after, step, pair_views(rest@), source),
            FsReply::Failed(failure) => after == Operation::Finished && step.fails_as(failure),
            _ => after == Operation::Finished && step.fails_with(unexpected_reply()),
        },
        Operation::CopyDir { from, to, rest, source } => match reply {
            FsReply::Done => {
                &&& after == (Operation::CopyList { from, to, rest, source })
                &&& step == Step::Ask(FsRequest::ListDir { path: from })
            },
            FsReply::Failed(failure) => after == Operation::Finished && step.fails_as(failure),
            _ => after == Operation::Finished && step.fails_with(unexpected_reply()),
        },
        Operation::CopyList { from, to, rest, source } => match reply {
            FsReply::Names(names) => copy_goes_on(
                after,
                step,
                pair_views(rest@) + child_pairs(from@, to@, name_views(names@)).reverse(),
                source,
            ),
            FsReply::Failed(failure) => after == Operation::Finished && step.fails_as(failure),
            _ => after == Operation::Finished && step.fails_with(unexpected_reply()),
        },
        Operation::Finished => after == Operation::Finished && step.fails_with(unexpected_reply()),
    }
}

/// The error of a read of a file of `len` bytes, which is too large.
fn refuse_size(len: u64) -> (step: Step)
    ensures
        step.fails_with(too_large(len)),
{
    let mut message = "File size ".to_owned();
    push_decimal(&mut message, len);
    message.append(" bytes exceeds maximum of ");
    push_decimal(&mut message, MAX_FILE_SIZE);
    message.append(" bytes");
    Step::Done(Err(AppError::FileTooLarge(message)))
}

/// The temporary file through which `path` is written.
pub fn temp_path(path: &str) -> (out: Option<String>)
    ensures
        out is Some == temp_path_of(path@) is Some,
        out is Some ==> out->0@ == temp_path_of(path@)->0,
{
    match file_name(path) {
        Some(name) => {
            match parent(path) {
                Some(dir) => {
                    let temp_name = concat(name.as_str(), ".tmp");
                    Some(join(dir.as_str(), temp_name.as_str()))
                },
                None => None,
            }
        },
        None => None,
    }
}

/// Whether `out` starts the read of the file `path`: its metadata is asked.
pub open spec fn read_starts(out: (Operation, Step), path: Seq<char>) -> bool {
    &&& out.0 matches Operation::ReadSize { path: p }
    &&& p@ == path
    &&& out.1 == Step::Ask(FsRequest::Metadata { path: p })
}

/// Whether `out` starts the description of `path`: its metadata is asked.
pub open spec fn describe_starts(out: (Operation, Step), path: Seq<char>) -> bool {
    &&& out.0 matches Operation::Describe { path: p }
    &&& p@ == path
    &&& out.1 == Step::Ask(FsRequest::Metadata { path: p })
}

/// Whether `out` starts the creation of the empty file `path`.
pub open spec fn create_file_starts(out: (Operation, Step), path: Seq<char>) -> bool {
    &&& out.0 == Operation::Last
    &&& out.1 matches Step::Ask(FsRequest::CreateFile { path: p })
    &&& p@ == path
}

/// Whether `out` starts the creation of the directory `path`.
pub open spec fn create_folder_starts(out: (Operation, Step), path: Seq<char>) -> bool {
    &&& out.0 == Operation::Last
    &&& out.1 matches Step::Ask(FsRequest::CreateDir { path: p })
    &&& p@ == path
}

/// Whether `out` starts the deletion of `path`: its metadata is asked.
pub open spec fn delete_starts(out: (Operation, Step), path: Seq<char>) -> bool {
    &&& out.0 matches Operation::DeleteKind { path: p }
    &&& p@ == path
    &&& out.1 == Step::Ask(FsRequest::Metadata { path: p })
}

/// Whether `out` starts the renaming of `old_path` to `new_path`: the direct
/// renaming is asked.
pub open spec fn rename_starts(out: (Operation, Step), old_path: Seq<char>, new_path: Seq<char>) -> bool {
    &&& out.0 matches Operation::RenameDirect { from, to }
    &&& from@ == old_path
    &&& to@ == new_path
    &&& out.1 == Step::Ask(FsRequest::Rename { from, to })
}

/// Starts the read of the file `path` as text. The size of the file is
/// asked first: a file of more than [`MAX_FILE_SIZE`] bytes is not read.
pub fn read_file_content(path: &str) -> (out: (Operation, Step))
    ensures
        read_starts(out, path@),
{
    let path = path.to_owned();
    let asked = path.clone();
    (Operation::ReadSize { path }, Step::Ask(FsRequest::Metadata { path: asked }))
}

/// Starts the description of `path`: the node made of its metadata.
pub fn get_metadata(path: &str) -> (out: (Operation, Step))
    ensures
        describe_starts(out, path@),
{
    let path = path.to_owned();
    let asked = path.clone();
    (Operation::Describe { path }, Step::Ask(FsRequest::Metadata { path: asked }))
}

/// Whether `out` starts the atomic write of `data` to `path`: the data goes
/// to the temporary file first; a path without a file name is refused.
pub open spec fn write_starts(out: (Operation, Step), path: Seq<char>, data: Seq<u8>) -> bool {
    match temp_path_of(path) {
        Some(temp_path) => {
            &&& out.0 matches Operation::WriteTemp { path: p, temp }
            &&& p@ == path
            &&& temp@ == temp_path
            &&& out.1 matches Step::Ask(FsRequest::WriteFile { path: asked, data: d })
            &&& asked == temp
            &&& d@ == data
        },
        None => out.0 == Operation::Finished && out.1.fails_with(no_file_name()),
    }
}

/// Starts the atomic write of the bytes `data` to the file `path`.
///
/// The bytes are written to a temporary file beside the target, which is
/// then renamed over the target. If the renaming fails the temporary file
/// is removed, and the operation ends with the error of the renaming.
pub fn write_file_binary(path: &str, data: Vec<u8>) -> (out: (Operation, Step))
    ensures
        write_starts(out, path@, data@),
{
    match temp_path(path) {
        Some(temp) => {
            let asked = temp.clone();
            (
                Operation::WriteTemp { path: path.to_owned(), temp },
                Step::Ask(FsRequest::WriteFile { path: asked, data }),
            )
        },
        None => (
            Operation::Finished,
            Step::Done(Err(AppError::InvalidPath("Invalid file name".to_owned()))),
        ),
    }
}

/// Starts the atomic write of the text `content` to the file `path`.
pub fn write_file_atomic(path: &str, content: &str) -> (out: (Operation, Step))
    ensures
        write_starts(out, path@, content.spec_bytes()),
{
    write_file_binary(path, content.as_bytes_vec())
}

/// Starts the creation of the empty file `path`, which must not exist.
pub fn create_file(path: &str) -> (out: (Operation, Step))
    ensures
        create_file_starts(out, path@),
{
    (Operation::Last, Step::Ask(FsRequest::CreateFile { path: path.to_owned() }))
}

/// Starts the creation of the directory `path`, which must not exist.
pub fn create_folder(path: &str) -> (out: (Operation, Step))
    ensures
        create_folder_starts(out, path@),
{
    (Operation::Last, Step::Ask(FsRequest::CreateDir { path: path.to_owned() }))
}

/// Starts the deletion of `path`: a file is removed, a directory is removed
/// with everything in it.
pub fn delete_path(path: &str) -> (out: (Operation, Step))
    ensures
        delete_starts(out, path@),
{
    start_delete(path.to_owned())
}

/// Starts the deletion of `path`.
fn start_delete(path: String) -> (out: (Operation, Step))
    ensures
        out.0 == (Operation::DeleteKind { path }),
        out.1 == Step::Ask(FsRequest::Metadata { path }),
{
    let asked = path.clone();
    (Operation::DeleteKind { path }, Step::Ask(FsRequest::Metadata { path: asked }))
}

/// Starts the renaming of `old_path` to `new_path`. The renaming is tried
/// directly first. If it fails because the two lie on different storage
/// volumes, the source is copied to the destination with everything below
/// it, and then deleted.
pub fn rename_path(old_path: &str, new_path: &str) -> (out: (Operation, Step))
    ensures
        rename_starts(out, old_path@, new_path@),
{
    let from = old_path.to_owned();
    let to = new_path.to_owned();
    let step = Step::Ask(FsRequest::Rename { from: from.clone(), to: to.clone() });
    (Operation::RenameDirect { from, to }, step)
}

/// Starts the examination of the pair `from`, `to` of a copy.
fn copy_pair(from: String, to: String, rest: Vec<(String, String)>, source: String) -> (out: (
    Operation,
    Step,
))
    ensures
        out.0 == (Operation::CopyKind { from, to, rest, source }),
        out.1 == Step::Ask(FsRequest::Metadata { path: from }),
{
    let asked = from.clone();
    (Operation::CopyKind { from, to, rest, source }, Step::Ask(FsRequest::Metadata { path: asked }))
}

/// Goes on with a copy: examines the next pair, or, with nothing left,
/// starts the deletion of the source.
fn next_copy(rest: Vec<(String, String)>, source: String) -> (out: (Operation, Step))
    ensures
        copy_goes_on(out.0, out.1, pair_views(rest@), source),
{
    let mut rest = rest;
    let ghost before = rest@;
    match rest.pop() {
        Some(pair) => {
            proof {
                assert(pair_views(rest@) == pair_views(before).drop_last());
                assert(pair_views(before).last() == (pair.0@, pair.1@));
            }
            copy_pair(pair.0, pair.1, rest, source)
        },
        None => start_delete(source),
    }
}

/// Adds to `rest` the pairs for the entries `names` of the directory `from`,
/// the last name first.
fn push_children(rest: Vec<(String, String)>, from: &str, to: &str, names: Vec<String>) -> (out:
    Vec<(String, String)>)
    ensures
        pair_views(out@) == pair_views(rest@) + child_pairs(
            from@,
            to@,
            name_views(names@),
        ).reverse(),
{
    let mut out = rest;
    let ghost children = child_pairs(from@, to@, name_views(names@));
    let mut i: usize = names.len();
    proof {
        assert(pair_views(out@) == pair_views(rest@) + children.reverse().take(0));
    }
    while i > 0
        invariant
            i <= names.len(),
            children == child_pairs(from@, to@, name_views(names@)),
            pair_views(out@) == pair_views(rest@) + children.reverse().take(names.len() - i),
        decreases i,
    {
        let ghost before = out@;
        i -= 1;
        let name = &names[i];
        let pair = (join(from, name.as_str()), join(to, name.as_str()));
        out.push(pair);
        proof {
            let done = names.len() - i;
            assert(name_views(names@)[i as int] == name@);
            assert(children.reverse()[done - 1] == children[i as int]);
            assert(children.reverse().take(done) == children.reverse().take(done - 1).push(
                children[i as int],
            ));
            assert(pair_views(out@) == pair_views(before).push((pair.0@, pair.1@)));
        }
    }
    proof {
        assert(children.reverse().take(names.len() as int) == children.reverse());
    }
    out
}

/// The node that describes `path` with metadata `meta`.
fn describe(path: String, meta: FileMeta) -> (node: FileNode)
    ensures
        describes(node, path, meta),
{
    let name = match file_name(path.as_str()) {
        Some(name) => name,
        None => String::new(),
    };
    let size = if meta.is_file {
        Some(meta.len)
    } else {
        None
    };
    FileNode::new(path, name, meta.is_file, size, meta.modified)
}

impl Operation {
    /// Takes in the reply to what the operation asked, and moves on.
    pub fn advance(self, reply: FsReply) -> (out: (Operation, Step))
        ensures
            follows(self, reply, out.0, out.1),
    {
        match self {
            Operation::ReadSize { path } => match reply {
                FsReply::Metadata(meta) => {
                    if meta.len > MAX_FILE_SIZE {
                        (Operation::Finished, refuse_size(meta.len))
                    } else {
                        (Operation::ReadText, Step::Ask(FsRequest::ReadText { path }))
                    }
                },
                FsReply::Failed(failure) => (Operation::Finished, fail(failure)),
                _ => (Operation::Finished, reject_reply()),
            },
            Operation::ReadText => match reply {
                FsReply::Text(text) => (Operation::Finished, Step::Done(Ok(Outcome::Text(text)))),
                FsReply::Failed(failure) => (Operation::Finished, fail(failure)),
                _ => (Operation::Finished, reject_reply()),
            },
            Operation::Describe { path } => match reply {
                FsReply::Metadata(meta) => (
                    Operation::Finished,
                    Step::Done(Ok(Outcome::Node(describe(path, meta)))),
                ),
                FsReply::Failed(failure) => (Operation::Finished, fail(failure)),
                _ => (Operation::Finished, reject_reply()),
            },
            Operation::WriteTemp { path, temp } => match reply {
                FsReply::Done => {
                    let from = temp.clone();
                    (
                        Operation::WriteRename { temp },
                        Step::Ask(FsRequest::Rename { from, to: path }),
                    )
                },
                FsReply::Failed(failure) => (Operation::Finished, fail(failure)),
                _ => (Operation::Finished, reject_reply()),
            },
            Operation::WriteRename { temp } => match reply {
                FsReply::Done => (Operation::Finished, Step::Done(Ok(Outcome::Unit))),
                FsReply::Failed(failure) => (
                    Operation::WriteCleanup { failure },
                    Step::Ask(FsRequest::RemoveFile { path: temp }),
                ),
                _ => (Operation::Finished, reject_reply()),
            },
            Operation::WriteCleanup { failure } => (Operation::Finished, fail(failure)),
            Operation::Last => match reply {
                FsReply::Done => (Operation::Finished, Step::Done(Ok(Outcome::Unit))),
                FsReply::Failed(failure) => (Operation::Finished, fail(failure)),
                _ => (Operation::Finished, reject_reply()),
            },
            Operation::DeleteKind { path } => match reply {
                FsReply::Metadata(meta) => {
                    if meta.is_file {
                        (Operation::Last, Step::Ask(FsRequest::RemoveFile { path }))
                    } else {
                        (Operation::Last, Step::Ask(FsRequest::RemoveDirAll { path }))
                    }
                },
                FsReply::Failed(failure) => (Operation::Finished, fail(failure)),
                _ => (Operation::Finished, reject_reply()),
            },
            Operation::RenameDirect { from, to } => match reply {
                FsReply::Done => (Operation::Finished, Step::Done(Ok(Outcome::Unit))),
                FsReply::Failed(failure) => {
                    if failure.is_cross_device() {
                        let source = from.clone();
                        copy_pair(from, to, Vec::new(), source)
                    } else {
                        (Operation::Finished, fail(failure))
                    }
                },
                _ => (Operation::Finished, reject_reply()),
            },
            Operation::CopyKind { from, to, rest, source } => match reply {
                FsReply::Metadata(meta) => {
                    if meta.is_file {
                        (
                            Operation::CopyFile { rest, source },
                            Step::Ask(FsRequest::CopyFile { from, to }),
                        )
                    } else {
                        let asked = to.clone();
                        (
                            Operation::CopyDir { from, to, rest, source },
                            Step::Ask(FsRequest::CreateDirAll { path: asked }),
                        )
                    }
                },
                FsReply::Failed(failure) => (Operation::Finished, fail(failure)),
                _ => (Operation::Finished, reject_reply()),
            },
            Operation::CopyFile { rest, source } => match reply {
                FsReply::Done => next_copy(rest, source),
                FsReply::Failed(failure) => (Operation::Finished, fail(failure)),
                _ => (Operation::Finished, reject_reply()),
            },
            Operation::CopyDir { from, to, rest, source } => match reply {
                FsReply::Done => {
                    let asked = from.clone();
                    (
                        Operation::CopyList { from, to, rest, source },
                        Step::Ask(FsRequest::ListDir { path: asked }),
                    )
                },
                FsReply::Failed(failure) => (Operation::Finished, fail(failure)),
                _ => (Operation::Finished, reject_reply()),
            },
            Operation::CopyList { from, to, rest, source } => match reply {
                FsReply::Names(names) => {
                    let rest = push_children(rest, from.as_str(), to.as_str(), names);
                    next_copy(rest, source)
                },
                FsReply::Failed(failure) => (Operation::Finished, fail(failure)),
                _ => (Operation::Finished, reject_reply()),
            },
            Operation::Finished => (Operation::Finished, reject_reply()),
        }
    }
}


/// The temporary file of a write lies in the directory of the target, under
/// the target's name with `.tmp` behind it, and is not the target.
pub proof fn lemma_temp_is_sibling(path: Seq<char>)
    requires
        temp_path_of(path) is Some,
    ensures
        absolute(temp_path_of(path)->0) == absolute(path),
        segments(temp_path_of(path)->0) == segments(path).drop_last().push(
            final_name(path)->0 + ".tmp"@,
        ),
        final_name(temp_path_of(path)->0) == Some(final_name(path)->0 + ".tmp"@),
        temp_path_of(path)->0 != path,
{
    reveal_strlit(".tmp");
    let name = final_name(path)->0;
    let dir = parent_of(path)->0;
    let temp_name = name + ".tmp"@;
    lemma_names_have_no_separator(path);
    assert(name == segments(path)[segments(path).len() - 1]);
    assert(is_name(name));
    assert(temp_name.len() == name.len() + 4);
    assert forall|j: int| 0 <= j < temp_name.len() implies temp_name[j] != '/' by {
        if j < name.len() {
            assert(temp_name[j] == name[j]);
        } else {
            assert(temp_name[j] == ".tmp"@[j - name.len()]);
        }
    }
    lemma_single_name(temp_name);
    lemma_parent_components(path);
    lemma_joined_components(dir, temp_name);
    let temp = temp_path_of(path)->0;
    assert(segments(temp) == segments(path).drop_last() + seq![temp_name]);
    assert(segments(path).drop_last() + seq![temp_name] == segments(path).drop_last().push(
        temp_name,
    ));
    assert(segments(temp).last() == temp_name);
    assert(temp_name.len() != name.len());
    assert(temp_name[0] == name[0]);
    assert(!(temp_name =~= seq!['.', '.'])) by {
        if temp_name =~= seq!['.', '.'] {
            assert(temp_name.len() == 2);
        }
    }
}

/// An atomic write whose temporary file was written and whose renaming
/// fails asks for the temporary file to be removed, and then ends with the
/// error of the renaming, whatever the removal gave. The target is named in
/// no request but the renaming.
pub proof fn lemma_failed_rename_is_cleaned_up(
    path: Seq<char>,
    data: Seq<u8>,
    start: (Operation, Step),
    renaming: (Operation, Step),
    failure: IoFailure,
    cleaning: (Operation, Step),
    reply: FsReply,
    end: (Operation, Step),
)
    requires
        temp_path_of(path) is Some,
        write_starts(start, path, data),
        follows(start.0, FsReply::Done, renaming.0, renaming.1),
        follows(renaming.0, FsReply::Failed(failure), cleaning.0, cleaning.1),
        follows(cleaning.0, reply, end.0, end.1),
    ensures
        start.1 matches Step::Ask(FsRequest::WriteFile { path: written, data: d }) && written@
            == temp_path_of(path)->0 && written@ != path && d@ == data,
        renaming.1 matches Step::Ask(FsRequest::Rename { from, to }) && from@ == temp_path_of(
            path,
        )->0 && to@ == path,
        cleaning.1 matches Step::Ask(FsRequest::RemoveFile { path: removed }) && removed@
            == temp_path_of(path)->0,
        end.0 == Operation::Finished,
        end.1.fails_as(failure),
{
    lemma_temp_is_sibling(path);
}

/// The files of a disk: the bytes held under each path that names a file.
pub type Files = Map<Seq<char>, Seq<u8>>;

/// The files after a request that touches files was carried out with
/// success. Requests that only read, and requests about directories, leave
/// the files as they are.
pub open spec fn effect(files: Files, request: FsRequest) -> Files {
    match request {
        FsRequest::WriteFile { path, data } => files.insert(path@, data@),
        FsRequest::CreateFile { path } => files.insert(path@, Seq::empty()),
        FsRequest::Rename { from, to } => files.remove(from@).insert(to@, files[from@]),
        FsRequest::CopyFile { from, to } => files.insert(to@, files[from@]),
        FsRequest::RemoveFile { path } => files.remove(path@),
        _ => files,
    }
}

/// The files after an atomic write of `data` to `path`: the data under the
/// target, nothing under the temporary file, everything else as it was.
pub open spec fn after_atomic_write(files: Files, path: Seq<char>, data: Seq<u8>) -> Files {
    files.remove(temp_path_of(path)->0).insert(path, data)
}

/// An atomic write whose requests all succeed makes two of them: the data
/// is written to the temporary file, and the temporary file is renamed over
/// the target. This leaves the data under the target and nothing under the
/// temporary file.
pub proof fn lemma_atomic_write_effect(
    files: Files,
    path: Seq<char>,
    data: Seq<u8>,
    start: (Operation, Step),
    renaming: (Operation, Step),
    end: (Operation, Step),
)
    requires
        temp_path_of(path) is Some,
        write_starts(start, path, data),
        follows(start.0, FsReply::Done, renaming.0, renaming.1),
        follows(renaming.0, FsReply::Done, end.0, end.1),
    ensures
        start.1 matches Step::Ask(FsRequest::WriteFile { path: written, data: d }) && written@
            == temp_path_of(path)->0 && d@ == data,
        renaming.1 matches Step::Ask(FsRequest::Rename { from, to }) && from@ == temp_path_of(
            path,
        )->0 && to@ == path,
        end.0 == Operation::Finished,
        end.1.succeeds(),
        effect(effect(files, start.1->Ask_0), renaming.1->Ask_0) == after_atomic_write(
            files,
            path,
            data,
        ),
        after_atomic_write(files, path, data).contains_key(path),
        after_atomic_write(files, path, data)[path] == data,
        !after_atomic_write(files, path, data).contains_key(temp_path_of(path)->0),
{
    lemma_temp_is_sibling(path);
    let temp = temp_path_of(path)->0;
    assert(files.insert(temp, data).remove(temp).insert(path, data) == files.remove(temp).insert(
        path,
        data,
    ));
}

/// Writing the same data to the same path again changes nothing.
pub proof fn lemma_atomic_write_is_idempotent(files: Files, path: Seq<char>, data: Seq<u8>)
    requires
        temp_path_of(path) is Some,
    ensures
        after_atomic_write(after_atomic_write(files, path, data), path, data) == after_atomic_write(
            files,
            path,
            data,
        ),
{
    lemma_temp_is_sibling(path);
    let once = after_atomic_write(files, path, data);
    assert(after_atomic_write(once, path, data) == once);
}

/// An atomic write whose renaming fails, and whose temporary file is then
/// removed, leaves the target as it was and nothing under the temporary
/// file.
pub proof fn lemma_failed_write_keeps_target(
    files: Files,
    path: Seq<char>,
    data: Seq<u8>,
    start: (Operation, Step),
    renaming: (Operation, Step),
    failure: IoFailure,
    cleaning: (Operation, Step),
)
    requires
        temp_path_of(path) is Some,
        write_starts(start, path, data),
        follows(start.0, FsReply::Done, renaming.0, renaming.1),
        follows(renaming.0, FsReply::Failed(failure), cleaning.0, cleaning.1),
    ensures
        start.1 is Ask,
        cleaning.1 is Ask,
        ({
            let left = effect(effect(files, start.1->Ask_0), cleaning.1->Ask_0);
            &&& left == files.remove(temp_path_of(path)->0)
            &&& left.contains_key(path) == files.contains_key(path)
            &&& files.contains_key(path) ==> left[path] == files[path]
            &&& !left.contains_key(temp_path_of(path)->0)
        }),
{
    lemma_temp_is_sibling(path);
    let temp = temp_path_of(path)->0;
    assert(files.insert(temp, data).remove(temp) == files.remove(temp));
}

/// A rename of a file that fails because source and destination lie on
/// different storage volumes goes on as a copy of the file followed by the
/// removal of the source: in the end the destination holds what the source
/// held, and the source is gone.
pub proof fn lemma_cross_device_move_of_a_file(
    files: Files,
    old_path: Seq<char>,
    new_path: Seq<char>,
    failure: IoFailure,
    meta: FileMeta,
    trace: Seq<(Operation, Step)>,
)
    requires
        old_path != new_path,
        failure.is_cross_device(),
        meta.is_file,
        trace.len() == 6,
        rename_starts(trace[0], old_path, new_path),
        follows(trace[0].0, FsReply::Failed(failure), trace[1].0, trace[1].1),
        follows(trace[1].0, FsReply::Metadata(meta), trace[2].0, trace[2].1),
        follows(trace[2].0, FsReply::Done, trace[3].0, trace[3].1),
        follows(trace[3].0, FsReply::Metadata(meta), trace[4].0, trace[4].1),
        follows(trace[4].0, FsReply::Done, trace[5].0, trace[5].1),
    ensures
        trace[1].1 matches Step::Ask(FsRequest::Metadata { path }) && path@ == old_path,
        trace[2].1 matches Step::Ask(FsRequest::CopyFile { from, to }) && from@ == old_path && to@
            == new_path,
        trace[3].1 matches Step::Ask(FsRequest::Metadata { path }) && path@ == old_path,
        trace[4].1 matches Step::Ask(FsRequest::RemoveFile { path }) && path@ == old_path,
        trace[5].1.succeeds(),
        ({
            let moved = effect(effect(files, trace[2].1->Ask_0), trace[4].1->Ask_0);
            &&& moved == files.insert(new_path, files[old_path]).remove(old_path)
            &&& moved[new_path] == files[old_path]
            &&& !moved.contains_key(old_path)
        }),
{
    assert(pair_views(Seq::<(String, String)>::empty()) == Seq::<(Seq<char>, Seq<char>)>::empty());
    match trace[1].0 {
        Operation::CopyKind { from, to, rest, source } => {
            assert(rest@ == Seq::<(String, String)>::empty());
            assert(pair_views(rest@) == Seq::<(Seq<char>, Seq<char>)>::empty());
        },
        _ => {},
    }
}

} // verus!
