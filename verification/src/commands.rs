//! The operation surface: what a caller can ask of the workspace.
//!
//! A caller names paths relative to the workspace. Every such path is
//! validated against the open workspace before anything is asked of the
//! disk on its behalf; while no workspace is open every command fails.

use vstd::prelude::*;
use vstd::string::*;
use crate::error::AppError;
use crate::error::ErrorView;
use crate::explorer::lazy_starts;
use crate::explorer::scan_follows;
use crate::explorer::scan_starts;
use crate::explorer::Purpose;
use crate::explorer::Scan;
use crate::explorer::ScanOptions;
use crate::fs::unexpected_reply;
use crate::fs::FsReply;
use crate::fs::FsRequest;
use crate::fs::Outcome;
use crate::fs::Step;
use crate::operations::create_file_starts;
use crate::operations::create_folder_starts;
use crate::operations::delete_starts;
use crate::operations::follows;
use crate::operations::read_starts;
use crate::operations::rename_starts;
use crate::operations::write_starts;
use crate::operations::Operation;
use crate::state::AppState;
use crate::validation::begin;
use crate::validation::names_workspace;
use crate::validation::no_workspace_rejection;
use crate::validation::resolve_directory;
use crate::validation::step;
use crate::validation::validate_path_with_state;
use crate::validation::wanted;
use crate::validation::CheckView;
use crate::validation::PathCheck;
use crate::validation::Resolution;

verus! {

/// What a caller asks of the workspace. Paths are relative to it.
#[derive(Debug)]
pub enum Command {
    /// Read a file as text.
    ReadFile { path: String },
    /// Write text to a file, atomically.
    WriteFile { path: String, content: String },
    /// Create an empty file.
    CreateFile { path: String },
    /// Create a directory.
    CreateFolder { path: String },
    /// Delete a file, or a directory with everything in it.
    DeletePath { path: String },
    /// Rename or move a file or directory.
    RenamePath { old_path: String, new_path: String },
    /// Read a directory with its direct children.
    ReadDirectory { path: String, include_hidden: bool },
    /// Read one page of the listing of a directory.
    GetDirectoryPage { path: String, offset: usize, limit: usize, include_hidden: bool },
}

/// What a command in progress wants next.
#[derive(Debug)]
pub enum Want {
    /// The path is to be resolved to its canonical form.
    Resolve(String),
    /// The request is to be carried out on the disk.
    Disk(FsRequest),
    /// The command is done, with this result.
    Done(Result<Outcome, AppError>),
}

/// The answer to what a command in progress wanted.
#[derive(Debug)]
pub enum Answer {
    /// What resolving the path gave.
    Resolved(Resolution),
    /// What the disk replied.
    Disk(FsReply),
}

/// A command in progress.
#[derive(Debug)]
pub enum Session {
    /// The path of the command is being validated.
    Checking { check: PathCheck, command: Command },
    /// The source of a rename is being validated; the check of its
    /// destination waits.
    CheckingSource { check: PathCheck, target: PathCheck },
    /// The destination of a rename is being validated; its source was
    /// accepted as `source`.
    CheckingTarget { check: PathCheck, source: String },
    /// The file operation of the command runs on validated paths.
    Running { operation: Operation },
    /// The scan of the command runs on a validated path.
    Scanning { scan: Scan },
    /// The command has ended without touching the disk.
    Finished,
}

impl Want {
    /// Whether what is wanted is what the step of an operation wants.
    pub open spec fn is_step(self, step: Step) -> bool {
        match self {
            Want::Resolve(_) => false,
            Want::Disk(request) => step == Step::Ask(request),
            Want::Done(result) => step == Step::Done(result),
        }
    }

    /// Whether the command is done with an error of the given content.
    pub open spec fn fails_with(self, error: ErrorView) -> bool {
        self matches Want::Done(Err(e)) && e@ == error
    }
}

/// The check with which the validation of the path of a command starts.
/// The path of a directory may name the workspace itself.
pub open spec fn first_check(workspace: Option<String>, path: Seq<char>, is_directory: bool) -> CheckView {
    match workspace {
        None => CheckView::Done(Err(no_workspace_rejection())),
        Some(root) => if is_directory && names_workspace(path) {
            CheckView::Done(Ok(root@))
        } else {
            begin(root@, path)
        },
    }
}

/// Whether `session` and `want` carry out `command` on its path, which was
/// accepted as `path`. A rename has two paths and is not carried out on one.
pub open spec fn launches(command: Command, path: Seq<char>, session: Session, want: Want) -> bool {
    match command {
        Command::ReadFile { path: _ } => exists|start: Step|
            #![trigger want.is_step(start)]
            {
                &&& want.is_step(start)
                &&& session matches Session::Running { operation }
                &&& read_starts((operation, start), path)
            },
        Command::WriteFile { path: _, content } => exists|start: Step|
            #![trigger want.is_step(start)]
            {
                &&& want.is_step(start)
                &&& session matches Session::Running { operation }
                &&& write_starts((operation, start), path, vstd::utf8::encode_utf8(content@))
            },
        Command::CreateFile { path: _ } => exists|start: Step|
            #![trigger want.is_step(start)]
            {
                &&& want.is_step(start)
                &&& session matches Session::Running { operation }
                &&& create_file_starts((operation, start), path)
            },
        Command::CreateFolder { path: _ } => exists|start: Step|
            #![trigger want.is_step(start)]
            {
                &&& want.is_step(start)
                &&& session matches Session::Running { operation }
                &&& create_folder_starts((operation, start), path)
            },
        Command::DeletePath { path: _ } => exists|start: Step|
            #![trigger want.is_step(start)]
            {
                &&& want.is_step(start)
                &&& session matches Session::Running { operation }
                &&& delete_starts((operation, start), path)
            },
        Command::RenamePath { old_path: _, new_path: _ } => session == Session::Finished
            && want.fails_with(unexpected_reply()),
        Command::ReadDirectory { path: _, include_hidden } => exists|start: Step|
            #![trigger want.is_step(start)]
            {
                &&& want.is_step(start)
                &&& session matches Session::Scanning { scan }
                &&& lazy_starts((scan, start), path, include_hidden)
            },
        Command::GetDirectoryPage { path: _, offset, limit, include_hidden } => exists|
            start: Step,
        |
            #![trigger want.is_step(start)]
            {
                &&& want.is_step(start)
                &&& session matches Session::Scanning { scan }
                &&& scan_starts(
                    scan,
                    start,
                    path,
                    ScanOptions { include_hidden, max_depth: 1 },
                    Purpose::Page { offset, limit },
                )
            },
    }
}

/// Whether `session` and `want` go on with a command whose path is under
/// the check `check`: while the check wants a path resolved, that is
/// wanted; once the path is rejected the command ends with the rejection;
/// once it is accepted the command is carried out on the accepted path.
pub open spec fn goes_on(check: CheckView, command: Command, session: Session, want: Want) -> bool {
    match check {
        CheckView::Done(Ok(path)) => launches(command, path, session, want),
        CheckView::Done(Err(error)) => session == Session::Finished && want.fails_with(error),
        _ => {
            &&& session matches Session::Checking { check: c, command: k }
            &&& c@ == check
            &&& k == command
            &&& want matches Want::Resolve(path)
            &&& Some(path@) == wanted(check)
        },
    }
}

/// Whether `session` and `want` go on with a rename whose destination is
/// under the check `check` and whose source was accepted as `source`.
pub open spec fn target_goes_on(check: CheckView, source: Seq<char>, session: Session, want: Want) -> bool {
    match check {
        CheckView::Done(Ok(path)) => exists|start: Step|
            #![trigger want.is_step(start)]
            {
                &&& want.is_step(start)
                &&& session matches Session::Running { operation }
                &&& rename_starts((operation, start), source, path)
            },
        CheckView::Done(Err(error)) => session == Session::Finished && want.fails_with(error),
        _ => {
            &&& session matches Session::CheckingTarget { check: c, source: s }
            &&& c@ == check
            &&& s@ == source
            &&& want matches Want::Resolve(path)
            &&& Some(path@) == wanted(check)
        },
    }
}

/// Whether `session` and `want` go on with a rename whose source is under
/// the check `check`, and whose destination will be checked by `target`.
pub open spec fn source_goes_on(check: CheckView, target: CheckView, session: Session, want: Want) -> bool {
    match check {
        CheckView::Done(Ok(path)) => target_goes_on(target, path, session, want),
        CheckView::Done(Err(error)) => session == Session::Finished && want.fails_with(error),
        _ => {
            &&& session matches Session::CheckingSource { check: c, target: t }
            &&& c@ == check
            &&& t@ == target
            &&& want matches Want::Resolve(path)
            &&& Some(path@) == wanted(check)
        },
    }
}

/// Whether `out` starts `command` while `workspace` is the open workspace.
pub open spec fn command_starts(out: (Session, Want), workspace: Option<String>, command: Command) -> bool {
    match command {
        Command::RenamePath { old_path, new_path } => source_goes_on(
            first_check(workspace, old_path@, false),
            first_check(workspace, new_path@, false),
            out.0,
            out.1,
        ),
        Command::ReadFile { path } => goes_on(
            first_check(workspace, path@, false),
            command,
            out.0,
            out.1,
        ),
        Command::WriteFile { path, content } => goes_on(
            first_check(workspace, path@, false),
            command,
            out.0,
            out.1,
        ),
        Command::CreateFile { path } => goes_on(
            first_check(workspace, path@, false),
            command,
            out.0,
            out.1,
        ),
        Command::CreateFolder { path } => goes_on(
            first_check(workspace, path@, false),
            command,
            out.0,
            out.1,
        ),
        Command::DeletePath { path } => goes_on(
            first_check(workspace, path@, false),
            command,
            out.0,
            out.1,
        ),
        Command::ReadDirectory { path, include_hidden } => goes_on(
            first_check(workspace, path@, true),
            command,
            out.0,
            out.1,
        ),
        Command::GetDirectoryPage { path, offset, limit, include_hidden } => goes_on(
            first_check(workspace, path@, true),
            command,
            out.0,
            out.1,
        ),
    }
}

/// Whether a command in state `before` that is handed `answer` goes on as
/// `after` and wants `want`.
pub open spec fn session_follows(before: Session, answer: Answer, after: Session, want: Want) -> bool {
    match before {
        Session::Checking { check, command } => match answer {
            Answer::Resolved(reply) => goes_on(step(check@, reply@), command, after, want),
            Answer::Disk(_) => after == Session::Finished && want.fails_with(unexpected_reply()),
        },
        Session::CheckingSource { check, target } => match answer {
            Answer::Resolved(reply) => source_goes_on(step(check@, reply@), target@, after, want),
            Answer::Disk(_) => after == Session::Finished && want.fails_with(unexpected_reply()),
        },
        Session::CheckingTarget { check, source } => match answer {
            Answer::Resolved(reply) => target_goes_on(step(check@, reply@), source@, after, want),
            Answer::Disk(_) => after == Session::Finished && want.fails_with(unexpected_reply()),
        },
        Session::Running { operation } => match answer {
            Answer::Disk(reply) => exists|next: Step|
                #![trigger want.is_step(next)]
                {
                    &&& want.is_step(next)
                    &&& after matches Session::Running { operation: o }
                    &&& follows(operation, reply, o, next)
                },
            Answer::Resolved(_) => after == Session::Finished && want.fails_with(
                unexpected_reply(),
            ),
        },
        Session::Scanning { scan } => match answer {
            Answer::Disk(reply) => exists|next: Step|
                #![trigger want.is_step(next)]
                {
                    &&& want.is_step(next)
                    &&& after matches Session::Scanning { scan: s }
                    &&& scan_follows(scan, reply, s, next)
                },
            Answer::Resolved(_) => after == Session::Finished && want.fails_with(
                unexpected_reply(),
            ),
        },
        Session::Finished => after == Session::Finished && want.fails_with(unexpected_reply()),
    }
}

/// What the step of an operation wants.
fn want_of(step: Step) -> (want: Want)
    ensures
        want.is_step(step),
{
    match step {
        Step::Ask(request) => Want::Disk(request),
        Step::Done(result) => Want::Done(result),
    }
}

/// The end of a command whose answer does not answer what it wanted.
fn reject_answer() -> (out: (Session, Want))
    ensures
        out.0 == Session::Finished,
        out.1.fails_with(unexpected_reply()),
{
    (
        Session::Finished,
        Want::Done(Err(AppError::IoError("Unexpected reply from the file system".to_owned()))),
    )
}

/// Carries out `command` on its path, which was accepted as `path`.
fn launch(command: Command, path: String) -> (out: (Session, Want))
    ensures
        launches(command, path@, out.0, out.1),
{
    match command {
        Command::ReadFile { path: _ } => {
            let (operation, start) = crate::operations::read_file_content(path.as_str());
            let want = want_of(start);
            (Session::Running { operation }, want)
        },
        Command::WriteFile { path: _, content } => {
            let (operation, start) = crate::operations::write_file_atomic(
                path.as_str(),
                content.as_str(),
            );
            let want = want_of(start);
            (Session::Running { operation }, want)
        },
        Command::CreateFile { path: _ } => {
            let (operation, start) = crate::operations::create_file(path.as_str());
            let want = want_of(start);
            (Session::Running { operation }, want)
        },
        Command::CreateFolder { path: _ } => {
            let (operation, start) = crate::operations::create_folder(path.as_str());
            let want = want_of(start);
            (Session::Running { operation }, want)
        },
        Command::DeletePath { path: _ } => {
            let (operation, start) = crate::operations::delete_path(path.as_str());
            let want = want_of(start);
            (Session::Running { operation }, want)
        },
        Command::RenamePath { old_path: _, new_path: _ } => reject_answer(),
        Command::ReadDirectory { path: _, include_hidden } => {
            let (scan, start) = crate::explorer::read_directory_lazy(path.as_str(), include_hidden);
            let want = want_of(start);
            (Session::Scanning { scan }, want)
        },
        Command::GetDirectoryPage { path: _, offset, limit, include_hidden } => {
            let (scan, start) = crate::explorer::get_directory_page(
                path.as_str(),
                offset,
                limit,
                include_hidden,
            );
            let want = want_of(start);
            (Session::Scanning { scan }, want)
        },
    }
}

/// Goes on with a command whose path is under `check`.
fn go_on(check: PathCheck, command: Command) -> (out: (Session, Want))
    ensures
        goes_on(check@, command, out.0, out.1),
{
    match check {
        PathCheck::Done(Ok(path)) => launch(command, path),
        PathCheck::Done(Err(error)) => (Session::Finished, Want::Done(Err(error))),
        _ => {
            let path = match check.pending() {
                Some(p) => p.to_owned(),
                None => String::new(),
            };
            (Session::Checking { check, command }, Want::Resolve(path))
        },
    }
}

/// Goes on with a rename whose destination is under `check`.
fn target_go_on(check: PathCheck, source: String) -> (out: (Session, Want))
    ensures
        target_goes_on(check@, source@, out.0, out.1),
{
    match check {
        PathCheck::Done(Ok(path)) => {
            let (operation, start) = crate::operations::rename_path(
                source.as_str(),
                path.as_str(),
            );
            let want = want_of(start);
            (Session::Running { operation }, want)
        },
        PathCheck::Done(Err(error)) => (Session::Finished, Want::Done(Err(error))),
        _ => {
            let path = match check.pending() {
                Some(p) => p.to_owned(),
                None => String::new(),
            };
            (Session::CheckingTarget { check, source }, Want::Resolve(path))
        },
    }
}

/// Goes on with a rename whose source is under `check`.
fn source_go_on(check: PathCheck, target: PathCheck) -> (out: (Session, Want))
    ensures
        source_goes_on(check@, target@, out.0, out.1),
{
    match check {
        PathCheck::Done(Ok(path)) => target_go_on(target, path),
        PathCheck::Done(Err(error)) => (Session::Finished, Want::Done(Err(error))),
        _ => {
            let path = match check.pending() {
                Some(p) => p.to_owned(),
                None => String::new(),
            };
            (Session::CheckingSource { check, target }, Want::Resolve(path))
        },
    }
}

impl Session {
    /// Starts `command` against the workspace that is open in `state`.
    ///
    /// The path of the command is validated first; the paths of a rename
    /// are validated one after the other, the source first. Nothing is
    /// asked of the disk before every path of the command was accepted.
    pub fn start(state: &AppState, command: Command) -> (out: (Session, Want))
        ensures
            command_starts(out, state.config().workspace_dir, command),
    {
        match command {
            Command::RenamePath { old_path, new_path } => {
                let check = validate_path_with_state(state, old_path.as_str());
                let target = validate_path_with_state(state, new_path.as_str());
                source_go_on(check, target)
            },
            Command::ReadFile { path } => {
                let check = validate_path_with_state(state, path.as_str());
                go_on(check, Command::ReadFile { path })
            },
            Command::WriteFile { path, content } => {
                let check = validate_path_with_state(state, path.as_str());
                go_on(check, Command::WriteFile { path, content })
            },
            Command::CreateFile { path } => {
                let check = validate_path_with_state(state, path.as_str());
                go_on(check, Command::CreateFile { path })
            },
            Command::CreateFolder { path } => {
                let check = validate_path_with_state(state, path.as_str());
                go_on(check, Command::CreateFolder { path })
            },
            Command::DeletePath { path } => {
                let check = validate_path_with_state(state, path.as_str());
                go_on(check, Command::DeletePath { path })
            },
            Command::ReadDirectory { path, include_hidden } => {
                let check = resolve_directory(state, path.as_str());
                go_on(check, Command::ReadDirectory { path, include_hidden })
            },
            Command::GetDirectoryPage { path, offset, limit, include_hidden } => {
                let check = resolve_directory(state, path.as_str());
                go_on(check, Command::GetDirectoryPage { path, offset, limit, include_hidden })
            },
        }
    }

    /// Takes in the answer to what the command wanted, and moves on.
    pub fn advance(self, answer: Answer) -> (out: (Session, Want))
        ensures
            session_follows(self, answer, out.0, out.1),
    {
        match self {
            Session::Checking { check, command } => match answer {
                Answer::Resolved(reply) => go_on(check.resolve(reply), command),
                Answer::Disk(_) => reject_answer(),
            },
            Session::CheckingSource { check, target } => match answer {
                Answer::Resolved(reply) => source_go_on(check.resolve(reply), target),
                Answer::Disk(_) => reject_answer(),
            },
            Session::CheckingTarget { check, source } => match answer {
                Answer::Resolved(reply) => target_go_on(check.resolve(reply), source),
                Answer::Disk(_) => reject_answer(),
            },
            Session::Running { operation } => match answer {
                Answer::Disk(reply) => {
                    let (operation, next) = operation.advance(reply);
                    let want = want_of(next);
                    (Session::Running { operation }, want)
                },
                Answer::Resolved(_) => reject_answer(),
            },
            Session::Scanning { scan } => match answer {
                Answer::Disk(reply) => {
                    let (scan, next) = scan.advance(reply);
                    let want = want_of(next);
                    (Session::Scanning { scan }, want)
                },
                Answer::Resolved(_) => reject_answer(),
            },
            Session::Finished => reject_answer(),
        }
    }
}


/// Starts the read of the file `path` of the workspace as text.
pub fn read_file(state: &AppState, path: String) -> (out: (Session, Want))
    ensures
        command_starts(out, state.config().workspace_dir, Command::ReadFile { path }),
{
    Session::start(state, Command::ReadFile { path })
}

/// Starts the atomic write of `content` to the file `path` of the
/// workspace.
pub fn write_file(state: &AppState, path: String, content: String) -> (out: (Session, Want))
    ensures
        command_starts(out, state.config().workspace_dir, Command::WriteFile { path, content }),
{
    Session::start(state, Command::WriteFile { path, content })
}

/// Starts the creation of the empty file `path` of the workspace.
pub fn create_file_command(state: &AppState, path: String) -> (out: (Session, Want))
    ensures
        command_starts(out, state.config().workspace_dir, Command::CreateFile { path }),
{
    Session::start(state, Command::CreateFile { path })
}

/// Starts the creation of the directory `path` of the workspace.
pub fn create_folder_command(state: &AppState, path: String) -> (out: (Session, Want))
    ensures
        command_starts(out, state.config().workspace_dir, Command::CreateFolder { path }),
{
    Session::start(state, Command::CreateFolder { path })
}

/// Starts the deletion of `path` of the workspace.
pub fn delete_path_command(state: &AppState, path: String) -> (out: (Session, Want))
    ensures
        command_starts(out, state.config().workspace_dir, Command::DeletePath { path }),
{
    Session::start(state, Command::DeletePath { path })
}

/// Starts the renaming of `old_path` of the workspace to `new_path` of the
/// workspace.
pub fn rename_path_command(state: &AppState, old_path: String, new_path: String) -> (out: (
    Session,
    Want,
))
    ensures
        command_starts(
            out,
            state.config().workspace_dir,
            Command::RenamePath { old_path, new_path },
        ),
{
    Session::start(state, Command::RenamePath { old_path, new_path })
}

/// Starts the lazy read of the directory `path` of the workspace. A path
/// that is empty or a single dot names the workspace itself.
pub fn read_directory(state: &AppState, path: String, include_hidden: bool) -> (out: (
    Session,
    Want,
))
    ensures
        command_starts(
            out,
            state.config().workspace_dir,
            Command::ReadDirectory { path, include_hidden },
        ),
{
    Session::start(state, Command::ReadDirectory { path, include_hidden })
}

/// Starts the read of one page of the directory `path` of the workspace. A
/// path that is empty or a single dot names the workspace itself.
pub fn get_directory_page(
    state: &AppState,
    path: String,
    offset: usize,
    limit: usize,
    include_hidden: bool,
) -> (out: (Session, Want))
    ensures
        command_starts(
            out,
            state.config().workspace_dir,
            Command::GetDirectoryPage { path, offset, limit, include_hidden },
        ),
{
    Session::start(state, Command::GetDirectoryPage { path, offset, limit, include_hidden })
}

/// A command asks nothing of the disk at its start, unless it is about the
/// workspace directory itself, which needs no validation.
pub proof fn lemma_start_asks_no_disk(out: (Session, Want), workspace: Option<String>, command: Command)
    requires
        command_starts(out, workspace, command),
        out.1 is Disk,
    ensures
        workspace is Some,
        match command {
            Command::ReadDirectory { path, include_hidden } => names_workspace(path@),
            Command::GetDirectoryPage { path, offset, limit, include_hidden } => names_workspace(
                path@,
            ),
            _ => false,
        },
{
}

/// A command whose path is being validated asks something of the disk only
/// when the answer makes the validation accept the path; for a rename, only
/// when the source and the destination are both accepted.
pub proof fn lemma_disk_only_after_acceptance(
    before: Session,
    answer: Answer,
    after: Session,
    want: Want,
)
    requires
        session_follows(before, answer, after, want),
        want is Disk,
    ensures
        match before {
            Session::Checking { check, command } => {
                &&& answer matches Answer::Resolved(reply)
                &&& step(check@, reply@) matches CheckView::Done(Ok(_))
            },
            Session::CheckingSource { check, target } => {
                &&& answer matches Answer::Resolved(reply)
                &&& step(check@, reply@) matches CheckView::Done(Ok(_))
                &&& target@ matches CheckView::Done(Ok(_))
            },
            Session::CheckingTarget { check, source } => {
                &&& answer matches Answer::Resolved(reply)
                &&& step(check@, reply@) matches CheckView::Done(Ok(_))
            },
            Session::Running { operation } => answer is Disk,
            Session::Scanning { scan } => answer is Disk,
            Session::Finished => false,
        },
{
}

} // verus!
