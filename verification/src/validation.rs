//! Path validation: turning a path named by a caller into a path that is
//! known to lie inside the workspace, or rejecting it.
//!
//! Whether a path lies inside the workspace depends on the file system, which
//! this library never touches. A [`PathCheck`] therefore says which path it
//! wants resolved next; whoever owns the disk resolves it (to its canonical,
//! link-free, absolute form) and hands the [`Resolution`] back, until the
//! check is done.

use vstd::prelude::*;
use vstd::string::*;
use crate::error::AppError;
use crate::error::ErrorKind;
use crate::error::ErrorView;
use crate::path::absolute;
use crate::path::components;
use crate::path::contains_parent_marker;
use crate::path::has_parent_marker;
use crate::path::join;
use crate::path::joined;
use crate::path::lemma_joined_components;
use crate::path::lemma_names_have_no_separator;
use crate::path::parent;
use crate::path::parent_of;
use crate::path::segments;
use crate::path::starts_with;
use crate::path::within;
use crate::state::AppState;
use crate::text::concat;
use crate::text::chars_of;

verus! {

/// What resolving a path against the file system gave.
#[derive(Debug, Clone)]
pub enum Resolution {
    /// The path exists; this is its canonical form.
    Resolved(String),
    /// The path could not be resolved; this is the reason.
    Failed(String),
}

/// The mathematical content of a [`Resolution`].
pub enum ResolutionView {
    Resolved(Seq<char>),
    Failed(Seq<char>),
}

impl View for Resolution {
    type V = ResolutionView;

    open spec fn view(&self) -> ResolutionView {
        match self {
            Resolution::Resolved(p) => ResolutionView::Resolved(p@),
            Resolution::Failed(e) => ResolutionView::Failed(e@),
        }
    }
}

/// How a check ends: with the validated path, or with the reason for
/// rejecting it.
pub type Verdict = Result<Seq<char>, ErrorView>;

/// The verdict that an executable result stands for.
pub open spec fn verdict_of(result: Result<String, AppError>) -> Verdict {
    match result {
        Ok(p) => Ok(p@),
        Err(e) => Err(e@),
    }
}

/// A path validation in progress.
#[derive(Debug)]
pub enum PathCheck {
    /// The canonical form of the base directory is wanted.
    Base { base_dir: String, target: String },
    /// The canonical form of the path itself is wanted.
    Target { root: String, full: String, target: String },
    /// The path does not resolve, so the canonical form of its parent is
    /// wanted.
    Parent { root: String, full: String, parent: String, target: String },
    /// The check has ended.
    Done(Result<String, AppError>),
}

/// The mathematical content of a [`PathCheck`].
pub enum CheckView {
    Base { base_dir: Seq<char>, target: Seq<char> },
    Target { root: Seq<char>, full: Seq<char>, target: Seq<char> },
    Parent { root: Seq<char>, full: Seq<char>, parent: Seq<char>, target: Seq<char> },
    Done(Verdict),
}

impl View for PathCheck {
    type V = CheckView;

    open spec fn view(&self) -> CheckView {
        match self {
            PathCheck::Base { base_dir, target } => CheckView::Base {
                base_dir: base_dir@,
                target: target@,
            },
            PathCheck::Target { root, full, target } => CheckView::Target {
                root: root@,
                full: full@,
                target: target@,
            },
            PathCheck::Parent { root, full, parent, target } => CheckView::Parent {
                root: root@,
                full: full@,
                parent: parent@,
                target: target@,
            },
            PathCheck::Done(result) => CheckView::Done(verdict_of(*result)),
        }
    }
}

/// The rejection of a path that holds two dots in a row.
pub open spec fn marker_rejection(target: Seq<char>) -> ErrorView {
    ErrorView {
        kind: ErrorKind::PathTraversal,
        message: "Path contains '..' which is not allowed: "@ + target,
    }
}

/// The rejection of a path that resolves to a place outside the workspace.
pub open spec fn escape_rejection(target: Seq<char>) -> ErrorView {
    ErrorView {
        kind: ErrorKind::PathTraversal,
        message: "Path attempts to escape base directory: "@ + target,
    }
}

/// The rejection of every path when the base directory does not resolve.
pub open spec fn base_rejection(reason: Seq<char>) -> ErrorView {
    ErrorView { kind: ErrorKind::InvalidPath, message: "Invalid base directory: "@ + reason }
}

/// The rejection of a path whose parent does not resolve.
pub open spec fn parent_rejection(reason: Seq<char>) -> ErrorView {
    ErrorView { kind: ErrorKind::InvalidPath, message: "Invalid parent path: "@ + reason }
}

/// The rejection of a path that does not resolve and has no parent.
pub open spec fn orphan_rejection(target: Seq<char>) -> ErrorView {
    ErrorView { kind: ErrorKind::InvalidPath, message: "Path has no parent: "@ + target }
}

/// The rejection of every path while no workspace is open.
pub open spec fn no_workspace_rejection() -> ErrorView {
    ErrorView {
        kind: ErrorKind::InvalidPath,
        message: "No workspace is open. Please select a folder first."@,
    }
}

/// The check with which the validation of `target` against `base_dir`
/// starts: a path that holds two dots in a row is rejected before anything
/// is resolved; for any other the base directory is resolved first.
pub open spec fn begin(base_dir: Seq<char>, target: Seq<char>) -> CheckView {
    if contains_parent_marker(target) {
        CheckView::Done(Err(marker_rejection(target)))
    } else {
        CheckView::Base { base_dir, target }
    }
}

/// The path that the check wants resolved next, unless it is done.
pub open spec fn wanted(check: CheckView) -> Option<Seq<char>> {
    match check {
        CheckView::Base { base_dir, target } => Some(base_dir),
        CheckView::Target { root, full, target } => Some(full),
        CheckView::Parent { root, full, parent, target } => Some(parent),
        CheckView::Done(_) => None,
    }
}

/// The check after the path it wanted was resolved with `reply`.
pub open spec fn step(check: CheckView, reply: ResolutionView) -> CheckView {
    match check {
        CheckView::Base { base_dir, target } => match reply {
            ResolutionView::Failed(reason) => CheckView::Done(Err(base_rejection(reason))),
            ResolutionView::Resolved(root) => CheckView::Target {
                root,
                full: joined(root, target),
                target,
            },
        },
        CheckView::Target { root, full, target } => match reply {
            ResolutionView::Resolved(found) => if within(found, root) {
                CheckView::Done(Ok(found))
            } else {
                CheckView::Done(Err(escape_rejection(target)))
            },
            ResolutionView::Failed(_) => match parent_of(full) {
                Some(parent) => CheckView::Parent { root, full, parent, target },
                None => CheckView::Done(Err(orphan_rejection(target))),
            },
        },
        CheckView::Parent { root, full, parent, target } => match reply {
            ResolutionView::Failed(reason) => CheckView::Done(Err(parent_rejection(reason))),
            ResolutionView::Resolved(found) => if within(found, root) {
                CheckView::Done(Ok(full))
            } else {
                CheckView::Done(Err(escape_rejection(target)))
            },
        },
        CheckView::Done(verdict) => CheckView::Done(verdict),
    }
}

/// The verdict on `target` against `base_dir` on a file system that resolves
/// paths as `resolve` says.
///
/// A path that holds two dots in a row is rejected. The base directory must
/// resolve; its canonical form is the root. An absolute target is taken as it
/// is, a relative one is adjoined to the root. If that path resolves, its
/// canonical form must lie within the root and is the validated path. If it
/// does not resolve, its parent must resolve to a place within the root, and
/// the path itself, unresolved, is the validated path.
pub open spec fn verdict(
    base_dir: Seq<char>,
    target: Seq<char>,
    resolve: spec_fn(Seq<char>) -> ResolutionView,
) -> Verdict {
    if contains_parent_marker(target) {
        Err(marker_rejection(target))
    } else {
        match resolve(base_dir) {
            ResolutionView::Failed(reason) => Err(base_rejection(reason)),
            ResolutionView::Resolved(root) => {
                let full = joined(root, target);
                match resolve(full) {
                    ResolutionView::Resolved(found) => if within(found, root) {
                        Ok(found)
                    } else {
                        Err(escape_rejection(target))
                    },
                    ResolutionView::Failed(_) => match parent_of(full) {
                        None => Err(orphan_rejection(target)),
                        Some(parent) => match resolve(parent) {
                            ResolutionView::Failed(reason) => Err(parent_rejection(reason)),
                            ResolutionView::Resolved(found) => if within(found, root) {
                                Ok(full)
                            } else {
                                Err(escape_rejection(target))
                            },
                        },
                    },
                }
            },
        }
    }
}

/// The check after at most `rounds` rounds in which the path it wants is
/// resolved as `resolve` says.
pub open spec fn settle(
    check: CheckView,
    resolve: spec_fn(Seq<char>) -> ResolutionView,
    rounds: nat,
) -> CheckView
    decreases rounds,
{
    match wanted(check) {
        Some(path) if rounds > 0 => settle(step(check, resolve(path)), resolve, (rounds - 1) as nat),
        _ => check,
    }
}

impl PathCheck {
    /// The path that must be resolved next, unless the check is done.
    pub fn pending(&self) -> (path: Option<&str>)
        ensures
            path is Some == wanted(self@) is Some,
            path is Some ==> path->0@ == wanted(self@)->0,
    {
        match self {
            PathCheck::Base { base_dir, target } => Some(base_dir.as_str()),
            PathCheck::Target { root, full, target } => Some(full.as_str()),
            PathCheck::Parent { root, full, parent, target } => Some(parent.as_str()),
            PathCheck::Done(_) => None,
        }
    }

    /// Takes in what resolving the pending path gave, and moves on. A check
    /// that is done stays as it is.
    pub fn resolve(self, reply: Resolution) -> (next: PathCheck)
        ensures
            next@ == step(self@, reply@),
    {
        match self {
            PathCheck::Base { base_dir, target } => match reply {
                Resolution::Failed(reason) => PathCheck::Done(
                    Err(AppError::InvalidPath(concat("Invalid base directory: ", reason.as_str()))),
                ),
                Resolution::Resolved(root) => {
                    let full = join(root.as_str(), target.as_str());
                    PathCheck::Target { root, full, target }
                },
            },
            PathCheck::Target { root, full, target } => match reply {
                Resolution::Resolved(found) => {
                    if starts_with(found.as_str(), root.as_str()) {
                        PathCheck::Done(Ok(found))
                    } else {
                        PathCheck::Done(Err(escape(target.as_str())))
                    }
                },
                Resolution::Failed(_) => match parent(full.as_str()) {
                    Some(parent) => PathCheck::Parent { root, full, parent, target },
                    None => PathCheck::Done(
                        Err(AppError::InvalidPath(concat("Path has no parent: ", target.as_str()))),
                    ),
                },
            },
            PathCheck::Parent { root, full, parent, target } => match reply {
                Resolution::Failed(reason) => PathCheck::Done(
                    Err(AppError::InvalidPath(concat("Invalid parent path: ", reason.as_str()))),
                ),
                Resolution::Resolved(found) => {
                    if starts_with(found.as_str(), root.as_str()) {
                        PathCheck::Done(Ok(full))
                    } else {
                        PathCheck::Done(Err(escape(target.as_str())))
                    }
                },
            },
            PathCheck::Done(result) => PathCheck::Done(result),
        }
    }

    /// The verdict, once the check is done.
    pub fn outcome(self) -> (result: Option<Result<String, AppError>>)
        ensures
            match result {
                Some(r) => self@ == CheckView::Done(verdict_of(r)),
                None => wanted(self@) is Some,
            },
    {
        match self {
            PathCheck::Done(result) => Some(result),
            _ => None,
        }
    }
}

/// The rejection of a path that resolves to a place outside the workspace.
fn escape(target: &str) -> (e: AppError)
    ensures
        e@ == escape_rejection(target@),
{
    AppError::PathTraversal(concat("Path attempts to escape base directory: ", target))
}

/// Starts the validation of `target` against the base directory `base_dir`.
///
/// A target that holds two dots in a row is rejected at once, whatever the
/// file system holds. For any other the check wants the base directory
/// resolved first.
pub fn validate_path(base_dir: &str, target: &str) -> (check: PathCheck)
    ensures
        check@ == begin(base_dir@, target@),
        contains_parent_marker(target@) ==> check@ == CheckView::Done(
            Err(marker_rejection(target@)),
        ),
{
    if has_parent_marker(target) {
        PathCheck::Done(
            Err(
                AppError::PathTraversal(
                    concat("Path contains '..' which is not allowed: ", target),
                ),
            ),
        )
    } else {
        PathCheck::Base { base_dir: base_dir.to_owned(), target: target.to_owned() }
    }
}

/// Starts the validation of `target` against the workspace that is open.
/// While none is open every target is rejected.
pub fn validate_path_with_state(state: &AppState, target: &str) -> (check: PathCheck)
    ensures
        check@ == match state.config().workspace_dir {
            Some(workspace) => begin(workspace@, target@),
            None => CheckView::Done(Err(no_workspace_rejection())),
        },
{
    match state.get_workspace() {
        Some(workspace) => validate_path(workspace.as_str(), target),
        None => PathCheck::Done(
            Err(
                AppError::InvalidPath(
                    "No workspace is open. Please select a folder first.".to_owned(),
                ),
            ),
        ),
    }
}

/// Whether a directory is named in a way that stands for the workspace
/// itself: by nothing, or by a single dot.
pub open spec fn names_workspace(path: Seq<char>) -> bool {
    path.len() == 0 || path =~= seq!['.']
}

/// Starts the validation of the directory `path` against the workspace that
/// is open. A directory named by nothing or by a single dot is the workspace
/// itself, as it is; any other is validated like every path. While no
/// workspace is open every directory is rejected.
pub fn resolve_directory(state: &AppState, path: &str) -> (check: PathCheck)
    ensures
        check@ == match state.config().workspace_dir {
            Some(workspace) => if names_workspace(path@) {
                CheckView::Done(Ok(workspace@))
            } else {
                begin(workspace@, path@)
            },
            None => CheckView::Done(Err(no_workspace_rejection())),
        },
{
    let chars = chars_of(path);
    if chars.len() == 0 || (chars.len() == 1 && chars[0] == '.') {
        match state.get_workspace() {
            Some(workspace) => PathCheck::Done(Ok(workspace)),
            None => PathCheck::Done(
                Err(
                    AppError::InvalidPath(
                        "No workspace is open. Please select a folder first.".to_owned(),
                    ),
                ),
            ),
        }
    } else {
        validate_path_with_state(state, path)
    }
}

/// A check is done after at most three rounds, and ends with the verdict
/// that the file system's answers call for.
pub proof fn lemma_check_reaches_verdict(
    base_dir: Seq<char>,
    target: Seq<char>,
    resolve: spec_fn(Seq<char>) -> ResolutionView,
)
    ensures
        settle(begin(base_dir, target), resolve, 3) == CheckView::Done(
            verdict(base_dir, target, resolve),
        ),
{
    reveal_with_fuel(settle, 4);
}

/// Every path that holds two dots in a row is rejected as a traversal,
/// whatever the file system holds.
pub proof fn lemma_parent_marker_rejected(
    base_dir: Seq<char>,
    target: Seq<char>,
    resolve: spec_fn(Seq<char>) -> ResolutionView,
)
    requires
        contains_parent_marker(target),
    ensures
        verdict(base_dir, target, resolve) == Err::<Seq<char>, ErrorView>(marker_rejection(target)),
        marker_rejection(target).kind == ErrorKind::PathTraversal,
{
}

/// The place that a path stands for on the file system: its canonical form
/// where it resolves, else the canonical form of its parent.
pub open spec fn place(path: Seq<char>, resolve: spec_fn(Seq<char>) -> ResolutionView) -> Option<
    Seq<char>,
> {
    match resolve(path) {
        ResolutionView::Resolved(found) => Some(found),
        ResolutionView::Failed(_) => match parent_of(path) {
            Some(parent) => match resolve(parent) {
                ResolutionView::Resolved(found) => Some(found),
                ResolutionView::Failed(_) => None,
            },
            None => None,
        },
    }
}

/// A path is accepted exactly when it holds no two dots in a row, the base
/// directory resolves, and the place of the path lies within the canonical
/// root. What is accepted is the canonical form of the path where the path
/// resolves, and the path itself, adjoined to the root, where it does not. A
/// path is rejected only as a traversal or as an invalid path.
pub proof fn lemma_accepted_exactly_inside(
    base_dir: Seq<char>,
    target: Seq<char>,
    resolve: spec_fn(Seq<char>) -> ResolutionView,
)
    ensures
        verdict(base_dir, target, resolve) is Ok <==> {
            &&& !contains_parent_marker(target)
            &&& resolve(base_dir) is Resolved
            &&& place(joined(resolve(base_dir)->Resolved_0, target), resolve) is Some
            &&& within(
                place(joined(resolve(base_dir)->Resolved_0, target), resolve)->0,
                resolve(base_dir)->Resolved_0,
            )
        },
        verdict(base_dir, target, resolve) matches Ok(path) ==> path == match resolve(
            joined(resolve(base_dir)->Resolved_0, target),
        ) {
            ResolutionView::Resolved(found) => found,
            ResolutionView::Failed(_) => joined(resolve(base_dir)->Resolved_0, target),
        },
        verdict(base_dir, target, resolve) matches Err(e) ==> e.kind == ErrorKind::PathTraversal
            || e.kind == ErrorKind::InvalidPath,
{
}

/// An absolute path whose place lies outside the canonical root is rejected,
/// as a traversal or as an invalid path.
pub proof fn lemma_outside_rejected(
    base_dir: Seq<char>,
    target: Seq<char>,
    resolve: spec_fn(Seq<char>) -> ResolutionView,
)
    requires
        absolute(target),
        resolve(base_dir) matches ResolutionView::Resolved(root) ==> (place(target, resolve)
            matches Some(found) ==> !within(found, root)),
    ensures
        verdict(base_dir, target, resolve) matches Err(e) && (e.kind == ErrorKind::PathTraversal
            || e.kind == ErrorKind::InvalidPath),
{
}

/// A relative path that is accepted lies within the canonical root, and is
/// absolute where the root is. It is accepted whenever it resolves to a
/// place within the root, and whenever it does not resolve but its parent
/// resolves to a place within the root.
pub proof fn lemma_relative_accepted_within_root(
    base_dir: Seq<char>,
    target: Seq<char>,
    resolve: spec_fn(Seq<char>) -> ResolutionView,
)
    requires
        !contains_parent_marker(target),
        !absolute(target),
        resolve(base_dir) is Resolved,
    ensures
        verdict(base_dir, target, resolve) matches Ok(path) ==> {
            &&& within(path, resolve(base_dir)->Resolved_0)
            &&& absolute(resolve(base_dir)->Resolved_0) ==> absolute(path)
        },
        verdict(base_dir, target, resolve) is Ok <==> {
            &&& place(joined(resolve(base_dir)->Resolved_0, target), resolve) matches Some(found)
            &&& within(found, resolve(base_dir)->Resolved_0)
        },
{
    let root = resolve(base_dir)->Resolved_0;
    lemma_joined_components(root, target);
    if verdict(base_dir, target, resolve) is Ok && absolute(root) {
        lemma_within_absolute(verdict(base_dir, target, resolve)->Ok_0, root);
    }
}

/// What lies within an absolute path is absolute.
pub proof fn lemma_within_absolute(path: Seq<char>, base: Seq<char>)
    requires
        within(path, base),
        absolute(base),
    ensures
        absolute(path),
{
    if !absolute(path) {
        lemma_names_have_no_separator(path);
        assert(components(base)[0] == seq!['/']);
        assert(components(path).subrange(0, components(base).len() as int)[0] == components(
            path,
        )[0]);
        assert(segments(path)[0] == seq!['/']);
        assert(seq!['/'][0] == '/');
        assert(segments(path)[0][0] == '/');
    }
}

} // verus!
