//! The values that listings are made of.

use vstd::prelude::*;

verus! {

/// A moment in time, counted from the start of 1970 (UTC).
#[derive(Debug, Clone, Copy, PartialEq, Eq, Structural)]
pub struct Timestamp {
    /// Whole seconds since the start of 1970.
    pub secs_since_epoch: u64,
    /// Nanoseconds after the last whole second.
    pub nanos_since_epoch: u32,
}

/// One file or directory.
#[derive(Debug)]
pub struct FileNode {
    /// Absolute path of the file or directory.
    pub path: String,
    /// Its name, without the path.
    pub name: String,
    /// Whether it is a file; a directory otherwise.
    pub is_file: bool,
    /// Size in bytes; absent for directories.
    pub size: Option<u64>,
    /// When it was last modified, where that is known.
    pub modified: Option<Timestamp>,
    /// The direct children of a directory, where they were loaded.
    pub children: Option<Vec<FileNode>>,
}

impl FileNode {
    /// Whether the children of this node were not loaded.
    pub open spec fn unexpanded(&self) -> bool {
        self.children is None
    }

    /// Whether the node holds a size exactly where it is a file.
    pub open spec fn sized_as_file(&self) -> bool {
        self.size is Some == self.is_file
    }

    /// Whether the node is loaded one level deep at most: where it has
    /// children, none of them has children of its own.
    pub open spec fn shallow(&self) -> bool {
        self.children matches Some(children) ==> forall|i: int|
            0 <= i < children@.len() ==> (#[trigger] children@[i]).unexpanded()
    }

    /// A node with the given fields, its children not loaded.
    pub fn new(
        path: String,
        name: String,
        is_file: bool,
        size: Option<u64>,
        modified: Option<Timestamp>,
    ) -> (node: FileNode)
        ensures
            node == (FileNode { path, name, is_file, size, modified, children: None }),
            node.unexpanded(),
            node.shallow(),
    {
        FileNode { path, name, is_file, size, modified, children: None }
    }

    /// This node with `children` as its loaded children.
    pub fn with_children(self, children: Vec<FileNode>) -> (node: FileNode)
        ensures
            node == (FileNode { children: Some(children), ..self }),
    {
        let mut node = self;
        node.children = Some(children);
        node
    }
}

/// A window of a directory listing.
#[derive(Debug)]
pub struct DirectoryPage {
    /// The nodes of this page, in the order of the listing.
    pub nodes: Vec<FileNode>,
    /// The number of nodes in the whole listing.
    pub total_count: usize,
    /// Whether the listing goes on after this page.
    pub has_more: bool,
}

impl DirectoryPage {
    /// A page with the given fields.
    pub fn new(nodes: Vec<FileNode>, total_count: usize, has_more: bool) -> (page: DirectoryPage)
        ensures
            page == (DirectoryPage { nodes, total_count, has_more }),
    {
        DirectoryPage { nodes, total_count, has_more }
    }
}

/// A change in the file system, as reported to a listener. The path is
/// relative to the workspace root.
#[derive(Debug, Clone)]
pub enum FsEventPayload {
    /// A file or folder was created.
    Created { path: String },
    /// A file or folder was modified.
    Modified { path: String },
    /// A file or folder was deleted.
    Deleted { path: String },
}

} // verus!
