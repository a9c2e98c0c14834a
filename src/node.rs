//! Remote entries of a listing and the choices offered when selecting them.

use vstd::prelude::*;

verus! {

/// One entry of a remote listing, as the listing describes it.
///
/// Entries are identified by their handle alone.
pub struct RemoteNode {
    /// Opaque identifier, unique within one listing.
    pub handle: String,
    /// Name of the entry, also the name of the local file it is saved to.
    pub name: String,
    /// Whether the entry is a file (as opposed to a folder).
    pub is_file: bool,
    /// Declared size in bytes (meaningful for files).
    pub size: u64,
}

impl RemoteNode {
    pub fn new(handle: String, name: String, is_file: bool, size: u64) -> (r: RemoteNode)
        ensures
            r.handle == handle,
            r.name == name,
            r.is_file == is_file,
            r.size == size,
    {
        RemoteNode { handle, name, is_file, size }
    }

    /// A copy of this entry, equal to it in every field.
    pub fn duplicate(&self) -> (r: RemoteNode)
        ensures
            r == *self,
    {
        RemoteNode {
            handle: self.handle.clone(),
            name: self.name.clone(),
            is_file: self.is_file,
            size: self.size,
        }
    }

    /// Whether two entries name the same remote object.
    pub fn same_handle(&self, other: &RemoteNode) -> (r: bool)
        ensures
            r == (self.handle@ == other.handle@),
    {
        self.handle == other.handle
    }
}

/// The label shown for the choice that selects every file.
pub open spec fn all_label() -> Seq<char> {
    "Download all in folder."@
}

/// One choice offered to the operator: a specific file, or every file.
pub enum NodeWrapper {
    Specific(RemoteNode),
    All,
}

impl NodeWrapper {
    pub fn new(node: RemoteNode) -> (r: NodeWrapper)
        ensures
            r == NodeWrapper::Specific(node),
    {
        NodeWrapper::Specific(node)
    }

    pub fn new_empty() -> (r: NodeWrapper)
        ensures
            r == NodeWrapper::All,
    {
        NodeWrapper::All
    }

    /// The text shown for this choice: the entry's name, or a fixed label
    /// for the choice of every file.
    pub fn name(&self) -> (r: String)
        ensures
            self matches NodeWrapper::Specific(n) ==> r@ == n.name@,
            self is All ==> r@ == all_label(),
    {
        match self {
            NodeWrapper::Specific(n) => n.name.clone(),
            NodeWrapper::All => String::from_str("Download all in folder."),
        }
    }

    pub fn into_inner(self) -> (r: Option<RemoteNode>)
        ensures
            self matches NodeWrapper::Specific(n) ==> r == Some(n),
            self is All ==> r is None,
    {
        match self {
            NodeWrapper::Specific(n) => Some(n),
            NodeWrapper::All => None,
        }
    }

    /// Whether this is the choice of every file.
    pub fn is_empty(&self) -> (r: bool)
        ensures
            r == (self is All),
    {
        match self {
            NodeWrapper::Specific(_) => false,
            NodeWrapper::All => true,
        }
    }

    /// Handle equality of two choices: two specific choices are equal when
    /// their handles are; the choice of every file equals only itself.
    pub open spec fn same_choice(&self, other: &NodeWrapper) -> bool {
        match (self, other) {
            (NodeWrapper::Specific(a), NodeWrapper::Specific(b)) => a.handle@ == b.handle@,
            (NodeWrapper::All, NodeWrapper::All) => true,
            _ => false,
        }
    }
}

impl PartialEq for NodeWrapper {
    fn eq(&self, other: &NodeWrapper) -> (r: bool) {
        match (self, other) {
            (NodeWrapper::Specific(a), NodeWrapper::Specific(b)) => a.same_handle(b),
            (NodeWrapper::All, NodeWrapper::All) => true,
            _ => false,
        }
    }
}

impl vstd::std_specs::cmp::PartialEqSpecImpl for NodeWrapper {
    open spec fn obeys_eq_spec() -> bool {
        true
    }

    open spec fn eq_spec(&self, other: &NodeWrapper) -> bool {
        self.same_choice(other)
    }
}

} // verus!
