//! Replication of a node list below a destination subvolume.
//!
//! Each step needs the tool or the filesystem, so replication is kept as a
//! state that the caller drives: [`Replication::step`] says what to do
//! next, and the caller hands back how it ended. Every creation treats
//! "already there" as success, so a replication can be run again.

use vstd::prelude::*;
use crate::paths::{join_path, joined};
use crate::subvolume::{resolved, FileType, Subvolume};
use crate::tool::{show_result, HierarchyError, ToolOutcome};

verus! {

/// Where a replication stands.
#[derive(Debug, Clone, Copy, PartialEq, Eq, Structural)]
pub enum Stage {
    /// Asking whether the destination is already a subvolume.
    ProbeRoot,
    /// Creating the destination subvolume.
    CreateRoot,
    /// Resolving the destination after it was found or created.
    VerifyRoot,
    /// Creating the directory of the current node.
    MakeDirectory,
    /// Asking whether the current subvolume node already exists.
    ProbeNode,
    /// Creating the current subvolume node.
    CreateNode,
    /// Every node is in place.
    Done,
    /// A step failed; replication stopped there.
    Stopped,
}

/// What the caller is to do next.
#[derive(Debug, Clone, PartialEq, Eq)]
pub enum ReplicaStep {
    /// Run `show` on this path and hand back its outcome.
    Show(String),
    /// Run `create` on this path and hand back its outcome.
    CreateSubvolume(String),
    /// Create this directory and hand back how it went.
    CreateDirectory(String),
    /// Replication is over; [`Replication::finish`] gives its result.
    Finished,
}

/// How creating one directory ended.
#[derive(Debug, Clone, PartialEq, Eq)]
pub enum DirOutcome {
    /// The directory was made.
    Created,
    /// The directory was there already.
    AlreadyExists,
    /// Any other failure, with its diagnostic.
    Failed(String),
}

/// The stage for the node at index `i`: done past the last node, else by
/// the node's kind.
pub open spec fn entered(nodes: Seq<(String, FileType)>, i: int) -> Stage {
    if i >= nodes.len() {
        Stage::Done
    } else if nodes[i].1 == FileType::Directory {
        Stage::MakeDirectory
    } else {
        Stage::ProbeNode
    }
}

/// The state of one replication.
pub struct Replication {
    dest: String,
    nodes: Vec<(String, FileType)>,
    stage: Stage,
    next: usize,
    abs_path: String,
    error: Option<HierarchyError>,
}

impl Replication {
    /// The local path of the destination subvolume.
    pub closed spec fn dest(&self) -> Seq<char> {
        self.dest@
    }

    /// The node list being replicated, in creation order.
    pub closed spec fn nodes(&self) -> Seq<(String, FileType)> {
        self.nodes@
    }

    /// Where the replication stands.
    pub closed spec fn stage(&self) -> Stage {
        self.stage
    }

    /// The index of the current node.
    pub closed spec fn next_index(&self) -> int {
        self.next as int
    }

    /// The resolved absolute path of the destination, once verified.
    pub closed spec fn abs_path(&self) -> Seq<char> {
        self.abs_path@
    }

    /// Why replication stopped, once it has.
    pub closed spec fn error(&self) -> Option<HierarchyError> {
        self.error
    }

    /// The replication's invariant: the current node exists while one is
    /// being worked on, a directory stage works on a directory node, and an
    /// error is held exactly when replication stopped.
    pub closed spec fn wf(&self) -> bool {
        &&& self.next <= self.nodes@.len()
        &&& (self.stage == Stage::MakeDirectory || self.stage == Stage::ProbeNode
            || self.stage == Stage::CreateNode) ==> self.next < self.nodes@.len()
        &&& self.stage == Stage::MakeDirectory ==> self.nodes@[self.next as int].1 == FileType::Directory
        &&& self.stage == Stage::Stopped <==> self.error is Some
    }

    /// The path at the destination of the current node.
    pub open spec fn node_target(&self) -> Seq<char> {
        joined(self.dest(), self.nodes()[self.next_index()].0@)
    }

    /// A replication of `nodes` below `dest`; it starts by asking whether
    /// `dest` is already a subvolume.
    pub fn new(dest: String, nodes: Vec<(String, FileType)>) -> (r: Replication)
        ensures
            r.wf(),
            r.dest() == dest@,
            r.nodes() == nodes@,
            r.stage() == Stage::ProbeRoot,
            r.next_index() == 0,
    {
        Replication { dest, nodes, stage: Stage::ProbeRoot, next: 0, abs_path: String::new(), error: None }
    }

    /// What to do next.
    pub fn step(&self) -> (s: ReplicaStep)
        requires
            self.wf(),
        ensures
            match self.stage() {
                Stage::ProbeRoot | Stage::VerifyRoot => s is Show && s->Show_0@ == self.dest(),
                Stage::CreateRoot => s is CreateSubvolume && s->CreateSubvolume_0@ == self.dest(),
                Stage::MakeDirectory => s is CreateDirectory && s->CreateDirectory_0@
                    == self.node_target(),
                Stage::ProbeNode => s is Show && s->Show_0@ == self.node_target(),
                Stage::CreateNode => s is CreateSubvolume && s->CreateSubvolume_0@
                    == self.node_target(),
                Stage::Done | Stage::Stopped => s is Finished,
            },
    {
        match self.stage {
            Stage::ProbeRoot | Stage::VerifyRoot => ReplicaStep::Show(self.dest.clone()),
            Stage::CreateRoot => ReplicaStep::CreateSubvolume(self.dest.clone()),
            Stage::MakeDirectory => ReplicaStep::CreateDirectory(
                join_path(self.dest.as_str(), self.nodes[self.next].0.as_str()),
            ),
            Stage::ProbeNode => ReplicaStep::Show(
                join_path(self.dest.as_str(), self.nodes[self.next].0.as_str()),
            ),
            Stage::CreateNode => ReplicaStep::CreateSubvolume(
                join_path(self.dest.as_str(), self.nodes[self.next].0.as_str()),
            ),
            Stage::Done | Stage::Stopped => ReplicaStep::Finished,
        }
    }

    fn enter(&mut self, i: usize)
        requires
            i <= old(self).nodes@.len(),
        ensures
            final(self).next == i,
            final(self).stage == entered(old(self).nodes@, i as int),
            final(self).dest == old(self).dest,
            final(self).nodes == old(self).nodes,
            final(self).abs_path == old(self).abs_path,
            final(self).error == old(self).error,
    {
        self.next = i;
        if i == self.nodes.len() {
            self.stage = Stage::Done;
        } else if self.nodes[i].1 == FileType::Directory {
            self.stage = Stage::MakeDirectory;
        } else {
            self.stage = Stage::ProbeNode;
        }
    }

    fn advance(&mut self)
        requires
            old(self).next < old(self).nodes@.len(),
        ensures
            final(self).next == old(self).next + 1,
            final(self).stage == entered(old(self).nodes@, old(self).next + 1),
            final(self).dest == old(self).dest,
            final(self).nodes == old(self).nodes,
            final(self).abs_path == old(self).abs_path,
            final(self).error == old(self).error,
    {
        let n = self.nodes.len();
        let i = self.next + 1;
        assert(i <= n);
        self.enter(i);
    }

    fn stop(&mut self, e: HierarchyError)
        ensures
            final(self).stage == Stage::Stopped,
            final(self).error == Some(e),
            final(self).next == old(self).next,
            final(self).dest == old(self).dest,
            final(self).nodes == old(self).nodes,
            final(self).abs_path == old(self).abs_path,
    {
        self.stage = Stage::Stopped;
        self.error = Some(e);
    }

    /// Takes how the `show` or `create` that [`Replication::step`] asked
    /// for ended.
    /// - Probing the destination: a subvolume there is verified next, any
    ///   failure has it created.
    /// - Creating the destination: success has it verified, a failure stops.
    /// - Verifying the destination: its resolved path is kept and the first
    ///   node is next; a failure stops with `ReplicationVerificationFailed`.
    /// - Probing a subvolume node: one already there is done, else it is
    ///   created.
    /// - Creating a subvolume node: success moves to the next node, a
    ///   failure stops.
    pub fn record_tool(&mut self, out: &ToolOutcome)
        requires
            old(self).wf(),
            old(self).stage() == Stage::ProbeRoot || old(self).stage() == Stage::CreateRoot
                || old(self).stage() == Stage::VerifyRoot || old(self).stage() == Stage::ProbeNode
                || old(self).stage() == Stage::CreateNode,
        ensures
            final(self).wf(),
            final(self).dest() == old(self).dest(),
            final(self).nodes() == old(self).nodes(),
            old(self).stage() != Stage::VerifyRoot ==> final(self).abs_path() == old(self).abs_path(),
            old(self).stage() == Stage::ProbeRoot ==> final(self).stage() == (if resolved(*out) is Ok {
                Stage::VerifyRoot
            } else {
                Stage::CreateRoot
            }),
            old(self).stage() == Stage::CreateRoot ==> match *out {
                ToolOutcome::Succeeded(_) => final(self).stage() == Stage::VerifyRoot,
                ToolOutcome::Failed(e) => final(self).error() == Some(HierarchyError::SubvolumeCreationFailed(e)),
                ToolOutcome::Unavailable(e) => final(self).error() == Some(HierarchyError::ExternalToolUnavailable(e)),
            },
            old(self).stage() == Stage::VerifyRoot ==> match resolved(*out) {
                Ok(p) => final(self).abs_path() == p && final(self).next_index() == 0
                    && final(self).stage() == entered(old(self).nodes(), 0),
                Err(e) => final(self).stage() == Stage::Stopped && final(self).error() is Some
                    && final(self).error()->0 is ReplicationVerificationFailed
                    && final(self).error()->0.diagnostic_spec() == e.diagnostic_spec(),
            },
            old(self).stage() == Stage::ProbeNode ==> (if resolved(*out) is Ok {
                final(self).next_index() == old(self).next_index() + 1
                    && final(self).stage() == entered(old(self).nodes(), old(self).next_index() + 1)
            } else {
                final(self).next_index() == old(self).next_index()
                    && final(self).stage() == Stage::CreateNode
            }),
            old(self).stage() == Stage::CreateNode ==> match *out {
                ToolOutcome::Succeeded(_) => final(self).next_index() == old(self).next_index() + 1
                    && final(self).stage() == entered(old(self).nodes(), old(self).next_index() + 1),
                ToolOutcome::Failed(e) => final(self).error() == Some(HierarchyError::SubvolumeCreationFailed(e)),
                ToolOutcome::Unavailable(e) => final(self).error() == Some(HierarchyError::ExternalToolUnavailable(e)),
            },
    {
        let r = show_result(out);
        match self.stage {
            Stage::ProbeRoot => {
                if r.is_ok() {
                    self.stage = Stage::VerifyRoot;
                } else {
                    self.stage = Stage::CreateRoot;
                }
            },
            Stage::CreateRoot => match out {
                ToolOutcome::Succeeded(_) => {
                    self.stage = Stage::VerifyRoot;
                },
                ToolOutcome::Failed(e) => self.stop(HierarchyError::SubvolumeCreationFailed(e.clone())),
                ToolOutcome::Unavailable(e) => self.stop(HierarchyError::ExternalToolUnavailable(e.clone())),
            },
            Stage::VerifyRoot => match r {
                Ok(p) => {
                    self.abs_path = p;
                    self.enter(0);
                },
                Err(e) => {
                    let d = e.diagnostic().clone();
                    self.stop(HierarchyError::ReplicationVerificationFailed(d));
                },
            },
            Stage::ProbeNode => {
                if r.is_ok() {
                    self.advance();
                } else {
                    self.stage = Stage::CreateNode;
                }
            },
            _ => match out {
                ToolOutcome::Succeeded(_) => {
                    self.advance();
                },
                ToolOutcome::Failed(e) => self.stop(HierarchyError::SubvolumeCreationFailed(e.clone())),
                ToolOutcome::Unavailable(e) => self.stop(HierarchyError::ExternalToolUnavailable(e.clone())),
            },
        }
    }

    /// Takes how creating the current directory node ended: created or
    /// already there moves to the next node, any other failure stops with
    /// `DirectoryCreationFailed`.
    pub fn record_directory(&mut self, out: &DirOutcome)
        requires
            old(self).wf(),
            old(self).stage() == Stage::MakeDirectory,
        ensures
            final(self).wf(),
            final(self).dest() == old(self).dest(),
            final(self).nodes() == old(self).nodes(),
            final(self).abs_path() == old(self).abs_path(),
            match *out {
                DirOutcome::Failed(e) => final(self).stage() == Stage::Stopped
                    && final(self).error() == Some(HierarchyError::DirectoryCreationFailed(e)),
                _ => final(self).next_index() == old(self).next_index() + 1
                    && final(self).stage() == entered(old(self).nodes(), old(self).next_index() + 1),
            },
    {
        match out {
            DirOutcome::Failed(e) => self.stop(HierarchyError::DirectoryCreationFailed(e.clone())),
            _ => {
                self.advance();
            },
        }
    }

    /// The result of a replication that is over: the destination subvolume,
    /// with no hierarchy read yet, or the error that stopped it.
    pub fn finish(self) -> (r: Result<Subvolume, HierarchyError>)
        requires
            self.wf(),
            self.stage() == Stage::Done || self.stage() == Stage::Stopped,
        ensures
            self.stage() == Stage::Done ==> r is Ok && r->Ok_0.path@ == self.dest()
                && r->Ok_0.abs_path@ == self.abs_path() && r->Ok_0.hierachy is None,
            self.stage() == Stage::Stopped ==> r is Err && Some(r->Err_0) == self.error(),
    {
        match self.error {
            Some(e) => Err(e),
            None => Ok(Subvolume { path: self.dest, abs_path: self.abs_path, hierachy: None }),
        }
    }
}

} // verus!
