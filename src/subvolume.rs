//! Subvolume handles and the kinds of node in a hierarchy.

use vstd::prelude::*;
use crate::discovery::{ancestor_closed_list, by_depth, lemma_node_list_closed, lists_exactly, Discovery};
use crate::paths::is_clean_rel;
use crate::replication::{Replication, Stage};
use crate::tool::{show_result, HierarchyError, ToolOutcome};

verus! {

/// The kind of one node of a hierarchy.
#[derive(Debug, Clone, Copy, PartialEq, Eq, Structural)]
pub enum FileType {
    /// A plain directory.
    Directory,
    /// A subvolume, which can be snapshotted on its own.
    Subvolume,
}

/// The absolute path that a run of `show` resolves to, or the error it
/// stands for.
pub open spec fn resolved(out: ToolOutcome) -> Result<Seq<char>, HierarchyError> {
    match out {
        ToolOutcome::Succeeded(s) => match crate::tool::shown_path(s@) {
            Some(p) => Ok(p),
            None => Err(HierarchyError::NotASubvolume(s)),
        },
        ToolOutcome::Failed(e) => Err(HierarchyError::NotASubvolume(e)),
        ToolOutcome::Unavailable(e) => Err(HierarchyError::ExternalToolUnavailable(e)),
    }
}

/// A subvolume reached through a local path, with its absolute path on the
/// volume and, once discovered, its hierarchy: the nodes below it, each a
/// path relative to it and a kind, shorter paths first.
pub struct Subvolume {
    pub path: String,
    pub abs_path: String,
    pub hierachy: Option<Vec<(String, FileType)>>,
}

impl Subvolume {
    /// The subvolume at the local path `path`, given what `show` reported
    /// for that path. Fails with the error the report stands for.
    pub fn from(path: String, show: &ToolOutcome) -> (r: Result<Subvolume, HierarchyError>)
        ensures
            match resolved(*show) {
                Ok(p) => r is Ok && r->Ok_0.path@ == path@ && r->Ok_0.abs_path@ == p
                    && r->Ok_0.hierachy is None,
                Err(e) => r is Err && r->Err_0 == e,
            },
    {
        match show_result(show) {
            Ok(abs_path) => Ok(Subvolume { path, abs_path, hierachy: None }),
            Err(e) => Err(e),
        }
    }

    /// A replication of `hierachy` below the local path `path`, which is
    /// made a subvolume first if it is not one yet.
    pub fn create(path: String, hierachy: Vec<(String, FileType)>) -> (r: Replication)
        ensures
            r.wf(),
            r.dest() == path@,
            r.nodes() == hierachy@,
            r.stage() == Stage::ProbeRoot,
            r.next_index() == 0,
    {
        Replication::new(path, hierachy)
    }

    /// A discovery of the hierarchy below this subvolume.
    pub fn start_discovery(&self) -> (d: Discovery)
        ensures
            d.wf(),
            d.root_path() == self.abs_path@,
            d.kinds() == Map::<Seq<char>, FileType>::empty(),
            d.pending() == seq![(self.path@, Seq::<char>::empty())],
    {
        Discovery::new(self.path.clone(), self.abs_path.clone())
    }

    /// Stores the hierarchy that the complete `discovery` of this
    /// subvolume found: each path once, with its kind, every proper
    /// ancestor of a node present too, and shorter paths first.
    pub fn read_hierarchy(&mut self, discovery: &Discovery)
        requires
            discovery.wf(),
            discovery.root_path() == old(self).abs_path@,
            discovery.pending().len() == 0,
        ensures
            final(self).path == old(self).path,
            final(self).abs_path == old(self).abs_path,
            final(self).hierachy is Some,
            lists_exactly(final(self).hierachy->0@, discovery.kinds()),
            by_depth(final(self).hierachy->0@),
            ancestor_closed_list(final(self).hierachy->0@),
            forall|i: int| 0 <= i < final(self).hierachy->0@.len()
                ==> is_clean_rel(#[trigger] final(self).hierachy->0@[i].0@),
    {
        let v = discovery.nodes();
        proof {
            lemma_node_list_closed(v@, discovery.kinds());
        }
        self.hierachy = Some(v);
    }
}

} // verus!
