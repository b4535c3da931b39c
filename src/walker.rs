//! The depth-first walk of a device's routing graph.
//!
//! The walk never touches the platform itself: it says which read it needs
//! next (`next_request`) and is handed the platform's answer (`accept_*`).
//! Nodes are named by handles, integers that the caller chooses.
use vstd::prelude::*;
use vstd::seq_lib::*;
use vstd::set_lib::*;
use crate::labels::{
    ConnectorKind, DataFlow, Direction, PartType, connector_kind_from_code, connector_kind_spec,
    direction_for, expansion_direction, part_type_spec,
};
use crate::node::{NodeInfo, NodeReads, ReadFailure, describe, describes, field_failure};

verus! {

/// Status code with which the platform answers a peer query on a connector
/// that is wired to nothing.
pub const NOT_CONNECTED: i32 = -2147023728;

/// A node waiting to be described. Roots have no parent.
#[derive(Clone, Copy, Debug, PartialEq, Eq, Structural)]
pub struct Pending {
    pub handle: u64,
    pub parent: Option<usize>,
}

/// What the walk waits for about the node it recorded last.
#[derive(Clone, Copy, Debug, PartialEq, Eq, Structural)]
pub enum Phase {
    Ready,
    AwaitConnector,
    AwaitChildren,
}

/// The next platform read the walk needs.
#[derive(Clone, Copy, Debug, PartialEq, Eq, Structural)]
pub enum Request {
    /// Read the fields of this node and hand them to `accept_node`.
    Describe { handle: u64 },
    /// Read this connector's kind and peer and hand them to `accept_connector`.
    ReadConnector { handle: u64 },
    /// Enumerate this node's parts in `direction`, give each a fresh handle
    /// and hand them to `accept_children` in enumeration order.
    Expand { handle: u64, direction: Direction },
    /// The walk is over.
    Done,
}

/// The platform's answers about a connector: its kind, and the global id of
/// the connector it is wired to.
pub struct ConnectorRead {
    pub kind: Result<i32, ReadFailure>,
    pub peer: Result<String, ReadFailure>,
}

#[derive(Debug)]
pub struct ConnectorInfo {
    pub kind: ConnectorKind,
    /// Global id of the peer connector; absent when unconnected.
    pub peer: Option<String>,
}

/// One visited node, in visiting order.
#[derive(Debug)]
pub struct NodeEntry {
    pub handle: u64,
    /// Position of the entry whose expansion produced this node.
    pub parent: Option<usize>,
    pub info: NodeInfo,
    /// Present on terminal connectors whose kind could be read.
    pub connector: Option<ConnectorInfo>,
}

/// A failure met during the walk; the walk goes on past each.
#[derive(Debug)]
pub enum Diagnostic {
    NodeUnreadable { handle: u64, failure: ReadFailure },
    ConnectorUnreadable { handle: u64, failure: ReadFailure },
    ChildrenUnreadable { handle: u64, failure: ReadFailure },
    /// A node whose global id was already visited; it is not expanded again.
    CycleDetected { handle: u64, global_id: String },
}

/// What a finished walk gathered: the visited nodes in pre-order, and the
/// failures met on the way.
#[derive(Debug)]
pub struct TopologyReport {
    pub nodes: Vec<NodeEntry>,
    pub diagnostics: Vec<Diagnostic>,
}

pub struct Walker {
    pub flow: DataFlow,
    pub state: u32,
    /// Nodes still to describe; the last one is next.
    pub stack: Vec<Pending>,
    pub phase: Phase,
    pub entries: Vec<NodeEntry>,
    pub diagnostics: Vec<Diagnostic>,
}

pub open spec fn parent_before(parent: Option<usize>, pos: int) -> bool {
    parent is Some ==> parent->0 < pos
}

/// What the walk records of a connector from the platform's answers.
pub open spec fn connector_outcome(read: ConnectorRead) -> Option<ConnectorInfo> {
    match read.kind {
        Ok(k) => Some(
            ConnectorInfo {
                kind: connector_kind_spec(k),
                peer: match read.peer {
                    Ok(p) => Some(p),
                    Err(_) => None,
                },
            },
        ),
        Err(_) => None,
    }
}

/// The failures reported for a connector's answers; an unconnected peer is none.
pub open spec fn connector_diagnostics(handle: u64, read: ConnectorRead) -> Seq<Diagnostic> {
    match read.kind {
        Err(f) => seq![Diagnostic::ConnectorUnreadable { handle, failure: f }],
        Ok(_) => match read.peer {
            Err(f) => if f.code == NOT_CONNECTED {
                Seq::empty()
            } else {
                seq![Diagnostic::ConnectorUnreadable { handle, failure: f }]
            },
            Ok(_) => Seq::empty(),
        },
    }
}

/// `after` is `before` once the node on top of its stack was answered with `reads`.
pub open spec fn node_answered(before: Walker, reads: NodeReads, after: Walker) -> bool {
    &&& after.advanced_from(before)
    &&& after.flow == before.flow
    &&& after.state == before.state
    &&& after.stack@ == before.stack@.drop_last()
    &&& field_failure(reads) is Some ==> {
        &&& after.entries@ == before.entries@
        &&& after.phase == Phase::Ready
        &&& after.diagnostics@ == before.diagnostics@.push(
            Diagnostic::NodeUnreadable {
                handle: before.stack@.last().handle,
                failure: field_failure(reads)->0,
            }
        )
    }
    &&& field_failure(reads) is None && before.visited(reads.global_id->Ok_0@) ==> {
        &&& after.entries@ == before.entries@
        &&& after.phase == Phase::Ready
        &&& after.diagnostics@ == before.diagnostics@.push(
            Diagnostic::CycleDetected {
                handle: before.stack@.last().handle,
                global_id: reads.global_id->Ok_0,
            }
        )
    }
    &&& field_failure(reads) is None && !before.visited(reads.global_id->Ok_0@) ==> {
        let e = after.entries@.last();
        &&& after.entries@.drop_last() == before.entries@
        &&& after.entries@.len() == before.entries@.len() + 1
        &&& e.handle == before.stack@.last().handle
        &&& e.parent == before.stack@.last().parent
        &&& describes(e.info, reads)
        &&& e.connector is None
        &&& after.diagnostics@ == before.diagnostics@
        &&& after.phase == if e.parent is Some && part_type_spec(
            reads.part_type->Ok_0,
        ) == PartType::Connector {
            Phase::AwaitConnector
        } else {
            Phase::AwaitChildren
        }
    }
}

/// `after` is `before` once its last connector was answered with `read`.
pub open spec fn connector_answered(before: Walker, read: ConnectorRead, after: Walker) -> bool {
    &&& after.advanced_from(before)
    &&& after.flow == before.flow
    &&& after.state == before.state
    &&& after.stack@ == before.stack@
    &&& after.phase == Phase::Ready
    &&& after.entries@.len() == before.entries@.len()
    &&& after.entries@.drop_last() == before.entries@.drop_last()
    &&& after.entries@.last().handle == before.entries@.last().handle
    &&& after.entries@.last().parent == before.entries@.last().parent
    &&& after.entries@.last().info == before.entries@.last().info
    &&& after.entries@.last().connector == connector_outcome(read)
    &&& after.diagnostics@ == before.diagnostics@ + connector_diagnostics(
        before.entries@.last().handle,
        read,
    )
}

/// `after` is `before` once the expansion of its last entry was answered with `read`.
pub open spec fn children_answered(
    before: Walker,
    read: Result<Vec<u64>, ReadFailure>,
    after: Walker,
) -> bool {
    &&& after.advanced_from(before)
    &&& after.flow == before.flow
    &&& after.state == before.state
    &&& after.phase == Phase::Ready
    &&& after.entries@ == before.entries@
    &&& read is Err ==> {
        &&& after.stack@ == before.stack@
        &&& after.diagnostics@ == before.diagnostics@.push(
            Diagnostic::ChildrenUnreadable {
                handle: before.entries@.last().handle,
                failure: read->Err_0,
            }
        )
    }
    &&& read is Ok ==> {
        let kids = read->Ok_0@;
        let n = before.stack@.len();
        &&& after.diagnostics@ == before.diagnostics@
        &&& after.stack@.len() == n + kids.len()
        &&& after.stack@.subrange(0, n as int) == before.stack@
        &&& forall|i: int|
            #![trigger kids[i]]
            0 <= i < kids.len() ==> after.stack@[n + kids.len() - 1 - i] == (Pending {
                handle: kids[i],
                parent: Some((before.entries@.len() - 1) as usize),
            })
    }
}

impl Walker {
    /// Nodes hold their parent's position below their own, global ids are
    /// distinct, and a pending phase belongs to the last entry.
    pub open spec fn wf(self) -> bool {
        &&& forall|i: int|
            0 <= i < self.entries@.len() ==> parent_before(#[trigger] self.entries@[i].parent, i)
        &&& forall|i: int, j: int|
            0 <= i < j < self.entries@.len() ==> (#[trigger] self.entries@[i]).info.global_id@
                != (#[trigger] self.entries@[j]).info.global_id@
        &&& forall|k: int|
            0 <= k < self.stack@.len() ==> parent_before(
                #[trigger] self.stack@[k].parent,
                self.entries@.len() as int,
            )
        &&& self.phase != Phase::Ready ==> self.entries@.len() > 0
        &&& self.phase == Phase::AwaitConnector ==> self.entries@.last().info.part_type
            == PartType::Connector
    }

    pub open spec fn request_of(self) -> Request {
        match self.phase {
            Phase::AwaitConnector => Request::ReadConnector { handle: self.entries@.last().handle },
            Phase::AwaitChildren => Request::Expand {
                handle: self.entries@.last().handle,
                direction: expansion_direction(self.flow),
            },
            Phase::Ready => if self.stack@.len() == 0 {
                Request::Done
            } else {
                Request::Describe { handle: self.stack@.last().handle }
            },
        }
    }

    /// Some entry carries the global id `gid`.
    pub open spec fn visited(self, gid: Seq<char>) -> bool {
        exists|i: int| 0 <= i < self.entries@.len() && (#[trigger] self.entries@[i]).info.global_id@ == gid
    }

    /// The shape of one answered request: a new entry that awaits more reads,
    /// a finished entry, or a pending node dropped.
    pub open spec fn advanced_from(self, before: Walker) -> bool {
        ||| (self.entries@.len() == before.entries@.len() + 1 && before.phase == Phase::Ready
            && self.phase != Phase::Ready)
        ||| (self.entries@.len() == before.entries@.len() && before.phase != Phase::Ready
            && self.phase == Phase::Ready)
        ||| (self.entries@.len() == before.entries@.len() && before.phase == Phase::Ready
            && self.phase == Phase::Ready && self.stack@.len() < before.stack@.len())
    }

    /// A walk of the graph reached from `roots`, in order.
    pub fn new(flow: DataFlow, state: u32, roots: &Vec<u64>) -> (r: Walker)
        ensures
            r.wf(),
            r.flow == flow,
            r.state == state,
            r.phase == Phase::Ready,
            r.entries@.len() == 0,
            r.diagnostics@.len() == 0,
            r.stack@.len() == roots@.len(),
            forall|i: int|
                0 <= i < roots@.len() ==> r.stack@[roots@.len() - 1 - i] == (Pending {
                    handle: roots@[i],
                    parent: None,
                }),
    {
        let mut stack: Vec<Pending> = Vec::new();
        let mut k: usize = roots.len();
        while k > 0
            invariant
                k <= roots@.len(),
                stack@.len() == roots@.len() - k,
                forall|j: int| 0 <= j < stack@.len() ==> (#[trigger] stack@[j]).parent is None,
                forall|i: int|
                    k <= i < roots@.len() ==> stack@[roots@.len() - 1 - i] == (Pending {
                        handle: roots@[i],
                        parent: None,
                    }),
            decreases k,
        {
            k = k - 1;
            stack.push(Pending { handle: roots[k], parent: None });
        }
        Walker {
            flow,
            state,
            stack,
            phase: Phase::Ready,
            entries: Vec::new(),
            diagnostics: Vec::new(),
        }
    }

    /// The read the walk needs next. Expansion always goes in the direction
    /// that the device's flow selects.
    pub fn next_request(&self) -> (r: Request)
        requires
            self.wf(),
        ensures
            r == self.request_of(),
            r matches Request::Expand { direction, .. } ==> direction == expansion_direction(
                self.flow,
            ),
    {
        match self.phase {
            Phase::AwaitConnector => Request::ReadConnector {
                handle: self.entries[self.entries.len() - 1].handle,
            },
            Phase::AwaitChildren => Request::Expand {
                handle: self.entries[self.entries.len() - 1].handle,
                direction: direction_for(self.flow),
            },
            Phase::Ready => if self.stack.len() == 0 {
                Request::Done
            } else {
                Request::Describe { handle: self.stack[self.stack.len() - 1].handle }
            },
        }
    }

    fn has_visited(&self, gid: &String) -> (r: bool)
        ensures
            r == self.visited(gid@),
    {
        let mut i: usize = 0;
        while i < self.entries.len()
            invariant
                i <= self.entries@.len(),
                forall|j: int| 0 <= j < i ==> self.entries@[j].info.global_id@ != gid@,
            decreases self.entries@.len() - i,
        {
            if self.entries[i].info.global_id == *gid {
                return true;
            }
            i = i + 1;
        }
        false
    }
    /// Takes the answers about the node on top of the stack. A node whose
    /// fields cannot be read, or whose global id was already visited, is
    /// reported and dropped. Otherwise it is recorded; a non-root connector
    /// then awaits its connector reads, any other node its expansion.
    pub fn accept_node(&mut self, reads: NodeReads)
        requires
            old(self).wf(),
            old(self).request_of() is Describe,
        ensures
            final(self).wf(),
            node_answered(*old(self), reads, *final(self)),
    {
        let ghost gid = reads.global_id->Ok_0@;
        let top = self.stack.pop().unwrap();
        proof {
            assert(self.stack@ == old(self).stack@.drop_last());
        }
        match describe(reads) {
            Err(failure) => {
                self.diagnostics.push(Diagnostic::NodeUnreadable { handle: top.handle, failure });
            },
            Ok(info) => {
                if self.has_visited(&info.global_id) {
                    self.diagnostics.push(
                        Diagnostic::CycleDetected { handle: top.handle, global_id: info.global_id },
                    );
                } else {
                    let connector = match info.part_type {
                        PartType::Connector => true,
                        _ => false,
                    };
                    let awaits_connector = connector && top.parent.is_some();
                    let ghost before = self.entries@;
                    self.entries.push(
                        NodeEntry { handle: top.handle, parent: top.parent, info, connector: None },
                    );
                    proof {
                        assert(self.entries@.drop_last() =~= before);
                        assert forall|i: int, j: int|
                            0 <= i < j < self.entries@.len() implies (#[trigger] self.entries@[i]).info.global_id@
                            != (#[trigger] self.entries@[j]).info.global_id@ by {
                            if j == before.len() {
                                assert(before[i] == self.entries@[i]);
                            }
                        }
                        assert forall|k: int| 0 <= k < self.stack@.len() implies parent_before(
                            #[trigger] self.stack@[k].parent,
                            self.entries@.len() as int,
                        ) by {
                            assert(old(self).stack@[k] == self.stack@[k]);
                        }
                    }
                    self.phase =
                    if awaits_connector {
                        Phase::AwaitConnector
                    } else {
                        Phase::AwaitChildren
                    };
                }
            },
        }
        proof {
            assert forall|k: int| 0 <= k < self.stack@.len() implies parent_before(
                #[trigger] self.stack@[k].parent,
                self.entries@.len() as int,
            ) by {
                assert(old(self).stack@[k] == self.stack@[k]);
            }
        }
    }

    /// Takes the answers about the connector recorded last and finishes it.
    /// An unreadable kind leaves it without connector details; a peer query
    /// answered "not connected" leaves it without a peer, silently.
    pub fn accept_connector(&mut self, read: ConnectorRead)
        requires
            old(self).wf(),
            old(self).request_of() is ReadConnector,
        ensures
            final(self).wf(),
            connector_answered(*old(self), read, *final(self)),
    {
        let mut entry = self.entries.pop().unwrap();
        let handle = entry.handle;
        let ghost before = self.diagnostics@;
        match read.kind {
            Err(failure) => {
                entry.connector = None;
                self.diagnostics.push(Diagnostic::ConnectorUnreadable { handle, failure });
                assert(self.diagnostics@ =~= before + connector_diagnostics(handle, read));
            },
            Ok(code) => {
                let peer = match read.peer {
                    Ok(p) => Some(p),
                    Err(failure) => {
                        if failure.code != NOT_CONNECTED {
                            self.diagnostics.push(
                                Diagnostic::ConnectorUnreadable { handle, failure },
                            );
                            assert(self.diagnostics@ =~= before + connector_diagnostics(
                                handle,
                                read,
                            ));
                        } else {
                            assert(self.diagnostics@ =~= before + connector_diagnostics(
                                handle,
                                read,
                            ));
                        }
                        None
                    },
                };
                proof {
                    if read.peer is Ok {
                        assert(self.diagnostics@ =~= before + connector_diagnostics(handle, read));
                    }
                }
                entry.connector = Some(
                    ConnectorInfo { kind: connector_kind_from_code(code), peer },
                );
            },
        }
        let ghost rest = self.entries@;
        self.entries.push(entry);
        self.phase = Phase::Ready;
        proof {
            assert(self.entries@.drop_last() =~= rest);
            assert forall|i: int, j: int|
                0 <= i < j < self.entries@.len() implies (#[trigger] self.entries@[i]).info.global_id@
                != (#[trigger] self.entries@[j]).info.global_id@ by {
                assert(old(self).entries@[i].info == self.entries@[i].info);
                assert(old(self).entries@[j].info == self.entries@[j].info);
            }
            assert forall|i: int| 0 <= i < self.entries@.len() implies parent_before(
                #[trigger] self.entries@[i].parent,
                i,
            ) by {
                assert(old(self).entries@[i].parent == self.entries@[i].parent);
            }
        }
    }

    /// Takes the parts that the expansion of the node recorded last produced,
    /// in enumeration order; they are described next, first part first. A
    /// failed enumeration is reported and the node is left unexpanded.
    pub fn accept_children(&mut self, read: Result<Vec<u64>, ReadFailure>)
        requires
            old(self).wf(),
            old(self).request_of() is Expand,
        ensures
            final(self).wf(),
            children_answered(*old(self), read, *final(self)),
    {
        let parent = self.entries.len() - 1;
        self.phase = Phase::Ready;
        match read {
            Err(failure) => {
                let handle = self.entries[parent].handle;
                self.diagnostics.push(Diagnostic::ChildrenUnreadable { handle, failure });
            },
            Ok(kids) => {
                let n = self.stack.len();
                let mut k: usize = kids.len();
                while k > 0
                    invariant
                        k <= kids@.len(),
                        n == old(self).stack@.len(),
                        parent == old(self).entries@.len() - 1,
                        self.entries@ == old(self).entries@,
                        self.stack@.len() == n + kids@.len() - k,
                        self.stack@.subrange(0, n as int) == old(self).stack@,
                        forall|i: int|
                            k <= i < kids@.len() ==> self.stack@[n + kids@.len() - 1 - i] == (
                            Pending { handle: kids@[i], parent: Some(parent) }),
                        forall|j: int|
                            0 <= j < self.stack@.len() ==> parent_before(
                                #[trigger] self.stack@[j].parent,
                                self.entries@.len() as int,
                            ),
                        self.flow == old(self).flow,
                        self.state == old(self).state,
                        self.phase == Phase::Ready,
                        self.diagnostics@ == old(self).diagnostics@,
                    decreases k,
                {
                    k = k - 1;
                    let ghost before = self.stack@;
                    self.stack.push(Pending { handle: kids[k], parent: Some(parent) });
                    assert(self.stack@.subrange(0, n as int) =~= before.subrange(0, n as int));
                }
            },
        }
    }

    /// Ends a walk that needs nothing more, handing out what it gathered.
    pub fn finish(self) -> (r: TopologyReport)
        requires
            self.request_of() is Done,
        ensures
            r.nodes@ == self.entries@,
            r.diagnostics@ == self.diagnostics@,
    {
        TopologyReport { nodes: self.entries, diagnostics: self.diagnostics }
    }
}

/// Every global id that `w` has recorded lies in `ids`.
pub open spec fn ids_within(w: Walker, ids: Set<Seq<char>>) -> bool {
    forall|i: int| 0 <= i < w.entries@.len() ==> ids.contains((#[trigger] w.entries@[i]).info.global_id@)
}

/// Work left to a walk over a topology whose global ids lie in `ids`: two
/// units per node not yet visited, one for a pending connector read or expansion.
pub open spec fn work_left(w: Walker, ids: Set<Seq<char>>) -> int {
    2 * (ids.len() - w.entries@.len()) + if w.phase == Phase::Ready {
        0int
    } else {
        1int
    }
}

/// Each node is visited at most once: a walk over a topology whose global
/// ids lie in the finite set `ids` records at most `ids.len()` nodes.
pub proof fn lemma_visits_bounded(w: Walker, ids: Set<Seq<char>>)
    requires
        w.wf(),
        ids.finite(),
        ids_within(w, ids),
    ensures
        w.entries@.len() <= ids.len(),
{
    let gids = w.entries@.map_values(|e: NodeEntry| e.info.global_id@);
    assert forall|i: int, j: int| 0 <= i < gids.len() && 0 <= j < gids.len() && i != j implies gids[i]
        != gids[j] by {
        if i < j {
            assert(w.entries@[i].info.global_id@ != w.entries@[j].info.global_id@);
        } else {
            assert(w.entries@[j].info.global_id@ != w.entries@[i].info.global_id@);
        }
    }
    assert(gids.no_duplicates());
    gids.unique_seq_to_set();
    assert forall|g: Seq<char>| gids.to_set().contains(g) implies ids.contains(g) by {
        let i = choose|i: int| 0 <= i < gids.len() && gids[i] == g;
        assert(ids.contains(w.entries@[i].info.global_id@));
    }
    lemma_len_subset(gids.to_set(), ids);
}

/// The walk ends on a finite topology: every answered request either lowers
/// the work left, which never goes below zero, or keeps it and shortens the
/// stack of pending nodes. This holds whatever the graph's shape, cycles included.
pub proof fn lemma_answer_makes_progress(before: Walker, after: Walker, ids: Set<Seq<char>>)
    requires
        before.wf(),
        after.wf(),
        after.advanced_from(before),
        ids.finite(),
        ids_within(after, ids),
    ensures
        work_left(after, ids) >= 0,
        work_left(after, ids) < work_left(before, ids) || (work_left(after, ids) == work_left(
            before,
            ids,
        ) && after.stack@.len() < before.stack@.len()),
{
    lemma_visits_bounded(after, ids);
}

/// Pre-order: an entry's parent was recorded before it.
pub proof fn lemma_parent_reported_first(w: Walker, i: int)
    requires
        w.wf(),
        0 <= i < w.entries@.len(),
        w.entries@[i].parent is Some,
    ensures
        w.entries@[i].parent->0 < i,
{
}

/// Two descriptors hold the same fields.
pub open spec fn same_info(a: NodeInfo, b: NodeInfo) -> bool {
    &&& a.name@ == b.name@
    &&& a.global_id@ == b.global_id@
    &&& a.local_id == b.local_id
    &&& a.sub_type == b.sub_type
    &&& a.part_type == b.part_type
    &&& a.interfaces@ == b.interfaces@
    &&& a.interface_failures@ == b.interface_failures@
}

pub open spec fn same_entry(a: NodeEntry, b: NodeEntry) -> bool {
    &&& a.handle == b.handle
    &&& a.parent == b.parent
    &&& same_info(a.info, b.info)
    &&& a.connector == b.connector
}

/// Two walks that have reached the same point with the same records.
pub open spec fn same_walk(a: Walker, b: Walker) -> bool {
    &&& a.flow == b.flow
    &&& a.state == b.state
    &&& a.stack@ == b.stack@
    &&& a.phase == b.phase
    &&& a.entries@.len() == b.entries@.len()
    &&& forall|i: int|
        0 <= i < a.entries@.len() ==> same_entry(#[trigger] a.entries@[i], b.entries@[i])
    &&& a.diagnostics@ == b.diagnostics@
}

/// Walks started alike are alike.
pub proof fn lemma_start_repeatable(a: Walker, b: Walker, roots: Seq<u64>)
    requires
        a.flow == b.flow,
        a.state == b.state,
        a.phase == Phase::Ready && b.phase == Phase::Ready,
        a.entries@.len() == 0 && b.entries@.len() == 0,
        a.diagnostics@.len() == 0 && b.diagnostics@.len() == 0,
        a.stack@.len() == roots.len() && b.stack@.len() == roots.len(),
        forall|i: int|
            #![trigger roots[i]]
            0 <= i < roots.len() ==> a.stack@[roots.len() - 1 - i] == (Pending {
                handle: roots[i],
                parent: None,
            }) && b.stack@[roots.len() - 1 - i] == (Pending { handle: roots[i], parent: None }),
    ensures
        same_walk(a, b),
{
    assert forall|k: int| 0 <= k < a.stack@.len() implies a.stack@[k] == b.stack@[k] by {
        let i = roots.len() - 1 - k;
        assert(0 <= i < roots.len());
        assert(roots[i] == roots[i]);
        assert(a.stack@[roots.len() - 1 - i] == (Pending { handle: roots[i], parent: None }));
        assert(a.stack@[roots.len() - 1 - i] == b.stack@[roots.len() - 1 - i]);
    }
    assert(a.stack@ =~= b.stack@);
    assert(a.diagnostics@ =~= b.diagnostics@);
}

/// Idempotence of the walk, one answer at a time: two alike walks that get
/// the same answers about a node stay alike. With `lemma_start_repeatable`
/// and the two lemmas that follow, a device walked twice with unchanged
/// answers gives the same report.
pub proof fn lemma_node_answer_repeatable(
    a: Walker,
    b: Walker,
    reads: NodeReads,
    a2: Walker,
    b2: Walker,
)
    requires
        same_walk(a, b),
        a.request_of() is Describe,
        node_answered(a, reads, a2),
        node_answered(b, reads, b2),
    ensures
        same_walk(a2, b2),
{
    if field_failure(reads) is None {
        let gid = reads.global_id->Ok_0@;
        if a.visited(gid) {
            let i = choose|i: int| 0 <= i < a.entries@.len() && (#[trigger] a.entries@[i]).info.global_id@ == gid;
            assert(same_entry(a.entries@[i], b.entries@[i]));
            assert(b.visited(gid));
        } else {
            assert(!b.visited(gid)) by {
                if b.visited(gid) {
                    let i = choose|i: int| 0 <= i < b.entries@.len() && (#[trigger] b.entries@[i]).info.global_id@ == gid;
                    assert(same_entry(a.entries@[i], b.entries@[i]));
                }
            }
            let n = a.entries@.len() as int;
            assert forall|i: int| 0 <= i < a2.entries@.len() implies same_entry(
                #[trigger] a2.entries@[i],
                b2.entries@[i],
            ) by {
                if i < n {
                    assert(a2.entries@[i] == a2.entries@.drop_last()[i]);
                    assert(b2.entries@[i] == b2.entries@.drop_last()[i]);
                    assert(same_entry(a.entries@[i], b.entries@[i]));
                }
            }
        }
    }
}

/// Two alike walks that get the same answers about a connector stay alike.
pub proof fn lemma_connector_answer_repeatable(
    a: Walker,
    b: Walker,
    read: ConnectorRead,
    a2: Walker,
    b2: Walker,
)
    requires
        same_walk(a, b),
        a.wf(),
        a.request_of() is ReadConnector,
        connector_answered(a, read, a2),
        connector_answered(b, read, b2),
    ensures
        same_walk(a2, b2),
{
    let n = a.entries@.len() as int;
    assert(same_entry(a.entries@[n - 1], b.entries@[n - 1]));
    assert forall|i: int| 0 <= i < a2.entries@.len() implies same_entry(
        #[trigger] a2.entries@[i],
        b2.entries@[i],
    ) by {
        if i < n - 1 {
            assert(a2.entries@[i] == a2.entries@.drop_last()[i]);
            assert(b2.entries@[i] == b2.entries@.drop_last()[i]);
            assert(a.entries@[i] == a.entries@.drop_last()[i]);
            assert(b.entries@[i] == b.entries@.drop_last()[i]);
            assert(same_entry(a.entries@[i], b.entries@[i]));
        }
    }
}

/// Two alike walks that get the same parts from an expansion stay alike.
pub proof fn lemma_children_answer_repeatable(
    a: Walker,
    b: Walker,
    read: Result<Vec<u64>, ReadFailure>,
    a2: Walker,
    b2: Walker,
)
    requires
        same_walk(a, b),
        a.wf(),
        a.request_of() is Expand,
        children_answered(a, read, a2),
        children_answered(b, read, b2),
    ensures
        same_walk(a2, b2),
{
    let last = a.entries@.len() - 1;
    assert(same_entry(a.entries@[last], b.entries@[last]));
    if read is Ok {
        let kids = read->Ok_0@;
        let n = a.stack@.len() as int;
        assert forall|k: int| 0 <= k < a2.stack@.len() implies a2.stack@[k] == b2.stack@[k] by {
            if k < n {
                assert(a2.stack@[k] == a2.stack@.subrange(0, n)[k]);
                assert(b2.stack@[k] == b2.stack@.subrange(0, n)[k]);
            } else {
                let i = n + kids.len() - 1 - k;
                assert(0 <= i < kids.len());
                assert(kids[i] == kids[i]);
                assert(a2.stack@[n + kids.len() - 1 - i] == (Pending {
                    handle: kids[i],
                    parent: Some((a.entries@.len() - 1) as usize),
                }));
                assert(a2.stack@[n + kids.len() - 1 - i] == b2.stack@[n + kids.len() - 1 - i]);
            }
        }
        assert(a2.stack@ =~= b2.stack@);
    }
    assert forall|i: int| 0 <= i < a2.entries@.len() implies same_entry(
        #[trigger] a2.entries@[i],
        b2.entries@[i],
    ) by {
        assert(same_entry(a.entries@[i], b.entries@[i]));
    }
}

} // verus!
