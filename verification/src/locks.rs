//! Advisory locks as the sessions see them, and what the sessions' protocol
//! guarantees under them.
//!
//! A lock file is held shared by any number of holders or exclusively by
//! one, never both. The door's lock is a barrier between play, which takes
//! it shared, and maintenance, which takes it exclusively; a node's lock
//! marks the node as claimed.

use crate::action::DoorEvent;
use crate::door::{Maintenance, MaintenanceStateView, Session, SessionStateView};
use crate::error::DoorErrorView;
use vstd::prelude::*;

verus! {

/// The two ways to hold a lock.
#[derive(Debug, Clone, Copy, PartialEq, Eq, Structural)]
pub enum LockMode {
    Shared,
    Exclusive,
}

/// Who holds a lock file: how many hold it shared, and whether one holds it
/// exclusively.
#[derive(Debug, Clone, Copy, PartialEq, Eq, Structural)]
pub struct LockFile {
    pub shared: usize,
    pub exclusive: bool,
}

impl LockFile {
    /// The rule of advisory locks: nobody holds a file shared while another
    /// holds it exclusively.
    pub open spec fn wf(self) -> bool {
        !(self.exclusive && self.shared > 0)
    }

    /// Whether nobody holds the file.
    pub open spec fn is_free(self) -> bool {
        !self.exclusive && self.shared == 0
    }

    /// Whether a request is granted: a shared one unless the file is held
    /// exclusively, an exclusive one only where nobody holds the file.
    pub open spec fn grants(self, mode: LockMode) -> bool {
        match mode {
            LockMode::Shared => !self.exclusive && self.shared < usize::MAX,
            LockMode::Exclusive => self.is_free(),
        }
    }

    /// The file with one more holder.
    pub open spec fn locked(self, mode: LockMode) -> LockFile {
        match mode {
            LockMode::Shared => LockFile { shared: (self.shared + 1) as usize, ..self },
            LockMode::Exclusive => LockFile { exclusive: true, ..self },
        }
    }

    /// The file with one holder less.
    pub open spec fn unlocked(self, mode: LockMode) -> LockFile {
        match mode {
            LockMode::Shared => if self.shared > 0 {
                LockFile { shared: (self.shared - 1) as usize, ..self }
            } else {
                self
            },
            LockMode::Exclusive => LockFile { exclusive: false, ..self },
        }
    }

    /// What the one who asks for the lock is told.
    pub open spec fn answer(self, mode: LockMode) -> DoorEvent {
        if self.grants(mode) {
            DoorEvent::Acquired
        } else {
            DoorEvent::Refused
        }
    }

    /// A lock file that nobody holds.
    pub fn new() -> (file: LockFile)
        ensures
            file.is_free(),
            file.wf(),
    {
        LockFile { shared: 0, exclusive: false }
    }

    /// Asks for the lock without waiting. A request that is refused changes
    /// nothing.
    pub fn try_lock(&mut self, mode: LockMode) -> (granted: bool)
        ensures
            granted == old(self).grants(mode),
            *final(self) == if granted {
                old(self).locked(mode)
            } else {
                *old(self)
            },
            old(self).wf() ==> final(self).wf(),
    {
        match mode {
            LockMode::Shared => {
                if !self.exclusive && self.shared < usize::MAX {
                    self.shared = self.shared + 1;
                    true
                } else {
                    false
                }
            },
            LockMode::Exclusive => {
                if !self.exclusive && self.shared == 0 {
                    self.exclusive = true;
                    true
                } else {
                    false
                }
            },
        }
    }

    /// Gives a lock back.
    pub fn unlock(&mut self, mode: LockMode)
        ensures
            *final(self) == old(self).unlocked(mode),
            old(self).wf() ==> final(self).wf(),
    {
        match mode {
            LockMode::Shared => {
                if self.shared > 0 {
                    self.shared = self.shared - 1;
                }
            },
            LockMode::Exclusive => {
                self.exclusive = false;
            },
        }
    }
}

/// Play and maintenance exclude each other: while a play session holds the
/// door's lock shared, a request for maintenance is refused and ends with
/// `DoorBusy`, whether it would have waited or not.
pub proof fn lemma_play_excludes_maintenance(run: Maintenance, door: LockFile)
    requires
        door.wf(),
        door.shared > 0,
    ensures
        !door.grants(LockMode::Exclusive),
        run.spec_step(MaintenanceStateView::DoorLockAttempt, door.answer(LockMode::Exclusive)).0
            == MaintenanceStateView::Failed(DoorErrorView::DoorBusy { door: run.door.name@ }),
{
}

/// Maintenance and play exclude each other: while a maintenance run holds
/// the door's lock, a request to play is refused and ends with `DoorBusy`,
/// and so does another request for maintenance.
pub proof fn lemma_maintenance_excludes_all(session: Session, run: Maintenance, door: LockFile)
    requires
        door.wf(),
        door.exclusive,
    ensures
        !door.grants(LockMode::Shared),
        !door.grants(LockMode::Exclusive),
        session.spec_step(SessionStateView::Idle, door.answer(LockMode::Shared)).0
            == SessionStateView::Failed(DoorErrorView::DoorBusy { door: session.door.name@ }),
        run.spec_step(MaintenanceStateView::DoorLockAttempt, door.answer(LockMode::Exclusive)).0
            == MaintenanceStateView::Failed(DoorErrorView::DoorBusy { door: run.door.name@ }),
{
}

/// The locks of a door's nodes: the lock of node `n` stands at `n - 1`.
pub type NodeLocks = Seq<LockFile>;

/// Whether the locks are those of the nodes of the session's door.
pub open spec fn locks_of(session: Session, nodes: NodeLocks) -> bool {
    nodes.len() == session.door.options.max_nodes
}

/// Whether every node from `from` up to but not including `to` is held.
pub open spec fn all_held(nodes: NodeLocks, from: int, to: int) -> bool {
    forall|i: int| from - 1 <= i < to - 1 ==> !(#[trigger] nodes[i]).is_free()
}

/// Whether `node` is the lowest free node.
pub open spec fn lowest_free(nodes: NodeLocks, node: int) -> bool {
    &&& 1 <= node <= nodes.len()
    &&& nodes[node - 1].is_free()
    &&& all_held(nodes, 1, node)
}

/// Where the scan of the nodes ends when it stands at `node` and the locks
/// answer: with the claim of the first node whose lock is granted.
pub open spec fn spec_scan_from(session: Session, nodes: NodeLocks, node: int) -> SessionStateView
    decreases session.door.options.max_nodes - node,
{
    if 1 <= node <= session.door.options.max_nodes {
        let next = session.spec_step(
            SessionStateView::NodeScanning { node: node as i8 },
            nodes[node - 1].answer(LockMode::Exclusive),
        ).0;
        if next is NodeScanning {
            spec_scan_from(session, nodes, node + 1)
        } else {
            next
        }
    } else {
        SessionStateView::Failed(DoorErrorView::AllNodesBusy { door: session.door.name@ })
    }
}

/// Where a session stands once it has the door's lock and has scanned the
/// nodes.
pub open spec fn spec_claim(session: Session, nodes: NodeLocks) -> SessionStateView {
    let next = session.spec_step(SessionStateView::Idle, DoorEvent::Acquired).0;
    if next is NodeScanning {
        spec_scan_from(session, nodes, 1)
    } else {
        next
    }
}

/// The scan claims the lowest free node at or above the node it stands at,
/// and ends with `AllNodesBusy` where there is none.
pub proof fn lemma_scan_from(session: Session, nodes: NodeLocks, node: int)
    requires
        locks_of(session, nodes),
        1 <= node,
    ensures
        match spec_scan_from(session, nodes, node) {
            SessionStateView::NodeClaimed { node: claimed } => {
                &&& node <= claimed <= nodes.len()
                &&& nodes[claimed - 1].is_free()
                &&& all_held(nodes, node, claimed as int)
            },
            SessionStateView::Failed(error) => {
                &&& error == DoorErrorView::AllNodesBusy { door: session.door.name@ }
                &&& all_held(nodes, node, nodes.len() as int + 1)
            },
            _ => false,
        },
    decreases session.door.options.max_nodes + 1 - node,
{
    if node <= session.door.options.max_nodes {
        if !nodes[node - 1].is_free() {
            lemma_scan_from(session, nodes, node + 1);
        }
    }
}

/// Node selection is deterministic: a session that gets the door's lock
/// claims the lowest free node, whatever else is free; it ends with
/// `AllNodesBusy` exactly where no node is free.
pub proof fn lemma_claim_lowest_free(session: Session, nodes: NodeLocks)
    requires
        locks_of(session, nodes),
    ensures
        forall|node: int| #[trigger]
            lowest_free(nodes, node) ==> spec_claim(session, nodes)
                == (SessionStateView::NodeClaimed { node: node as i8 }),
        all_held(nodes, 1, nodes.len() as int + 1) <==> spec_claim(session, nodes)
            == SessionStateView::Failed(
            DoorErrorView::AllNodesBusy { door: session.door.name@ },
        ),
        spec_claim(session, nodes) is NodeClaimed || spec_claim(session, nodes)
            == SessionStateView::Failed(
            DoorErrorView::AllNodesBusy { door: session.door.name@ },
        ),
{
    lemma_scan_from(session, nodes, 1);
    assert forall|node: int| #[trigger]
        lowest_free(nodes, node) implies spec_claim(session, nodes)
        == (SessionStateView::NodeClaimed { node: node as i8 }) by {
        match spec_claim(session, nodes) {
            SessionStateView::NodeClaimed { node: claimed } => {
                if claimed < node {
                    assert(!nodes[claimed - 1].is_free());
                } else if node < claimed {
                    assert(!nodes[node - 1].is_free());
                }
            },
            _ => {
                assert(!nodes[node - 1].is_free());
            },
        }
    }
    if spec_claim(session, nodes) is NodeClaimed {
        let claimed = spec_claim(session, nodes)->NodeClaimed_node;
        assert(nodes[claimed - 1].is_free());
    }
}

/// The locks after a session has claimed what it could: the claimed node's
/// lock is held exclusively, and nothing else has changed.
pub open spec fn spec_after_claim(session: Session, nodes: NodeLocks) -> NodeLocks {
    match spec_claim(session, nodes) {
        SessionStateView::NodeClaimed { node } => nodes.update(
            node - 1,
            nodes[node - 1].locked(LockMode::Exclusive),
        ),
        _ => nodes,
    }
}

/// The locks after `count` sessions, one after the other, have each claimed
/// what they could and still hold it.
pub open spec fn spec_after_claims(session: Session, nodes: NodeLocks, count: nat) -> NodeLocks
    decreases count,
{
    if count == 0 {
        nodes
    } else {
        spec_after_claim(session, spec_after_claims(session, nodes, (count - 1) as nat))
    }
}

/// The number of nodes that are held exclusively.
pub open spec fn holders(nodes: NodeLocks) -> nat
    decreases nodes.len(),
{
    if nodes.len() == 0 {
        0
    } else {
        holders(nodes.drop_last()) + if nodes.last().exclusive {
            1nat
        } else {
            0nat
        }
    }
}

/// A door never has more holders of node locks than it has nodes.
pub proof fn lemma_holders_bounded(nodes: NodeLocks)
    ensures
        holders(nodes) <= nodes.len(),
    decreases nodes.len(),
{
    if nodes.len() > 0 {
        lemma_holders_bounded(nodes.drop_last());
    }
}

/// Whether the nodes 1 to `count` are held exclusively and all above are
/// free.
pub open spec fn filled_to(nodes: NodeLocks, count: int) -> bool {
    forall|i: int|
        0 <= i < nodes.len() ==> (#[trigger] nodes[i]) == if i < count {
            LockFile { shared: 0, exclusive: true }
        } else {
            LockFile { shared: 0, exclusive: false }
        }
}

/// Nodes that are held from 1 to `count` have `count` holders.
pub proof fn lemma_holders_filled(nodes: NodeLocks, count: int)
    requires
        0 <= count <= nodes.len(),
        filled_to(nodes, count),
    ensures
        holders(nodes) == count,
    decreases nodes.len(),
{
    if nodes.len() > 0 {
        let front = nodes.drop_last();
        let last = nodes.len() - 1;
        assert(nodes[last] == nodes.last());
        assert forall|i: int| 0 <= i < front.len() implies (#[trigger] front[i]) == if i < count {
            LockFile { shared: 0, exclusive: true }
        } else {
            LockFile { shared: 0, exclusive: false }
        } by {
            assert(front[i] == nodes[i]);
        }
        if count == nodes.len() {
            assert forall|i: int| 0 <= i < front.len() implies (#[trigger] front[i]) == if i
                < count - 1 {
                LockFile { shared: 0, exclusive: true }
            } else {
                LockFile { shared: 0, exclusive: false }
            } by {
                assert(front[i] == nodes[i]);
            }
            lemma_holders_filled(front, count - 1);
        } else {
            lemma_holders_filled(front, count);
        }
    }
}

/// Of a door with `N` nodes that are all free, sessions that claim one after
/// the other get the nodes 1, 2, and so on to `N`, each the node after the
/// one before; those that come after the `N`th end with `AllNodesBusy`, and
/// the locks stay as they are.
pub proof fn lemma_claims_fill(session: Session, nodes: NodeLocks, count: nat)
    requires
        locks_of(session, nodes),
        filled_to(nodes, 0),
    ensures
        locks_of(session, spec_after_claims(session, nodes, count)),
        filled_to(
            spec_after_claims(session, nodes, count),
            if count <= nodes.len() {
                count as int
            } else {
                nodes.len() as int
            },
        ),
        spec_claim(session, spec_after_claims(session, nodes, count)) == if count < nodes.len() {
            SessionStateView::NodeClaimed { node: (count + 1) as i8 }
        } else {
            SessionStateView::Failed(DoorErrorView::AllNodesBusy { door: session.door.name@ })
        },
        holders(spec_after_claims(session, nodes, count)) == if count <= nodes.len() {
            count
        } else {
            nodes.len()
        },
    decreases count,
{
    let now = spec_after_claims(session, nodes, count);
    lemma_claims_fill_locks(session, nodes, count);
    lemma_holders_filled(
        now,
        if count <= nodes.len() {
            count as int
        } else {
            nodes.len() as int
        },
    );
    lemma_claim_lowest_free(session, now);
    if count < nodes.len() {
        assert(now[count as int] == LockFile { shared: 0, exclusive: false });
        assert(lowest_free(now, count as int + 1)) by {
            assert forall|i: int| 0 <= i < count implies !(#[trigger] now[i]).is_free() by {
                assert(now[i] == LockFile { shared: 0, exclusive: true });
            }
        }
    } else {
        assert forall|i: int| 0 <= i < now.len() implies !(#[trigger] now[i]).is_free() by {
            assert(now[i] == LockFile { shared: 0, exclusive: true });
        }
    }
}

/// The locks after `count` claims of a door whose nodes were all free: the
/// nodes 1 to `count` are held, as far as the door has nodes.
proof fn lemma_claims_fill_locks(session: Session, nodes: NodeLocks, count: nat)
    requires
        locks_of(session, nodes),
        filled_to(nodes, 0),
    ensures
        locks_of(session, spec_after_claims(session, nodes, count)),
        filled_to(
            spec_after_claims(session, nodes, count),
            if count <= nodes.len() {
                count as int
            } else {
                nodes.len() as int
            },
        ),
    decreases count,
{
    let now = spec_after_claims(session, nodes, count);
    if count > 0 {
        let before = spec_after_claims(session, nodes, (count - 1) as nat);
        lemma_claims_fill_locks(session, nodes, (count - 1) as nat);
        lemma_claim_lowest_free(session, before);
        if count - 1 < nodes.len() {
            assert(before[count - 1] == LockFile { shared: 0, exclusive: false });
            assert(lowest_free(before, count as int)) by {
                assert forall|i: int| 0 <= i < count - 1 implies !(#[trigger] before[i]).is_free() by {
                    assert(before[i] == LockFile { shared: 0, exclusive: true });
                }
            }
        } else {
            assert forall|i: int| 0 <= i < before.len() implies !(#[trigger] before[i]).is_free() by {
                assert(before[i] == LockFile { shared: 0, exclusive: true });
            }
        }
        if count - 1 < nodes.len() {
            assert(now == before.update(count - 1, before[count - 1].locked(LockMode::Exclusive)));
            assert(before[count - 1] == LockFile { shared: 0, exclusive: false });
            assert forall|i: int| 0 <= i < now.len() implies (#[trigger] now[i]) == if i < count {
                LockFile { shared: 0, exclusive: true }
            } else {
                LockFile { shared: 0, exclusive: false }
            } by {
                if i != count - 1 {
                    assert(now[i] == before[i]);
                }
            }
        } else {
            assert(now == before);
        }
    }
}

/// Once a node of a door whose nodes are all claimed is given back, the
/// next session claims that node.
pub proof fn lemma_reclaim(session: Session, nodes: NodeLocks, node: int)
    requires
        locks_of(session, nodes),
        filled_to(nodes, nodes.len() as int),
        1 <= node <= nodes.len(),
    ensures
        spec_claim(session, nodes.update(node - 1, nodes[node - 1].unlocked(LockMode::Exclusive)))
            == (SessionStateView::NodeClaimed { node: node as i8 }),
{
    let after = nodes.update(node - 1, nodes[node - 1].unlocked(LockMode::Exclusive));
    assert(nodes[node - 1] == LockFile { shared: 0, exclusive: true });
    assert(lowest_free(after, node)) by {
        assert forall|i: int| 0 <= i < node - 1 implies !(#[trigger] after[i]).is_free() by {
            assert(after[i] == nodes[i]);
            assert(nodes[i] == LockFile { shared: 0, exclusive: true });
        }
    }
    lemma_claim_lowest_free(session, after);
}

} // verus!
