//! Per-connection bookkeeping: ID allocation, the objects waiting to receive, and the senders
//! waiting for the I/O lock or for buffer room.
//!
//! A waker is named by a token; whoever drives the connection maps tokens to the tasks to wake.
use vstd::prelude::*;
use crate::primitives::{NewId, NewIdDyn, String, UInt};
use vstd::string::StringSliceAdditionalSpecFns;

verus! {

/// First ID handed out to objects the client creates; 0 is null and 1 the display.
pub const FIRST_CLIENT_ID: u32 = 2;

/// An object waiting to receive: its ID, its most recent waker, and the number of
/// descriptors each of its incoming opcodes carries (`None` for an unknown opcode).
pub struct RecvEntry {
    pub id: u32,
    pub waker: u64,
    pub fd_counts: Vec<usize>,
}

pub struct Registry {
    next_id: u32,
    receivers: Vec<RecvEntry>,
    sender_queue: Vec<u64>,
    sender_locked: Option<u64>,
}

/// Descriptor count of `opcode` in a table indexed by opcode.
pub open spec fn fd_count_of(table: Seq<usize>, opcode: u16) -> Option<usize> {
    if (opcode as int) < table.len() {
        Some(table[opcode as int])
    } else {
        None
    }
}

/// Entry `i` has the smallest ID of all receivers.
pub open spec fn is_first(rs: Seq<RecvEntry>, i: int) -> bool {
    0 <= i < rs.len() && forall|j: int| 0 <= j < rs.len() ==> rs[i].id <= #[trigger] rs[j].id
}

/// `r` is the receiver waker to wake among `rs` on behalf of the task with waker `current`:
/// the waker of the receiver with the smallest ID, unless that is `current` itself, and none
/// when nobody waits.
pub open spec fn recver_to_wake(rs: Seq<RecvEntry>, current: u64, r: Option<u64>) -> bool {
    match r {
        Some(w) => w != current && exists|i: int| #[trigger] is_first(rs, i) && rs[i].waker == w,
        None => rs.len() == 0 || exists|i: int| #[trigger] is_first(rs, i) && rs[i].waker == current,
    }
}

impl Registry {
    /// The waiting receivers, in registration order.
    pub closed spec fn receivers(&self) -> Seq<RecvEntry> {
        self.receivers@
    }

    /// Parked senders, oldest first.
    pub closed spec fn sender_queue(&self) -> Seq<u64> {
        self.sender_queue@
    }

    /// The sender trying to take the I/O lock again, if any.
    pub closed spec fn sender_locked(&self) -> Option<u64> {
        self.sender_locked
    }

    /// The next ID to hand out.
    pub closed spec fn next_id(&self) -> u32 {
        self.next_id
    }

    /// IDs of receivers are distinct; IDs handed out so far start at the first client ID.
    pub closed spec fn wf(&self) -> bool {
        &&& self.next_id >= FIRST_CLIENT_ID
        &&& forall|i: int, j: int|
            0 <= i < j < self.receivers@.len() ==> self.receivers@[i].id != self.receivers@[j].id
    }

    /// The receivers' IDs are pairwise distinct.
    pub proof fn lemma_unique_ids(&self)
        requires
            self.wf(),
        ensures
            forall|i: int, j: int|
                0 <= i < j < self.receivers().len() ==> self.receivers()[i].id != self.receivers()[j].id,
    {
    }

    /// Two receivers with the same ID are the same entry.
    pub proof fn lemma_unique(&self, i: int, j: int)
        requires
            self.wf(),
            0 <= i < self.receivers().len(),
            0 <= j < self.receivers().len(),
            self.receivers()[i].id == self.receivers()[j].id,
        ensures
            i == j,
    {
        if i < j {
            assert(self.receivers@[i].id != self.receivers@[j].id);
        } else if j < i {
            assert(self.receivers@[j].id != self.receivers@[i].id);
        }
    }

    /// Whether `id` is waiting to receive.
    pub open spec fn has(&self, id: u32) -> bool {
        exists|i: int| 0 <= i < self.receivers().len() && #[trigger] self.receivers()[i].id == id
    }

    pub fn new() -> (r: Registry)
        ensures
            r.wf(),
            r.next_id() == FIRST_CLIENT_ID,
            r.receivers().len() == 0,
            r.sender_queue().len() == 0,
            r.sender_locked() is None,
    {
        Registry { next_id: FIRST_CLIENT_ID, receivers: Vec::new(), sender_queue: Vec::new(), sender_locked: None }
    }

    /// Hands out the next client ID. IDs are never reused; once the counter saturates no
    /// ID is left and the result is `None`.
    pub fn new_object(&mut self) -> (r: Option<u32>)
        requires
            old(self).wf(),
        ensures
            final(self).wf(),
            old(self).next_id() < u32::MAX ==> r == Some(old(self).next_id()) && final(self).next_id()
                == old(self).next_id() + 1,
            old(self).next_id() == u32::MAX ==> r is None && final(self).next_id() == u32::MAX,
            final(self).receivers() == old(self).receivers(),
            final(self).sender_queue() == old(self).sender_queue(),
            final(self).sender_locked() == old(self).sender_locked(),
    {
        if self.next_id == u32::MAX {
            return None;
        }
        let id = self.next_id;
        self.next_id = id + 1;
        Some(id)
    }

    /// Hands out the next client ID for an object whose interface the schema leaves open,
    /// announced as interface `name` at `version`. The name goes on the wire with a
    /// terminating zero byte even though `name` has none.
    pub fn new_object_dyn(&mut self, name: &str, version: u32) -> (r: Option<NewIdDyn>)
        requires
            old(self).wf(),
        ensures
            final(self).wf(),
            old(self).next_id() < u32::MAX ==> (r matches Some(d) && d.id.id == old(self).next_id()
                && d.name.bytes@ == name.spec_bytes() && d.version.0 == version) && final(self).next_id()
                == old(self).next_id() + 1,
            old(self).next_id() == u32::MAX ==> r is None && final(self).next_id() == u32::MAX,
            final(self).receivers() == old(self).receivers(),
            final(self).sender_queue() == old(self).sender_queue(),
            final(self).sender_locked() == old(self).sender_locked(),
    {
        match self.new_object() {
            Some(id) => {
                let bytes = vstd::slice::slice_to_vec(name.as_bytes());
                Some(NewIdDyn { name: String { bytes }, version: UInt(version), id: NewId::from_id(id) })
            },
            None => None,
        }
    }

    /// Position of the receiver with ID `id`.
    pub fn find(&self, id: u32) -> (r: Option<usize>)
        requires
            self.wf(),
        ensures
            match r {
                Some(i) => i < self.receivers().len() && self.receivers()[i as int].id == id,
                None => !self.has(id),
            },
    {
        let mut i: usize = 0;
        while i < self.receivers.len()
            invariant
                i <= self.receivers@.len(),
                forall|j: int| 0 <= j < i ==> self.receivers@[j].id != id,
            decreases self.receivers@.len() - i,
        {
            if self.receivers[i].id == id {
                return Some(i);
            }
            i += 1;
        }
        None
    }

    /// Records `waker` as the receiver of `id`: a new entry with its descriptor table, or
    /// the waker replaced in the existing one.
    pub fn register_recv(&mut self, id: u32, waker: u64, fd_counts: Vec<usize>)
        requires
            old(self).wf(),
        ensures
            final(self).wf(),
            final(self).next_id() == old(self).next_id(),
            final(self).sender_queue() == old(self).sender_queue(),
            final(self).sender_locked() == old(self).sender_locked(),
            final(self).has(id),
            old(self).has(id) ==> final(self).receivers().len() == old(self).receivers().len() && forall|i: int|
                0 <= i < old(self).receivers().len() ==> {
                    &&& (#[trigger] final(self).receivers()[i]).id == old(self).receivers()[i].id
                    &&& final(self).receivers()[i].fd_counts@ == old(self).receivers()[i].fd_counts@
                    &&& final(self).receivers()[i].waker == (if old(self).receivers()[i].id == id {
                        waker
                    } else {
                        old(self).receivers()[i].waker
                    })
                },
            !old(self).has(id) ==> final(self).receivers().len() == old(self).receivers().len() + 1
                && final(self).receivers().take(old(self).receivers().len() as int) == old(self).receivers()
                && final(self).receivers().last().id == id
                && final(self).receivers().last().waker == waker
                && final(self).receivers().last().fd_counts@ == fd_counts@,
    {
        match self.find(id) {
            Some(i) => {
                let ghost before = self.receivers@;
                let mut entry = self.receivers.remove(i);
                entry.waker = waker;
                self.receivers.insert(i, entry);
                assert forall|k: int| 0 <= k < before.len() implies {
                    &&& (#[trigger] self.receivers@[k]).id == before[k].id
                    &&& self.receivers@[k].fd_counts@ == before[k].fd_counts@
                    &&& self.receivers@[k].waker == (if before[k].id == id { waker } else { before[k].waker })
                } by {
                    if k != i {
                        assert(before[k].id != id);
                    }
                }
                assert(self.receivers()[i as int].id == id);
            },
            None => {
                let ghost before = self.receivers@;
                self.receivers.push(RecvEntry { id, waker, fd_counts });
                assert(self.receivers@.take(before.len() as int) =~= before);
                assert(self.receivers()[before.len() as int].id == id);
            },
        }
    }

    /// Drops the receiver of `id`, when the object shuts down.
    pub fn remove_recv(&mut self, id: u32)
        requires
            old(self).wf(),
        ensures
            final(self).wf(),
            !final(self).has(id),
            old(self).has(id) ==> exists|i: int| 0 <= i < old(self).receivers().len() && #[trigger] old(self).receivers()[i].id == id
                && final(self).receivers() == old(self).receivers().remove(i),
            !old(self).has(id) ==> final(self).receivers() == old(self).receivers(),
            final(self).next_id() == old(self).next_id(),
            final(self).sender_queue() == old(self).sender_queue(),
            final(self).sender_locked() == old(self).sender_locked(),
            forall|other: u32| other != id ==> (final(self).has(other) == old(self).has(other)),
    {
        match self.find(id) {
            Some(i) => {
                let ghost before = self.receivers@;
                self.receivers.remove(i);
                assert(self.receivers@ =~= before.remove(i as int));
                assert(old(self).receivers()[i as int].id == id);
                assert forall|other: u32| other != id implies (self.has(other) == old(self).has(other)) by {
                    if old(self).has(other) {
                        let k = choose|k: int| 0 <= k < before.len() && #[trigger] old(self).receivers()[k].id == other;
                        assert(k != i);
                        if k < i {
                            assert(self.receivers()[k].id == other);
                        } else {
                            assert(self.receivers()[k - 1].id == other);
                        }
                    }
                    if self.has(other) {
                        let k = choose|k: int| 0 <= k < self.receivers().len() && #[trigger] self.receivers()[k].id == other;
                        if k < i {
                            assert(old(self).receivers()[k].id == other);
                        } else {
                            assert(old(self).receivers()[k + 1].id == other);
                        }
                    }
                }
            },
            None => {},
        }
    }

    /// Waker and descriptor count of the receiver of `id` for `opcode`.
    pub fn lookup(&self, id: u32, opcode: u16) -> (r: Option<(u64, Option<usize>)>)
        requires
            self.wf(),
        ensures
            match r {
                Some((w, n)) => exists|i: int| 0 <= i < self.receivers().len() && {
                    let e = #[trigger] self.receivers()[i];
                    e.id == id && e.waker == w && n == fd_count_of(e.fd_counts@, opcode)
                },
                None => !self.has(id),
            },
    {
        match self.find(id) {
            Some(i) => {
                let e = &self.receivers[i];
                let n = if (opcode as usize) < e.fd_counts.len() {
                    Some(e.fd_counts[opcode as usize])
                } else {
                    None
                };
                Some((e.waker, n))
            },
            None => None,
        }
    }

    /// Parks a sender at the back of the queue.
    pub fn register_send(&mut self, waker: u64)
        requires
            old(self).wf(),
        ensures
            final(self).wf(),
            final(self).sender_queue() == old(self).sender_queue().push(waker),
            final(self).sender_locked() == old(self).sender_locked(),
            final(self).receivers() == old(self).receivers(),
            final(self).next_id() == old(self).next_id(),
    {
        self.sender_queue.push(waker);
    }

    /// Parks a sender that is about to take the I/O lock again: in the locked slot when it is
    /// free, else at the back of the queue.
    pub fn register_send_locked(&mut self, waker: u64)
        requires
            old(self).wf(),
        ensures
            final(self).wf(),
            old(self).sender_locked() is None ==> final(self).sender_locked() == Some(waker)
                && final(self).sender_queue() == old(self).sender_queue(),
            old(self).sender_locked() is Some ==> final(self).sender_locked() == old(self).sender_locked()
                && final(self).sender_queue() == old(self).sender_queue().push(waker),
            final(self).receivers() == old(self).receivers(),
            final(self).next_id() == old(self).next_id(),
    {
        match self.sender_locked {
            None => self.sender_locked = Some(waker),
            Some(_) => self.sender_queue.push(waker),
        }
    }

    /// Takes the sender to wake: the locked slot first, then the oldest parked one.
    pub fn wake_sender(&mut self) -> (r: Option<u64>)
        requires
            old(self).wf(),
        ensures
            final(self).wf(),
            final(self).receivers() == old(self).receivers(),
            final(self).next_id() == old(self).next_id(),
            final(self).sender_locked() is None,
            old(self).sender_locked() is Some ==> r == old(self).sender_locked()
                && final(self).sender_queue() == old(self).sender_queue(),
            old(self).sender_locked() is None && old(self).sender_queue().len() > 0 ==> r == Some(
                old(self).sender_queue()[0],
            ) && final(self).sender_queue() == old(self).sender_queue().skip(1),
            old(self).sender_locked() is None && old(self).sender_queue().len() == 0 ==> r is None
                && final(self).sender_queue() == old(self).sender_queue(),
    {
        match self.sender_locked.take() {
            Some(w) => Some(w),
            None => {
                if self.sender_queue.len() == 0 {
                    None
                } else {
                    let w = self.sender_queue.remove(0);
                    assert(self.sender_queue@ =~= old(self).sender_queue@.skip(1));
                    Some(w)
                }
            },
        }
    }

    /// Position of the receiver with the smallest ID, if any.
    pub fn first_recv(&self) -> (r: Option<usize>)
        ensures
            match r {
                Some(i) => i < self.receivers().len() && forall|j: int|
                    0 <= j < self.receivers().len() ==> self.receivers()[i as int].id <= #[trigger] self.receivers()[j].id,
                None => self.receivers().len() == 0,
            },
    {
        if self.receivers.len() == 0 {
            return None;
        }
        let mut best: usize = 0;
        let mut i: usize = 1;
        while i < self.receivers.len()
            invariant
                1 <= i <= self.receivers@.len(),
                best < i,
                forall|j: int| 0 <= j < i ==> self.receivers@[best as int].id <= #[trigger] self.receivers@[j].id,
            decreases self.receivers@.len() - i,
        {
            if self.receivers[i].id < self.receivers[best].id {
                best = i;
            }
            i += 1;
        }
        Some(best)
    }

    /// The wakers to wake after a message was handed out: the sender in the locked slot (taken
    /// out of it), and the receiver with the smallest ID unless its waker is `current`.
    pub fn wake_recver(&mut self, current: u64) -> (r: (Option<u64>, Option<u64>))
        requires
            old(self).wf(),
        ensures
            final(self).wf(),
            r.0 == old(self).sender_locked(),
            final(self).sender_locked() is None,
            final(self).sender_queue() == old(self).sender_queue(),
            final(self).receivers() == old(self).receivers(),
            final(self).next_id() == old(self).next_id(),
            recver_to_wake(old(self).receivers(), current, r.1),
    {
        let locked = self.sender_locked.take();
        let first = match self.first_recv() {
            Some(i) => {
                let w = self.receivers[i].waker;
                assert(old(self).receivers()[i as int].waker == w);
                assert(is_first(old(self).receivers(), i as int));
                if w != current {
                    Some(w)
                } else {
                    None
                }
            },
            None => None,
        };
        (locked, first)
    }
}

} // verus!
