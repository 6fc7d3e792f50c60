//! Model of the shared paravirtual serial device.
//!
//! The device multiplexes logical ports over one physical channel. It is a
//! process-wide resource; here it is an explicit value handed to every
//! transport operation through a [`SerialDeviceHandle`], whose exclusive
//! (`&mut`) access plays the role of the device lock: the handle is borrowed
//! for the duration of one device operation, never across a whole message
//! exchange. A handle may be uninitialized, in which case every operation
//! against it fails with an invalid-parameter condition.

use vstd::prelude::*;
use std::collections::VecDeque;
use crate::VirtioSerialError;

verus! {

/// Timeout, in device time units, bounding one underlying device operation.
pub const DEFAULT_TIMEOUT: u32 = 8000;

/// One logical port's state on the shared device.
pub struct PortQueue {
    /// Port identifier.
    pub id: u32,
    /// Whether this port's allocation is currently claimed.
    pub allocated: bool,
    /// Inbound packets the device holds for this port, oldest first.
    pub rx: VecDeque<Vec<u8>>,
    /// Packets accepted for transmission on this port, in order of acceptance.
    pub sent: Vec<Vec<u8>>,
    /// Whether the outbound queue currently has room for another packet.
    pub tx_ready: bool,
}

impl PortQueue {
    /// Inbound packets as mathematical sequences.
    pub open spec fn rx_seq(self) -> Seq<Seq<u8>> {
        self.rx@.map_values(|v: Vec<u8>| v@)
    }

    /// Accepted outbound packets as mathematical sequences.
    pub open spec fn sent_seq(self) -> Seq<Seq<u8>> {
        self.sent@.map_values(|v: Vec<u8>| v@)
    }

    /// The device never holds empty inbound packets.
    pub open spec fn rx_wf(self) -> bool {
        forall|k: int| 0 <= k < self.rx@.len() ==> (#[trigger] self.rx@[k])@.len() > 0
    }
}

/// The shared physical device: a set of logical ports with distinct ids.
pub struct SerialDevice {
    /// Per-port state; port ids are pairwise distinct.
    pub ports: Vec<PortQueue>,
}

impl SerialDevice {
    /// Well-formed: port ids are pairwise distinct and no inbound packet is empty.
    pub open spec fn wf(self) -> bool {
        &&& forall|i: int, j: int|
            0 <= i < self.ports@.len() && 0 <= j < self.ports@.len() && i != j
                ==> (#[trigger] self.ports@[i].id) != (#[trigger] self.ports@[j].id)
        &&& forall|i: int| 0 <= i < self.ports@.len() ==> (#[trigger] self.ports@[i]).rx_wf()
    }

    /// Whether the device knows port `id`.
    pub open spec fn has_port(self, id: u32) -> bool {
        exists|i: int| 0 <= i < self.ports@.len() && (#[trigger] self.ports@[i].id) == id
    }

    /// Index of port `id`; meaningful only when `has_port(id)` holds.
    pub open spec fn port_ix(self, id: u32) -> int {
        choose|i: int| 0 <= i < self.ports@.len() && (#[trigger] self.ports@[i].id) == id
    }

    /// Inbound packets currently buffered for port `id`, oldest first.
    pub open spec fn rx_of(self, id: u32) -> Seq<Seq<u8>> {
        if self.has_port(id) {
            self.ports@[self.port_ix(id)].rx_seq()
        } else {
            Seq::empty()
        }
    }

    /// Packets accepted for transmission on port `id`, in order of acceptance.
    pub open spec fn sent_of(self, id: u32) -> Seq<Seq<u8>> {
        if self.has_port(id) {
            self.ports@[self.port_ix(id)].sent_seq()
        } else {
            Seq::empty()
        }
    }

    /// Whether port `id` is currently allocated.
    pub open spec fn allocated(self, id: u32) -> bool {
        self.has_port(id) && self.ports@[self.port_ix(id)].allocated
    }

    /// Whether the outbound queue of port `id` has room.
    pub open spec fn tx_ready_of(self, id: u32) -> bool {
        if self.has_port(id) {
            self.ports@[self.port_ix(id)].tx_ready
        } else {
            true
        }
    }

    /// Ports `j` of `a` and `b` look alike through every accessor.
    pub open spec fn same_port_state(a: Self, b: Self, j: u32) -> bool {
        &&& a.rx_of(j) == b.rx_of(j)
        &&& a.sent_of(j) == b.sent_of(j)
        &&& a.allocated(j) == b.allocated(j)
        &&& a.tx_ready_of(j) == b.tx_ready_of(j)
    }

    /// Every port but `id` is unaffected between `a` and `b`.
    pub open spec fn agrees_except(a: Self, b: Self, id: u32) -> bool {
        forall|j: u32| j != id ==> #[trigger] Self::same_port_state(a, b, j)
    }

    /// A device with no ports yet.
    pub fn new() -> (d: Self)
        ensures
            d.wf(),
            d.ports@.len() == 0,
            forall|j: u32| !(#[trigger] d.has_port(j)),
    {
        let d = SerialDevice { ports: Vec::new() };
        proof {
            assert forall|j: u32| !(#[trigger] d.has_port(j)) by {
                assert(d.ports@.len() == 0);
            }
        }
        d
    }

    /// First index holding port `id`, if any.
    fn find_port(&self, id: u32) -> (r: Option<usize>)
        requires
            self.wf(),
        ensures
            match r {
                Some(i) => {
                    &&& i < self.ports@.len()
                    &&& self.ports@[i as int].id == id
                    &&& self.has_port(id)
                    &&& self.port_ix(id) == i as int
                },
                None => !self.has_port(id),
            },
    {
        let mut i: usize = 0;
        while i < self.ports.len()
            invariant
                i <= self.ports@.len(),
                forall|j: int| 0 <= j < i ==> (#[trigger] self.ports@[j].id) != id,
                self.wf(),
            decreases self.ports@.len() - i,
        {
            if self.ports[i].id == id {
                proof {
                    assert(self.has_port(id));
                    let w = self.port_ix(id);
                    assert(0 <= w < self.ports@.len() && self.ports@[w].id == id);
                    assert(w == i as int);
                }
                return Some(i);
            }
            i = i + 1;
        }
        proof {
            if self.has_port(id) {
                let w = choose|w: int|
                    0 <= w < self.ports@.len() && (#[trigger] self.ports@[w].id) == id;
                assert(self.ports@[w].id != id);
            }
        }
        None
    }
}

/// What `pre` turns into when its entry at `i` is replaced, keeping the id.
proof fn lemma_entry_update(pre: SerialDevice, post: SerialDevice, i: int)
    requires
        pre.wf(),
        0 <= i < pre.ports@.len(),
        post.ports@ == pre.ports@.update(i, post.ports@[i]),
        post.ports@[i].id == pre.ports@[i].id,
        post.ports@[i].rx_wf(),
    ensures
        post.wf(),
        pre.has_port(pre.ports@[i].id),
        post.has_port(pre.ports@[i].id),
        pre.port_ix(pre.ports@[i].id) == i,
        post.port_ix(pre.ports@[i].id) == i,
        SerialDevice::agrees_except(pre, post, pre.ports@[i].id),
{
    let id = pre.ports@[i].id;
    assert(post.ports@.len() == pre.ports@.len());
    assert(forall|k: int|
        0 <= k < pre.ports@.len() && k != i ==> post.ports@[k] == pre.ports@[k]);
    assert(post.wf());
    assert(pre.has_port(id));
    assert(post.has_port(id));
    let wp = pre.port_ix(id);
    assert(0 <= wp < pre.ports@.len() && pre.ports@[wp].id == id);
    assert(wp == i);
    let wq = post.port_ix(id);
    assert(0 <= wq < post.ports@.len() && post.ports@[wq].id == id);
    assert(wq == i);
    assert forall|j: u32| j != id implies #[trigger] SerialDevice::same_port_state(
        pre,
        post,
        j,
    ) by {
        if pre.has_port(j) {
            let w = pre.port_ix(j);
            assert(0 <= w < pre.ports@.len() && pre.ports@[w].id == j);
            assert(w != i);
            assert(post.ports@[w].id == j);
            assert(post.has_port(j));
            let w2 = post.port_ix(j);
            assert(0 <= w2 < post.ports@.len() && post.ports@[w2].id == j);
            assert(w2 == w);
        } else {
            if post.has_port(j) {
                let w2 = post.port_ix(j);
                assert(0 <= w2 < post.ports@.len() && post.ports@[w2].id == j);
                assert(w2 != i);
                assert(pre.ports@[w2].id == j);
            }
        }
    }
}

/// What `pre` turns into when a fresh port entry is appended.
proof fn lemma_entry_push(pre: SerialDevice, post: SerialDevice, id: u32)
    requires
        pre.wf(),
        !pre.has_port(id),
        post.ports@ == pre.ports@.push(post.ports@[pre.ports@.len() as int]),
        post.ports@.len() == pre.ports@.len() + 1,
        post.ports@[pre.ports@.len() as int].id == id,
        post.ports@[pre.ports@.len() as int].rx_wf(),
    ensures
        post.wf(),
        post.has_port(id),
        post.port_ix(id) == pre.ports@.len() as int,
        SerialDevice::agrees_except(pre, post, id),
{
    let n = pre.ports@.len() as int;
    assert(forall|k: int| 0 <= k < n ==> post.ports@[k] == pre.ports@[k]);
    assert(forall|k: int| 0 <= k < n ==> (#[trigger] pre.ports@[k].id) != id);
    assert(post.wf());
    assert(post.has_port(id));
    let w = post.port_ix(id);
    assert(0 <= w < post.ports@.len() && post.ports@[w].id == id);
    assert(w == n);
    assert forall|j: u32| j != id implies #[trigger] SerialDevice::same_port_state(
        pre,
        post,
        j,
    ) by {
        if pre.has_port(j) {
            let w1 = pre.port_ix(j);
            assert(0 <= w1 < pre.ports@.len() && pre.ports@[w1].id == j);
            assert(post.ports@[w1].id == j);
            assert(post.has_port(j));
            let w2 = post.port_ix(j);
            assert(0 <= w2 < post.ports@.len() && post.ports@[w2].id == j);
            assert(w2 == w1);
        } else {
            if post.has_port(j) {
                let w2 = post.port_ix(j);
                assert(0 <= w2 < post.ports@.len() && post.ports@[w2].id == j);
                assert(w2 != n);
                assert(pre.ports@[w2].id == j);
            }
        }
    }
}

impl SerialDevice {
    /// Claim the allocation of port `id`, creating the port entry on first use.
    pub fn allocate_port(&mut self, id: u32) -> (r: Result<(), VirtioSerialError>)
        requires
            old(self).wf(),
        ensures
            final(self).wf(),
            r == Ok::<(), VirtioSerialError>(()),
            final(self).has_port(id),
            final(self).allocated(id),
            final(self).rx_of(id) == old(self).rx_of(id),
            final(self).sent_of(id) == old(self).sent_of(id),
            final(self).tx_ready_of(id) == old(self).tx_ready_of(id),
            Self::agrees_except(*old(self), *final(self), id),
    {
        let ghost pre = *self;
        match self.find_port(id) {
            Some(i) => {
                let p = &mut self.ports[i];
                p.allocated = true;
                proof {
                    assert(self.ports@ == pre.ports@.update(i as int, self.ports@[i as int]));
                    lemma_entry_update(pre, *self, i as int);
                    assert(self.ports@[i as int].rx_seq() == pre.ports@[i as int].rx_seq());
                    assert(self.ports@[i as int].sent_seq() == pre.ports@[i as int].sent_seq());
                }
            },
            None => {
                let entry = PortQueue {
                    id,
                    allocated: true,
                    rx: VecDeque::new(),
                    sent: Vec::new(),
                    tx_ready: true,
                };
                self.ports.push(entry);
                proof {
                    let n = pre.ports@.len() as int;
                    assert(self.ports@ == pre.ports@.push(self.ports@[n]));
                    lemma_entry_push(pre, *self, id);
                    assert(self.ports@[n].rx_seq() =~= Seq::<Seq<u8>>::empty());
                    assert(self.ports@[n].sent_seq() =~= Seq::<Seq<u8>>::empty());
                }
            },
        }
        Ok(())
    }

    /// Release the allocation of port `id`; releasing an unknown or already
    /// released port is accepted, so a best-effort close stays safe.
    pub fn free_port(&mut self, id: u32) -> (r: Result<(), VirtioSerialError>)
        requires
            old(self).wf(),
        ensures
            final(self).wf(),
            r == Ok::<(), VirtioSerialError>(()),
            !final(self).allocated(id),
            final(self).rx_of(id) == old(self).rx_of(id),
            final(self).sent_of(id) == old(self).sent_of(id),
            final(self).tx_ready_of(id) == old(self).tx_ready_of(id),
            Self::agrees_except(*old(self), *final(self), id),
    {
        let ghost pre = *self;
        match self.find_port(id) {
            Some(i) => {
                let p = &mut self.ports[i];
                p.allocated = false;
                proof {
                    assert(self.ports@ == pre.ports@.update(i as int, self.ports@[i as int]));
                    lemma_entry_update(pre, *self, i as int);
                    assert(self.ports@[i as int].rx_seq() == pre.ports@[i as int].rx_seq());
                    assert(self.ports@[i as int].sent_seq() == pre.ports@[i as int].sent_seq());
                }
            },
            None => {},
        }
        Ok(())
    }

    /// Accept `data` for transmission on port `id` if the outbound queue has
    /// room; otherwise report the transient not-ready condition. The timeout
    /// bounds the one underlying operation and does not change its meaning.
    pub fn enqueue(&mut self, data: &[u8], id: u32, _timeout: u32) -> (r: Result<
        usize,
        VirtioSerialError,
    >)
        requires
            old(self).wf(),
        ensures
            final(self).wf(),
            old(self).tx_ready_of(id) ==> {
                &&& r == Ok::<usize, VirtioSerialError>(data@.len() as usize)
                &&& final(self).has_port(id)
                &&& final(self).sent_of(id) == old(self).sent_of(id).push(data@)
                &&& final(self).rx_of(id) == old(self).rx_of(id)
                &&& final(self).allocated(id) == old(self).allocated(id)
                &&& final(self).tx_ready_of(id) == old(self).tx_ready_of(id)
                &&& Self::agrees_except(*old(self), *final(self), id)
            },
            !old(self).tx_ready_of(id) ==> r == Err::<usize, VirtioSerialError>(
                VirtioSerialError::NotReady,
            ) && *final(self) == *old(self),
    {
        let ghost pre = *self;
        match self.find_port(id) {
            Some(i) => {
                if !self.ports[i].tx_ready {
                    return Err(VirtioSerialError::NotReady);
                }
                let packet = vstd::slice::slice_to_vec(data);
                let p = &mut self.ports[i];
                p.sent.push(packet);
                proof {
                    assert(self.ports@ == pre.ports@.update(i as int, self.ports@[i as int]));
                    lemma_entry_update(pre, *self, i as int);
                    assert(self.ports@[i as int].rx_seq() == pre.ports@[i as int].rx_seq());
                    assert(self.ports@[i as int].sent_seq() =~= pre.ports@[i as int].sent_seq()
                        .push(data@));
                }
                Ok(data.len())
            },
            None => {
                let packet = vstd::slice::slice_to_vec(data);
                let mut sent: Vec<Vec<u8>> = Vec::new();
                sent.push(packet);
                let entry = PortQueue { id, allocated: false, rx: VecDeque::new(), sent, tx_ready: true };
                self.ports.push(entry);
                proof {
                    let n = pre.ports@.len() as int;
                    assert(self.ports@ == pre.ports@.push(self.ports@[n]));
                    lemma_entry_push(pre, *self, id);
                    assert(self.ports@[n].rx_seq() =~= Seq::<Seq<u8>>::empty());
                    assert(self.ports@[n].sent_seq() =~= Seq::<Seq<u8>>::empty().push(data@));
                }
                Ok(data.len())
            },
        }
    }

    /// Hand out the oldest packet buffered for port `id`, or report not-ready
    /// when nothing is currently buffered. The timeout bounds the one
    /// underlying operation and does not change its meaning.
    pub fn dequeue(&mut self, id: u32, _timeout: u32) -> (r: Result<Vec<u8>, VirtioSerialError>)
        requires
            old(self).wf(),
        ensures
            final(self).wf(),
            old(self).rx_of(id).len() == 0 ==> r == Err::<Vec<u8>, VirtioSerialError>(
                VirtioSerialError::NotReady,
            ) && *final(self) == *old(self),
            old(self).rx_of(id).len() > 0 ==> {
                &&& r matches Ok(p) && p@ == old(self).rx_of(id)[0] && p@.len() > 0
                &&& final(self).rx_of(id) == old(self).rx_of(id).drop_first()
                &&& final(self).sent_of(id) == old(self).sent_of(id)
                &&& final(self).allocated(id) == old(self).allocated(id)
                &&& final(self).tx_ready_of(id) == old(self).tx_ready_of(id)
                &&& Self::agrees_except(*old(self), *final(self), id)
            },
    {
        let ghost pre = *self;
        match self.find_port(id) {
            Some(i) => {
                if self.ports[i].rx.len() == 0 {
                    return Err(VirtioSerialError::NotReady);
                }
                let p = &mut self.ports[i];
                let packet = p.rx.pop_front().unwrap();
                proof {
                    assert(self.ports@ == pre.ports@.update(i as int, self.ports@[i as int]));
                    lemma_entry_update(pre, *self, i as int);
                    assert(self.ports@[i as int].sent_seq() == pre.ports@[i as int].sent_seq());
                    assert(self.ports@[i as int].rx_seq() =~= pre.ports@[i as int].rx_seq()
                        .drop_first());
                    assert(packet@ == pre.rx_of(id)[0]);
                }
                Ok(packet)
            },
            None => Err(VirtioSerialError::NotReady),
        }
    }

    /// Whether more data is currently buffered for port `id`.
    pub fn can_recv(&self, id: u32) -> (r: bool)
        requires
            self.wf(),
        ensures
            r == (self.rx_of(id).len() > 0),
    {
        match self.find_port(id) {
            Some(i) => self.ports[i].rx.len() > 0,
            None => false,
        }
    }

    /// The device receives one non-empty packet from the host for port `id`,
    /// creating the port entry on first use.
    pub fn deliver(&mut self, id: u32, packet: Vec<u8>)
        requires
            old(self).wf(),
            packet@.len() > 0,
        ensures
            final(self).wf(),
            final(self).has_port(id),
            final(self).rx_of(id) == old(self).rx_of(id).push(packet@),
            final(self).sent_of(id) == old(self).sent_of(id),
            final(self).allocated(id) == old(self).allocated(id),
            final(self).tx_ready_of(id) == old(self).tx_ready_of(id),
            Self::agrees_except(*old(self), *final(self), id),
    {
        let ghost pre = *self;
        match self.find_port(id) {
            Some(i) => {
                let p = &mut self.ports[i];
                p.rx.push_back(packet);
                proof {
                    assert(self.ports@ == pre.ports@.update(i as int, self.ports@[i as int]));
                    lemma_entry_update(pre, *self, i as int);
                    assert(self.ports@[i as int].sent_seq() == pre.ports@[i as int].sent_seq());
                    assert(self.ports@[i as int].rx_seq() =~= pre.ports@[i as int].rx_seq().push(
                        packet@,
                    ));
                }
            },
            None => {
                let mut rx: VecDeque<Vec<u8>> = VecDeque::new();
                rx.push_back(packet);
                let entry = PortQueue { id, allocated: false, rx, sent: Vec::new(), tx_ready: true };
                self.ports.push(entry);
                proof {
                    let n = pre.ports@.len() as int;
                    assert(self.ports@ == pre.ports@.push(self.ports@[n]));
                    lemma_entry_push(pre, *self, id);
                    assert(self.ports@[n].sent_seq() =~= Seq::<Seq<u8>>::empty());
                    assert(self.ports@[n].rx_seq() =~= Seq::<Seq<u8>>::empty().push(packet@));
                }
            },
        }
    }

    /// Let the outbound queue of port `id` accept packets again, or make it
    /// report not-ready; stands for the host draining or filling that queue.
    pub fn set_tx_ready(&mut self, id: u32, ready: bool)
        requires
            old(self).wf(),
        ensures
            final(self).wf(),
            final(self).tx_ready_of(id) == ready,
            final(self).rx_of(id) == old(self).rx_of(id),
            final(self).sent_of(id) == old(self).sent_of(id),
            final(self).allocated(id) == old(self).allocated(id),
            Self::agrees_except(*old(self), *final(self), id),
    {
        let ghost pre = *self;
        match self.find_port(id) {
            Some(i) => {
                let p = &mut self.ports[i];
                p.tx_ready = ready;
                proof {
                    assert(self.ports@ == pre.ports@.update(i as int, self.ports@[i as int]));
                    lemma_entry_update(pre, *self, i as int);
                    assert(self.ports@[i as int].rx_seq() == pre.ports@[i as int].rx_seq());
                    assert(self.ports@[i as int].sent_seq() == pre.ports@[i as int].sent_seq());
                }
            },
            None => {
                let entry = PortQueue {
                    id,
                    allocated: false,
                    rx: VecDeque::new(),
                    sent: Vec::new(),
                    tx_ready: ready,
                };
                self.ports.push(entry);
                proof {
                    let n = pre.ports@.len() as int;
                    assert(self.ports@ == pre.ports@.push(self.ports@[n]));
                    lemma_entry_push(pre, *self, id);
                    assert(self.ports@[n].rx_seq() =~= Seq::<Seq<u8>>::empty());
                    assert(self.ports@[n].sent_seq() =~= Seq::<Seq<u8>>::empty());
                }
            },
        }
    }
}

/// The process-wide device slot: absent until the device is initialized.
/// Exclusive access to the handle stands in for the device's mutual-exclusion
/// lock, held for one device operation at a time.
pub struct SerialDeviceHandle {
    /// The device, or `None` while it is not yet initialized.
    pub device: Option<SerialDevice>,
}

impl SerialDeviceHandle {
    /// Whether the device has been initialized.
    pub open spec fn is_initialized(self) -> bool {
        self.device is Some
    }

    /// Well-formed: an initialized device is well-formed.
    pub open spec fn wf(self) -> bool {
        match self.device {
            Some(d) => d.wf(),
            None => true,
        }
    }

    /// Inbound packets buffered for port `id`; empty while uninitialized.
    pub open spec fn rx_of(self, id: u32) -> Seq<Seq<u8>> {
        match self.device {
            Some(d) => d.rx_of(id),
            None => Seq::empty(),
        }
    }

    /// Packets accepted for transmission on port `id`.
    pub open spec fn sent_of(self, id: u32) -> Seq<Seq<u8>> {
        match self.device {
            Some(d) => d.sent_of(id),
            None => Seq::empty(),
        }
    }

    /// Whether port `id` is allocated.
    pub open spec fn allocated(self, id: u32) -> bool {
        match self.device {
            Some(d) => d.allocated(id),
            None => false,
        }
    }

    /// Whether the outbound queue of port `id` has room.
    pub open spec fn tx_ready_of(self, id: u32) -> bool {
        match self.device {
            Some(d) => d.tx_ready_of(id),
            None => true,
        }
    }

    /// Ports `j` of `a` and `b` look alike through every accessor.
    pub open spec fn same_port_state(a: Self, b: Self, j: u32) -> bool {
        &&& a.rx_of(j) == b.rx_of(j)
        &&& a.sent_of(j) == b.sent_of(j)
        &&& a.allocated(j) == b.allocated(j)
        &&& a.tx_ready_of(j) == b.tx_ready_of(j)
    }

    /// Every port but `id` is unaffected between `a` and `b`.
    pub open spec fn agrees_except(a: Self, b: Self, id: u32) -> bool {
        forall|j: u32| j != id ==> #[trigger] Self::same_port_state(a, b, j)
    }

    /// A handle whose device is not yet initialized.
    pub fn uninitialized() -> (h: Self)
        ensures
            !h.is_initialized(),
            h.wf(),
    {
        SerialDeviceHandle { device: None }
    }

    /// A handle over an initialized device.
    pub fn with_device(d: SerialDevice) -> (h: Self)
        requires
            d.wf(),
        ensures
            h.is_initialized(),
            h.wf(),
            h.device == Some(d),
    {
        SerialDeviceHandle { device: Some(d) }
    }
}

} // verus!
