//! Byte-stream transport over one logical port of the shared device.
//!
//! The device is packet-oriented; the port presents a reliable, in-order byte
//! stream over it. A receive first batches every packet the device currently
//! holds for the port into a private cache, then drains the cache into the
//! caller's buffer, keeping any unconsumed packet remainder in place for the
//! next call. The transport never retries internally: the transient not-ready
//! condition is surfaced to the caller, who is expected to poll again.

use vstd::prelude::*;
use std::collections::VecDeque;
use crate::VirtioSerialError;
use crate::device::{SerialDeviceHandle, SerialDevice, DEFAULT_TIMEOUT};

verus! {

/// One logical channel over the shared device, with the port's receive cache.
///
/// Chunks in the cache are in receipt order; a chunk leaves the front only
/// once fully consumed, and a partially consumed chunk has its delivered
/// prefix dropped in place. The port is exclusively owned; only its own
/// operations touch the cache.
pub struct VirtioSerialPort {
    /// Identifier of the logical port on the shared device.
    pub port_id: u32,
    /// Still unconsumed inbound packet remainders, oldest first.
    pub cache: VecDeque<Vec<u8>>,
}

impl VirtioSerialPort {
    /// The cached chunks as mathematical sequences, oldest first.
    pub open spec fn cache_chunks(self) -> Seq<Seq<u8>> {
        self.cache@.map_values(|v: Vec<u8>| v@)
    }

    /// The bytes the cache will deliver, in order.
    pub open spec fn cache_bytes(self) -> Seq<u8> {
        self.cache_chunks().flatten()
    }

    /// Well-formed: the cache holds no empty chunk.
    pub open spec fn wf(self) -> bool {
        forall|k: int| 0 <= k < self.cache@.len() ==> (#[trigger] self.cache@[k])@.len() > 0
    }

    /// The bytes a receive will draw from: the cache if it is non-empty,
    /// otherwise everything the device currently buffers for this port.
    pub open spec fn avail_bytes(self, dev: SerialDeviceHandle) -> Seq<u8> {
        if self.cache@.len() > 0 {
            self.cache_bytes()
        } else {
            dev.rx_of(self.port_id).flatten()
        }
    }

    /// A fresh port with an empty cache; the device-side allocation is
    /// claimed separately by `open`.
    pub fn new(port_id: u32) -> (p: Self)
        ensures
            p.port_id == port_id,
            p.cache@.len() == 0,
            p.wf(),
    {
        VirtioSerialPort { port_id, cache: VecDeque::new() }
    }

    /// Number of chunks the cache currently holds.
    pub fn cached_chunks(&self) -> (n: usize)
        ensures
            n == self.cache@.len(),
    {
        self.cache.len()
    }

    /// Claim this port's allocation on the shared device.
    pub fn open(&self, device: &mut SerialDeviceHandle) -> (r: Result<(), VirtioSerialError>)
        requires
            old(device).wf(),
        ensures
            final(device).wf(),
            !old(device).is_initialized() ==> r == Err::<(), VirtioSerialError>(
                VirtioSerialError::InvalidParameter,
            ) && *final(device) == *old(device),
            old(device).is_initialized() ==> {
                &&& r == Ok::<(), VirtioSerialError>(())
                &&& final(device).is_initialized()
                &&& final(device).allocated(self.port_id)
                &&& final(device).rx_of(self.port_id) == old(device).rx_of(self.port_id)
                &&& final(device).sent_of(self.port_id) == old(device).sent_of(self.port_id)
                &&& final(device).tx_ready_of(self.port_id) == old(device).tx_ready_of(
                    self.port_id,
                )
                &&& SerialDeviceHandle::agrees_except(*old(device), *final(device), self.port_id)
            },
    {
        let ghost pre = *device;
        match &mut device.device {
            None => Err(VirtioSerialError::InvalidParameter),
            Some(d) => {
                let ghost pre_d = *d;
                let r = d.allocate_port(self.port_id);
                proof {
                    lift_agrees(pre, *device, pre_d, *d, self.port_id);
                }
                r
            },
        }
    }

    /// Release this port's allocation on the shared device. Releasing twice
    /// is accepted, so a best-effort close at end of life stays safe.
    pub fn close(&self, device: &mut SerialDeviceHandle) -> (r: Result<(), VirtioSerialError>)
        requires
            old(device).wf(),
        ensures
            final(device).wf(),
            !old(device).is_initialized() ==> r == Err::<(), VirtioSerialError>(
                VirtioSerialError::InvalidParameter,
            ) && *final(device) == *old(device),
            old(device).is_initialized() ==> {
                &&& r == Ok::<(), VirtioSerialError>(())
                &&& final(device).is_initialized()
                &&& !final(device).allocated(self.port_id)
                &&& final(device).rx_of(self.port_id) == old(device).rx_of(self.port_id)
                &&& final(device).sent_of(self.port_id) == old(device).sent_of(self.port_id)
                &&& final(device).tx_ready_of(self.port_id) == old(device).tx_ready_of(
                    self.port_id,
                )
                &&& SerialDeviceHandle::agrees_except(*old(device), *final(device), self.port_id)
            },
    {
        let ghost pre = *device;
        match &mut device.device {
            None => Err(VirtioSerialError::InvalidParameter),
            Some(d) => {
                let ghost pre_d = *d;
                let r = d.free_port(self.port_id);
                proof {
                    lift_agrees(pre, *device, pre_d, *d, self.port_id);
                }
                r
            },
        }
    }

    /// Hand `data` to the device for transmission on this port, with the
    /// fixed per-operation timeout. Not-ready means the outbound queue is
    /// currently full and the caller must retry.
    pub fn send_data(&self, device: &mut SerialDeviceHandle, data: &[u8]) -> (r: Result<
        usize,
        VirtioSerialError,
    >)
        requires
            old(device).wf(),
        ensures
            final(device).wf(),
            !old(device).is_initialized() ==> r == Err::<usize, VirtioSerialError>(
                VirtioSerialError::InvalidParameter,
            ) && *final(device) == *old(device),
            old(device).is_initialized() && !old(device).tx_ready_of(self.port_id) ==> r
                == Err::<usize, VirtioSerialError>(VirtioSerialError::NotReady) && *final(device)
                == *old(device),
            old(device).is_initialized() && old(device).tx_ready_of(self.port_id) ==> {
                &&& r == Ok::<usize, VirtioSerialError>(data@.len() as usize)
                &&& final(device).is_initialized()
                &&& final(device).sent_of(self.port_id) == old(device).sent_of(
                    self.port_id,
                ).push(data@)
                &&& final(device).rx_of(self.port_id) == old(device).rx_of(self.port_id)
                &&& final(device).allocated(self.port_id) == old(device).allocated(self.port_id)
                &&& final(device).tx_ready_of(self.port_id) == old(device).tx_ready_of(
                    self.port_id,
                )
                &&& SerialDeviceHandle::agrees_except(*old(device), *final(device), self.port_id)
            },
    {
        let ghost pre = *device;
        match &mut device.device {
            None => Err(VirtioSerialError::InvalidParameter),
            Some(d) => {
                let ghost pre_d = *d;
                let r = d.enqueue(data, self.port_id, DEFAULT_TIMEOUT);
                proof {
                    if pre_d.tx_ready_of(self.port_id) {
                        lift_agrees(pre, *device, pre_d, *d, self.port_id);
                    }
                }
                r
            },
        }
    }
}

impl VirtioSerialPort {
    /// Copy available bytes into `data`, preserving message order across
    /// calls. If the cache is empty, every packet the device currently holds
    /// for this port is first dequeued into the cache; the cache is then
    /// drained into `data`, filling it at most once: a chunk that does not
    /// fit keeps its unread remainder at the front of the cache. Returns how
    /// many bytes were written, which is less than the buffer length when
    /// less was available, and zero only for an empty buffer. Not-ready is
    /// reported when nothing is available right now.
    #[verifier::loop_isolation(false)]
    #[verifier::rlimit(100)]
    #[verifier::spinoff_prover]
    pub fn recv(&mut self, device: &mut SerialDeviceHandle, data: &mut Vec<u8>) -> (r: Result<
        usize,
        VirtioSerialError,
    >)
        requires
            old(self).wf(),
            old(device).wf(),
        ensures
            final(self).wf(),
            final(device).wf(),
            final(self).port_id == old(self).port_id,
            final(data)@.len() == old(data)@.len(),
            old(self).cache@.len() == 0 && !old(device).is_initialized() ==> {
                &&& r == Err::<usize, VirtioSerialError>(VirtioSerialError::InvalidParameter)
                &&& *final(self) == *old(self)
                &&& *final(device) == *old(device)
                &&& final(data)@ == old(data)@
            },
            old(self).cache@.len() == 0 && old(device).is_initialized() && old(device).rx_of(
                old(self).port_id,
            ).len() == 0 ==> {
                &&& r == Err::<usize, VirtioSerialError>(VirtioSerialError::NotReady)
                &&& *final(self) == *old(self)
                &&& *final(device) == *old(device)
                &&& final(data)@ == old(data)@
            },
            old(self).cache@.len() > 0 ==> {
                let avail = old(self).cache_bytes();
                let n = vstd::math::min(old(data)@.len() as int, avail.len() as int);
                &&& avail.len() > 0
                &&& r == Ok::<usize, VirtioSerialError>(n as usize)
                &&& final(data)@ == avail.take(n) + old(data)@.skip(n)
                &&& final(self).cache_bytes() == avail.skip(n)
                &&& *final(device) == *old(device)
            },
            old(self).cache@.len() == 0 && old(device).is_initialized() && old(device).rx_of(
                old(self).port_id,
            ).len() > 0 ==> {
                let id = old(self).port_id;
                let avail = old(device).rx_of(id).flatten();
                let n = vstd::math::min(old(data)@.len() as int, avail.len() as int);
                &&& avail.len() > 0
                &&& r == Ok::<usize, VirtioSerialError>(n as usize)
                &&& final(data)@ == avail.take(n) + old(data)@.skip(n)
                &&& final(self).cache_bytes() == avail.skip(n)
                &&& final(device).is_initialized()
                &&& final(device).rx_of(id).len() == 0
                &&& final(device).sent_of(id) == old(device).sent_of(id)
                &&& final(device).allocated(id) == old(device).allocated(id)
                &&& final(device).tx_ready_of(id) == old(device).tx_ready_of(id)
                &&& SerialDeviceHandle::agrees_except(*old(device), *final(device), id)
            },
    {
        let id = self.port_id;
        let ghost pre_dev = *device;
        let ghost pre_data = data@;

        if self.cache.len() == 0 {
            match &mut device.device {
                None => {
                    return Err(VirtioSerialError::InvalidParameter);
                },
                Some(d) => {
                    let ghost pre_d = *d;
                    let ghost old_rx = d.rx_of(id);
                    let first = match d.dequeue(id, DEFAULT_TIMEOUT) {
                        Ok(p) => p,
                        Err(e) => {
                            proof {
                                assert(old_rx.len() == 0);
                                assert(*d == pre_d);
                                assert(*device == pre_dev);
                            }
                            return Err(e);
                        },
                    };
                    self.cache.push_back(first);
                    proof {
                        assert(self.cache_chunks() =~= old_rx.take(1));
                        assert(d.rx_of(id) =~= old_rx.skip(1));
                    }
                    let mut more = d.can_recv(id);
                    while more
                        invariant
                            d.wf(),
                            self.wf(),
                            self.port_id == id,
                            data@ == pre_data,
                            1 <= self.cache@.len() <= old_rx.len(),
                            self.cache_chunks() == old_rx.take(self.cache@.len() as int),
                            d.rx_of(id) == old_rx.skip(self.cache@.len() as int),
                            more == (d.rx_of(id).len() > 0),
                            d.sent_of(id) == pre_d.sent_of(id),
                            d.allocated(id) == pre_d.allocated(id),
                            d.tx_ready_of(id) == pre_d.tx_ready_of(id),
                            SerialDevice::agrees_except(pre_d, *d, id),
                        decreases old_rx.len() - self.cache@.len(),
                    {
                        let ghost d_head = *d;
                        let ghost k = self.cache@.len() as int;
                        let pkt = match d.dequeue(id, DEFAULT_TIMEOUT) {
                            Ok(p) => p,
                            Err(e) => {
                                proof {
                                    assert(false);
                                }
                                return Err(e);
                            },
                        };
                        proof {
                            assert(pkt@ == old_rx[k]);
                            assert forall|j: u32| j != id implies
                                #[trigger] SerialDevice::same_port_state(pre_d, *d, j) by {
                                assert(SerialDevice::same_port_state(pre_d, d_head, j));
                                assert(SerialDevice::same_port_state(d_head, *d, j));
                            }
                        }
                        self.cache.push_back(pkt);
                        proof {
                            assert(self.cache_chunks() =~= old_rx.take(k).push(old_rx[k]));
                            assert(self.cache_chunks() =~= old_rx.take(k + 1));
                            assert(d.rx_of(id) =~= old_rx.skip(k + 1));
                        }
                        more = d.can_recv(id);
                    }
                    proof {
                        assert(old_rx.skip(self.cache@.len() as int).len() == 0);
                        assert(self.cache@.len() == old_rx.len());
                        assert(self.cache_chunks() =~= old_rx);
                        lift_agrees(pre_dev, *device, pre_d, *d, id);
                        assert(self.cache_bytes() == old_rx.flatten());
                    }
                },
            }
        }

        // The cache now holds everything this call may deliver.
        let ghost avail = self.cache_bytes();
        proof {
            assert(self.cache@.len() > 0);
            lemma_flatten_first(self.cache_chunks());
            assert(avail.len() > 0);
        }

        let mut recvd: usize = 0;
        while recvd < data.len() && self.cache.len() > 0
            invariant
                recvd <= data@.len(),
                recvd as int <= avail.len(),
                data@.len() == pre_data.len(),
                self.wf(),
                self.port_id == id,
                data@ == avail.take(recvd as int) + pre_data.skip(recvd as int),
                self.cache_bytes() == avail.skip(recvd as int),
            decreases avail.len() - recvd,
        {
            let ghost head_chunks = self.cache_chunks();
            proof {
                lemma_flatten_first(head_chunks);
            }
            let front = self.cache.pop_front().unwrap();
            proof {
                assert(front@ == head_chunks[0]);
                assert(self.cache_chunks() =~= head_chunks.drop_first());
                assert(avail.skip(recvd as int) == front@ + self.cache_bytes());
                assert(front@.len() > 0);
            }
            let expect = data.len() - recvd;
            if front.len() <= expect {
                let k = front.len();
                copy_into(data, recvd, &front, k);
                proof {
                    assert forall|t: int| 0 <= t < k implies avail[recvd + t] == front@[t] by {
                        assert(avail.skip(recvd as int)[t] == front@[t]);
                    }
                    assert(data@ =~= avail.take(recvd + k) + pre_data.skip(recvd + k));
                    assert(self.cache_bytes() =~= avail.skip(recvd as int).skip(k as int));
                    assert(avail.skip(recvd as int).skip(k as int) =~= avail.skip(recvd + k));
                }
                recvd = recvd + k;
            } else {
                copy_into(data, recvd, &front, expect);
                let rest = tail_from(&front, expect);
                self.cache.push_front(rest);
                proof {
                    let k = expect as int;
                    assert forall|t: int| 0 <= t < k implies avail[recvd + t] == front@[t] by {
                        assert(avail.skip(recvd as int)[t] == front@[t]);
                    }
                    assert(data@ =~= avail.take(recvd + k) + pre_data.skip(recvd + k));
                    assert(self.cache_chunks() =~= seq![rest@] + head_chunks.drop_first());
                    assert(self.cache_chunks()[0] == rest@);
                    assert(self.cache_chunks().drop_first() =~= head_chunks.drop_first());
                    lemma_flatten_first(self.cache_chunks());
                    assert(self.cache_bytes() == rest@ + head_chunks.drop_first().flatten());
                    assert(rest@ =~= avail.skip(recvd as int).take(front@.len() as int).skip(k));
                    assert(head_chunks.drop_first().flatten() =~= avail.skip(recvd as int).skip(
                        front@.len() as int,
                    ));
                    assert(self.cache_bytes() =~= avail.skip(recvd + k));
                }
                recvd = recvd + expect;
            }
        }
        proof {
            if self.cache@.len() == 0 {
                assert(self.cache_chunks().len() == 0);
                assert(self.cache_bytes().len() == 0);
                assert(recvd as int == avail.len());
            }
            assert(recvd as int == vstd::math::min(pre_data.len() as int, avail.len() as int));
        }
        Ok(recvd)
    }
}

/// Copy the first `k` bytes of `src` into `dst` starting at `at`, leaving the
/// rest of `dst` unchanged.
fn copy_into(dst: &mut Vec<u8>, at: usize, src: &Vec<u8>, k: usize)
    requires
        k <= src@.len(),
        at + k <= old(dst)@.len(),
    ensures
        final(dst)@.len() == old(dst)@.len(),
        final(dst)@ == old(dst)@.take(at as int) + src@.take(k as int) + old(dst)@.skip(
            (at + k) as int,
        ),
{
    let ghost dst0 = dst@;
    let dlen = dst.len();
    let mut t: usize = 0;
    while t < k
        invariant
            t <= k,
            k <= src@.len(),
            at + k <= dlen,
            dlen == dst0.len(),
            dst@.len() == dst0.len(),
            dst@ == dst0.take(at as int) + src@.take(t as int) + dst0.skip((at + t) as int),
        decreases k - t,
    {
        let b = src[t];
        let slot = &mut dst[at + t];
        *slot = b;
        proof {
            assert(dst@ =~= dst0.take(at as int) + src@.take(t + 1 as int) + dst0.skip(
                (at + t + 1) as int,
            ));
        }
        t = t + 1;
    }
    proof {
        assert(dst@ =~= dst0.take(at as int) + src@.take(k as int) + dst0.skip((at + k) as int));
    }
}

/// The suffix of `src` from position `k` on, as a fresh vector.
fn tail_from(src: &Vec<u8>, k: usize) -> (r: Vec<u8>)
    requires
        k <= src@.len(),
    ensures
        r@ == src@.skip(k as int),
{
    let mut r: Vec<u8> = Vec::new();
    let mut t: usize = k;
    while t < src.len()
        invariant
            k <= t <= src@.len(),
            r@ == src@.subrange(k as int, t as int),
        decreases src@.len() - t,
    {
        r.push(src[t]);
        proof {
            assert(r@ =~= src@.subrange(k as int, t + 1 as int));
        }
        t = t + 1;
    }
    proof {
        assert(r@ =~= src@.skip(k as int));
    }
    r
}

/// Lifts per-port agreement from the device to the handle around it.
proof fn lift_agrees(
    pre: SerialDeviceHandle,
    post: SerialDeviceHandle,
    pre_d: SerialDevice,
    post_d: SerialDevice,
    id: u32,
)
    requires
        pre.device == Some(pre_d),
        post.device == Some(post_d),
        SerialDevice::agrees_except(pre_d, post_d, id),
    ensures
        SerialDeviceHandle::agrees_except(pre, post, id),
{
    assert forall|j: u32| j != id implies #[trigger] SerialDeviceHandle::same_port_state(
        pre,
        post,
        j,
    ) by {
        assert(SerialDevice::same_port_state(pre_d, post_d, j));
    }
}

/// Sum of a run of receive-buffer sizes.
pub open spec fn stream_total(counts: Seq<nat>) -> int
    decreases counts.len(),
{
    if counts.len() == 0 {
        0
    } else {
        counts[0] + stream_total(counts.drop_first())
    }
}

/// What a run of receives with buffer sizes `counts` delivers in total from
/// an available byte stream `s`: each receive takes `min(size, remaining)`
/// bytes off the front and retains the rest, exactly as `recv` ensures of
/// its buffer and cache.
pub open spec fn drained(s: Seq<u8>, counts: Seq<nat>) -> Seq<u8>
    decreases counts.len(),
{
    if counts.len() == 0 {
        Seq::empty()
    } else {
        let n = vstd::math::min(counts[0] as int, s.len() as int);
        s.take(n) + drained(s.skip(n), counts.drop_first())
    }
}

/// Law: however the receive buffer sizes slice the packet boundaries,
/// successive receives deliver exactly a prefix of the available bytes, in
/// order, with nothing duplicated and nothing dropped; and buffers totalling
/// at least the available length deliver all of it.
pub proof fn lemma_receives_in_order(s: Seq<u8>, counts: Seq<nat>)
    ensures
        drained(s, counts).len() <= s.len(),
        drained(s, counts) == s.take(drained(s, counts).len() as int),
        stream_total(counts) >= s.len() ==> drained(s, counts) == s,
    decreases counts.len(),
{
    if counts.len() == 0 {
        assert(drained(s, counts) =~= s.take(0));
    } else {
        let n = vstd::math::min(counts[0] as int, s.len() as int);
        let tail = s.skip(n);
        lemma_receives_in_order(tail, counts.drop_first());
        let rest = drained(tail, counts.drop_first());
        let m = rest.len() as int;
        assert(rest == tail.take(m));
        assert(s.take(n) + tail.take(m) =~= s.take(n + m));
        assert(drained(s, counts) == s.take(n + m));
        if stream_total(counts) >= s.len() {
            if counts[0] as int >= s.len() as int {
                assert(tail.len() == 0);
                assert(drained(s, counts) =~= s);
            } else {
                assert(stream_total(counts.drop_first()) >= tail.len());
                assert(rest == tail);
                assert(drained(s, counts) =~= s);
            }
        }
    }
}

/// Law: round trip on one port. When the packets accepted for sending reach
/// the receiving side in acceptance order, the bytes the receives return are
/// exactly the concatenation of the sent payloads in order, however the
/// buffer sizes `counts` slice the packet boundaries; buffers totalling at
/// least the whole stream return all of it.
pub proof fn lemma_round_trip(payloads: Seq<Seq<u8>>, counts: Seq<nat>)
    ensures
        drained(payloads.flatten(), counts) == payloads.flatten().take(
            drained(payloads.flatten(), counts).len() as int,
        ),
        stream_total(counts) >= payloads.flatten().len() ==> drained(payloads.flatten(), counts)
            == payloads.flatten(),
{
    lemma_receives_in_order(payloads.flatten(), counts);
}

/// Law: each accepted send appends its payload to the port's transmitted
/// stream, so the packets accepted so far concatenate in acceptance order.
pub proof fn lemma_sends_concatenate(sent: Seq<Seq<u8>>, payload: Seq<u8>)
    ensures
        sent.push(payload).flatten() == sent.flatten() + payload,
{
    sent.lemma_flatten_push(payload);
}

/// A non-empty first chunk makes the flattened stream non-empty, and the
/// stream starts with that chunk.
proof fn lemma_flatten_first(chunks: Seq<Seq<u8>>)
    requires
        chunks.len() > 0,
    ensures
        chunks.flatten() == chunks[0] + chunks.drop_first().flatten(),
        chunks.flatten().len() >= chunks[0].len(),
{
    assert(chunks.flatten() == chunks.first() + chunks.drop_first().flatten());
    assert(chunks.flatten().len() >= chunks[0].len());
}

} // verus!
