//! The verifiable core of the PTY layer. `ReplayBuffer` is the bounded ring
//! of output bytes played back to newly attached viewers; `WriteChannel`
//! models the serialized writer command channel through which all writes to
//! one PTY flow, so that the ordering guarantee can be stated and proved.
//! The blocking reader/writer threads and the process itself live outside
//! the library and feed these structures plain bytes.

use vstd::prelude::*;

verus! {

/// The last `cap` elements of `h`, or all of `h` when it is shorter.
pub open spec fn spec_tail(h: Seq<u8>, cap: nat) -> Seq<u8> {
    if h.len() <= cap {
        h
    } else {
        h.skip(h.len() - cap)
    }
}

/// Copy of `s[a..b]`.
fn byte_range(s: &Vec<u8>, a: usize, b: usize) -> (r: Vec<u8>)
    requires
        a <= b <= s@.len(),
    ensures
        r@ == s@.subrange(a as int, b as int),
{
    let mut r: Vec<u8> = Vec::new();
    let mut i: usize = a;
    while i < b
        invariant
            a <= i <= b <= s@.len(),
            r@ == s@.subrange(a as int, i as int),
        decreases b - i,
    {
        r.push(s[i]);
        assert(r@ =~= s@.subrange(a as int, i + 1));
        i += 1;
    }
    r
}

/// Append every byte of `src` to `dst`.
fn push_bytes(dst: &mut Vec<u8>, src: &Vec<u8>)
    ensures
        final(dst)@ == old(dst)@ + src@,
{
    let ghost base = dst@;
    let mut j: usize = 0;
    while j < src.len()
        invariant
            j <= src@.len(),
            dst@ == base + src@.take(j as int),
        decreases src@.len() - j,
    {
        dst.push(src[j]);
        assert(dst@ =~= base + src@.take(j + 1));
        j += 1;
    }
    assert(base + src@.take(src@.len() as int) =~= base + src@);
}

/// Bounded replay of PTY output. However the output arrives, the buffer
/// holds exactly the last `min(total, capacity)` bytes of it; a chunk longer
/// than the capacity replaces the contents with its own tail.
pub struct ReplayBuffer {
    data: Vec<u8>,
    capacity: usize,
    history: Ghost<Seq<u8>>,
}

impl ReplayBuffer {
    /// The buffer mirrors the tail of everything ever appended.
    pub closed spec fn wf(&self) -> bool {
        self.data@ == spec_tail(self.history@, self.capacity as nat)
    }

    /// All bytes ever appended, oldest first.
    pub closed spec fn spec_history(&self) -> Seq<u8> {
        self.history@
    }

    pub closed spec fn spec_capacity(&self) -> nat {
        self.capacity as nat
    }

    pub fn new(capacity: usize) -> (r: Self)
        ensures
            r.wf(),
            r.spec_history() == Seq::<u8>::empty(),
            r.spec_capacity() == capacity,
    {
        let r = ReplayBuffer { data: Vec::new(), capacity, history: Ghost(Seq::empty()) };
        proof {
            assert(spec_tail(Seq::<u8>::empty(), capacity as nat) =~= Seq::<u8>::empty());
        }
        r
    }

    pub fn capacity(&self) -> (r: usize)
        ensures
            r == self.spec_capacity(),
    {
        self.capacity
    }

    /// Splice one output chunk onto the ring, honoring the capacity bound.
    pub fn append(&mut self, chunk: &Vec<u8>)
        requires
            old(self).wf(),
        ensures
            final(self).wf(),
            final(self).spec_history() == old(self).spec_history() + chunk@,
            final(self).spec_capacity() == old(self).spec_capacity(),
    {
        let ghost h0 = self.history@;
        let cap = self.capacity;
        proof {
            self.history@ = h0 + chunk@;
        }
        let clen = chunk.len();
        if cap == 0 {
            proof {
                assert(spec_tail(h0, 0) =~= Seq::<u8>::empty());
                assert(spec_tail(h0 + chunk@, 0) =~= Seq::<u8>::empty());
            }
            return ;
        }
        if clen >= cap {
            self.data = byte_range(chunk, clen - cap, clen);
            proof {
                let h = h0 + chunk@;
                assert(h.len() >= cap);
                assert(self.data@ =~= spec_tail(h, cap as nat));
            }
        } else {
            let dlen = self.data.len();
            proof {
                assert(self.data@.len() == spec_tail(h0, cap as nat).len());
            }
            let room = cap - dlen;
            let keep_from = if clen > room {
                clen - room
            } else {
                0
            };
            let mut kept = byte_range(&self.data, keep_from, dlen);
            push_bytes(&mut kept, chunk);
            proof {
                let h = h0 + chunk@;
                if h0.len() <= cap {
                    assert(self.data@ == h0);
                    if h0.len() + clen <= cap {
                        assert(keep_from == 0);
                        assert(kept@ =~= spec_tail(h, cap as nat));
                    } else {
                        assert(keep_from == h0.len() + clen - cap);
                        assert(kept@ =~= spec_tail(h, cap as nat));
                    }
                } else {
                    assert(self.data@ == h0.skip(h0.len() - cap as nat));
                    assert(dlen == cap);
                    assert(keep_from == clen);
                    assert(h.len() > cap);
                    assert(kept@ =~= spec_tail(h, cap as nat));
                }
            }
            self.data = kept;
        }
    }

    /// Snapshot for playback: exactly the last `min(total, capacity)` bytes
    /// of everything this PTY has emitted.
    pub fn get_buffer(&self) -> (r: Vec<u8>)
        requires
            self.wf(),
        ensures
            r@ == spec_tail(self.spec_history(), self.spec_capacity()),
    {
        byte_range(&self.data, 0, self.data.len())
    }
}

/// The bytes of the writes in `ws`, concatenated in order.
pub open spec fn spec_concat(ws: Seq<Seq<u8>>) -> Seq<u8>
    decreases ws.len(),
{
    if ws.len() == 0 {
        Seq::empty()
    } else {
        ws[0] + spec_concat(ws.skip(1))
    }
}

/// Where write `i` begins in the concatenation: the total length of the
/// writes before it.
pub open spec fn spec_offset(ws: Seq<Seq<u8>>, i: int) -> int
    decreases i,
{
    if i <= 0 {
        0
    } else {
        ws[0].len() + spec_offset(ws.skip(1), i - 1)
    }
}

/// Concatenating after a push appends the pushed write's bytes.
pub proof fn lemma_concat_push(ws: Seq<Seq<u8>>, w: Seq<u8>)
    ensures
        spec_concat(ws.push(w)) == spec_concat(ws) + w,
    decreases ws.len(),
{
    if ws.len() == 0 {
        let p = ws.push(w);
        assert(p[0] == w);
        assert(p.skip(1) =~= Seq::<Seq<u8>>::empty());
        assert(spec_concat(Seq::<Seq<u8>>::empty()) == Seq::<u8>::empty());
        assert(spec_concat(p) == p[0] + spec_concat(p.skip(1)));
        assert(p[0] + Seq::<u8>::empty() =~= w);
        assert(spec_concat(ws) + w =~= w);
    } else {
        lemma_concat_push(ws.skip(1), w);
        assert(ws.push(w).skip(1) =~= ws.skip(1).push(w));
        assert(ws.push(w)[0] == ws[0]);
        assert(spec_concat(ws.push(w)) == ws[0] + spec_concat(ws.skip(1).push(w)));
        assert(ws[0] + (spec_concat(ws.skip(1)) + w) =~= (ws[0] + spec_concat(ws.skip(1))) + w);
    }
}

/// Law: the delivered byte stream is an interleaving in which every write
/// appears as one contiguous block, the blocks standing back to back in
/// enqueue order.
pub proof fn lemma_writes_contiguous(ws: Seq<Seq<u8>>, i: int)
    requires
        0 <= i < ws.len(),
    ensures
        0 <= spec_offset(ws, i),
        spec_offset(ws, i) + ws[i].len() <= spec_concat(ws).len(),
        spec_concat(ws).subrange(spec_offset(ws, i), spec_offset(ws, i) + ws[i].len()) == ws[i],
        i + 1 < ws.len() ==> spec_offset(ws, i + 1) == spec_offset(ws, i) + ws[i].len(),
    decreases i,
{
    let c = spec_concat(ws);
    let rest = spec_concat(ws.skip(1));
    assert(c == ws[0] + rest);
    if i == 0 {
        assert(c.subrange(0, ws[0].len() as int) =~= ws[0]);
        if 1 < ws.len() {
            assert(spec_offset(ws, 1) == ws[0].len() + spec_offset(ws.skip(1), 0));
        }
    } else {
        lemma_writes_contiguous(ws.skip(1), i - 1);
        assert(ws.skip(1)[i - 1] == ws[i]);
        let off = spec_offset(ws.skip(1), i - 1);
        assert(c.subrange(ws[0].len() + off, ws[0].len() + off + ws[i].len()) =~= rest.subrange(
            off,
            off + ws[i].len(),
        ));
        if i + 1 < ws.len() {
            assert(ws.skip(1)[i] == ws[i + 1]);
            assert(spec_offset(ws, i + 1) == ws[0].len() + spec_offset(ws.skip(1), i));
        }
    }
}

/// Model of one PTY's serialized writer: callers enqueue whole writes; the
/// writer thread services them one at a time, strictly FIFO, so the bytes
/// reaching the child are the enqueued writes concatenated in order and
/// never interleaved at byte granularity.
pub struct WriteChannel {
    pending: Vec<Vec<u8>>,
    delivered: Vec<u8>,
    serviced: Ghost<Seq<Seq<u8>>>,
}

impl WriteChannel {
    /// Every byte delivered so far came from the serviced writes, in order.
    pub closed spec fn wf(&self) -> bool {
        self.delivered@ == spec_concat(self.serviced@)
    }

    /// The writes already handed to the child, in enqueue order.
    pub closed spec fn spec_serviced(&self) -> Seq<Seq<u8>> {
        self.serviced@
    }

    /// The writes enqueued and not yet serviced, oldest first.
    pub closed spec fn spec_pending(&self) -> Seq<Seq<u8>> {
        self.pending.deep_view()
    }

    /// The bytes handed to the child so far.
    pub closed spec fn spec_delivered(&self) -> Seq<u8> {
        self.delivered@
    }

    pub fn new() -> (r: Self)
        ensures
            r.wf(),
            r.spec_serviced() == Seq::<Seq<u8>>::empty(),
            r.spec_pending() == Seq::<Seq<u8>>::empty(),
            r.spec_delivered() == Seq::<u8>::empty(),
    {
        let r = WriteChannel { pending: Vec::new(), delivered: Vec::new(), serviced: Ghost(Seq::empty()) };
        proof {
            assert(spec_concat(Seq::<Seq<u8>>::empty()) =~= Seq::<u8>::empty());
            assert(r.pending.deep_view() =~= Seq::<Seq<u8>>::empty());
        }
        r
    }

    /// A caller hands one write to the channel; it joins the queue whole.
    pub fn enqueue(&mut self, w: Vec<u8>)
        requires
            old(self).wf(),
        ensures
            final(self).wf(),
            final(self).spec_pending() == old(self).spec_pending().push(w@),
            final(self).spec_serviced() == old(self).spec_serviced(),
            final(self).spec_delivered() == old(self).spec_delivered(),
    {
        let ghost pre = self.pending.deep_view();
        let ghost pre_v = self.pending@;
        let ghost wv = w@;
        let ghost wd = w.deep_view();
        proof {
            assert(wd =~= wv);
        }
        self.pending.push(w);
        proof {
            assert forall|k: int| 0 <= k < pre.len() implies self.pending.deep_view()[k]
                == pre[k] by {
                assert(self.pending@[k] == pre_v[k]);
            }
            assert(self.pending.deep_view()[pre.len() as int] == wd);
            assert(self.pending.deep_view() =~= pre.push(wv));
        }
    }

    /// The writer thread takes the oldest pending write and hands its bytes
    /// to the child in one piece. Returns the bytes written, or `None` when
    /// the queue is idle.
    pub fn service_one(&mut self) -> (r: Option<Vec<u8>>)
        requires
            old(self).wf(),
        ensures
            final(self).wf(),
            old(self).spec_pending().len() == 0 ==> r is None && *final(self) == *old(self),
            old(self).spec_pending().len() > 0 ==> {
                &&& r matches Some(w) && w@ == old(self).spec_pending()[0]
                &&& final(self).spec_pending() == old(self).spec_pending().skip(1)
                &&& final(self).spec_serviced() == old(self).spec_serviced().push(
                    old(self).spec_pending()[0],
                )
                &&& final(self).spec_delivered() == old(self).spec_delivered() + old(
                    self,
                ).spec_pending()[0]
            },
    {
        if self.pending.len() == 0 {
            proof {
                assert(self.pending.deep_view().len() == 0);
            }
            return None;
        }
        let ghost pre = self.pending.deep_view();
        let ghost pre_v = self.pending@;
        let w = self.pending.remove(0);
        proof {
            assert forall|k: int| 0 <= k < self.pending@.len() implies self.pending.deep_view()[k]
                == pre.skip(1)[k] by {
                assert(self.pending@[k] == pre_v.remove(0)[k]);
                assert(pre_v.remove(0)[k] == pre_v[k + 1]);
            }
            assert(self.pending.deep_view() =~= pre.skip(1));
            assert(pre[0] == pre_v[0].deep_view());
            assert(w == pre_v[0]);
            assert(w.deep_view() =~= w@);
            assert(w@ == pre[0]);
        }
        push_bytes(&mut self.delivered, &w);
        proof {
            lemma_concat_push(self.serviced@, w@);
            self.serviced@ = self.serviced@.push(w@);
        }
        let out = byte_range(&w, 0, w.len());
        proof {
            assert(out@ =~= w@);
        }
        Some(out)
    }

    /// Snapshot of the bytes delivered so far.
    pub fn delivered(&self) -> (r: Vec<u8>)
        ensures
            r@ == self.spec_delivered(),
    {
        byte_range(&self.delivered, 0, self.delivered.len())
    }
}

} // verus!
