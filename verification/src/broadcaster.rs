//! The process-wide fan-out channel: any producer publishes a text payload,
//! and every subscriber observes the payloads published after it subscribed,
//! in publish order.
//!
//! Overflow policy (fixed and documented, per the channel's contract): a
//! publisher never blocks and never loses its own publish; a subscriber that
//! falls more than `capacity` payloads behind receives an explicit lag
//! signal, its cursor jumps forward to the oldest payload still within the
//! capacity window, and the skipped payloads are missed permanently. The
//! same policy applies to session relays and to the persistence worker.
//!
//! The broadcaster retains only the newest `capacity` payloads: anything
//! older can never be observed again under the lag policy, so it is
//! dropped, and a process-lifetime channel stays bounded. The contracts
//! still speak of the full publish log — held in ghost state — so "the
//! payloads published after subscription, in publish order" means what it
//! says even across drops.
//!
//! The broadcaster is an explicitly constructed object handed to every
//! component that needs it — there is no implicit global channel. Sessions
//! republish inbound frames verbatim: a publisher's own subscriber receives
//! its payload back (no self-filtering), see
//! [`lemma_broadcast_echoes_sender`].

use vstd::prelude::*;

verus! {

/// The payloads still pending for a subscriber whose cursor stands at
/// `cursor`, given the full publish log.
pub open spec fn pending(log: Seq<Seq<char>>, cursor: int) -> Seq<Seq<char>> {
    log.subrange(cursor, log.len() as int)
}

/// The fan-out channel. `buf` holds the newest `capacity` payloads (fewer
/// while the log is short); the full publish log lives in ghost state and
/// is what the contracts speak of.
pub struct Broadcaster {
    capacity: usize,
    published: usize,
    buf: Vec<String>,
    log: Ghost<Seq<Seq<char>>>,
}

/// A receive handle: observes only payloads published after it was created.
pub struct Subscriber {
    cursor: usize,
}

impl Subscriber {
    /// Position of the next payload this subscriber would observe.
    pub closed spec fn pos(&self) -> int {
        self.cursor as int
    }
}

/// What one receive attempt observes.
pub enum RecvOutcome {
    /// The next pending payload, in publish order.
    Payload(String),
    /// The subscriber fell more than `capacity` behind: it missed this many
    /// payloads permanently and was moved forward to the capacity window.
    Lagged(usize),
    /// Nothing is pending; a live system would park until the next publish.
    Empty,
}

impl Broadcaster {
    /// Every payload ever published, in publish order. All subscribers
    /// observe this one shared order.
    pub closed spec fn payloads(&self) -> Seq<Seq<char>> {
        self.log@
    }

    /// The configured receive-buffer capacity.
    pub closed spec fn cap(&self) -> int {
        self.capacity as int
    }

    /// Index of the oldest payload still buffered.
    spec fn base(&self) -> int {
        self.published - self.buf.len()
    }

    /// The buffer is exactly the newest `capacity` entries of the log
    /// (all of it while the log is shorter).
    #[verifier::type_invariant]
    closed spec fn inv(self) -> bool {
        &&& self.capacity >= 1
        &&& self.published == self.log@.len()
        &&& self.buf.len() == if self.published <= self.capacity {
            self.published as int
        } else {
            self.capacity as int
        }
        &&& forall|k: int|
            0 <= k < self.buf.len() ==> (#[trigger] self.buf@[k])@ == self.log@[self.base() + k]
    }

    pub fn new(capacity: usize) -> (b: Broadcaster)
        requires
            capacity >= 1,
        ensures
            b.payloads() == Seq::<Seq<char>>::empty(),
            b.cap() == capacity,
    {
        Broadcaster {
            capacity,
            published: 0,
            buf: Vec::new(),
            log: Ghost(Seq::empty()),
        }
    }

    /// How many payloads have ever been published. (The machine limit on
    /// this count is the one bound a caller of [`Broadcaster::publish`]
    /// must respect.)
    pub fn published_count(&self) -> (n: usize)
        ensures
            n == self.payloads().len(),
    {
        proof {
            use_type_invariant(self);
        }
        self.published
    }

    /// Publishes one payload: appended to the shared log, never blocking
    /// the publisher and never dropped on the publish side. The buffer
    /// drops its oldest entry once the capacity window is full.
    pub fn publish(&mut self, payload: String)
        requires
            old(self).payloads().len() < usize::MAX,
        ensures
            final(self).payloads() == old(self).payloads().push(payload@),
            final(self).cap() == old(self).cap(),
    {
        proof {
            use_type_invariant(&*self);
        }
        let ghost p = payload@;
        let mut tmp = Broadcaster {
            capacity: 1,
            published: 0,
            buf: Vec::new(),
            log: Ghost(Seq::empty()),
        };
        std::mem::swap(self, &mut tmp);
        let Broadcaster { capacity, published, mut buf, log } = tmp;
        let ghost old_buf = buf@;
        buf.push(payload);
        if buf.len() > capacity {
            buf.remove(0);
        }
        let next = Broadcaster {
            capacity,
            published: published + 1,
            buf,
            log: Ghost(log@.push(p)),
        };
        proof {
            let newlog = log@.push(p);
            let nb = next.buf@;
            assert forall|k: int| 0 <= k < nb.len() implies (#[trigger] nb[k])@ == newlog[next.base()
                + k] by {
                if published < capacity {
                    if k < old_buf.len() {
                        assert(nb[k] == old_buf[k]);
                    } else {
                        assert(nb[k] == payload);
                    }
                } else {
                    assert(nb[k] == old_buf.push(payload)[k + 1]);
                    if k + 1 < capacity {
                        assert(nb[k]@ == newlog[next.base() + k]);
                    } else {
                        assert(nb[k] == payload);
                    }
                }
            }
        }
        *self = next;
    }

    /// A new receive handle: it observes only payloads published from now
    /// on — no backlog replay.
    pub fn subscribe(&self) -> (s: Subscriber)
        ensures
            s.pos() == self.payloads().len(),
    {
        proof {
            use_type_invariant(self);
        }
        Subscriber { cursor: self.published }
    }

    /// One receive attempt. Within the capacity window the subscriber gets
    /// the next pending payload in publish order; beyond it, an explicit
    /// lag signal with the number of payloads missed.
    pub fn recv(&self, sub: &mut Subscriber) -> (r: RecvOutcome)
        ensures
            old(sub).pos() >= self.payloads().len() ==> r is Empty && final(sub).pos() == old(
                sub,
            ).pos(),
            old(sub).pos() < self.payloads().len() && self.payloads().len() - old(sub).pos()
                <= self.cap() ==> {
                &&& r matches RecvOutcome::Payload(p) && p@ == self.payloads()[old(sub).pos()]
                &&& final(sub).pos() == old(sub).pos() + 1
            },
            self.payloads().len() - old(sub).pos() > self.cap() ==> {
                &&& r matches RecvOutcome::Lagged(missed) && missed == self.payloads().len() - old(
                    sub,
                ).pos() - self.cap()
                &&& final(sub).pos() == self.payloads().len() - self.cap()
            },
    {
        proof {
            use_type_invariant(self);
        }
        let n = self.published;
        if sub.cursor >= n {
            RecvOutcome::Empty
        } else if n - sub.cursor > self.capacity {
            let missed = n - sub.cursor - self.capacity;
            sub.cursor = n - self.capacity;
            RecvOutcome::Lagged(missed)
        } else {
            let idx = sub.cursor - (n - self.buf.len());
            let p = self.buf[idx].clone();
            sub.cursor = sub.cursor + 1;
            RecvOutcome::Payload(p)
        }
    }

    /// Receives everything pending: the subscriber ends caught up, having
    /// observed — in publish order — all pending payloads if it was within
    /// the capacity window, and otherwise only the newest `cap()` of them
    /// (the rest were missed by the documented lag policy).
    pub fn drain(&self, sub: &mut Subscriber) -> (r: Vec<String>)
        ensures
            final(sub).pos() == self.payloads().len(),
            old(sub).pos() > self.payloads().len() ==> r@.len() == 0,
            old(sub).pos() <= self.payloads().len() && self.payloads().len() - old(sub).pos()
                <= self.cap() ==> r@.map(|_j: int, s: String| s@) == pending(
                self.payloads(),
                old(sub).pos(),
            ),
            self.payloads().len() - old(sub).pos() > self.cap() ==> r@.map(
                |_j: int, s: String| s@,
            ) == pending(self.payloads(), self.payloads().len() - self.cap()),
    {
        proof {
            use_type_invariant(self);
        }
        let n = self.published;
        if sub.cursor > n {
            sub.cursor = n;
        }
        if n - sub.cursor > self.capacity {
            sub.cursor = n - self.capacity;
        }
        let ghost start = sub.pos();
        let mut r: Vec<String> = Vec::new();
        proof {
            assert(r@.map(|_j: int, s: String| s@) =~= self.payloads().subrange(start, start));
        }
        while sub.cursor < n
            invariant
                n == self.payloads().len(),
                0 <= start <= sub.pos() <= n,
                sub.pos() + self.cap() >= n,
                r@.map(|_j: int, s: String| s@) == self.payloads().subrange(start, sub.pos()),
            decreases n - sub.pos(),
        {
            proof {
                use_type_invariant(self);
            }
            let ghost old_map = r@.map(|_j: int, s: String| s@);
            let idx = sub.cursor - (self.published - self.buf.len());
            r.push(self.buf[idx].clone());
            proof {
                assert(r@.map(|_j: int, s: String| s@) =~= old_map.push(
                    self.payloads()[sub.pos()],
                ));
                assert(self.payloads().subrange(start, sub.pos() + 1) =~= self.payloads().subrange(
                    start,
                    sub.pos(),
                ).push(self.payloads()[sub.pos()]));
            }
            sub.cursor = sub.cursor + 1;
        }
        r
    }
}

/// Law: every subscriber that subscribed before the first publish of a batch
/// has, after the batch, exactly the whole batch pending, in publish order —
/// nothing lost and nothing reordered. (Whether it then observes all of it
/// is governed by the capacity window: see [`Broadcaster::drain`].)
pub proof fn lemma_subscribed_before_sees_batch(
    pre: Seq<Seq<char>>,
    batch: Seq<Seq<char>>,
    cursor: int,
)
    requires
        cursor == pre.len(),
    ensures
        pending(pre + batch, cursor) == batch,
{
    assert(pending(pre + batch, cursor) =~= batch);
}

/// Law: broadcast includes the sender. After a publish, the published
/// payload is pending for every subscriber that was not already ahead of
/// the log — the publisher's own subscriber included: nothing filters a
/// session's own payload out.
pub proof fn lemma_broadcast_echoes_sender(log: Seq<Seq<char>>, p: Seq<char>, cursor: int)
    requires
        0 <= cursor <= log.len(),
    ensures
        pending(log.push(p), cursor).len() > 0,
        pending(log.push(p), cursor).last() == p,
{
    assert(pending(log.push(p), cursor).len() == log.len() + 1 - cursor);
}

} // verus!
