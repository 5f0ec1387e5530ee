//! Container-scoped measurement state: one integrity measurement register
//! plus the container's own slice of the event log.
//!
//! A register's hash starts all-zero and is only ever advanced by chaining
//! ([`extend_digests`]): each digest of an event is folded in sequentially,
//! so the final value is a commitment to the ordered sequence of all
//! extended digests.

use vstd::prelude::*;

use crate::crypto::{hash_bytes, hash_of};
use crate::event::{
    clone_bytes, clone_events, digest_views, event_views, DigestView, EventView, TcgDigest,
    TcgImrEvent,
};

verus! {

/// The register index under which a container's own entries are stored,
/// distinguishing them from node-scoped entries after slicing.
pub const CONTAINER_IMR_INDEX: u32 = 3;

/// `n` zero bytes: the starting value of every register's hash.
pub open spec fn zero_bytes(n: nat) -> Seq<u8> {
    Seq::new(n, |i: int| 0u8)
}

/// One chaining step: fold digest `d` into register hash `h`.  A digest whose
/// length differs from the register's is skipped, so a malformed digest can
/// never corrupt the register.
pub open spec fn extend_one(algo_id: u32, h: Seq<u8>, d: Seq<u8>) -> Seq<u8> {
    if d.len() != h.len() {
        h
    } else {
        hash_of(algo_id, h + d)
    }
}

/// Chaining a whole digest list into register hash `h`, in order.
pub open spec fn extend_digests(algo_id: u32, h: Seq<u8>, ds: Seq<DigestView>) -> Seq<u8>
    decreases ds.len(),
{
    if ds.len() == 0 {
        h
    } else {
        extend_digests(algo_id, extend_one(algo_id, h, ds[0].hash), ds.drop_first())
    }
}

/// Chaining one more digest after a list chains that digest into the fold of
/// the list.
pub proof fn lemma_extend_digests_push(algo_id: u32, h: Seq<u8>, ds: Seq<DigestView>, d: DigestView)
    ensures
        extend_digests(algo_id, h, ds.push(d)) == extend_one(
            algo_id,
            extend_digests(algo_id, h, ds),
            d.hash,
        ),
    decreases ds.len(),
{
    if ds.len() == 0 {
        assert(ds.push(d)[0] == d);
        assert(ds.push(d).drop_first() =~= Seq::<DigestView>::empty());
        assert(extend_digests(algo_id, h, ds.push(d)) == extend_digests(
            algo_id,
            extend_one(algo_id, h, d.hash),
            Seq::<DigestView>::empty(),
        ));
        assert(extend_digests(algo_id, h, ds) == h);
    } else {
        let e1 = extend_one(algo_id, h, ds[0].hash);
        assert(ds.push(d)[0] == ds[0]);
        assert(ds.push(d).drop_first() =~= ds.drop_first().push(d));
        assert(extend_digests(algo_id, h, ds) == extend_digests(algo_id, e1, ds.drop_first()));
        assert(extend_digests(algo_id, h, ds.push(d)) == extend_digests(
            algo_id,
            e1,
            ds.drop_first().push(d),
        ));
        lemma_extend_digests_push(algo_id, e1, ds.drop_first(), d);
    }
}

/// Chaining is deterministic: the final register value is a function of the
/// starting register and the ordered digest sequence alone, so replaying
/// the same digests in the same order reproduces it bit for bit.
pub proof fn lemma_chaining_deterministic(
    algo_id: u32,
    h1: Seq<u8>,
    h2: Seq<u8>,
    ds1: Seq<DigestView>,
    ds2: Seq<DigestView>,
)
    requires
        h1 == h2,
        ds1 == ds2,
    ensures
        extend_digests(algo_id, h1, ds1) == extend_digests(algo_id, h2, ds2),
{
}

/// The event stored with its register index rewritten.
pub open spec fn with_imr_index(ev: EventView, idx: u32) -> EventView {
    EventView { imr_index: idx, ..ev }
}

/// Mathematical value of a [`Container`].
#[verifier::ext_equal]
pub struct ContainerView {
    pub id: Seq<char>,
    pub pod_id: Seq<char>,
    pub imr: DigestView,
    pub eventlogs: Seq<EventView>,
}

/// A container extended by one event: every digest of the event is chained
/// into the register, and the event itself, rewritten to the container
/// register index, is appended to the container's event log.
pub open spec fn container_extended(c: ContainerView, ev: EventView) -> ContainerView {
    ContainerView {
        imr: DigestView {
            algo_id: c.imr.algo_id,
            hash: extend_digests(c.imr.algo_id, c.imr.hash, ev.digests),
        },
        eventlogs: c.eventlogs.push(with_imr_index(ev, CONTAINER_IMR_INDEX)),
        ..c
    }
}

/// Per-container measurement scope: identity, register, event-log slice.
pub struct Container {
    id: String,
    pod_id: String,
    imr: TcgDigest,
    eventlogs: Vec<TcgImrEvent>,
}

impl View for Container {
    type V = ContainerView;

    closed spec fn view(&self) -> ContainerView {
        ContainerView {
            id: self.id@,
            pod_id: self.pod_id@,
            imr: self.imr@,
            eventlogs: event_views(self.eventlogs@),
        }
    }
}

/// A zero-valued register of the given algorithm and digest length.
pub fn zero_register(algo_id: u32, len: usize) -> (d: TcgDigest)
    ensures
        d@.algo_id == algo_id,
        d@.hash == zero_bytes(len as nat),
{
    let mut hash: Vec<u8> = Vec::new();
    let mut i: usize = 0;
    while i < len
        invariant
            i <= len,
            hash@.len() == i,
            forall|j: int| 0 <= j < i ==> hash@[j] == 0u8,
        decreases len - i,
    {
        hash.push(0u8);
        i = i + 1;
    }
    proof {
        assert(hash@ =~= zero_bytes(len as nat));
    }
    TcgDigest { algo_id, hash }
}

impl Container {
    /// A freshly observed container: the given identity, a register seeded
    /// all-zero with the algorithm and digest length of `template` (never the
    /// template's accumulated value), and an empty event log.
    pub fn new(id: String, pod_id: String, template: &TcgDigest) -> (c: Container)
        ensures
            c@ == (ContainerView {
                id: id@,
                pod_id: pod_id@,
                imr: DigestView {
                    algo_id: template@.algo_id,
                    hash: zero_bytes(template@.hash.len()),
                },
                eventlogs: Seq::<EventView>::empty(),
            }),
    {
        let imr = zero_register(template.algo_id, template.hash.len());
        let c = Container { id, pod_id, imr, eventlogs: Vec::new() };
        proof {
            assert(c@.eventlogs =~= Seq::<EventView>::empty());
            assert(c@ =~= ContainerView {
                id: c.id@,
                pod_id: c.pod_id@,
                imr: DigestView {
                    algo_id: template@.algo_id,
                    hash: zero_bytes(template@.hash.len()),
                },
                eventlogs: Seq::<EventView>::empty(),
            });
        }
        c
    }

    /// Whether this container is registered under the given identity.
    pub fn id_matches(&self, id: &String) -> (r: bool)
        ensures
            r == (self@.id == id@),
    {
        self.id.eq(id)
    }

    /// The identity under which this container is registered.
    pub fn get_id(&self) -> (r: String)
        ensures
            r@ == self@.id,
    {
        self.id.clone()
    }

    /// The pod identity, empty for non-Kubernetes containers.
    pub fn get_pod_id(&self) -> (r: String)
        ensures
            r@ == self@.pod_id,
    {
        self.pod_id.clone()
    }

    /// The current value of the container's register.
    pub fn get_imr(&self) -> (r: TcgDigest)
        ensures
            r@ == self@.imr,
    {
        self.imr.clone()
    }

    /// Replaces the container's register.
    pub fn set_imr(&mut self, imr: TcgDigest)
        ensures
            final(self)@ == (ContainerView { imr: imr@, ..old(self)@ }),
    {
        self.imr = imr;
    }

    /// A copy of the container's event log.
    pub fn get_eventlogs(&self) -> (r: Vec<TcgImrEvent>)
        ensures
            event_views(r@) == self@.eventlogs,
            r@.len() == self@.eventlogs.len(),
    {
        clone_events(&self.eventlogs)
    }

    /// Replaces the container's event log.
    pub fn set_eventlogs(&mut self, eventlogs: Vec<TcgImrEvent>)
        ensures
            final(self)@ == (ContainerView { eventlogs: event_views(eventlogs@), ..old(self)@ }),
    {
        self.eventlogs = eventlogs;
    }

    /// Chains every digest of `event` into the register, in order, skipping
    /// any digest whose length differs from the register's, then appends the
    /// event, rewritten to the container register index, to the container's
    /// event log.
    pub fn extend_imr(&mut self, event: TcgImrEvent)
        ensures
            final(self)@ == container_extended(old(self)@, event@),
    {
        let ghost c0 = self@;
        let ghost ev0 = event@;
        let num = event.digests.len();
        let mut i: usize = 0;
        while i < num
            invariant
                i <= num,
                num == event.digests@.len(),
                self@.imr.algo_id == c0.imr.algo_id,
                self@.imr.hash == extend_digests(c0.imr.algo_id, c0.imr.hash, ev0.digests.take(i as int)),
                self@.id == c0.id,
                self@.pod_id == c0.pod_id,
                self@.eventlogs == c0.eventlogs,
                event@ == ev0,
            decreases num - i,
        {
            let d = &event.digests[i];
            proof {
                assert(d@ == ev0.digests[i as int]);
            }
            if d.hash.len() == self.imr.hash.len() {
                let mut buf = clone_bytes(&self.imr.hash);
                let mut dh = clone_bytes(&d.hash);
                buf.append(&mut dh);
                let h = hash_bytes(self.imr.algo_id, &buf);
                self.imr.hash = h;
            }
            proof {
                lemma_extend_digests_push(
                    c0.imr.algo_id,
                    c0.imr.hash,
                    ev0.digests.take(i as int),
                    ev0.digests[i as int],
                );
                assert(ev0.digests.take(i as int).push(ev0.digests[i as int]) =~= ev0.digests.take(
                    i + 1,
                ));
            }
            i = i + 1;
        }
        proof {
            assert(ev0.digests.take(num as int) =~= ev0.digests);
        }
        let mut ev = event;
        ev.imr_index = CONTAINER_IMR_INDEX;
        self.eventlogs.push(ev);
        proof {
            assert(event_views(self.eventlogs@) =~= c0.eventlogs.push(
                with_imr_index(ev0, CONTAINER_IMR_INDEX),
            ));
            assert(self@ =~= container_extended(c0, ev0));
        }
    }
}

} // verus!
