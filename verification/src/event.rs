//! The measurement event log's entry model.
//!
//! A [`TcgImrEvent`] is one stored record of the node-level or a container's
//! event log.  Entries arrive from the platform log source as
//! [`EventLogEntry`] values: the crypto-agile form carrying one digest per
//! algorithm, the legacy single-digest form, or the unsupported canonical
//! form.

use vstd::prelude::*;

verus! {

/// Event type tag of a Linux IMA measurement entry in the platform log.
pub const IMA_MEASUREMENT_EVENT: u32 = 0x14;

/// Mathematical value of a [`TcgDigest`].
#[verifier::ext_equal]
pub struct DigestView {
    pub algo_id: u32,
    pub hash: Seq<u8>,
}

/// One (algorithm identifier, hash) pair.  Doubles as the representation of
/// an integrity measurement register, whose `hash` is only ever advanced by
/// chaining.
#[derive(Debug, PartialEq, Eq)]
pub struct TcgDigest {
    pub algo_id: u32,
    pub hash: Vec<u8>,
}

impl View for TcgDigest {
    type V = DigestView;

    open spec fn view(&self) -> DigestView {
        DigestView { algo_id: self.algo_id, hash: self.hash@ }
    }
}

impl Clone for TcgDigest {
    fn clone(&self) -> (r: Self)
        ensures
            r@ == self@,
    {
        let hash = clone_bytes(&self.hash);
        TcgDigest { algo_id: self.algo_id, hash }
    }
}

/// Mathematical value of a [`TcgImrEvent`].
#[verifier::ext_equal]
pub struct EventView {
    pub imr_index: u32,
    pub event_type: u32,
    pub event_size: u32,
    pub event: Seq<u8>,
    pub digest: Seq<u8>,
    pub digests: Seq<DigestView>,
}

/// One stored event-log record.  Crypto-agile entries carry their digests in
/// `digests` and leave `digest` empty; legacy entries carry a single hash in
/// `digest` and leave `digests` empty.
#[derive(Debug, PartialEq, Eq)]
pub struct TcgImrEvent {
    pub imr_index: u32,
    pub event_type: u32,
    pub event_size: u32,
    pub event: Vec<u8>,
    pub digest: Vec<u8>,
    pub digests: Vec<TcgDigest>,
}

/// The views of a sequence of digests.
pub open spec fn digest_views(ds: Seq<TcgDigest>) -> Seq<DigestView> {
    ds.map_values(|d: TcgDigest| d@)
}

/// The views of a sequence of stored events.
pub open spec fn event_views(es: Seq<TcgImrEvent>) -> Seq<EventView> {
    es.map_values(|e: TcgImrEvent| e@)
}

impl View for TcgImrEvent {
    type V = EventView;

    open spec fn view(&self) -> EventView {
        EventView {
            imr_index: self.imr_index,
            event_type: self.event_type,
            event_size: self.event_size,
            event: self.event@,
            digest: self.digest@,
            digests: digest_views(self.digests@),
        }
    }
}

impl Clone for TcgImrEvent {
    fn clone(&self) -> (r: Self)
        ensures
            r@ == self@,
    {
        let r = TcgImrEvent {
            imr_index: self.imr_index,
            event_type: self.event_type,
            event_size: self.event_size,
            event: clone_bytes(&self.event),
            digest: clone_bytes(&self.digest),
            digests: clone_digests(&self.digests),
        };
        proof {
            assert(r@.digests =~= self@.digests);
            assert(r@ =~= self@);
        }
        r
    }
}

/// Mathematical value of an [`EventLogEntry`].
#[verifier::ext_equal]
pub enum EntryView {
    ImrEvent {
        imr_index: u32,
        event_type: u32,
        event_size: u32,
        event: Seq<u8>,
        digests: Seq<DigestView>,
    },
    PcClientImrEvent {
        imr_index: u32,
        event_type: u32,
        event_size: u32,
        event: Seq<u8>,
        digest: Seq<u8>,
    },
    CanonicalEvent,
}

/// One record as delivered by the platform log source.
#[derive(Debug, PartialEq, Eq)]
pub enum EventLogEntry {
    /// Crypto-agile form: possibly several digests, one per algorithm.
    ImrEvent {
        imr_index: u32,
        event_type: u32,
        event_size: u32,
        event: Vec<u8>,
        digests: Vec<TcgDigest>,
    },
    /// Legacy single-algorithm form with one fixed-size hash.
    PcClientImrEvent {
        imr_index: u32,
        event_type: u32,
        event_size: u32,
        event: Vec<u8>,
        digest: Vec<u8>,
    },
    /// Reserved canonical form; encountering one is an error.
    CanonicalEvent,
}

impl View for EventLogEntry {
    type V = EntryView;

    open spec fn view(&self) -> EntryView {
        match self {
            EventLogEntry::ImrEvent { imr_index, event_type, event_size, event, digests } => {
                EntryView::ImrEvent {
                    imr_index: *imr_index,
                    event_type: *event_type,
                    event_size: *event_size,
                    event: event@,
                    digests: digest_views(digests@),
                }
            },
            EventLogEntry::PcClientImrEvent {
                imr_index,
                event_type,
                event_size,
                event,
                digest,
            } => {
                EntryView::PcClientImrEvent {
                    imr_index: *imr_index,
                    event_type: *event_type,
                    event_size: *event_size,
                    event: event@,
                    digest: digest@,
                }
            },
            EventLogEntry::CanonicalEvent => EntryView::CanonicalEvent,
        }
    }
}

/// The views of a sequence of delivered entries.
pub open spec fn entry_views(es: Seq<EventLogEntry>) -> Seq<EntryView> {
    es.map_values(|e: EventLogEntry| e@)
}

impl Clone for EventLogEntry {
    fn clone(&self) -> (r: Self)
        ensures
            r@ == self@,
    {
        match self {
            EventLogEntry::ImrEvent { imr_index, event_type, event_size, event, digests } => {
                let r = EventLogEntry::ImrEvent {
                    imr_index: *imr_index,
                    event_type: *event_type,
                    event_size: *event_size,
                    event: clone_bytes(event),
                    digests: clone_digests(digests),
                };
                proof {
                    assert(r@ =~= self@);
                }
                r
            },
            EventLogEntry::PcClientImrEvent {
                imr_index,
                event_type,
                event_size,
                event,
                digest,
            } => {
                let r = EventLogEntry::PcClientImrEvent {
                    imr_index: *imr_index,
                    event_type: *event_type,
                    event_size: *event_size,
                    event: clone_bytes(event),
                    digest: clone_bytes(digest),
                };
                proof {
                    assert(r@ =~= self@);
                }
                r
            },
            EventLogEntry::CanonicalEvent => EventLogEntry::CanonicalEvent,
        }
    }
}

/// A copy of a byte vector.
pub fn clone_bytes(v: &Vec<u8>) -> (r: Vec<u8>)
    ensures
        r@ == v@,
{
    let mut r: Vec<u8> = Vec::new();
    let mut i: usize = 0;
    while i < v.len()
        invariant
            i <= v.len(),
            r@ == v@.take(i as int),
        decreases v.len() - i,
    {
        r.push(v[i]);
        i = i + 1;
        proof {
            assert(r@ =~= v@.take(i as int));
        }
    }
    proof {
        assert(v@.take(v@.len() as int) =~= v@);
    }
    r
}

/// A copy of a digest list, element for element.
pub fn clone_digests(v: &Vec<TcgDigest>) -> (r: Vec<TcgDigest>)
    ensures
        digest_views(r@) == digest_views(v@),
        r@.len() == v@.len(),
{
    let mut r: Vec<TcgDigest> = Vec::new();
    let mut i: usize = 0;
    while i < v.len()
        invariant
            i <= v.len(),
            r@.len() == i,
            forall|j: int| 0 <= j < i ==> r@[j]@ == v@[j]@,
        decreases v.len() - i,
    {
        r.push(v[i].clone());
        i = i + 1;
    }
    proof {
        assert(digest_views(r@) =~= digest_views(v@));
    }
    r
}

/// A copy of a stored event list, element for element.
pub fn clone_events(v: &Vec<TcgImrEvent>) -> (r: Vec<TcgImrEvent>)
    ensures
        event_views(r@) == event_views(v@),
        r@.len() == v@.len(),
{
    let mut r: Vec<TcgImrEvent> = Vec::new();
    let mut i: usize = 0;
    while i < v.len()
        invariant
            i <= v.len(),
            r@.len() == i,
            forall|j: int| 0 <= j < i ==> r@[j]@ == v@[j]@,
        decreases v.len() - i,
    {
        r.push(v[i].clone());
        i = i + 1;
    }
    proof {
        assert(event_views(r@) =~= event_views(v@));
    }
    r
}

} // verus!
