//! The aggregation and isolation engine: one node-level measurement scope,
//! a registry of container scopes, and the node event log, advanced by
//! ingesting platform log entries and read through policy-gated queries.
//!
//! The embedding program fetches new entries from the platform log source —
//! from the current cursor, which is the number of entries already held —
//! and hands them to [`Agent::fetch_all_event_logs`]; every query then
//! answers from the current state.  Ingesting an empty batch changes
//! nothing, so refreshing is idempotent.

use vstd::prelude::*;
use vstd::utf8::{decode_utf8, valid_utf8};

use crate::cgroup::{cgroup_identity, parse_cgroup_path, IdentityView};
use crate::container::{
    container_extended, with_imr_index, zero_bytes, Container, ContainerView, CONTAINER_IMR_INDEX,
};
use crate::encoding::{b64_decode, b64_encode, base64_decoded, base64_of};
use crate::errors::AgentError;
use crate::event::{
    clone_bytes, clone_events, entry_views, event_views, DigestView, EntryView, EventLogEntry,
    EventView, TcgDigest, TcgImrEvent, IMA_MEASUREMENT_EVENT,
};
use crate::measurement::{Measurement, MeasurementView};
use crate::text::{bytes_to_string, split_string, split_text, string_views};

verus! {

/// Mathematical value of an [`Agent`].
#[verifier::ext_equal]
pub struct AgentView {
    pub measurement: MeasurementView,
    pub containers: Seq<ContainerView>,
    pub event_logs: Seq<EventView>,
}

/// The views of a sequence of containers.
pub open spec fn container_views(cs: Seq<Container>) -> Seq<ContainerView> {
    cs.map_values(|c: Container| c@)
}

/// The aggregation engine's whole state.
pub struct Agent {
    pub measurement: Measurement,
    pub containers: Vec<Container>,
    pub event_logs: Vec<TcgImrEvent>,
}

impl View for Agent {
    type V = AgentView;

    open spec fn view(&self) -> AgentView {
        AgentView {
            measurement: self.measurement@,
            containers: container_views(self.containers@),
            event_logs: event_views(self.event_logs@),
        }
    }
}

/// An optional position moved `off` places to the right.
pub open spec fn shifted_index(r: Option<int>, off: int) -> Option<int> {
    match r {
        None => None,
        Some(k) => Some(k + off),
    }
}

/// The position of the container registered under `id`, if any.
pub open spec fn find_container_text(cs: Seq<ContainerView>, id: Seq<char>) -> Option<int>
    decreases cs.len(),
{
    if cs.len() == 0 {
        None
    } else if cs[0].id == id {
        Some(0int)
    } else {
        match find_container_text(cs.drop_first(), id) {
            None => None,
            Some(k) => Some(k + 1),
        }
    }
}

/// A container scope at its creation: the observed identity, a register
/// seeded all-zero with the node register's algorithm and digest length
/// (never the node register's accumulated value), and an empty event log.
pub open spec fn new_container_view(ident: IdentityView, node_imr: DigestView) -> ContainerView {
    ContainerView {
        id: ident.container_id,
        pod_id: ident.pod_id,
        imr: DigestView { algo_id: node_imr.algo_id, hash: zero_bytes(node_imr.hash.len()) },
        eventlogs: Seq::<EventView>::empty(),
    }
}

/// Whether an IMA event body can be classified: UTF-8 text of exactly four
/// space-separated fields.
pub open spec fn classifiable(ev: EventView) -> bool {
    valid_utf8(ev.event) && split_text(decode_utf8(ev.event), ' ').len() == 4
}

/// The registry after routing one event to the identity it names: a new
/// container is created and extended, or the registered one is extended in
/// place.
pub open spec fn route_identity(s: AgentView, ident: IdentityView, ev: EventView) -> AgentView {
    match find_container_text(s.containers, ident.container_id) {
        None => AgentView {
            containers: s.containers.push(
                container_extended(new_container_view(ident, s.measurement.imr), ev),
            ),
            ..s
        },
        Some(k) => AgentView {
            containers: s.containers.update(k, container_extended(s.containers[k], ev)),
            ..s
        },
    }
}

/// The agent after classifying one IMA-typed event: nothing changes unless
/// the body is classifiable and its cgroup path names a recognised
/// container.
pub open spec fn route_event(s: AgentView, ev: EventView) -> AgentView {
    if !classifiable(ev) {
        s
    } else {
        let fields = split_text(decode_utf8(ev.event), ' ');
        match cgroup_identity(fields[1]) {
            None => s,
            Some(ident) => route_identity(s, ident, ev),
        }
    }
}

/// One delivered entry folded into the agent: a crypto-agile entry is
/// classified when IMA-typed and then appended to the node log; a legacy
/// entry is appended directly.  (A canonical entry is never folded; see
/// [`ingest_batch`].)
pub open spec fn ingest_entry(s: AgentView, e: EntryView) -> AgentView {
    match e {
        EntryView::ImrEvent { imr_index, event_type, event_size, event, digests } => {
            let ev = EventView {
                imr_index,
                event_type,
                event_size,
                event,
                digest: Seq::<u8>::empty(),
                digests,
            };
            let s1 = if event_type == IMA_MEASUREMENT_EVENT {
                route_event(s, ev)
            } else {
                s
            };
            AgentView { event_logs: s1.event_logs.push(ev), ..s1 }
        },
        EntryView::PcClientImrEvent { imr_index, event_type, event_size, event, digest } => {
            AgentView {
                event_logs: s.event_logs.push(
                    EventView {
                        imr_index,
                        event_type,
                        event_size,
                        event,
                        digest,
                        digests: Seq::<DigestView>::empty(),
                    },
                ),
                ..s
            }
        },
        EntryView::CanonicalEvent => s,
    }
}

/// The agent and the outcome after ingesting a batch, entry by entry, in
/// order.  A canonical entry stops ingestion with an error; the entries
/// before it are kept.
pub open spec fn ingest_batch(s: AgentView, es: Seq<EntryView>) -> (AgentView, Result<
    (),
    AgentError,
>)
    decreases es.len(),
{
    if es.len() == 0 {
        (s, Ok(()))
    } else if es[0] is CanonicalEvent {
        (s, Err(AgentError::UnsupportedLogEntry))
    } else {
        ingest_batch(ingest_entry(s, es[0]), es.drop_first())
    }
}

/// Ingesting a batch whose first `i` entries went through is ingesting the
/// rest from the state they produced.
proof fn lemma_ingest_batch_split(s: AgentView, es: Seq<EntryView>, i: int)
    requires
        0 <= i <= es.len(),
        ingest_batch(s, es.take(i)).1 is Ok,
    ensures
        ingest_batch(s, es) == ingest_batch(ingest_batch(s, es.take(i)).0, es.skip(i)),
    decreases i,
{
    if i == 0 {
        assert(es.take(0) =~= Seq::<EntryView>::empty());
        assert(es.skip(0) =~= es);
    } else {
        assert(es.take(i)[0] == es[0]);
        assert(!(es[0] is CanonicalEvent));
        let s1 = ingest_entry(s, es[0]);
        assert(es.take(i).drop_first() =~= es.drop_first().take(i - 1));
        assert(es.drop_first().skip(i - 1) =~= es.skip(i));
        lemma_ingest_batch_split(s1, es.drop_first(), i - 1);
    }
}

/// Refreshing with no new upstream entries leaves the whole state — the
/// node scope, the container registry, and the event log — unchanged, and
/// succeeds.  Refreshing is therefore idempotent: a second refresh that
/// finds nothing new answers from the identical state.
pub proof fn lemma_refresh_idempotent(s: AgentView)
    ensures
        ingest_batch(s, Seq::<EntryView>::empty()).0 == s,
        ingest_batch(s, Seq::<EntryView>::empty()).1 is Ok,
{
}

/// Folding one entry never rewrites history: the node event log is only
/// appended to, and the node measurement scope is untouched.
proof fn lemma_ingest_entry_appends(s: AgentView, e: EntryView)
    ensures
        s.event_logs.len() <= ingest_entry(s, e).event_logs.len(),
        ingest_entry(s, e).event_logs.take(s.event_logs.len() as int) == s.event_logs,
        ingest_entry(s, e).measurement == s.measurement,
{
    let r = ingest_entry(s, e);
    assert(r.event_logs.take(s.event_logs.len() as int) =~= s.event_logs);
}

/// Ingestion is append-only: whatever a batch holds, the entries already in
/// the node event log stay, in their places, the cursor — the log's length —
/// never moves backwards, and the node measurement scope is untouched.
pub proof fn lemma_ingest_is_append_only(s: AgentView, es: Seq<EntryView>)
    ensures
        s.event_logs.len() <= ingest_batch(s, es).0.event_logs.len(),
        ingest_batch(s, es).0.event_logs.take(s.event_logs.len() as int) == s.event_logs,
        ingest_batch(s, es).0.measurement == s.measurement,
    decreases es.len(),
{
    if es.len() == 0 {
        assert(s.event_logs.take(s.event_logs.len() as int) =~= s.event_logs);
    } else if es[0] is CanonicalEvent {
        assert(s.event_logs.take(s.event_logs.len() as int) =~= s.event_logs);
    } else {
        let s1 = ingest_entry(s, es[0]);
        lemma_ingest_entry_appends(s, es[0]);
        lemma_ingest_is_append_only(s1, es.drop_first());
        let r = ingest_batch(s, es).0;
        assert(r.event_logs.take(s1.event_logs.len() as int) == s1.event_logs);
        assert(r.event_logs.take(s.event_logs.len() as int) =~= s1.event_logs.take(
            s.event_logs.len() as int,
        ));
    }
}

/// An IMA event for an identity not yet in the registry creates exactly one
/// new container: it carries the observed identity, its register is advanced
/// from all-zero by exactly that event's digests, and its event log holds
/// the one event, rewritten to the container register index.  Nothing else
/// in the agent changes.
pub proof fn lemma_first_event_creates_container(s: AgentView, ev: EventView, ident: IdentityView)
    requires
        classifiable(ev),
        cgroup_identity(split_text(decode_utf8(ev.event), ' ')[1]) == Some(ident),
        find_container_text(s.containers, ident.container_id) is None,
    ensures
        route_event(s, ev).containers.len() == s.containers.len() + 1,
        route_event(s, ev).containers.last().id == ident.container_id,
        route_event(s, ev).containers.last().pod_id == ident.pod_id,
        route_event(s, ev).containers.last().imr.algo_id == s.measurement.imr.algo_id,
        route_event(s, ev).containers.last().imr.hash == crate::container::extend_digests(
            s.measurement.imr.algo_id,
            zero_bytes(s.measurement.imr.hash.len()),
            ev.digests,
        ),
        route_event(s, ev).containers.last().eventlogs == seq![
            with_imr_index(ev, CONTAINER_IMR_INDEX),
        ],
        forall|j: int|
            0 <= j < s.containers.len() ==> route_event(s, ev).containers[j] == s.containers[j],
        route_event(s, ev).event_logs == s.event_logs,
        route_event(s, ev).measurement == s.measurement,
{
    let fresh = new_container_view(ident, s.measurement.imr);
    assert(route_event(s, ev).containers == s.containers.push(container_extended(fresh, ev)));
    assert(container_extended(fresh, ev).eventlogs =~= seq![
        with_imr_index(ev, CONTAINER_IMR_INDEX),
    ]);
}

/// Node-level entries that are always visible under isolation: boot and
/// firmware scope, register indices 0 and 1.
pub open spec fn boot_entries(log: Seq<EventView>) -> Seq<EventView> {
    log.filter(|e: EventView| e.imr_index == 0 || e.imr_index == 1)
}

/// The event log visible to the given scope: without isolation the whole
/// node log; under isolation the boot/firmware entries followed by the
/// requesting container's own log, and an unknown container is an error.
pub open spec fn visible_log(s: AgentView, id: Seq<char>) -> Result<Seq<EventView>, AgentError> {
    if !s.measurement.policy.container.isolated {
        Ok(s.event_logs)
    } else {
        match find_container_text(s.containers, id) {
            None => Err(AgentError::ContainerNotFound),
            Some(k) => Ok(boot_entries(s.event_logs) + s.containers[k].eventlogs),
        }
    }
}

/// The requested slice of a log: entries `[start, start + count)`, or
/// everything from `start` to the end when `count` is zero.  A start at or
/// past the end, or a nonzero count whose end reaches the log's length, is
/// out of range.
pub open spec fn sliced_log(log: Seq<EventView>, start: int, count: int) -> Result<
    Seq<EventView>,
    AgentError,
> {
    if start >= log.len() {
        Err(AgentError::InvalidRange)
    } else if count != 0 && start + count >= log.len() {
        Err(AgentError::InvalidRange)
    } else if count == 0 {
        Ok(log.skip(start))
    } else {
        Ok(log.subrange(start, start + count))
    }
}

/// The answer to an event-log query: the requested slice of the log visible
/// to the requesting scope.
pub open spec fn eventlog_answer(s: AgentView, id: Seq<char>, start: int, count: int) -> Result<
    Seq<EventView>,
    AgentError,
> {
    match visible_log(s, id) {
        Err(e) => Err(e),
        Ok(log) => sliced_log(log, start, count),
    }
}

/// Mathematical value of a [`MeasurementResolution`].
#[verifier::ext_equal]
pub enum MeasurementResolutionView {
    ContainerImr(DigestView),
    PlatformImr { index: u32, algo_id: u32 },
}

/// Where a measurement query is answered from: the requesting container's
/// own register, read here, or a register that only the platform
/// attestation primitive holds, which the embedding program reads with the
/// given index and algorithm.
#[derive(Debug, PartialEq, Eq)]
pub enum MeasurementResolution {
    /// The requesting container's own register value.
    ContainerImr(TcgDigest),
    /// Read the register with this index from the platform primitive.
    PlatformImr { index: u32, algo_id: u32 },
}

impl View for MeasurementResolution {
    type V = MeasurementResolutionView;

    open spec fn view(&self) -> MeasurementResolutionView {
        match self {
            MeasurementResolution::ContainerImr(d) => MeasurementResolutionView::ContainerImr(d@),
            MeasurementResolution::PlatformImr { index, algo_id } => {
                MeasurementResolutionView::PlatformImr { index: *index, algo_id: *algo_id }
            },
        }
    }
}

/// The answer to a measurement query.  Register index 2 is the node's
/// container-isolation-sensitive register: under isolation no caller may
/// read it.  Index 3 is the caller's own container register.  Any other
/// index — and every index when isolation is off — is read from the
/// platform with the given index and algorithm, whoever asks.
pub open spec fn measurement_answer(s: AgentView, id: Seq<char>, index: u32, algo_id: u32) -> Result<
    MeasurementResolutionView,
    AgentError,
> {
    let isolated = s.measurement.policy.container.isolated;
    if isolated && index == 2 {
        Err(AgentError::AccessDenied)
    } else if isolated && index == 3 {
        match find_container_text(s.containers, id) {
            None => Err(AgentError::ContainerNotFound),
            Some(k) => Ok(MeasurementResolutionView::ContainerImr(s.containers[k].imr)),
        }
    } else {
        Ok(MeasurementResolutionView::PlatformImr { index, algo_id })
    }
}

/// The nonce bound into a report for the given scope: without isolation the
/// caller's nonce unchanged; under isolation the requesting container's
/// register hash prepended to the decoded nonce and re-encoded, so the
/// report commits to that container's measurement history.  An unknown
/// container and a nonce that is not base64 are errors.
pub open spec fn report_nonce(s: AgentView, id: Seq<char>, nonce: Seq<char>) -> Result<
    Seq<char>,
    AgentError,
> {
    if !s.measurement.policy.container.isolated {
        Ok(nonce)
    } else {
        match find_container_text(s.containers, id) {
            None => Err(AgentError::ContainerNotFound),
            Some(k) => match base64_decoded(nonce) {
                None => Err(AgentError::MalformedNonce),
                Some(decoded) => Ok(base64_of(s.containers[k].imr.hash + decoded)),
            },
        }
    }
}

impl Agent {
    /// Resets the agent to a fresh state around the given node scope: no
    /// containers, no ingested entries.
    pub fn init(&mut self, measurement: Measurement)
        ensures
            final(self)@ == (AgentView {
                measurement: measurement@,
                containers: Seq::<ContainerView>::empty(),
                event_logs: Seq::<EventView>::empty(),
            }),
    {
        self.measurement = measurement;
        self.containers = Vec::new();
        self.event_logs = Vec::new();
        proof {
            assert(self@.containers =~= Seq::<ContainerView>::empty());
            assert(self@.event_logs =~= Seq::<EventView>::empty());
        }
    }

    /// The ingestion cursor: the number of log entries held so far, which
    /// is where the next fetch from the platform log source starts.
    pub fn log_cursor(&self) -> (r: usize)
        ensures
            r == self@.event_logs.len(),
    {
        self.event_logs.len()
    }

    /// The position of the container registered under `id`, if any.
    fn find_container(&self, id: &String) -> (r: Option<usize>)
        ensures
            r is Some <==> find_container_text(self@.containers, id@) is Some,
            r matches Some(ix) ==> ix < self.containers.len() && find_container_text(
                self@.containers,
                id@,
            ) == Some(ix as int) && self@.containers[ix as int].id == id@,
    {
        let ghost views = container_views(self.containers@);
        let n = self.containers.len();
        let mut i: usize = 0;
        proof {
            assert(views.skip(0) =~= views);
        }
        while i < n
            invariant
                i <= n,
                n == self.containers@.len(),
                views == container_views(self.containers@),
                find_container_text(views, id@) == shifted_index(
                    find_container_text(views.skip(i as int), id@),
                    i as int,
                ),
            decreases n - i,
        {
            proof {
                assert(views.skip(i as int)[0] == views[i as int]);
                assert(views.skip(i as int).drop_first() =~= views.skip(i + 1));
            }
            if self.containers[i].id_matches(id) {
                proof {
                    assert(find_container_text(views.skip(i as int), id@) == Some(0int));
                }
                return Some(i);
            }
            i = i + 1;
        }
        proof {
            assert(views.skip(n as int) =~= Seq::<ContainerView>::empty());
        }
        None
    }

    /// Classifies one IMA-typed event: when its body is UTF-8 text of four
    /// space-separated fields whose cgroup path names a recognised
    /// container, that container's scope — created on first sight, register
    /// seeded all-zero — is extended by the event.  A body that cannot be
    /// classified is reported and skipped; a path that names no container is
    /// not an error.
    pub fn filter_container(&mut self, event: TcgImrEvent) -> (r: Result<(), AgentError>)
        ensures
            final(self)@ == route_event(old(self)@, event@),
            r is Ok <==> classifiable(event@),
            r is Err ==> r == Err::<(), AgentError>(AgentError::MalformedLogEntry),
    {
        let ghost s0 = self@;
        let data = match bytes_to_string(&event.event) {
            None => {
                return Err(AgentError::MalformedLogEntry);
            },
            Some(d) => d,
        };
        let fields = split_string(data.as_str(), ' ');
        if fields.len() != 4 {
            return Err(AgentError::MalformedLogEntry);
        }
        proof {
            assert(string_views(fields@)[1] == fields@[1]@);
        }
        let cgroup_path = &fields[1];
        match parse_cgroup_path(cgroup_path.as_str()) {
            None => {
                return Ok(());
            },
            Some(ident) => {
                match self.find_container(&ident.container_id) {
                    Some(ix) => {
                        let ghost k = ix as int;
                        let mut c = self.containers.remove(ix);
                        c.extend_imr(event);
                        self.containers.insert(ix, c);
                        proof {
                            assert(container_views(self.containers@) =~= s0.containers.update(
                                k,
                                container_extended(s0.containers[k], event@),
                            ));
                            assert(self@ =~= route_identity(s0, ident@, event@));
                        }
                        Ok(())
                    },
                    None => {
                        let node_imr = self.measurement.get_imr();
                        let mut c = Container::new(ident.container_id, ident.pod_id, &node_imr);
                        c.extend_imr(event);
                        self.containers.push(c);
                        proof {
                            assert(container_views(self.containers@) =~= s0.containers.push(
                                container_extended(
                                    new_container_view(ident@, s0.measurement.imr),
                                    event@,
                                ),
                            ));
                            assert(self@ =~= route_identity(s0, ident@, event@));
                        }
                        Ok(())
                    },
                }
            },
        }
    }

    /// Ingests a batch of newly delivered platform log entries, in order:
    /// crypto-agile entries are classified (when IMA-typed) and appended to
    /// the node event log, legacy entries are appended directly, and a
    /// canonical entry stops ingestion with an error, keeping the entries
    /// before it.  The embedding program fetches the batch from the platform
    /// log source starting at the current cursor, which is the number of
    /// entries already held.
    pub fn fetch_all_event_logs(&mut self, entries: Vec<EventLogEntry>) -> (r: Result<
        (),
        AgentError,
    >)
        ensures
            final(self)@ == ingest_batch(old(self)@, entry_views(entries@)).0,
            r is Ok <==> ingest_batch(old(self)@, entry_views(entries@)).1 is Ok,
            r matches Err(e) ==> ingest_batch(old(self)@, entry_views(entries@)).1 == Err::<(), AgentError>(e),
    {
        let ghost s0 = self@;
        let ghost eviews = entry_views(entries@);
        let n = entries.len();
        let mut i: usize = 0;
        proof {
            assert(eviews.take(0) =~= Seq::<EntryView>::empty());
        }
        while i < n
            invariant
                i <= n,
                n == entries@.len(),
                s0 == old(self)@,
                eviews == entry_views(entries@),
                ingest_batch(s0, eviews.take(i as int)).0 == self@,
                ingest_batch(s0, eviews.take(i as int)).1 is Ok,
            decreases n - i,
        {
            let ghost st = self@;
            proof {
                assert(entries@[i as int]@ == eviews[i as int]);
            }
            let entry = entries[i].clone();
            match entry {
                EventLogEntry::ImrEvent { imr_index, event_type, event_size, event, digests } => {
                    let stored = TcgImrEvent {
                        imr_index,
                        event_type,
                        event_size,
                        event,
                        digest: Vec::new(),
                        digests,
                    };
                    let ghost ev = stored@;
                    if event_type == IMA_MEASUREMENT_EVENT {
                        let copy = stored.clone();
                        let _ = self.filter_container(copy);
                    }
                    self.event_logs.push(stored);
                    proof {
                        assert(self@ =~~= ingest_entry(st, eviews[i as int]));
                        Self::lemma_ingest_batch_step(s0, eviews, i as int, st, self@);
                    }
                },
                EventLogEntry::PcClientImrEvent {
                    imr_index,
                    event_type,
                    event_size,
                    event,
                    digest,
                } => {
                    let stored = TcgImrEvent {
                        imr_index,
                        event_type,
                        event_size,
                        event,
                        digest,
                        digests: Vec::new(),
                    };
                    self.event_logs.push(stored);
                    proof {
                        assert(self@ =~~= ingest_entry(st, eviews[i as int]));
                        Self::lemma_ingest_batch_step(s0, eviews, i as int, st, self@);
                    }
                },
                EventLogEntry::CanonicalEvent => {
                    proof {
                        lemma_ingest_batch_split(s0, eviews, i as int);
                        assert(eviews.skip(i as int)[0] == eviews[i as int]);
                        assert(eviews[i as int] is CanonicalEvent);
                        assert(ingest_batch(st, eviews.skip(i as int)) == (
                            st,
                            Err::<(), AgentError>(AgentError::UnsupportedLogEntry),
                        ));
                        assert(ingest_batch(s0, eviews) == (
                            st,
                            Err::<(), AgentError>(AgentError::UnsupportedLogEntry),
                        ));
                    }
                    return Err(AgentError::UnsupportedLogEntry);
                },
            }
            i = i + 1;
        }
        proof {
            assert(eviews.take(n as int) =~= eviews);
        }
        Ok(())
    }

    /// After a prefix of `i` entries produced state `st` and folding entry
    /// `i` — not a canonical one — produced `next`, the prefix of `i + 1`
    /// entries produces `next`.
    proof fn lemma_ingest_batch_step(
        s0: AgentView,
        eviews: Seq<EntryView>,
        i: int,
        st: AgentView,
        next: AgentView,
    )
        requires
            0 <= i < eviews.len(),
            ingest_batch(s0, eviews.take(i)).0 == st,
            ingest_batch(s0, eviews.take(i)).1 is Ok,
            !(eviews[i] is CanonicalEvent),
            next == ingest_entry(st, eviews[i]),
        ensures
            ingest_batch(s0, eviews.take(i + 1)).0 == next,
            ingest_batch(s0, eviews.take(i + 1)).1 is Ok,
    {
        assert(eviews.take(i + 1).take(i) =~= eviews.take(i));
        lemma_ingest_batch_split(s0, eviews.take(i + 1), i);
        let single = eviews.take(i + 1).skip(i);
        assert(single =~= seq![eviews[i]]);
        assert(single[0] == eviews[i]);
        assert(single.drop_first() =~= Seq::<EntryView>::empty());
        let s1 = ingest_entry(st, eviews[i]);
        assert(ingest_batch(st, single) == ingest_batch(s1, single.drop_first()));
        assert(ingest_batch(s1, Seq::<EntryView>::empty()).0 == s1);
        assert(ingest_batch(st, single).0 == ingest_entry(st, eviews[i]));
        assert(ingest_batch(st, single).1 is Ok);
    }

    /// The event log visible to scope `id`, as one owned list: the whole
    /// node log, or, under isolation, the boot/firmware entries followed by
    /// the container's own log.
    fn visible_eventlog(&self, id: &String) -> (r: Result<Vec<TcgImrEvent>, AgentError>)
        ensures
            r matches Ok(v) ==> visible_log(self@, id@) == Ok::<Seq<EventView>, AgentError>(
                event_views(v@),
            ),
            r matches Err(e) ==> visible_log(self@, id@) == Err::<Seq<EventView>, AgentError>(e),
    {
        let isolated = self.measurement.container_isolated();
        if !isolated {
            return Ok(clone_events(&self.event_logs));
        }
        match self.find_container(&id) {
            None => Err(AgentError::ContainerNotFound),
            Some(ix) => {
                let ghost lv = event_views(self.event_logs@);
                let mut acc: Vec<TcgImrEvent> = Vec::new();
                let n = self.event_logs.len();
                let mut i: usize = 0;
                proof {
                    reveal(Seq::filter);
                    assert(lv.take(0) =~= Seq::<EventView>::empty());
                    assert(boot_entries(lv.take(0)) =~= Seq::<EventView>::empty());
                    assert(event_views(acc@) =~= Seq::<EventView>::empty());
                }
                while i < n
                    invariant
                        i <= n,
                        n == self.event_logs@.len(),
                        lv == event_views(self.event_logs@),
                        event_views(acc@) == boot_entries(lv.take(i as int)),
                    decreases n - i,
                {
                    let ghost acc0 = event_views(acc@);
                    let e = &self.event_logs[i];
                    proof {
                        assert(e@ == lv[i as int]);
                    }
                    if e.imr_index == 0 || e.imr_index == 1 {
                        acc.push(e.clone());
                        proof {
                            assert(event_views(acc@) =~= acc0.push(lv[i as int]));
                        }
                    }
                    proof {
                        reveal(Seq::filter);
                        assert(lv.take(i + 1).drop_last() =~= lv.take(i as int));
                        assert(lv.take(i + 1).last() == lv[i as int]);
                        assert(event_views(acc@) =~= boot_entries(lv.take(i + 1)));
                    }
                    i = i + 1;
                }
                proof {
                    assert(lv.take(n as int) =~= lv);
                }
                let ghost boot = event_views(acc@);
                let mut clog = self.containers[ix].get_eventlogs();
                let ghost cv = event_views(clog@);
                acc.append(&mut clog);
                proof {
                    assert(event_views(acc@) =~= boot + cv);
                }
                Ok(acc)
            },
        }
    }

    /// Answers an event-log query for scope `id`: the slice
    /// `[start, start + count)` of the visible log, or everything from
    /// `start` to the end when `count` is zero.  A start at or past the end
    /// of the visible log, or a nonzero count whose end reaches the visible
    /// log's length, is out of range; under isolation an unknown container
    /// is an error.
    pub fn get_cc_eventlog(&self, id: String, start: u32, count: u32) -> (r: Result<
        Vec<TcgImrEvent>,
        AgentError,
    >)
        ensures
            r matches Ok(v) ==> eventlog_answer(self@, id@, start as int, count as int) == Ok::<
                Seq<EventView>,
                AgentError,
            >(event_views(v@)),
            r matches Err(e) ==> eventlog_answer(self@, id@, start as int, count as int) == Err::<
                Seq<EventView>,
                AgentError,
            >(e),
    {
        let log = match self.visible_eventlog(&id) {
            Err(e) => {
                return Err(e);
            },
            Ok(v) => v,
        };
        let ghost vlog = event_views(log@);
        let len = log.len();
        let s = start as usize;
        if s >= len {
            return Err(AgentError::InvalidRange);
        }
        let c = count as usize;
        if c != 0 && c >= len - s {
            return Err(AgentError::InvalidRange);
        }
        let e = if c == 0 {
            len
        } else {
            s + c
        };
        let mut out: Vec<TcgImrEvent> = Vec::new();
        let mut i: usize = s;
        proof {
            assert(event_views(out@) =~= vlog.subrange(s as int, s as int));
        }
        while i < e
            invariant
                s <= i <= e,
                e <= log@.len(),
                vlog == event_views(log@),
                event_views(out@) == vlog.subrange(s as int, i as int),
            decreases e - i,
        {
            let ghost out0 = event_views(out@);
            out.push(log[i].clone());
            proof {
                assert(event_views(out@) =~= out0.push(vlog[i as int]));
                assert(event_views(out@) =~= vlog.subrange(s as int, i + 1));
            }
            i = i + 1;
        }
        proof {
            if c == 0 {
                assert(vlog.subrange(s as int, e as int) =~= vlog.skip(s as int));
            }
        }
        Ok(out)
    }

    /// Answers a measurement query for scope `id`.  Under isolation,
    /// register index 2 is denied to every caller and index 3 names the
    /// caller's own container register, unknown containers being an error;
    /// any other request is resolved to a platform register read with the
    /// given index and algorithm.
    pub fn get_cc_measurement(&self, id: String, index: u32, algo_id: u32) -> (r: Result<
        MeasurementResolution,
        AgentError,
    >)
        ensures
            r matches Ok(m) ==> measurement_answer(self@, id@, index, algo_id) == Ok::<
                MeasurementResolutionView,
                AgentError,
            >(m@),
            r matches Err(e) ==> measurement_answer(self@, id@, index, algo_id) == Err::<
                MeasurementResolutionView,
                AgentError,
            >(e),
    {
        let isolated = self.measurement.container_isolated();
        if isolated && index == 2 {
            return Err(AgentError::AccessDenied);
        }
        if isolated && index == 3 {
            return match self.find_container(&id) {
                None => Err(AgentError::ContainerNotFound),
                Some(ix) => {
                    let imr = self.containers[ix].get_imr();
                    Ok(MeasurementResolution::ContainerImr(imr))
                },
            };
        }
        Ok(MeasurementResolution::PlatformImr { index, algo_id })
    }

    /// Prepares a report request for scope `id`: the nonce to hand to the
    /// platform attestation primitive, with the caller's user data
    /// unchanged.  Under isolation the nonce is decoded and prefixed with
    /// the requesting container's register hash before re-encoding, binding
    /// the report to that container's measurement history; without
    /// isolation the nonce passes through unchanged.
    pub fn get_cc_report(&self, id: String, nonce: String, user_data: String) -> (r: Result<
        (String, String),
        AgentError,
    >)
        ensures
            r matches Ok(p) ==> report_nonce(self@, id@, nonce@) == Ok::<Seq<char>, AgentError>(
                p.0@,
            ) && p.1@ == user_data@,
            r matches Err(e) ==> report_nonce(self@, id@, nonce@) == Err::<Seq<char>, AgentError>(
                e,
            ),
    {
        let isolated = self.measurement.container_isolated();
        if !isolated {
            return Ok((nonce, user_data));
        }
        match self.find_container(&id) {
            None => Err(AgentError::ContainerNotFound),
            Some(ix) => match b64_decode(&nonce) {
                None => Err(AgentError::MalformedNonce),
                Some(decoded) => {
                    let imr = self.containers[ix].get_imr();
                    let mut buf = clone_bytes(&imr.hash);
                    let mut tail = decoded;
                    buf.append(&mut tail);
                    let bound = b64_encode(&buf);
                    Ok((bound, user_data))
                },
            },
        }
    }
}

} // verus!
