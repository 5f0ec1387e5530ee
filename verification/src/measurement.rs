//! The node-level measurement scope: the node's integrity register, seeded
//! from the policy's hash algorithm and advanced by measuring the configured
//! baseline processes, plus the event log of those baseline measurements.

use vstd::prelude::*;
use vstd::utf8::encode_utf8;

use crate::container::{zero_bytes, zero_register, CONTAINER_IMR_INDEX};
use crate::crypto::{
    hash_bytes, hash_of, TPM_ALG_SHA1, TPM_ALG_SHA256, TPM_ALG_SHA384,
};
use crate::event::{
    clone_bytes, clone_events, event_views, DigestView, EventView, TcgDigest, TcgImrEvent,
    IMA_MEASUREMENT_EVENT,
};
use crate::policy::{PolicyConfig, PolicyView};
use crate::text::str_equal;

verus! {

/// One running process, as the embedding program reports it: the executable
/// name and the rest of its command line.
pub struct ProcessInfo {
    pub name: String,
    pub parameter: String,
}

/// Mathematical value of a [`ProcessInfo`].
#[verifier::ext_equal]
pub struct ProcessInfoView {
    pub name: Seq<char>,
    pub parameter: Seq<char>,
}

impl View for ProcessInfo {
    type V = ProcessInfoView;

    open spec fn view(&self) -> ProcessInfoView {
        ProcessInfoView { name: self.name@, parameter: self.parameter@ }
    }
}

/// The views of a sequence of process records.
pub open spec fn process_views(ps: Seq<ProcessInfo>) -> Seq<ProcessInfoView> {
    ps.map_values(|p: ProcessInfo| p@)
}

/// The algorithm identifier selected by an algorithm name; an unknown name
/// selects no algorithm.
pub open spec fn algo_id_of_name(name: Seq<char>) -> u32 {
    if name == "sha1"@ {
        TPM_ALG_SHA1
    } else if name == "sha256"@ {
        TPM_ALG_SHA256
    } else if name == "sha384"@ {
        TPM_ALG_SHA384
    } else {
        0
    }
}

/// The digest length selected by an algorithm name; an unknown name selects
/// an empty register.
pub open spec fn algo_len_of_name(name: Seq<char>) -> nat {
    if name == "sha1"@ {
        20
    } else if name == "sha256"@ {
        32
    } else if name == "sha384"@ {
        48
    } else {
        0
    }
}

/// Mathematical value of a [`Measurement`].
#[verifier::ext_equal]
pub struct MeasurementView {
    pub policy: PolicyView,
    pub imr: DigestView,
    pub eventlogs: Seq<EventView>,
}

/// The node scope extended by one measured value `val`: the value is hashed,
/// the register is chained with that hash, and an IMA-typed event recording
/// the value is appended to the node's baseline event log.
pub open spec fn measurement_extended(m: MeasurementView, val: Seq<u8>) -> MeasurementView {
    let alg = m.imr.algo_id;
    let val_hash = hash_of(alg, val);
    MeasurementView {
        policy: m.policy,
        imr: DigestView { algo_id: alg, hash: hash_of(alg, m.imr.hash + val_hash) },
        eventlogs: m.eventlogs.push(
            EventView {
                imr_index: CONTAINER_IMR_INDEX,
                event_type: IMA_MEASUREMENT_EVENT,
                event_size: val.len() as u32,
                event: val,
                digest: Seq::<u8>::empty(),
                digests: seq![DigestView { algo_id: alg, hash: val_hash }],
            },
        ),
    }
}

/// The bytes measured for one baseline process: the name alone, or the name
/// and its parameters separated by a NUL byte.
pub open spec fn measured_value(with_parameter: bool, name: Seq<char>, parameter: Seq<char>) -> Seq<
    u8,
> {
    if with_parameter {
        encode_utf8(name) + seq![0u8] + encode_utf8(parameter)
    } else {
        encode_utf8(name)
    }
}

/// The parameters of the first reported process with the given name.
pub open spec fn first_parameter(ps: Seq<ProcessInfoView>, name: Seq<char>) -> Option<Seq<char>>
    decreases ps.len(),
{
    if ps.len() == 0 {
        None
    } else if ps[0].name == name {
        Some(ps[0].parameter)
    } else {
        first_parameter(ps.drop_first(), name)
    }
}

/// The node scope after considering one policy-listed process name: nothing
/// changes unless such a process is running, in which case its measured
/// value is folded in.
pub open spec fn measure_step(
    m: MeasurementView,
    ps: Seq<ProcessInfoView>,
    name: Seq<char>,
) -> MeasurementView {
    match first_parameter(ps, name) {
        None => m,
        Some(parameter) => measurement_extended(
            m,
            measured_value(m.policy.system.with_parameter, name, parameter),
        ),
    }
}

/// The node scope after considering every listed process name, in order.
pub open spec fn measure_fold(
    m: MeasurementView,
    ps: Seq<ProcessInfoView>,
    names: Seq<Seq<char>>,
) -> MeasurementView
    decreases names.len(),
{
    if names.len() == 0 {
        m
    } else {
        measure_fold(measure_step(m, ps, names[0]), ps, names.drop_first())
    }
}

/// Folding one more name after a list folds that name's step into the fold
/// of the list.
pub proof fn lemma_measure_fold_push(
    m: MeasurementView,
    ps: Seq<ProcessInfoView>,
    names: Seq<Seq<char>>,
    name: Seq<char>,
)
    ensures
        measure_fold(m, ps, names.push(name)) == measure_step(measure_fold(m, ps, names), ps, name),
    decreases names.len(),
{
    if names.len() == 0 {
        assert(names.push(name)[0] == name);
        assert(names.push(name).drop_first() =~= Seq::<Seq<char>>::empty());
        assert(measure_fold(m, ps, names.push(name)) == measure_fold(
            measure_step(m, ps, name),
            ps,
            Seq::<Seq<char>>::empty(),
        ));
    } else {
        assert(names.push(name)[0] == names[0]);
        assert(names.push(name).drop_first() =~= names.drop_first().push(name));
        lemma_measure_fold_push(measure_step(m, ps, names[0]), ps, names.drop_first(), name);
    }
}

/// The node-level measurement scope.
pub struct Measurement {
    policy: PolicyConfig,
    imr: TcgDigest,
    eventlogs: Vec<TcgImrEvent>,
}

impl View for Measurement {
    type V = MeasurementView;

    closed spec fn view(&self) -> MeasurementView {
        MeasurementView {
            policy: self.policy@,
            imr: self.imr@,
            eventlogs: event_views(self.eventlogs@),
        }
    }
}

/// The parameters of the first process in the list with the given name.
fn find_parameter(processes: &Vec<ProcessInfo>, name: &String) -> (r: Option<String>)
    ensures
        r is Some <==> first_parameter(process_views(processes@), name@) is Some,
        r matches Some(p) ==> first_parameter(process_views(processes@), name@) == Some(p@),
        r matches Some(p) ==> exists|j: int|
            0 <= j < processes@.len() && processes@[j]@.name == name@ && processes@[j]@.parameter
                == p@,
{
    let ghost views = process_views(processes@);
    let n = processes.len();
    let mut i: usize = 0;
    proof {
        assert(views.skip(0) =~= views);
    }
    while i < n
        invariant
            i <= n,
            n == processes@.len(),
            views == process_views(processes@),
            first_parameter(views, name@) == first_parameter(views.skip(i as int), name@),
        decreases n - i,
    {
        proof {
            assert(views.skip(i as int)[0] == views[i as int]);
            assert(views.skip(i as int).drop_first() =~= views.skip(i + 1));
        }
        if str_equal(processes[i].name.as_str(), name.as_str()) {
            let p = processes[i].parameter.clone();
            return Some(p);
        }
        i = i + 1;
    }
    proof {
        assert(views.skip(n as int) =~= Seq::<ProcessInfoView>::empty());
    }
    None
}

impl Measurement {
    /// A fresh node scope under the given policy: the register carries the
    /// algorithm that the policy names, seeded all-zero at that algorithm's
    /// digest length, and the baseline event log is empty.  An unknown
    /// algorithm name yields an empty register with no algorithm.
    pub fn new(policy: PolicyConfig) -> (m: Measurement)
        ensures
            m@ == (MeasurementView {
                policy: policy@,
                imr: DigestView {
                    algo_id: algo_id_of_name(policy@.algorithm),
                    hash: zero_bytes(algo_len_of_name(policy@.algorithm)),
                },
                eventlogs: Seq::<EventView>::empty(),
            }),
    {
        let name = policy.get_alogrithm();
        let algo_id: u32 = if str_equal(name.as_str(), "sha1") {
            TPM_ALG_SHA1
        } else if str_equal(name.as_str(), "sha256") {
            TPM_ALG_SHA256
        } else if str_equal(name.as_str(), "sha384") {
            TPM_ALG_SHA384
        } else {
            0
        };
        let algo_len: usize = if str_equal(name.as_str(), "sha1") {
            20
        } else if str_equal(name.as_str(), "sha256") {
            32
        } else if str_equal(name.as_str(), "sha384") {
            48
        } else {
            0
        };
        let imr = zero_register(algo_id, algo_len);
        let m = Measurement { policy, imr, eventlogs: Vec::new() };
        proof {
            assert(m@.eventlogs =~= Seq::<EventView>::empty());
        }
        m
    }

    /// The current value of the node register.
    pub fn get_imr(&self) -> (r: TcgDigest)
        ensures
            r@ == self@.imr,
    {
        self.imr.clone()
    }

    /// A copy of the node's baseline event log.
    pub fn get_eventlogs(&self) -> (r: Vec<TcgImrEvent>)
        ensures
            event_views(r@) == self@.eventlogs,
            r@.len() == self@.eventlogs.len(),
    {
        clone_events(&self.eventlogs)
    }

    /// Hashes `val`, chains the hash into the node register, and records the
    /// measured value in the baseline event log.
    fn extend_imr(&mut self, val: &Vec<u8>)
        requires
            val@.len() <= u32::MAX,
        ensures
            final(self)@ == measurement_extended(old(self)@, val@),
    {
        let alg = self.imr.algo_id;
        let val_hash = hash_bytes(alg, val);
        let mut buf = clone_bytes(&self.imr.hash);
        let mut vh = clone_bytes(&val_hash);
        buf.append(&mut vh);
        let new_hash = hash_bytes(alg, &buf);
        self.imr.hash = new_hash;
        let digest = TcgDigest { algo_id: alg, hash: val_hash };
        let event = TcgImrEvent {
            imr_index: CONTAINER_IMR_INDEX,
            event_type: IMA_MEASUREMENT_EVENT,
            event_size: val.len() as u32,
            event: clone_bytes(val),
            digest: Vec::new(),
            digests: vec![digest],
        };
        proof {
            assert(event@.digests =~= seq![
                DigestView { algo_id: alg, hash: hash_of(alg, val@) },
            ]);
        }
        self.eventlogs.push(event);
        proof {
            assert(self@.eventlogs =~= measurement_extended(old(self)@, val@).eventlogs);
            assert(self@ =~= measurement_extended(old(self)@, val@));
        }
    }

    /// Measures every policy-listed system process that is running, in
    /// policy order: each one's measured value is folded into the node
    /// register and recorded in the baseline event log.
    pub fn measure_system(&mut self, processes: &Vec<ProcessInfo>)
        requires
            forall|i: int, j: int|
                0 <= i < old(self)@.policy.system.processes.len() && 0 <= j < processes@.len()
                    ==> encode_utf8(#[trigger] old(self)@.policy.system.processes[i]).len()
                    + encode_utf8(#[trigger] processes@[j]@.parameter).len() + 1 <= u32::MAX,
        ensures
            final(self)@ == measure_fold(
                old(self)@,
                process_views(processes@),
                old(self)@.policy.system.processes,
            ),
    {
        let ghost m0 = self@;
        let ghost pviews = process_views(processes@);
        let names = self.policy.get_system_processes();
        let ghost nviews = m0.policy.system.processes;
        let with_parameter = self.policy.system_with_parameter();
        let n = names.len();
        let mut i: usize = 0;
        proof {
            assert(nviews.take(0) =~= Seq::<Seq<char>>::empty());
        }
        while i < n
            invariant
                i <= n,
                n == names@.len(),
                nviews == crate::text::string_views(names@),
                pviews == process_views(processes@),
                self@ == measure_fold(m0, pviews, nviews.take(i as int)),
                self@.policy == m0.policy,
                with_parameter == m0.policy.system.with_parameter,
                forall|a: int, b: int|
                    0 <= a < nviews.len() && 0 <= b < pviews.len() ==> encode_utf8(
                        #[trigger] nviews[a],
                    ).len() + encode_utf8(#[trigger] pviews[b].parameter).len() + 1 <= u32::MAX,
            decreases n - i,
        {
            let ghost m_before = self@;
            let name = &names[i];
            proof {
                assert(nviews[i as int] == name@);
            }
            match find_parameter(processes, name) {
                None => {
                    proof {
                        assert(measure_step(m_before, pviews, name@) == m_before);
                    }
                },
                Some(parameter) => {
                    let mut val = name.as_str().as_bytes_vec();
                    if with_parameter {
                        val.push(0u8);
                        let mut pb = parameter.as_str().as_bytes_vec();
                        val.append(&mut pb);
                        proof {
                            assert(val@ =~= encode_utf8(name@) + seq![0u8] + encode_utf8(
                                parameter@,
                            ));
                        }
                    }
                    proof {
                        assert(val@ == measured_value(with_parameter, name@, parameter@));
                        let j = choose|j: int|
                            0 <= j < processes@.len() && processes@[j]@.name == name@
                                && processes@[j]@.parameter == parameter@;
                        assert(pviews[j].parameter == parameter@);
                        assert(encode_utf8(name@).len() + encode_utf8(parameter@).len() + 1
                            <= u32::MAX);
                    }
                    self.extend_imr(&val);
                    proof {
                        assert(measure_step(m_before, pviews, name@) == measurement_extended(
                            m_before,
                            measured_value(with_parameter, name@, parameter@),
                        ));
                    }
                },
            }
            proof {
                lemma_measure_fold_push(m0, pviews, nviews.take(i as int), nviews[i as int]);
                assert(nviews.take(i as int).push(nviews[i as int]) =~= nviews.take(i + 1));
            }
            i = i + 1;
        }
        proof {
            assert(nviews.take(n as int) =~= nviews);
        }
    }

    /// Measures the node's configured baseline.
    pub fn measure(&mut self, processes: &Vec<ProcessInfo>)
        requires
            forall|i: int, j: int|
                0 <= i < old(self)@.policy.system.processes.len() && 0 <= j < processes@.len()
                    ==> encode_utf8(#[trigger] old(self)@.policy.system.processes[i]).len()
                    + encode_utf8(#[trigger] processes@[j]@.parameter).len() + 1 <= u32::MAX,
        ensures
            final(self)@ == measure_fold(
                old(self)@,
                process_views(processes@),
                old(self)@.policy.system.processes,
            ),
    {
        self.measure_system(processes)
    }

    /// Whether the policy puts containers in their own measurement scope.
    pub fn container_isolated(&self) -> (r: bool)
        ensures
            r == self@.policy.container.isolated,
    {
        self.policy.container_isolated()
    }
}

} // verus!
