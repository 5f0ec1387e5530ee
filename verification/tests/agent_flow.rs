//! The agent end to end: ingestion, container creation, refresh
//! idempotence, isolation gating and event-log ranges.

use ccnp_server::agent::{Agent, MeasurementResolution};
use ccnp_server::errors::AgentError;
use ccnp_server::event::{EventLogEntry, TcgDigest, TcgImrEvent};
use ccnp_server::measurement::Measurement;
use ccnp_server::policy::{
    ContainerPolicy, KubernetesPolicy, MeasurePolicy, PolicyConfig, SystemPolicy,
};
use ccnp_server::service::Service;

const KUBE_PATH: &str =
    "/kubepods.slice/kubepods-pod1234abcd.slice/cri-containerd-feedface.scope";

fn policy(isolated: bool) -> PolicyConfig {
    PolicyConfig::new(
        "tdx".to_string(),
        "sha256".to_string(),
        MeasurePolicy {
            system: SystemPolicy {
                with_parameter: false,
                configs: vec![],
                processes: vec![],
            },
            kubernetes: KubernetesPolicy {
                with_parameter: false,
                version: vec![],
                configs: vec![],
                pods: vec![],
            },
            container: ContainerPolicy { with_parameter: false, isolated },
        },
    )
}

fn agent(isolated: bool) -> Agent {
    Service::new(Measurement::new(policy(isolated))).agent
}

fn sha256(data: &[u8]) -> Vec<u8> {
    openssl::hash::hash(openssl::hash::MessageDigest::sha256(), data)
        .unwrap()
        .to_vec()
}

fn ima_entry(cgroup_path: &str, digest_byte: u8) -> EventLogEntry {
    let body = format!("process-chain {} sha256:00 /usr/bin/example", cgroup_path);
    EventLogEntry::ImrEvent {
        imr_index: 2,
        event_type: 0x14,
        event_size: body.len() as u32,
        event: body.into_bytes(),
        digests: vec![TcgDigest { algo_id: 11, hash: vec![digest_byte; 32] }],
    }
}

fn pc_entry(imr_index: u32, tag: u8) -> EventLogEntry {
    EventLogEntry::PcClientImrEvent {
        imr_index,
        event_type: 3,
        event_size: 1,
        event: vec![tag],
        digest: vec![tag; 20],
    }
}

#[test]
fn first_ima_event_creates_container_with_fresh_register() {
    let mut a = agent(true);
    a.fetch_all_event_logs(vec![ima_entry(KUBE_PATH, 5)]).unwrap();

    assert_eq!(a.containers.len(), 1);
    let c = &a.containers[0];
    assert_eq!(c.get_id(), "feedface");
    assert_eq!(c.get_pod_id(), "1234abcd");

    // The container register starts all-zero, independent of the node
    // register, and is advanced by exactly this event's digest.
    let expected = sha256(&[vec![0u8; 32], vec![5u8; 32]].concat());
    assert_eq!(c.get_imr().hash, expected);

    // Its event log holds the one entry, rewritten to register index 3.
    let logs = c.get_eventlogs();
    assert_eq!(logs.len(), 1);
    assert_eq!(logs[0].imr_index, 3);

    // The node log holds the entry under its original index.
    assert_eq!(a.event_logs.len(), 1);
    assert_eq!(a.event_logs[0].imr_index, 2);
}

#[test]
fn second_event_for_same_container_extends_in_place() {
    let mut a = agent(true);
    a.fetch_all_event_logs(vec![ima_entry(KUBE_PATH, 5), ima_entry(KUBE_PATH, 6)])
        .unwrap();

    assert_eq!(a.containers.len(), 1);
    let step1 = sha256(&[vec![0u8; 32], vec![5u8; 32]].concat());
    let step2 = sha256(&[step1, vec![6u8; 32]].concat());
    assert_eq!(a.containers[0].get_imr().hash, step2);
    assert_eq!(a.containers[0].get_eventlogs().len(), 2);
}

#[test]
fn refresh_with_no_new_entries_is_idempotent() {
    let mut a = agent(true);
    a.fetch_all_event_logs(vec![ima_entry(KUBE_PATH, 5), pc_entry(0, 1)])
        .unwrap();

    let imr_before = a.containers[0].get_imr();
    let node_before = a.measurement.get_imr();
    let log_len_before = a.event_logs.len();

    a.fetch_all_event_logs(vec![]).unwrap();

    assert_eq!(a.containers.len(), 1);
    assert_eq!(a.containers[0].get_imr(), imr_before);
    assert_eq!(a.measurement.get_imr(), node_before);
    assert_eq!(a.event_logs.len(), log_len_before);
}

#[test]
fn canonical_entry_aborts_ingestion_keeping_earlier_entries() {
    let mut a = agent(false);
    let r = a.fetch_all_event_logs(vec![
        pc_entry(0, 1),
        EventLogEntry::CanonicalEvent,
        pc_entry(1, 2),
    ]);
    assert_eq!(r, Err(AgentError::UnsupportedLogEntry));
    assert_eq!(a.event_logs.len(), 1);
}

#[test]
fn malformed_ima_body_is_skipped_not_fatal() {
    let mut a = agent(true);
    // Not UTF-8.
    let bad_utf8 = EventLogEntry::ImrEvent {
        imr_index: 2,
        event_type: 0x14,
        event_size: 2,
        event: vec![0xff, 0xfe],
        digests: vec![TcgDigest { algo_id: 11, hash: vec![1u8; 32] }],
    };
    // Wrong field count.
    let body = "only two-fields".to_string();
    let bad_fields = EventLogEntry::ImrEvent {
        imr_index: 2,
        event_type: 0x14,
        event_size: body.len() as u32,
        event: body.into_bytes(),
        digests: vec![TcgDigest { algo_id: 11, hash: vec![2u8; 32] }],
    };
    // A double space makes five fields: the split is on single spaces.
    let body = format!("process-chain  {} sha256:00 /usr/bin/example", KUBE_PATH);
    let five_fields = EventLogEntry::ImrEvent {
        imr_index: 2,
        event_type: 0x14,
        event_size: body.len() as u32,
        event: body.into_bytes(),
        digests: vec![TcgDigest { algo_id: 11, hash: vec![3u8; 32] }],
    };
    a.fetch_all_event_logs(vec![bad_utf8, bad_fields, five_fields])
        .unwrap();

    // No container appears, but all entries land in the node log.
    assert_eq!(a.containers.len(), 0);
    assert_eq!(a.event_logs.len(), 3);
}

#[test]
fn filter_container_reports_malformed_bodies() {
    let mut a = agent(true);
    let event = TcgImrEvent {
        imr_index: 2,
        event_type: 0x14,
        event_size: 2,
        event: vec![0xff, 0xfe],
        digest: vec![],
        digests: vec![],
    };
    assert_eq!(a.filter_container(event), Err(AgentError::MalformedLogEntry));

    let ok_body = b"chain /user.slice spec path".to_vec();
    let event = TcgImrEvent {
        imr_index: 2,
        event_type: 0x14,
        event_size: ok_body.len() as u32,
        event: ok_body,
        digest: vec![],
        digests: vec![],
    };
    // A path that names no container is not an error.
    assert_eq!(a.filter_container(event), Ok(()));
    assert_eq!(a.containers.len(), 0);
}

#[test]
fn error_messages_name_their_cause() {
    assert_eq!(
        AgentError::ContainerNotFound.message(),
        "container cannot be found"
    );
    assert_eq!(
        AgentError::AccessDenied.message(),
        "cannot access IMR according to the policy"
    );
    assert_eq!(AgentError::MalformedNonce.message(), "nonce is not base64 encoded");
}

#[test]
fn isolation_denies_register_two_to_everyone() {
    let mut a = agent(true);
    a.fetch_all_event_logs(vec![ima_entry(KUBE_PATH, 5)]).unwrap();

    let r = a.get_cc_measurement("feedface".to_string(), 2, 11);
    assert_eq!(r, Err(AgentError::AccessDenied));
    let r = a.get_cc_measurement("".to_string(), 2, 11);
    assert_eq!(r, Err(AgentError::AccessDenied));
}

#[test]
fn isolation_serves_own_register_under_index_three() {
    let mut a = agent(true);
    a.fetch_all_event_logs(vec![ima_entry(KUBE_PATH, 5)]).unwrap();

    let r = a.get_cc_measurement("unknown".to_string(), 3, 11);
    assert_eq!(r, Err(AgentError::ContainerNotFound));

    let r = a.get_cc_measurement("feedface".to_string(), 3, 11).unwrap();
    let expected = sha256(&[vec![0u8; 32], vec![5u8; 32]].concat());
    match r {
        MeasurementResolution::ContainerImr(d) => {
            assert_eq!(d.algo_id, 11);
            assert_eq!(d.hash, expected);
        }
        other => panic!("expected the container register, got {:?}", other),
    }
}

#[test]
fn other_indices_resolve_to_platform_reads() {
    let mut a = agent(true);
    a.fetch_all_event_logs(vec![ima_entry(KUBE_PATH, 5)]).unwrap();
    let r = a.get_cc_measurement("feedface".to_string(), 0, 11).unwrap();
    assert_eq!(r, MeasurementResolution::PlatformImr { index: 0, algo_id: 11 });

    // Without isolation even indices 2 and 3 are platform reads.
    let b = agent(false);
    let r = b.get_cc_measurement("any".to_string(), 2, 11).unwrap();
    assert_eq!(r, MeasurementResolution::PlatformImr { index: 2, algo_id: 11 });
    let r = b.get_cc_measurement("any".to_string(), 3, 11).unwrap();
    assert_eq!(r, MeasurementResolution::PlatformImr { index: 3, algo_id: 11 });
}

#[test]
fn eventlog_ranges_without_isolation() {
    let mut a = agent(false);
    a.fetch_all_event_logs(vec![pc_entry(0, 1), pc_entry(1, 2), pc_entry(2, 3)])
        .unwrap();

    // start at or past the end is out of range.
    assert_eq!(
        a.get_cc_eventlog("".to_string(), 3, 0),
        Err(AgentError::InvalidRange)
    );
    // a nonzero count whose end reaches the length is out of range.
    assert_eq!(
        a.get_cc_eventlog("".to_string(), 1, 2),
        Err(AgentError::InvalidRange)
    );
    // count zero: everything from start to the end.
    let r = a.get_cc_eventlog("".to_string(), 1, 0).unwrap();
    assert_eq!(r.len(), 2);
    assert_eq!(r[0].imr_index, 1);
    assert_eq!(r[1].imr_index, 2);
    // a plain slice.
    let r = a.get_cc_eventlog("".to_string(), 0, 2).unwrap();
    assert_eq!(r.len(), 2);
    assert_eq!(r[0].imr_index, 0);
    assert_eq!(r[1].imr_index, 1);
}

#[test]
fn eventlog_under_isolation_concatenates_boot_and_container_entries() {
    let mut a = agent(true);
    a.fetch_all_event_logs(vec![
        pc_entry(0, 1),
        pc_entry(2, 9),
        pc_entry(1, 2),
        ima_entry(KUBE_PATH, 5),
    ])
    .unwrap();

    assert_eq!(
        a.get_cc_eventlog("unknown".to_string(), 0, 0),
        Err(AgentError::ContainerNotFound)
    );

    // Visible: the two boot/firmware entries (indices 0 and 1), then the
    // container's own entry rewritten to index 3.
    let r = a.get_cc_eventlog("feedface".to_string(), 0, 0).unwrap();
    assert_eq!(r.len(), 3);
    assert_eq!(r[0].imr_index, 0);
    assert_eq!(r[1].imr_index, 1);
    assert_eq!(r[2].imr_index, 3);

    // Range checks apply to the concatenated sequence.
    assert_eq!(
        a.get_cc_eventlog("feedface".to_string(), 3, 0),
        Err(AgentError::InvalidRange)
    );
    assert_eq!(
        a.get_cc_eventlog("feedface".to_string(), 0, 3),
        Err(AgentError::InvalidRange)
    );
}
