//! Nonce binding for attestation reports, against the real base64 crate.

use base64::Engine;
use ccnp_server::agent::Agent;
use ccnp_server::errors::AgentError;
use ccnp_server::event::{EventLogEntry, TcgDigest};
use ccnp_server::measurement::Measurement;
use ccnp_server::policy::{
    ContainerPolicy, KubernetesPolicy, MeasurePolicy, PolicyConfig, SystemPolicy,
};
use ccnp_server::service::Service;

const KUBE_PATH: &str =
    "/kubepods.slice/kubepods-pod1234abcd.slice/cri-containerd-feedface.scope";

fn policy(isolated: bool) -> PolicyConfig {
    PolicyConfig::new(
        "tdx".to_string(),
        "sha256".to_string(),
        MeasurePolicy {
            system: SystemPolicy {
                with_parameter: false,
                configs: vec![],
                processes: vec![],
            },
            kubernetes: KubernetesPolicy {
                with_parameter: false,
                version: vec![],
                configs: vec![],
                pods: vec![],
            },
            container: ContainerPolicy { with_parameter: false, isolated },
        },
    )
}

fn agent_with_container(isolated: bool) -> Agent {
    let mut a = Service::new(Measurement::new(policy(isolated))).agent;
    let body = format!("process-chain {} sha256:00 /usr/bin/example", KUBE_PATH);
    a.fetch_all_event_logs(vec![EventLogEntry::ImrEvent {
        imr_index: 2,
        event_type: 0x14,
        event_size: body.len() as u32,
        event: body.into_bytes(),
        digests: vec![TcgDigest { algo_id: 11, hash: vec![5u8; 32] }],
    }])
    .unwrap();
    a
}

#[test]
fn isolated_report_nonce_is_bound_to_container_register() {
    let a = agent_with_container(true);
    let nonce = base64::engine::general_purpose::STANDARD.encode(b"hello");
    let (bound, user_data) = a
        .get_cc_report("feedface".to_string(), nonce.clone(), "ud".to_string())
        .unwrap();

    let imr = a.containers[0].get_imr().hash;
    let expected =
        base64::engine::general_purpose::STANDARD.encode([imr, b"hello".to_vec()].concat());
    assert_eq!(bound, expected);
    assert_ne!(bound, nonce);
    assert_eq!(user_data, "ud");
}

#[test]
fn report_nonce_passes_through_without_isolation() {
    let a = agent_with_container(false);
    let nonce = base64::engine::general_purpose::STANDARD.encode(b"hello");
    let (bound, user_data) = a
        .get_cc_report("feedface".to_string(), nonce.clone(), "ud".to_string())
        .unwrap();
    assert_eq!(bound, nonce);
    assert_eq!(user_data, "ud");
}

#[test]
fn report_for_unknown_container_is_an_error() {
    let a = agent_with_container(true);
    let nonce = base64::engine::general_purpose::STANDARD.encode(b"hello");
    assert_eq!(
        a.get_cc_report("unknown".to_string(), nonce, "ud".to_string()),
        Err(AgentError::ContainerNotFound)
    );
}

#[test]
fn malformed_nonce_is_an_error() {
    let a = agent_with_container(true);
    assert_eq!(
        a.get_cc_report("feedface".to_string(), "!!not base64!!".to_string(), "ud".to_string()),
        Err(AgentError::MalformedNonce)
    );
}
