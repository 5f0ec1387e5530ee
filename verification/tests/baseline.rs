//! The node baseline: algorithm selection and system-process measurement,
//! against the real hash.

use ccnp_server::measurement::{Measurement, ProcessInfo};
use ccnp_server::policy::{
    ContainerPolicy, KubernetesPolicy, MeasurePolicy, PolicyConfig, SystemPolicy,
};

fn policy(algorithm: &str, with_parameter: bool, processes: Vec<&str>) -> PolicyConfig {
    PolicyConfig::new(
        "tdx".to_string(),
        algorithm.to_string(),
        MeasurePolicy {
            system: SystemPolicy {
                with_parameter,
                configs: vec!["/etc/example.conf".to_string()],
                processes: processes.into_iter().map(|s| s.to_string()).collect(),
            },
            kubernetes: KubernetesPolicy {
                with_parameter: false,
                version: vec!["1.30".to_string()],
                configs: vec![],
                pods: vec!["pod-a".to_string()],
            },
            container: ContainerPolicy { with_parameter: true, isolated: true },
        },
    )
}

fn sha256(data: &[u8]) -> Vec<u8> {
    openssl::hash::hash(openssl::hash::MessageDigest::sha256(), data)
        .unwrap()
        .to_vec()
}

fn proc_info(name: &str, parameter: &str) -> ProcessInfo {
    ProcessInfo { name: name.to_string(), parameter: parameter.to_string() }
}

#[test]
fn register_is_seeded_by_algorithm_name() {
    let m = Measurement::new(policy("sha1", false, vec![]));
    assert_eq!(m.get_imr().algo_id, 4);
    assert_eq!(m.get_imr().hash, vec![0u8; 20]);

    let m = Measurement::new(policy("sha256", false, vec![]));
    assert_eq!(m.get_imr().algo_id, 11);
    assert_eq!(m.get_imr().hash, vec![0u8; 32]);

    let m = Measurement::new(policy("sha384", false, vec![]));
    assert_eq!(m.get_imr().algo_id, 12);
    assert_eq!(m.get_imr().hash, vec![0u8; 48]);

    let m = Measurement::new(policy("md5", false, vec![]));
    assert_eq!(m.get_imr().algo_id, 0);
    assert_eq!(m.get_imr().hash, Vec::<u8>::new());
}

#[test]
fn running_policy_process_is_measured_without_parameter() {
    let mut m = Measurement::new(policy("sha256", false, vec!["foo"]));
    m.measure(&vec![proc_info("foo", "bar")]);

    let val_hash = sha256(b"foo");
    let expected = sha256(&[vec![0u8; 32], val_hash.clone()].concat());
    assert_eq!(m.get_imr().hash, expected);

    let logs = m.get_eventlogs();
    assert_eq!(logs.len(), 1);
    assert_eq!(logs[0].imr_index, 3);
    assert_eq!(logs[0].event_type, 0x14);
    assert_eq!(logs[0].event, b"foo".to_vec());
    assert_eq!(logs[0].event_size, 3);
    assert_eq!(logs[0].digests.len(), 1);
    assert_eq!(logs[0].digests[0].hash, val_hash);
}

#[test]
fn running_policy_process_is_measured_with_parameter() {
    let mut m = Measurement::new(policy("sha256", true, vec!["foo"]));
    m.measure(&vec![proc_info("foo", "bar")]);

    let val = b"foo\0bar".to_vec();
    let val_hash = sha256(&val);
    let expected = sha256(&[vec![0u8; 32], val_hash].concat());
    assert_eq!(m.get_imr().hash, expected);
    assert_eq!(m.get_eventlogs()[0].event, val);
}

#[test]
fn absent_process_is_not_measured() {
    let mut m = Measurement::new(policy("sha256", false, vec!["absent"]));
    m.measure(&vec![proc_info("foo", "bar")]);
    assert_eq!(m.get_imr().hash, vec![0u8; 32]);
    assert!(m.get_eventlogs().is_empty());
}

#[test]
fn processes_are_measured_in_policy_order() {
    let mut m = Measurement::new(policy("sha256", false, vec!["a", "b"]));
    m.measure(&vec![proc_info("b", ""), proc_info("a", "")]);

    let step1 = sha256(&[vec![0u8; 32], sha256(b"a")].concat());
    let step2 = sha256(&[step1, sha256(b"b")].concat());
    assert_eq!(m.get_imr().hash, step2);
    assert_eq!(m.get_eventlogs().len(), 2);
}

#[test]
fn policy_getters_report_the_parsed_fields() {
    let p = policy("sha384", true, vec!["foo", "baz"]);
    assert_eq!(p.get_alogrithm(), "sha384");
    assert_eq!(p.get_system_processes(), vec!["foo".to_string(), "baz".to_string()]);
    assert_eq!(p.get_system_configs(), vec!["/etc/example.conf".to_string()]);
    assert!(p.system_with_parameter());
    assert_eq!(p.get_kubernetes_pods(), vec!["pod-a".to_string()]);
    assert!(!p.kubernetes_pods_parameter());
    assert!(p.container_with_parameter());
    assert!(p.container_isolated());

    let m = Measurement::new(p);
    assert!(m.container_isolated());
}
