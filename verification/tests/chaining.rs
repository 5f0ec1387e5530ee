//! Register chaining: determinism, order sensitivity, the skip rule for
//! mismatched digest lengths, and exact values against the real hash.

use ccnp_server::container::Container;
use ccnp_server::event::{TcgDigest, TcgImrEvent};

fn sha256(data: &[u8]) -> Vec<u8> {
    openssl::hash::hash(openssl::hash::MessageDigest::sha256(), data)
        .unwrap()
        .to_vec()
}

fn hex(bytes: &[u8]) -> String {
    let mut s = String::new();
    for b in bytes {
        s.push_str(&format!("{:02x}", b));
    }
    s
}

fn sha256_template() -> TcgDigest {
    TcgDigest { algo_id: 11, hash: vec![0u8; 32] }
}

fn event_with_digests(digests: Vec<TcgDigest>) -> TcgImrEvent {
    TcgImrEvent {
        imr_index: 2,
        event_type: 0x14,
        event_size: 4,
        event: b"data".to_vec(),
        digest: vec![],
        digests,
    }
}

#[test]
fn extend_from_zero_matches_known_sha256_value() {
    let template = sha256_template();
    let mut c = Container::new("c1".to_string(), "p1".to_string(), &template);
    assert_eq!(c.get_imr().hash, vec![0u8; 32]);

    let d = TcgDigest { algo_id: 11, hash: vec![0u8; 32] };
    c.extend_imr(event_with_digests(vec![d]));

    // SHA-256 over 64 zero bytes: the register is H(old_hash || digest).
    assert_eq!(
        hex(&c.get_imr().hash),
        "f5a5fd42d16a20302798ef6ed309979b43003d2320d9f0e8ea9831a92759fb4b"
    );
    assert_eq!(c.get_imr().hash, sha256(&[0u8; 64]));
}

#[test]
fn extend_is_deterministic() {
    let template = sha256_template();
    let d1 = TcgDigest { algo_id: 11, hash: vec![1u8; 32] };
    let d2 = TcgDigest { algo_id: 11, hash: vec![2u8; 32] };

    let mut a = Container::new("a".to_string(), "".to_string(), &template);
    let mut b = Container::new("b".to_string(), "".to_string(), &template);
    a.extend_imr(event_with_digests(vec![d1.clone(), d2.clone()]));
    b.extend_imr(event_with_digests(vec![d1, d2]));

    assert_eq!(a.get_imr().hash, b.get_imr().hash);
}

#[test]
fn extend_is_order_sensitive() {
    let template = sha256_template();
    let d1 = TcgDigest { algo_id: 11, hash: vec![1u8; 32] };
    let d2 = TcgDigest { algo_id: 11, hash: vec![2u8; 32] };

    let mut a = Container::new("a".to_string(), "".to_string(), &template);
    let mut b = Container::new("b".to_string(), "".to_string(), &template);
    a.extend_imr(event_with_digests(vec![d1.clone(), d2.clone()]));
    b.extend_imr(event_with_digests(vec![d2, d1]));

    assert_ne!(a.get_imr().hash, b.get_imr().hash);
}

#[test]
fn extend_chains_sequentially() {
    let template = sha256_template();
    let d1 = TcgDigest { algo_id: 11, hash: vec![1u8; 32] };
    let d2 = TcgDigest { algo_id: 11, hash: vec![2u8; 32] };

    let mut c = Container::new("c".to_string(), "".to_string(), &template);
    c.extend_imr(event_with_digests(vec![d1, d2]));

    let step1 = sha256(&[vec![0u8; 32], vec![1u8; 32]].concat());
    let step2 = sha256(&[step1, vec![2u8; 32]].concat());
    assert_eq!(c.get_imr().hash, step2);
}

#[test]
fn mismatched_digest_length_is_skipped() {
    let template = sha256_template();
    let short = TcgDigest { algo_id: 4, hash: vec![7u8; 20] };

    let mut c = Container::new("c".to_string(), "".to_string(), &template);
    c.extend_imr(event_with_digests(vec![short]));

    // The register is untouched, but the event is still recorded under the
    // container register index.
    assert_eq!(c.get_imr().hash, vec![0u8; 32]);
    let logs = c.get_eventlogs();
    assert_eq!(logs.len(), 1);
    assert_eq!(logs[0].imr_index, 3);
}

#[test]
fn mixed_lengths_fold_only_matching_digests() {
    let template = sha256_template();
    let short = TcgDigest { algo_id: 4, hash: vec![7u8; 20] };
    let good = TcgDigest { algo_id: 11, hash: vec![9u8; 32] };

    let mut c = Container::new("c".to_string(), "".to_string(), &template);
    c.extend_imr(event_with_digests(vec![short, good]));

    let expected = sha256(&[vec![0u8; 32], vec![9u8; 32]].concat());
    assert_eq!(c.get_imr().hash, expected);
}
