use ed25519_dalek::{Signer, SigningKey};
use massa_bootstrap::client_binder::BootstrapClientBinder;
use massa_bootstrap::error::BootstrapError;
use massa_bootstrap::messages::{
    BootstrapClientMessage, BootstrapServerMessage, MessageCaps, Slot, Version,
};
use massa_bootstrap::min_be_int::{be_bytes_min_length, from_be_bytes_min, to_be_bytes_min};
use massa_bootstrap::signature::PublicKey;

fn caps() -> MessageCaps {
    MessageCaps {
        thread_count: 32,
        max_datastore_key_length: 255,
        max_bootstrap_error_length: 1000,
        max_bootstrap_final_state_parts_size: 1000,
        max_state_changes_size: 1000,
        max_changes_slot_count: 10,
        max_bootstrap_peers_size: 1000,
        max_bootstrap_graph_size: 1000,
    }
}

fn server_key() -> SigningKey {
    SigningKey::from_bytes(&[7u8; 32])
}

fn binder(max: u32) -> BootstrapClientBinder {
    let key = PublicKey::from_bytes(&server_key().verifying_key().to_bytes());
    BootstrapClientBinder::new(key, max, caps())
}

/// Signs `body` as the server does: over the hash of the previous hash and the body.
fn sign_frame(prev: Option<[u8; 32]>, body: &[u8]) -> [u8; 64] {
    let mut chained = Vec::new();
    if let Some(p) = prev {
        chained.extend_from_slice(&p);
    }
    chained.extend_from_slice(body);
    let h = blake3::hash(&chained);
    server_key().sign(h.as_bytes()).to_bytes()
}

#[test]
fn width_is_minimal_for_the_maximum() {
    assert_eq!(be_bytes_min_length(100_000_000), 4);
    assert_eq!(be_bytes_min_length(0), 0);
    assert_eq!(be_bytes_min_length(255), 1);
    assert_eq!(be_bytes_min_length(256), 2);
    assert_eq!(be_bytes_min_length(65_535), 2);
    assert_eq!(be_bytes_min_length(65_536), 3);
    assert_eq!(be_bytes_min_length(16_777_215), 3);
    assert_eq!(be_bytes_min_length(16_777_216), 4);
    assert_eq!(be_bytes_min_length(u32::MAX), 4);
}

#[test]
fn min_be_writes_exact_bytes() {
    assert_eq!(to_be_bytes_min(0x0102, 0xffff), Ok(vec![1, 2]));
    assert_eq!(to_be_bytes_min(5, 100_000_000), Ok(vec![0, 0, 0, 5]));
    assert_eq!(to_be_bytes_min(0, 0), Ok(vec![]));
    assert_eq!(to_be_bytes_min(256, 255), Err(BootstrapError::OversizeFrame));
}

#[test]
fn min_be_reads_back_and_checks_the_bound() {
    assert_eq!(from_be_bytes_min(&[1, 2, 9], 0xffff), Ok((0x0102, 2)));
    assert_eq!(from_be_bytes_min(&[1], 0xffff), Err(BootstrapError::BadFrame));
    assert_eq!(from_be_bytes_min(&[0, 100], 100), Ok((0, 1)));
    assert_eq!(from_be_bytes_min(&[100], 100), Ok((100, 1)));
    assert_eq!(from_be_bytes_min(&[101], 100), Err(BootstrapError::OversizeFrame));
}

#[test]
fn first_send_has_no_previous_hash_and_chains_the_body() {
    let mut b = binder(1000);
    let frame = b.send(&BootstrapClientMessage::AskBootstrapPeers).unwrap();
    assert_eq!(frame, vec![0, 1, 0]);
    let expected = blake3::hash(&[0u8]);
    assert_eq!(b.prev_message().unwrap().to_bytes(), expected.as_bytes());
}

#[test]
fn later_send_writes_the_old_hash_and_chains_on_it() {
    let mut b = binder(1000);
    b.send(&BootstrapClientMessage::AskBootstrapPeers).unwrap();
    let old = *b.prev_message().unwrap().to_bytes();
    let frame = b.send(&BootstrapClientMessage::AskConsensusState).unwrap();
    let mut wire = old.to_vec();
    wire.extend_from_slice(&[0, 1, 1]);
    assert_eq!(frame, wire);
    let mut chained = old.to_vec();
    chained.push(1);
    assert_eq!(b.prev_message().unwrap().to_bytes(), blake3::hash(&chained).as_bytes());
}

#[test]
fn send_refuses_a_body_over_the_maximum() {
    let mut b = binder(3);
    let msg = BootstrapClientMessage::BootstrapError { error: "abc".to_string() };
    assert_eq!(b.send(&msg), Err(BootstrapError::OversizeFrame));
    assert!(b.prev_message().is_none());
}

#[test]
fn handshake_writes_version_then_randomness() {
    let mut b = binder(1000);
    let v = Version { instance: *b"TEST", major: 1, minor: 2 };
    let bytes = b.handshake(v).unwrap();
    assert_eq!(bytes.len(), 12 + 32);
    assert_eq!(&bytes[..12], &[b'T', b'E', b'S', b'T', 0, 0, 0, 1, 0, 0, 0, 2]);
    assert_eq!(b.prev_message().unwrap().to_bytes(), blake3::hash(&bytes).as_bytes());
    let mut c = binder(1000);
    let other = c.handshake(v).unwrap();
    assert_ne!(bytes[12..], other[12..]);
}

#[test]
fn next_accepts_a_signed_frame_and_moves_the_chain() {
    let mut b = binder(1000);
    let v = Version { instance: *b"TEST", major: 1, minor: 2 };
    let hs = b.handshake(v).unwrap();
    let prev = *blake3::hash(&hs).as_bytes();
    let msg = BootstrapServerMessage::BootstrapTime { server_time: 42, version: v };
    let body = msg.to_bytes();
    let sig = sign_frame(Some(prev), &body);
    let len = to_be_bytes_min(body.len() as u32, 1000).unwrap();
    assert_eq!(b.next(&sig, &len, &body), Ok(msg));
    assert_eq!(b.prev_message().unwrap().to_bytes(), blake3::hash(&sig).as_bytes());
}

#[test]
fn next_before_any_exchange_signs_the_body_alone() {
    let mut b = binder(1000);
    let msg = BootstrapServerMessage::BootstrapError { error: "full".to_string() };
    let body = msg.to_bytes();
    let sig = sign_frame(None, &body);
    let len = to_be_bytes_min(body.len() as u32, 1000).unwrap();
    assert_eq!(b.next(&sig, &len, &body), Ok(msg));
}

#[test]
fn length_equal_to_the_maximum_decodes_and_one_more_is_oversize() {
    let msg = BootstrapServerMessage::BootstrapPeers { peers: vec![9u8; 10] };
    let body = msg.to_bytes();
    let max = body.len() as u32;
    let mut b = binder(max);
    let sig = sign_frame(None, &body);
    assert_eq!(b.frame_length(&[max as u8]), Ok(max));
    assert_eq!(b.next(&sig, &[max as u8], &body), Ok(msg));

    let mut b = binder(max);
    assert_eq!(b.frame_length(&[max as u8 + 1]), Err(BootstrapError::OversizeFrame));
    let mut longer = body.clone();
    longer.push(0);
    let sig = sign_frame(None, &longer);
    assert_eq!(
        b.next(&sig, &[max as u8 + 1], &longer),
        Err(BootstrapError::OversizeFrame)
    );
    assert!(b.prev_message().is_none());
}

#[test]
fn tampered_body_fails_with_bad_signature() {
    let mut b = binder(1000);
    let msg = BootstrapServerMessage::FinalStatePart {
        ledger_data: vec![1, 2, 3],
        async_pool_part: vec![],
        pos_cycle_part: vec![4],
        pos_credits_part: vec![],
        slot: Slot { period: 5, thread: 1 },
        final_state_changes: vec![],
    };
    let body = msg.to_bytes();
    let sig = sign_frame(None, &body);
    let len = to_be_bytes_min(body.len() as u32, 1000).unwrap();
    let mut bad = body.clone();
    bad[6] ^= 1;
    assert_eq!(b.next(&sig, &len, &bad), Err(BootstrapError::BadSignature));
    assert!(b.prev_message().is_none());
    assert_eq!(b.next(&sig, &len, &body), Ok(msg));
}

#[test]
fn signed_garbage_fails_with_bad_frame_after_the_chain_moved() {
    let mut b = binder(1000);
    let body = vec![99u8, 1, 2];
    let sig = sign_frame(None, &body);
    assert_eq!(b.next(&sig, &[0, 3], &body), Err(BootstrapError::BadFrame));
    assert_eq!(b.prev_message().unwrap().to_bytes(), blake3::hash(&sig).as_bytes());
}

#[test]
fn wrong_width_or_length_is_a_bad_frame() {
    let mut b = binder(1000);
    let body = BootstrapServerMessage::SlotTooOld.to_bytes();
    let sig = sign_frame(None, &body);
    assert_eq!(b.next(&sig, &[1], &body), Err(BootstrapError::BadFrame));
    assert_eq!(b.next(&sig, &[0, 2], &body), Err(BootstrapError::BadFrame));
    assert!(b.prev_message().is_none());
}
