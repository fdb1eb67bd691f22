use massa_bootstrap::error::BootstrapError;
use massa_bootstrap::messages::{
    AsyncMessageId, BootstrapClientMessage, BootstrapServerMessage, MessageCaps, Slot,
    StateChanges, Version,
};

fn caps() -> MessageCaps {
    MessageCaps {
        thread_count: 32,
        max_datastore_key_length: 4,
        max_bootstrap_error_length: 8,
        max_bootstrap_final_state_parts_size: 6,
        max_state_changes_size: 5,
        max_changes_slot_count: 2,
        max_bootstrap_peers_size: 3,
        max_bootstrap_graph_size: 3,
    }
}

fn full_ask() -> BootstrapClientMessage {
    BootstrapClientMessage::AskFinalStatePart {
        last_key: Some(vec![1, 2, 3]),
        slot: Some(Slot { period: 258, thread: 3 }),
        last_async_message_id: Some(AsyncMessageId {
            fee: 7,
            slot: Slot { period: 1, thread: 31 },
            index: u64::MAX,
        }),
        last_cycle: Some(9),
        last_credits_slot: Some(Slot { period: 2, thread: 0 }),
    }
}

fn part() -> BootstrapServerMessage {
    BootstrapServerMessage::FinalStatePart {
        ledger_data: vec![1, 2, 3, 4, 5, 6],
        async_pool_part: vec![],
        pos_cycle_part: vec![7],
        pos_credits_part: vec![8, 9],
        slot: Slot { period: 10, thread: 2 },
        final_state_changes: vec![
            (
                Slot { period: 9, thread: 1 },
                StateChanges {
                    ledger_changes: vec![1],
                    async_pool_changes: vec![],
                    roll_state_changes: vec![2, 3],
                },
            ),
            (
                Slot { period: 10, thread: 0 },
                StateChanges {
                    ledger_changes: vec![],
                    async_pool_changes: vec![4, 5, 6, 7, 8],
                    roll_state_changes: vec![],
                },
            ),
        ],
    }
}

#[test]
fn client_messages_encode_to_exact_bytes() {
    assert_eq!(BootstrapClientMessage::AskBootstrapPeers.to_bytes(), vec![0]);
    assert_eq!(BootstrapClientMessage::AskConsensusState.to_bytes(), vec![1]);
    assert_eq!(BootstrapClientMessage::BootstrapSuccess.to_bytes(), vec![4]);
    assert_eq!(BootstrapClientMessage::fresh_ask().to_bytes(), vec![2, 0, 0, 0, 0, 0]);
    assert_eq!(
        BootstrapClientMessage::BootstrapError { error: "hé".to_string() }.to_bytes(),
        vec![3, 0, 0, 0, 3, b'h', 0xc3, 0xa9]
    );
    let mut expected = vec![2u8];
    expected.extend_from_slice(&[1, 0, 0, 0, 3, 1, 2, 3]);
    expected.extend_from_slice(&[1, 0, 0, 0, 0, 0, 0, 1, 2, 3]);
    expected.extend_from_slice(&[1, 0, 0, 0, 0, 0, 0, 0, 7]);
    expected.extend_from_slice(&[0, 0, 0, 0, 0, 0, 0, 1, 31]);
    expected.extend_from_slice(&[255; 8]);
    expected.extend_from_slice(&[1, 0, 0, 0, 0, 0, 0, 0, 9]);
    expected.extend_from_slice(&[1, 0, 0, 0, 0, 0, 0, 0, 2, 0]);
    assert_eq!(full_ask().to_bytes(), expected);
}

#[test]
fn client_messages_round_trip() {
    let all = vec![
        BootstrapClientMessage::AskBootstrapPeers,
        BootstrapClientMessage::AskConsensusState,
        BootstrapClientMessage::BootstrapSuccess,
        BootstrapClientMessage::fresh_ask(),
        full_ask(),
        BootstrapClientMessage::AskFinalStatePart {
            last_key: None,
            slot: Some(Slot { period: 0, thread: 0 }),
            last_async_message_id: None,
            last_cycle: Some(0),
            last_credits_slot: None,
        },
        BootstrapClientMessage::BootstrapError { error: String::new() },
        BootstrapClientMessage::BootstrapError { error: "12345678".to_string() },
    ];
    for m in all {
        assert_eq!(BootstrapClientMessage::from_bytes(&m.to_bytes(), &caps()), Ok(m));
    }
}

#[test]
fn texts_are_read_as_utf8() {
    assert_eq!(
        BootstrapClientMessage::from_bytes(&[3, 0, 0, 0, 3, b'h', 0xc3, 0xa9], &caps()),
        Ok(BootstrapClientMessage::BootstrapError { error: "h\u{e9}".to_string() })
    );
    assert_eq!(
        BootstrapServerMessage::from_bytes(&[6, 0, 0, 0, 4, 0xf0, 0x9f, 0x92, 0xa1], &caps()),
        Ok(BootstrapServerMessage::BootstrapError { error: "\u{1f4a1}".to_string() })
    );
    // a surrogate, an overlong form and a lone continuation byte are no UTF-8
    for bad in [[0xed, 0xa0, 0x80], [0xe0, 0x80, 0xaf], [0x80, b'a', b'b']] {
        let mut body = vec![6, 0, 0, 0, 3];
        body.extend_from_slice(&bad);
        assert_eq!(
            BootstrapServerMessage::from_bytes(&body, &caps()),
            Err(BootstrapError::BadFrame)
        );
    }
}

#[test]
fn client_decoder_enforces_caps_and_shape() {
    let c = caps();
    let bad = |bytes: &[u8]| {
        assert_eq!(
            BootstrapClientMessage::from_bytes(bytes, &c),
            Err(BootstrapError::BadFrame)
        );
    };
    bad(&[]);
    bad(&[5]);
    bad(&[0, 0]);
    bad(&[2, 0, 0, 0, 0]);
    bad(&[2, 0, 0, 0, 0, 0, 0]);
    bad(&[2, 2, 0, 0, 0, 0]);
    // key longer than the cap
    bad(&[2, 1, 0, 0, 0, 5, 1, 2, 3, 4, 5, 0, 0, 0, 0]);
    // thread not below the thread count
    bad(&[2, 0, 1, 0, 0, 0, 0, 0, 0, 0, 1, 32, 0, 0, 0]);
    // text longer than the cap
    bad(&[3, 0, 0, 0, 9, b'a', b'a', b'a', b'a', b'a', b'a', b'a', b'a', b'a']);
    // text that is not UTF-8
    bad(&[3, 0, 0, 0, 2, 0xc3, 0x28]);
    // text cut short
    bad(&[3, 0, 0, 0, 2, b'a']);
    let at_cap = BootstrapClientMessage::AskFinalStatePart {
        last_key: Some(vec![1, 2, 3, 4]),
        slot: None,
        last_async_message_id: None,
        last_cycle: None,
        last_credits_slot: None,
    };
    assert_eq!(BootstrapClientMessage::from_bytes(&at_cap.to_bytes(), &c), Ok(at_cap));
}

#[test]
fn server_messages_encode_to_exact_bytes() {
    let v = Version { instance: *b"TEST", major: 1, minor: 258 };
    assert_eq!(
        BootstrapServerMessage::BootstrapTime { server_time: 513, version: v }.to_bytes(),
        vec![0, 0, 0, 0, 0, 0, 0, 2, 1, b'T', b'E', b'S', b'T', 0, 0, 0, 1, 0, 0, 1, 2]
    );
    assert_eq!(
        BootstrapServerMessage::BootstrapPeers { peers: vec![5, 6] }.to_bytes(),
        vec![1, 0, 0, 0, 2, 5, 6]
    );
    assert_eq!(
        BootstrapServerMessage::ConsensusState { graph: vec![] }.to_bytes(),
        vec![2, 0, 0, 0, 0]
    );
    assert_eq!(BootstrapServerMessage::FinalStateFinished.to_bytes(), vec![4]);
    assert_eq!(BootstrapServerMessage::SlotTooOld.to_bytes(), vec![5]);
    assert_eq!(
        BootstrapServerMessage::BootstrapError { error: "no".to_string() }.to_bytes(),
        vec![6, 0, 0, 0, 2, b'n', b'o']
    );
    let mut expected = vec![3u8];
    expected.extend_from_slice(&[0, 0, 0, 6, 1, 2, 3, 4, 5, 6]);
    expected.extend_from_slice(&[0, 0, 0, 0]);
    expected.extend_from_slice(&[0, 0, 0, 1, 7]);
    expected.extend_from_slice(&[0, 0, 0, 2, 8, 9]);
    expected.extend_from_slice(&[0, 0, 0, 0, 0, 0, 0, 10, 2]);
    expected.extend_from_slice(&[0, 0, 0, 2]);
    expected.extend_from_slice(&[0, 0, 0, 0, 0, 0, 0, 9, 1]);
    expected.extend_from_slice(&[0, 0, 0, 1, 1, 0, 0, 0, 0, 0, 0, 0, 2, 2, 3]);
    expected.extend_from_slice(&[0, 0, 0, 0, 0, 0, 0, 10, 0]);
    expected.extend_from_slice(&[0, 0, 0, 0, 0, 0, 0, 5, 4, 5, 6, 7, 8, 0, 0, 0, 0]);
    assert_eq!(part().to_bytes(), expected);
}

#[test]
fn server_messages_round_trip() {
    let v = Version { instance: *b"MAIN", major: u32::MAX, minor: 0 };
    let all = vec![
        BootstrapServerMessage::BootstrapTime { server_time: u64::MAX, version: v },
        BootstrapServerMessage::BootstrapPeers { peers: vec![1, 2, 3] },
        BootstrapServerMessage::ConsensusState { graph: vec![9] },
        BootstrapServerMessage::FinalStateFinished,
        BootstrapServerMessage::SlotTooOld,
        BootstrapServerMessage::BootstrapError { error: "full".to_string() },
        part(),
    ];
    for m in all {
        assert_eq!(BootstrapServerMessage::from_bytes(&m.to_bytes(), &caps()), Ok(m));
    }
}

#[test]
fn server_decoder_enforces_caps_and_shape() {
    let c = caps();
    let bad = |m: &BootstrapServerMessage| {
        assert_eq!(
            BootstrapServerMessage::from_bytes(&m.to_bytes(), &c),
            Err(BootstrapError::BadFrame)
        );
    };
    bad(&BootstrapServerMessage::BootstrapPeers { peers: vec![0; 4] });
    bad(&BootstrapServerMessage::ConsensusState { graph: vec![0; 4] });
    bad(&BootstrapServerMessage::BootstrapError { error: "123456789".to_string() });
    let with = |f: &dyn Fn(&mut BootstrapServerMessage)| {
        let mut m = part();
        f(&mut m);
        m
    };
    bad(&with(&|m| {
        if let BootstrapServerMessage::FinalStatePart { ledger_data, .. } = m {
            ledger_data.push(0);
        }
    }));
    bad(&with(&|m| {
        if let BootstrapServerMessage::FinalStatePart { slot, .. } = m {
            slot.thread = 32;
        }
    }));
    bad(&with(&|m| {
        if let BootstrapServerMessage::FinalStatePart { final_state_changes, .. } = m {
            let extra = final_state_changes[0].clone();
            final_state_changes.push(extra);
        }
    }));
    bad(&with(&|m| {
        if let BootstrapServerMessage::FinalStatePart { final_state_changes, .. } = m {
            final_state_changes[1].1.roll_state_changes = vec![0; 6];
        }
    }));
    let raw = |bytes: &[u8]| {
        assert_eq!(
            BootstrapServerMessage::from_bytes(bytes, &c),
            Err(BootstrapError::BadFrame)
        );
    };
    raw(&[]);
    raw(&[7]);
    raw(&[4, 0]);
    raw(&[0, 0, 0, 0, 0, 0, 0, 0, 1, b'T', b'E', b'S', b'T', 0, 0, 0, 1, 0, 0, 0]);
    let mut cut = part().to_bytes();
    cut.pop();
    raw(&cut);
    let mut long = part().to_bytes();
    long.push(0);
    raw(&long);
}

#[test]
fn versions_are_compatible_on_instance_and_major() {
    let v = Version { instance: *b"TEST", major: 14, minor: 5 };
    assert!(v.is_compatible(&Version { instance: *b"TEST", major: 14, minor: 0 }));
    assert!(v.is_compatible(&v));
    assert!(!v.is_compatible(&Version { instance: *b"TEST", major: 15, minor: 5 }));
    assert!(!v.is_compatible(&Version { instance: *b"TESU", major: 14, minor: 5 }));
    assert!(!v.is_compatible(&Version { instance: *b"MEST", major: 14, minor: 5 }));
}

#[test]
fn errors_render_as_text() {
    assert_eq!(BootstrapError::PingTooHigh.to_text(), "bootstrap ping too high");
    assert_eq!(BootstrapError::ServerRefused("busy".to_string()).to_text(), "busy");
    assert_eq!(BootstrapError::NoServers.to_text(), "no bootstrap nodes found in list");
    assert_eq!(BootstrapError::BadSignature.to_text(), "invalid signature");
}
