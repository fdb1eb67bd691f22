use ed25519_dalek::{Signer, SigningKey};
use massa_bootstrap::client::{
    clock_compensation, connect_to_server, error_report, get_state, read_outcome,
    send_client_message, write_outcome, AppliedCursor, BootstrapAction, BootstrapClient,
    BootstrapEvent, BootstrapStart, FinalStatePart, Phase,
};
use massa_bootstrap::client_binder::BootstrapClientBinder;
use massa_bootstrap::error::BootstrapError;
use massa_bootstrap::messages::{
    AsyncMessageId, BootstrapClientMessage, BootstrapServerMessage, MessageCaps, Slot,
    StateChanges, Version,
};
use massa_bootstrap::min_be_int::{from_be_bytes_min, to_be_bytes_min};
use massa_bootstrap::settings::{BootstrapConfig, GlobalBootstrapState};
use massa_bootstrap::signature::PublicKey;

const MAX: u32 = 100_000;

fn caps() -> MessageCaps {
    MessageCaps {
        thread_count: 32,
        max_datastore_key_length: 255,
        max_bootstrap_error_length: 1000,
        max_bootstrap_final_state_parts_size: 1000,
        max_state_changes_size: 1000,
        max_changes_slot_count: 10,
        max_bootstrap_peers_size: 1000,
        max_bootstrap_graph_size: 1000,
    }
}

fn signing_key(i: usize) -> SigningKey {
    SigningKey::from_bytes(&[i as u8 + 1; 32])
}

fn config(servers: usize) -> BootstrapConfig {
    BootstrapConfig {
        bootstrap_list: (0..servers)
            .map(|i| {
                (
                    format!("10.0.0.{}:31245", i),
                    PublicKey::from_bytes(&signing_key(i).verifying_key().to_bytes()),
                )
            })
            .collect(),
        connect_timeout: 11,
        read_error_timeout: 12,
        read_timeout: 13,
        write_timeout: 14,
        write_error_timeout: 15,
        retry_delay: 16,
        max_ping: 1000,
        max_bytes_read_write: 20_000,
        max_bootstrap_message_size: MAX,
        enable_clock_synchronization: true,
        message_caps: caps(),
    }
}

fn version() -> Version {
    Version { instance: *b"TEST", major: 14, minor: 2 }
}

fn client(servers: usize) -> BootstrapClient {
    match get_state(config(servers), version(), 500, 200, None) {
        Ok(BootstrapStart::FromServers(c)) => c,
        _ => panic!("a client was expected"),
    }
}

/// The server's end of the chained framing.
struct Server {
    key: SigningKey,
    prev: Option<[u8; 32]>,
    received: Vec<BootstrapClientMessage>,
    /// Set once a frame of this server was altered on its way: the client
    /// then holds another hash than the server does.
    out_of_step: bool,
}

impl Server {
    fn new(index: usize) -> Server {
        Server { key: signing_key(index), prev: None, received: Vec::new(), out_of_step: false }
    }

    fn chained(&self, body: &[u8]) -> [u8; 32] {
        let mut data = Vec::new();
        if let Some(p) = self.prev {
            data.extend_from_slice(&p);
        }
        data.extend_from_slice(body);
        *blake3::hash(&data).as_bytes()
    }

    fn accept_handshake(&mut self, bytes: &[u8]) {
        assert_eq!(bytes.len(), 12 + 32);
        self.prev = Some(*blake3::hash(bytes).as_bytes());
    }

    fn frame(&mut self, message: &BootstrapServerMessage) -> ([u8; 64], Vec<u8>, Vec<u8>) {
        let body = message.to_bytes();
        let sig = self.key.sign(&self.chained(&body)).to_bytes();
        self.prev = Some(*blake3::hash(&sig).as_bytes());
        (sig, to_be_bytes_min(body.len() as u32, MAX).unwrap(), body)
    }

    fn receive(&mut self, wire: &[u8]) {
        let mut at = 0;
        if let Some(p) = self.prev {
            assert_eq!(&wire[..32] == &p[..], !self.out_of_step);
            at = 32;
        }
        let (len, width) = from_be_bytes_min(&wire[at..], MAX).unwrap();
        let body = &wire[at + width..];
        assert_eq!(body.len(), len as usize);
        self.prev = Some(self.chained(body));
        self.received.push(BootstrapClientMessage::from_bytes(body, &caps()).unwrap());
    }
}

/// A stand-in for the final state: it remembers what was applied.
#[derive(Default)]
struct Store {
    ledger: Vec<u8>,
    slot: Option<Slot>,
    parts: usize,
    changes: Vec<Slot>,
}

impl Store {
    fn apply(&mut self, part: &FinalStatePart) -> AppliedCursor {
        self.ledger.extend_from_slice(&part.ledger_data);
        for (slot, _) in &part.final_state_changes {
            self.changes.push(*slot);
        }
        self.slot = Some(part.slot);
        self.parts += 1;
        AppliedCursor {
            last_key: self.ledger.last().map(|b| vec![*b]),
            last_async_message_id: Some(AsyncMessageId {
                fee: 1,
                slot: part.slot,
                index: self.parts as u64,
            }),
            last_cycle: Some(self.parts as u64),
            last_credits_slot: Some(part.slot),
        }
    }
}

enum Move {
    Silence,
    Send(BootstrapServerMessage),
    Tampered(BootstrapServerMessage),
    Drop,
}

struct World {
    client: BootstrapClient,
    binder: Option<BootstrapClientBinder>,
    server: Server,
    store: Store,
    now: u64,
    applied: usize,
    echoed: Vec<BootstrapError>,
}

impl World {
    fn new(servers: usize) -> World {
        World {
            client: client(servers),
            binder: None,
            server: Server::new(0),
            store: Store::default(),
            now: 1000,
            applied: 0,
            echoed: Vec::new(),
        }
    }

    fn step(&mut self, event: BootstrapEvent) -> BootstrapAction {
        self.now += 1;
        self.client.step(self.now, event)
    }

    /// Opens the connection that `action` asks for.
    fn connect(&mut self, action: BootstrapAction) -> BootstrapAction {
        let server = match action {
            BootstrapAction::Connect { server, timeout } => {
                assert_eq!(timeout, 11);
                server
            }
            other => panic!("expected a connection, got {:?}", other),
        };
        let key = self.client.config().bootstrap_list[server].1;
        self.binder = Some(connect_to_server(self.client.config(), &key));
        self.server = Server::new(server);
        self.step(BootstrapEvent::Connected)
    }

    /// Plays the server's moves against the client until the session ends,
    /// or until the client reads and the server has no move left.
    fn play(&mut self, mut action: BootstrapAction, moves: Vec<Move>) -> BootstrapAction {
        let mut moves = moves.into_iter();
        loop {
            let event = match action {
                BootstrapAction::Read { timeout } => match moves.next() {
                    None => return BootstrapAction::Read { timeout },
                    Some(Move::Silence) => BootstrapEvent::TimedOut,
                    Some(Move::Drop) => {
                        BootstrapEvent::Failed { error: BootstrapError::ConnectFailed }
                    }
                    Some(Move::Send(m)) => {
                        let (sig, len, body) = self.server.frame(&m);
                        match self.binder.as_mut().unwrap().next(&sig, &len, &body) {
                            Ok(message) => BootstrapEvent::Received { message },
                            Err(error) => BootstrapEvent::Failed { error },
                        }
                    }
                    Some(Move::Tampered(m)) => {
                        let (sig, len, mut body) = self.server.frame(&m);
                        self.server.out_of_step = true;
                        let last = body.len() - 1;
                        body[last] ^= 1;
                        match self.binder.as_mut().unwrap().next(&sig, &len, &body) {
                            Ok(message) => BootstrapEvent::Received { message },
                            Err(error) => BootstrapEvent::Failed { error },
                        }
                    }
                },
                BootstrapAction::Handshake { version, timeout } => {
                    assert_eq!(timeout, 14);
                    let bytes = self.binder.as_mut().unwrap().handshake(version).unwrap();
                    self.server.accept_handshake(&bytes);
                    BootstrapEvent::Written
                }
                BootstrapAction::SendNext { timeout } => {
                    assert_eq!(timeout, 14);
                    let message = self.client.next_bootstrap_message().clone();
                    let frame = self.binder.as_mut().unwrap().send(&message).unwrap();
                    self.server.receive(&frame);
                    BootstrapEvent::Written
                }
                BootstrapAction::Apply { part } => {
                    self.applied += 1;
                    BootstrapEvent::Applied { cursor: self.store.apply(&part) }
                }
                BootstrapAction::Echo { error, timeout } => {
                    assert_eq!(timeout, 15);
                    let frame = self.binder.as_mut().unwrap().send(&error_report(&error)).unwrap();
                    self.server.receive(&frame);
                    self.echoed.push(error);
                    BootstrapEvent::Echoed
                }
                other => return other,
            };
            action = self.step(event);
        }
    }

    fn session(&mut self, action: BootstrapAction, moves: Vec<Move>) -> BootstrapAction {
        let first = self.connect(action);
        assert_eq!(first, BootstrapAction::Read { timeout: 12 });
        self.play(first, moves)
    }
}

fn time() -> Move {
    Move::Send(BootstrapServerMessage::BootstrapTime { server_time: 1005, version: version() })
}

fn part(n: u8, changes: Vec<(Slot, StateChanges)>) -> BootstrapServerMessage {
    BootstrapServerMessage::FinalStatePart {
        ledger_data: vec![n, n + 1],
        async_pool_part: vec![n],
        pos_cycle_part: vec![],
        pos_credits_part: vec![n, n, n],
        slot: Slot { period: n as u64, thread: n },
        final_state_changes: changes,
    }
}

fn cursor_after(n: u8, parts: u64) -> BootstrapClientMessage {
    let slot = Slot { period: n as u64, thread: n };
    BootstrapClientMessage::AskFinalStatePart {
        last_key: Some(vec![n + 1]),
        slot: Some(slot),
        last_async_message_id: Some(AsyncMessageId { fee: 1, slot, index: parts }),
        last_cycle: Some(parts),
        last_credits_slot: Some(slot),
    }
}

#[test]
fn pre_genesis_cold_start() {
    match get_state(config(3), version(), 100, 200, None) {
        Ok(BootstrapStart::FromScratch(state)) => {
            assert_eq!(
                state,
                GlobalBootstrapState { peers: None, graph: None, compensation_millis: 0 }
            );
        }
        _ => panic!("a start from scratch was expected"),
    }
    assert!(matches!(
        get_state(config(0), version(), 100, 200, None),
        Ok(BootstrapStart::FromScratch(_))
    ));
    assert!(matches!(
        get_state(config(3), version(), 200, 200, None),
        Ok(BootstrapStart::FromServers(_))
    ));
}

#[test]
fn empty_bootstrap_list_is_an_error() {
    assert!(matches!(
        get_state(config(0), version(), 300, 200, None),
        Err(BootstrapError::NoServers)
    ));
    assert!(matches!(
        BootstrapClient::new(config(0), version(), None),
        Err(BootstrapError::NoServers)
    ));
}

#[test]
fn a_new_client_starts_with_an_empty_cursor() {
    let c = client(2);
    assert_eq!(c.phase(), Phase::Idle);
    assert_eq!(*c.next_bootstrap_message(), BootstrapClientMessage::fresh_ask());
    assert_eq!(
        *c.global_bootstrap_state(),
        GlobalBootstrapState { peers: None, graph: None, compensation_millis: 0 }
    );
}

#[test]
fn happy_path() {
    let mut w = World::new(1);
    let start = w.step(BootstrapEvent::Started);
    let end = w.session(
        start,
        vec![
            Move::Silence,
            time(),
            Move::Send(part(7, vec![])),
            Move::Send(BootstrapServerMessage::FinalStateFinished),
            Move::Send(BootstrapServerMessage::BootstrapPeers { peers: vec![1, 2] }),
            Move::Send(BootstrapServerMessage::ConsensusState { graph: vec![3] }),
        ],
    );
    assert_eq!(end, BootstrapAction::Finish);
    assert_eq!(w.client.phase(), Phase::Done);
    assert_eq!(w.store.slot, Some(Slot { period: 7, thread: 7 }));
    assert_eq!(w.store.ledger, vec![7, 8]);
    assert_eq!(
        w.server.received,
        vec![
            BootstrapClientMessage::fresh_ask(),
            BootstrapClientMessage::AskBootstrapPeers,
            BootstrapClientMessage::AskConsensusState,
            BootstrapClientMessage::BootstrapSuccess,
        ]
    );
    assert!(w.echoed.is_empty());
    assert_eq!(w.step(BootstrapEvent::Started), BootstrapAction::Finish);
    let state = w.client.into_global_bootstrap_state();
    assert_eq!(state.peers, Some(vec![1, 2]));
    assert_eq!(state.graph, Some(vec![3]));
    // handshake at 1003, time received at 1005: the middle of the round trip is 1004
    assert_eq!(state.compensation_millis, 1);
}

#[test]
fn changes_are_handed_on_in_the_order_received() {
    let mut w = World::new(1);
    let start = w.step(BootstrapEvent::Started);
    let change = |p: u64| {
        (
            Slot { period: p, thread: 0 },
            StateChanges {
                ledger_changes: vec![p as u8],
                async_pool_changes: vec![],
                roll_state_changes: vec![],
            },
        )
    };
    w.session(
        start,
        vec![
            Move::Silence,
            time(),
            Move::Send(part(1, vec![])),
            Move::Send(part(2, vec![change(5), change(3), change(4)])),
            Move::Drop,
        ],
    );
    assert_eq!(
        w.store.changes,
        vec![
            Slot { period: 5, thread: 0 },
            Slot { period: 3, thread: 0 },
            Slot { period: 4, thread: 0 }
        ]
    );
    assert_eq!(w.store.slot, Some(Slot { period: 2, thread: 2 }));
}

#[test]
fn resume_across_disconnect() {
    let mut w = World::new(2);
    let start = w.step(BootstrapEvent::Started);
    let first_server = match start {
        BootstrapAction::Connect { server, .. } => server,
        _ => panic!(),
    };
    let next = w.session(
        start,
        vec![
            Move::Silence,
            time(),
            Move::Send(part(1, vec![])),
            Move::Send(part(2, vec![])),
            Move::Drop,
        ],
    );
    assert_eq!(w.echoed, vec![BootstrapError::ConnectFailed]);
    assert_eq!(*w.client.next_bootstrap_message(), cursor_after(2, 2));
    match next {
        BootstrapAction::Connect { server, .. } => assert_eq!(server, 1 - first_server),
        other => panic!("expected the other server, got {:?}", other),
    }
    let end = w.session(
        next,
        vec![
            Move::Silence,
            time(),
            Move::Send(part(3, vec![])),
            Move::Send(BootstrapServerMessage::FinalStateFinished),
            Move::Send(BootstrapServerMessage::BootstrapPeers { peers: vec![] }),
            Move::Send(BootstrapServerMessage::ConsensusState { graph: vec![] }),
        ],
    );
    assert_eq!(end, BootstrapAction::Finish);
    assert_eq!(w.server.received[0], cursor_after(2, 2));
    assert_eq!(w.store.ledger, vec![1, 2, 2, 3, 3, 4]);
    assert_eq!(w.store.slot, Some(Slot { period: 3, thread: 3 }));
}

#[test]
fn progress_in_peers_survives_a_lost_connection() {
    let mut w = World::new(2);
    let start = w.step(BootstrapEvent::Started);
    let next = w.session(
        start,
        vec![
            Move::Silence,
            time(),
            Move::Send(BootstrapServerMessage::FinalStateFinished),
            Move::Send(BootstrapServerMessage::BootstrapPeers { peers: vec![9] }),
            Move::Silence,
        ],
    );
    assert_eq!(w.echoed, vec![BootstrapError::Timeout]);
    assert_eq!(*w.client.next_bootstrap_message(), BootstrapClientMessage::AskConsensusState);
    let end = w.session(
        next,
        vec![
            Move::Silence,
            time(),
            Move::Send(BootstrapServerMessage::ConsensusState { graph: vec![8] }),
        ],
    );
    assert_eq!(end, BootstrapAction::Finish);
    assert_eq!(
        w.server.received,
        vec![BootstrapClientMessage::AskConsensusState, BootstrapClientMessage::BootstrapSuccess]
    );
    assert_eq!(w.client.global_bootstrap_state().peers, Some(vec![9]));
    assert_eq!(w.client.global_bootstrap_state().graph, Some(vec![8]));
}

#[test]
fn slot_too_old_restarts_from_an_empty_cursor() {
    let mut w = World::new(1);
    let start = w.step(BootstrapEvent::Started);
    let end = w.session(
        start,
        vec![
            Move::Silence,
            time(),
            Move::Send(part(1, vec![])),
            Move::Send(BootstrapServerMessage::SlotTooOld),
            Move::Send(part(5, vec![])),
            Move::Send(BootstrapServerMessage::FinalStateFinished),
            Move::Send(BootstrapServerMessage::BootstrapPeers { peers: vec![] }),
            Move::Send(BootstrapServerMessage::ConsensusState { graph: vec![] }),
        ],
    );
    assert_eq!(end, BootstrapAction::Finish);
    assert_eq!(w.server.received[0], BootstrapClientMessage::fresh_ask());
    assert_eq!(w.server.received[1], BootstrapClientMessage::fresh_ask());
    assert_eq!(w.server.received[2], BootstrapClientMessage::AskBootstrapPeers);
    assert_eq!(w.store.parts, 2);
}

#[test]
fn slot_too_old_resets_a_cursor_that_was_set() {
    let mut w = World::new(1);
    let start = w.step(BootstrapEvent::Started);
    // up to the read that follows the first chunk
    let action = w.session(start, vec![Move::Silence, time(), Move::Send(part(1, vec![]))]);
    assert_eq!(*w.client.next_bootstrap_message(), cursor_after(1, 1));
    assert_eq!(action, BootstrapAction::Read { timeout: 13 });
    let (sig, len, body) = w.server.frame(&BootstrapServerMessage::SlotTooOld);
    let message = w.binder.as_mut().unwrap().next(&sig, &len, &body).unwrap();
    let action = w.step(BootstrapEvent::Received { message });
    assert_eq!(action, BootstrapAction::SendNext { timeout: 14 });
    assert_eq!(*w.client.next_bootstrap_message(), BootstrapClientMessage::fresh_ask());
    assert_eq!(w.client.phase(), Phase::Sending);
}

#[test]
fn version_incompatibility() {
    let mut w = World::new(2);
    let start = w.step(BootstrapEvent::Started);
    let other = Version { instance: *b"TEST", major: 15, minor: 2 };
    let next = w.session(
        start,
        vec![
            Move::Silence,
            Move::Send(BootstrapServerMessage::BootstrapTime { server_time: 1, version: other }),
        ],
    );
    assert!(matches!(next, BootstrapAction::Connect { .. }));
    assert_eq!(w.echoed, vec![BootstrapError::IncompatibleVersion]);
    assert_eq!(
        w.server.received,
        vec![BootstrapClientMessage::BootstrapError { error: "incompatible version".to_string() }]
    );
    assert_eq!(w.applied, 0);
    assert_eq!(w.store.slot, None);
    assert_eq!(*w.client.next_bootstrap_message(), BootstrapClientMessage::fresh_ask());
    assert_eq!(w.client.global_bootstrap_state().compensation_millis, 0);
}

#[test]
fn signature_tamper() {
    let mut w = World::new(2);
    let start = w.step(BootstrapEvent::Started);
    let next = w.session(
        start,
        vec![
            Move::Silence,
            time(),
            Move::Send(part(1, vec![])),
            Move::Tampered(part(2, vec![])),
        ],
    );
    assert!(matches!(next, BootstrapAction::Connect { .. }));
    assert_eq!(w.echoed, vec![BootstrapError::BadSignature]);
    assert_eq!(w.applied, 1);
    assert_eq!(w.store.ledger, vec![1, 2]);
    assert_eq!(w.store.slot, Some(Slot { period: 1, thread: 1 }));
    assert_eq!(*w.client.next_bootstrap_message(), cursor_after(1, 1));
}

#[test]
fn a_refusal_is_not_answered() {
    let mut w = World::new(2);
    let start = w.step(BootstrapEvent::Started);
    let next = w.session(
        start,
        vec![Move::Send(BootstrapServerMessage::BootstrapError { error: "no slots".to_string() })],
    );
    assert!(matches!(next, BootstrapAction::Connect { .. }));
    assert!(w.echoed.is_empty());
    assert!(w.server.received.is_empty());

    let next = w.session(
        next,
        vec![
            Move::Silence,
            time(),
            Move::Send(BootstrapServerMessage::FinalStateFinished),
            Move::Send(BootstrapServerMessage::BootstrapError { error: "later".to_string() }),
        ],
    );
    assert_eq!(next, BootstrapAction::Sleep { duration: 16 });
    assert!(w.echoed.is_empty());
    assert_eq!(*w.client.next_bootstrap_message(), BootstrapClientMessage::AskBootstrapPeers);
}

#[test]
fn anything_but_an_error_during_the_probe_is_unexpected() {
    let mut w = World::new(1);
    let start = w.step(BootstrapEvent::Started);
    let next = w.session(start, vec![time()]);
    assert_eq!(next, BootstrapAction::Sleep { duration: 16 });
    assert_eq!(w.echoed, vec![BootstrapError::UnexpectedMessage]);
}

#[test]
fn session_errors_by_phase() {
    let cases: Vec<(Vec<Move>, BootstrapError)> = vec![
        (vec![Move::Silence, Move::Silence], BootstrapError::Timeout),
        (vec![Move::Silence, Move::Drop], BootstrapError::ConnectFailed),
        (
            vec![Move::Silence, Move::Send(BootstrapServerMessage::FinalStateFinished)],
            BootstrapError::UnexpectedMessage,
        ),
        (
            vec![
                Move::Silence,
                Move::Send(BootstrapServerMessage::BootstrapTime {
                    server_time: 0,
                    version: Version { instance: *b"MAIN", major: 14, minor: 2 },
                }),
            ],
            BootstrapError::IncompatibleVersion,
        ),
        (
            vec![
                Move::Silence,
                time(),
                Move::Send(BootstrapServerMessage::BootstrapPeers { peers: vec![] }),
            ],
            BootstrapError::UnexpectedMessage,
        ),
        (
            vec![
                Move::Silence,
                time(),
                Move::Send(BootstrapServerMessage::BootstrapError { error: "x".to_string() }),
            ],
            BootstrapError::UnexpectedMessage,
        ),
        (
            vec![
                Move::Silence,
                time(),
                Move::Send(BootstrapServerMessage::FinalStateFinished),
                Move::Send(BootstrapServerMessage::ConsensusState { graph: vec![] }),
            ],
            BootstrapError::UnexpectedMessage,
        ),
        (
            vec![
                Move::Silence,
                time(),
                Move::Send(BootstrapServerMessage::FinalStateFinished),
                Move::Send(BootstrapServerMessage::BootstrapPeers { peers: vec![] }),
                Move::Send(BootstrapServerMessage::SlotTooOld),
            ],
            BootstrapError::UnexpectedMessage,
        ),
        (
            vec![
                Move::Silence,
                time(),
                Move::Send(BootstrapServerMessage::BootstrapPeers { peers: vec![0; 1001] }),
            ],
            BootstrapError::BadFrame,
        ),
    ];
    for (moves, expected) in cases {
        let mut w = World::new(1);
        let start = w.step(BootstrapEvent::Started);
        let next = w.session(start, moves);
        assert_eq!(next, BootstrapAction::Sleep { duration: 16 });
        assert_eq!(w.echoed, vec![expected]);
    }
}

#[test]
fn a_refusal_while_the_clocks_are_exchanged_carries_the_text() {
    let mut w = World::new(1);
    let start = w.step(BootstrapEvent::Started);
    let after_probe = w.session(start, vec![Move::Silence]);
    assert_eq!(after_probe, BootstrapAction::Read { timeout: 13 });
    let message = BootstrapServerMessage::BootstrapError { error: "busy".to_string() };
    let action = w.step(BootstrapEvent::Received { message });
    assert_eq!(action, BootstrapAction::Sleep { duration: 16 });
    assert_eq!(w.client.phase(), Phase::Sleeping);
}

#[test]
fn ping_too_high_and_clock_overflow_end_the_session() {
    let mut c = {
        let mut cfg = config(1);
        cfg.max_ping = 5;
        BootstrapClient::new(cfg, version(), None).unwrap()
    };
    assert!(matches!(c.step(0, BootstrapEvent::Started), BootstrapAction::Connect { .. }));
    assert_eq!(c.step(1, BootstrapEvent::Connected), BootstrapAction::Read { timeout: 12 });
    assert_eq!(
        c.step(10, BootstrapEvent::TimedOut),
        BootstrapAction::Handshake { version: version(), timeout: 14 }
    );
    assert_eq!(c.step(11, BootstrapEvent::Written), BootstrapAction::Read { timeout: 13 });
    let message = BootstrapServerMessage::BootstrapTime { server_time: 0, version: version() };
    assert_eq!(
        c.step(16, BootstrapEvent::Received { message }),
        BootstrapAction::Echo { error: BootstrapError::PingTooHigh, timeout: 15 }
    );
    assert_eq!(c.phase(), Phase::Echoing);

    let mut c = BootstrapClient::new(config(1), version(), None).unwrap();
    c.step(0, BootstrapEvent::Started);
    c.step(0, BootstrapEvent::Connected);
    c.step(0, BootstrapEvent::TimedOut);
    c.step(0, BootstrapEvent::Written);
    let message = BootstrapServerMessage::BootstrapTime {
        server_time: i64::MAX as u64 + 1,
        version: version(),
    };
    assert_eq!(
        c.step(0, BootstrapEvent::Received { message }),
        BootstrapAction::Echo { error: BootstrapError::ClockOverflow, timeout: 15 }
    );
}

#[test]
fn a_chunk_that_cannot_be_applied_is_a_bad_frame() {
    let mut c = BootstrapClient::new(config(1), version(), None).unwrap();
    c.step(0, BootstrapEvent::Started);
    c.step(0, BootstrapEvent::Connected);
    c.step(0, BootstrapEvent::TimedOut);
    c.step(0, BootstrapEvent::Written);
    let message = BootstrapServerMessage::BootstrapTime { server_time: 0, version: version() };
    assert_eq!(
        c.step(0, BootstrapEvent::Received { message }),
        BootstrapAction::SendNext { timeout: 14 }
    );
    assert_eq!(c.step(0, BootstrapEvent::Written), BootstrapAction::Read { timeout: 13 });
    let action = c.step(0, BootstrapEvent::Received { message: part(4, vec![]) });
    assert!(matches!(action, BootstrapAction::Apply { .. }));
    assert_eq!(c.phase(), Phase::Applying { slot: Slot { period: 4, thread: 4 } });
    assert_eq!(
        c.step(0, BootstrapEvent::ApplyFailed),
        BootstrapAction::Echo { error: BootstrapError::BadFrame, timeout: 15 }
    );
    assert_eq!(*c.next_bootstrap_message(), BootstrapClientMessage::fresh_ask());
}

#[test]
fn an_event_that_the_phase_does_not_wait_for_ends_the_session() {
    let mut c = BootstrapClient::new(config(1), version(), None).unwrap();
    c.step(0, BootstrapEvent::Started);
    c.step(0, BootstrapEvent::Connected);
    assert_eq!(
        c.step(0, BootstrapEvent::Written),
        BootstrapAction::Echo { error: BootstrapError::UnexpectedMessage, timeout: 15 }
    );
}

#[test]
fn every_server_is_tried_once_before_the_pause() {
    let mut c = client(4);
    let mut seen = Vec::new();
    let mut action = c.step(1, BootstrapEvent::Started);
    for round in 0..3 {
        let mut this_round = Vec::new();
        loop {
            match action {
                BootstrapAction::Connect { server, timeout } => {
                    assert_eq!(timeout, 11);
                    assert_eq!(c.current_server(), server);
                    this_round.push(server);
                    let event = if server % 2 == 0 {
                        BootstrapEvent::TimedOut
                    } else {
                        BootstrapEvent::Failed { error: BootstrapError::ConnectFailed }
                    };
                    action = c.step(2, event);
                }
                BootstrapAction::Sleep { duration } => {
                    assert_eq!(duration, 16);
                    assert_eq!(c.phase(), Phase::Sleeping);
                    action = c.step(3, BootstrapEvent::Slept);
                    break;
                }
                other => panic!("round {}: {:?}", round, other),
            }
        }
        this_round.sort();
        assert_eq!(this_round, vec![0, 1, 2, 3]);
        seen.push(this_round);
    }
    assert_eq!(seen.len(), 3);
}

#[test]
fn the_order_of_a_round_is_shuffled() {
    let identity: Vec<usize> = (0..40).collect();
    let mut shuffled = 0;
    for _ in 0..4 {
        let mut c = client(40);
        let mut round = Vec::new();
        let mut action = c.step(1, BootstrapEvent::Started);
        while let BootstrapAction::Connect { server, .. } = action {
            round.push(server);
            action = c.step(2, BootstrapEvent::TimedOut);
        }
        assert_eq!(action, BootstrapAction::Sleep { duration: 16 });
        if round != identity {
            shuffled += 1;
        }
        round.sort();
        assert_eq!(round, identity);
    }
    assert!(shuffled > 0);
}

#[test]
fn a_client_made_without_shuffling_goes_by_the_list() {
    let mut c = BootstrapClient::new(config(3), version(), None).unwrap();
    let mut round = Vec::new();
    let mut action = c.step(1, BootstrapEvent::Started);
    while let BootstrapAction::Connect { server, .. } = action {
        round.push(server);
        action = c.step(2, BootstrapEvent::TimedOut);
    }
    assert_eq!(round, vec![0, 1, 2]);
}

#[test]
fn the_episode_ends_after_its_timestamp() {
    let start = |now: u64| {
        let mut c = BootstrapClient::new(config(2), version(), Some(50)).unwrap();
        let a = c.step(now, BootstrapEvent::Started);
        (c, a)
    };
    let (_, a) = start(50);
    assert!(matches!(a, BootstrapAction::Connect { .. }));
    let (mut c, a) = start(51);
    assert_eq!(a, BootstrapAction::Abort { error: BootstrapError::EpisodeEnded });
    assert_eq!(c.phase(), Phase::Aborted);
    assert_eq!(
        c.step(0, BootstrapEvent::Started),
        BootstrapAction::Abort { error: BootstrapError::EpisodeEnded }
    );
    // the check is made before each server
    let (mut c, _) = start(10);
    assert_eq!(
        c.step(60, BootstrapEvent::TimedOut),
        BootstrapAction::Abort { error: BootstrapError::EpisodeEnded }
    );
}

#[test]
fn clock_compensation_values() {
    assert_eq!(clock_compensation(true, 100, 1000, 1010, 2000), Ok(995));
    assert_eq!(clock_compensation(true, 100, 1000, 1011, 2000), Ok(994));
    assert_eq!(clock_compensation(true, 100, 1000, 1010, 5), Ok(-1000));
    assert_eq!(clock_compensation(true, 100, 1000, 1010, 1005), Ok(0));
    assert_eq!(clock_compensation(false, 100, 1000, 1010, 2000), Ok(0));
    assert_eq!(clock_compensation(true, 10, 1000, 1010, 2000), Ok(995));
    assert_eq!(clock_compensation(true, 9, 1000, 1010, 2000), Err(BootstrapError::PingTooHigh));
    assert_eq!(clock_compensation(false, 9, 1000, 1010, 2000), Err(BootstrapError::PingTooHigh));
    // a clock that went backwards gives a round trip of zero
    assert_eq!(clock_compensation(true, 0, 1000, 900, 1000), Ok(100));
}

#[test]
fn clock_compensation_at_the_edge_of_the_range() {
    let max = i64::MAX as u64;
    assert_eq!(clock_compensation(true, 0, 0, 0, max), Ok(i64::MAX));
    assert_eq!(clock_compensation(true, 0, 0, 0, max + 1), Err(BootstrapError::ClockOverflow));
    assert_eq!(clock_compensation(true, 0, max, max, 0), Ok(-i64::MAX));
    assert_eq!(clock_compensation(true, 0, max + 1, max + 1, 0), Err(BootstrapError::ClockOverflow));
    assert_eq!(clock_compensation(true, 0, 5, 5, max + 5), Ok(i64::MAX));
    assert_eq!(clock_compensation(true, 0, 5, 5, max + 6), Err(BootstrapError::ClockOverflow));
    assert_eq!(clock_compensation(false, 0, 0, 0, u64::MAX), Ok(0));
}

#[test]
fn outcomes_of_writes_and_reads() {
    let m = BootstrapServerMessage::SlotTooOld;
    assert_eq!(write_outcome(BootstrapEvent::Written), Ok(()));
    assert_eq!(write_outcome(BootstrapEvent::TimedOut), Err(BootstrapError::Timeout));
    assert_eq!(
        write_outcome(BootstrapEvent::Failed { error: BootstrapError::ConnectFailed }),
        Err(BootstrapError::ConnectFailed)
    );
    assert_eq!(
        write_outcome(BootstrapEvent::Received { message: m.clone() }),
        Err(BootstrapError::UnexpectedMessage)
    );
    assert_eq!(read_outcome(BootstrapEvent::Received { message: m.clone() }), Ok(m.clone()));
    assert_eq!(read_outcome(BootstrapEvent::TimedOut), Err(BootstrapError::Timeout));
    assert_eq!(read_outcome(BootstrapEvent::Written), Err(BootstrapError::UnexpectedMessage));
    assert_eq!(
        read_outcome(BootstrapEvent::Failed { error: BootstrapError::BadSignature }),
        Err(BootstrapError::BadSignature)
    );
    assert_eq!(send_client_message(false, BootstrapEvent::Written), Ok(None));
    assert_eq!(
        send_client_message(true, BootstrapEvent::Received { message: m.clone() }),
        Ok(Some(m))
    );
    assert_eq!(send_client_message(false, BootstrapEvent::TimedOut), Err(BootstrapError::Timeout));
    assert_eq!(
        send_client_message(true, BootstrapEvent::Written),
        Err(BootstrapError::UnexpectedMessage)
    );
}

#[test]
fn the_binder_of_a_connection_takes_its_limits_from_the_configuration() {
    let cfg = config(1);
    let b = connect_to_server(&cfg, &cfg.bootstrap_list[0].1);
    assert_eq!(b.max_bootstrap_message_size(), MAX);
    assert_eq!(b.size_field_len(), 3);
    assert!(b.prev_message().is_none());
}

#[test]
fn an_error_report_carries_the_text_of_the_error() {
    assert_eq!(
        error_report(&BootstrapError::Timeout),
        BootstrapClientMessage::BootstrapError { error: "operation timed out".to_string() }
    );
}
