//! The bootstrap client as a state machine.
//!
//! The machine decides; its caller acts. Each call of `step` takes what the
//! last action led to and the time at which that was known, and returns the
//! next action: connect, read, write, apply a chunk to the final state,
//! sleep, or stop. The resume cursor and what was gathered so far outlive
//! every connection, so a new server is asked to continue where the last one
//! stopped.

use crate::client_binder::BootstrapClientBinder;
use crate::error::BootstrapError;
use crate::messages::{
    spec_is_compatible, AsyncMessageId, BootstrapClientMessage, BootstrapServerMessage,
    ClientMessageView, Slot, StateChanges, Version,
};
use crate::random::os_shuffle;
use crate::settings::{BootstrapConfig, GlobalBootstrapState};
use crate::signature::PublicKey;
use vstd::prelude::*;

verus! {

/// A chunk of final state as of `slot`, and the changes that bring what was
/// received before up to that slot, in the order to apply them.
#[derive(Clone, Debug, PartialEq, Eq)]
pub struct FinalStatePart {
    pub ledger_data: Vec<u8>,
    pub async_pool_part: Vec<u8>,
    pub pos_cycle_part: Vec<u8>,
    pub pos_credits_part: Vec<u8>,
    pub slot: Slot,
    pub final_state_changes: Vec<(Slot, StateChanges)>,
}

/// Where each stream of the final state stands after a chunk was applied.
#[derive(Clone, Debug, PartialEq, Eq)]
pub struct AppliedCursor {
    pub last_key: Option<Vec<u8>>,
    pub last_async_message_id: Option<AsyncMessageId>,
    pub last_cycle: Option<u64>,
    pub last_credits_slot: Option<Slot>,
}

/// What the last action led to.
#[derive(Clone, Debug, PartialEq, Eq)]
pub enum BootstrapEvent {
    /// Nothing was asked for yet.
    Started,
    /// The connection is open.
    Connected,
    /// The bytes were written in full.
    Written,
    /// A message was read and accepted by the binder.
    Received { message: BootstrapServerMessage },
    /// The chunk was applied to the final state.
    Applied { cursor: AppliedCursor },
    /// The chunk could not be applied to the final state.
    ApplyFailed,
    /// The error report was sent, or sending it was given up.
    Echoed,
    /// The pause is over.
    Slept,
    /// The action did not complete within its time.
    TimedOut,
    /// The action failed.
    Failed { error: BootstrapError },
}

/// What the caller is to do next.
#[derive(Clone, Debug, PartialEq, Eq)]
pub enum BootstrapAction {
    /// Open a connection to the server at this index of the bootstrap list.
    Connect { server: usize, timeout: u64 },
    /// Read the next message.
    Read { timeout: u64 },
    /// Write the handshake of this version.
    Handshake { version: Version, timeout: u64 },
    /// Send the message that the machine holds as the next one.
    SendNext { timeout: u64 },
    /// Apply the chunk to the final state, then report the new cursor. No
    /// network action stands between this one and its event.
    Apply { part: FinalStatePart },
    /// Report this error to the server, ignoring whether that succeeds, and
    /// close the connection.
    Echo { error: BootstrapError, timeout: u64 },
    /// Close the connection, if any, and pause.
    Sleep { duration: u64 },
    /// The bootstrap is complete.
    Finish,
    /// The bootstrap cannot go on.
    Abort { error: BootstrapError },
}

/// Where the machine stands: which event it waits for.
#[derive(Clone, Copy, Debug, PartialEq, Eq)]
pub enum Phase {
    /// Between two attempts.
    Idle,
    /// A connection is being opened.
    Connecting,
    /// The error that a full server sends at once is being waited for.
    Probing,
    /// The handshake is being written.
    Handshaking,
    /// The server's time and version are being waited for.
    AwaitingTime,
    /// A request is being written.
    Sending,
    /// The reply to the request is being waited for.
    Awaiting,
    /// A chunk as of `slot` is being applied.
    Applying { slot: Slot },
    /// The closing message is being written.
    SendingSuccess,
    /// An error is being reported to the server.
    Echoing,
    /// The pause after a round over all servers.
    Sleeping,
    /// The bootstrap is complete.
    Done,
    /// The episode has ended.
    Aborted,
}

/// The request for final state with an empty resume cursor.
pub open spec fn spec_fresh_ask() -> BootstrapClientMessage {
    BootstrapClientMessage::AskFinalStatePart {
        last_key: None,
        slot: None,
        last_async_message_id: None,
        last_cycle: None,
        last_credits_slot: None,
    }
}

/// The round trip between sending at `send_time` and receiving at `recv_time`.
pub open spec fn spec_ping(send_time: u64, recv_time: u64) -> nat {
    if recv_time >= send_time {
        (recv_time - send_time) as nat
    } else {
        0
    }
}

/// The server's clock minus the local clock at the middle of the round trip.
pub open spec fn spec_clock_offset(send_time: u64, recv_time: u64, server_time: u64) -> int {
    server_time - (recv_time - spec_ping(send_time, recv_time) / 2)
}

/// The clock compensation of a session, or why the session ends.
pub open spec fn spec_clock_compensation(
    enable: bool,
    max_ping: u64,
    send_time: u64,
    recv_time: u64,
    server_time: u64,
) -> Result<i64, BootstrapError> {
    let offset = spec_clock_offset(send_time, recv_time, server_time);
    if spec_ping(send_time, recv_time) > max_ping {
        Err(BootstrapError::PingTooHigh)
    } else if !enable {
        Ok(0i64)
    } else if -(i64::MAX as int) <= offset <= i64::MAX as int {
        Ok(offset as i64)
    } else {
        Err(BootstrapError::ClockOverflow)
    }
}

/// With synchronization enabled and a round trip within the limit, an offset
/// of exactly `i64::MAX` milliseconds is the compensation, and one more is an
/// overflow.
pub proof fn lemma_clock_compensation_boundary(
    max_ping: u64,
    send_time: u64,
    recv_time: u64,
    server_time: u64,
)
    requires
        spec_ping(send_time, recv_time) <= max_ping,
    ensures
        spec_clock_offset(send_time, recv_time, server_time) == i64::MAX ==> spec_clock_compensation(
            true,
            max_ping,
            send_time,
            recv_time,
            server_time,
        ) == Ok::<i64, BootstrapError>(i64::MAX),
        spec_clock_offset(send_time, recv_time, server_time) == i64::MAX + 1
            ==> spec_clock_compensation(true, max_ping, send_time, recv_time, server_time) == Err::<
            i64,
            BootstrapError,
        >(BootstrapError::ClockOverflow),
{
}

/// What the outcome of a write means for the session.
pub open spec fn spec_write_outcome(event: BootstrapEvent) -> Result<(), BootstrapError> {
    match event {
        BootstrapEvent::Written => Ok(()),
        BootstrapEvent::TimedOut => Err(BootstrapError::Timeout),
        BootstrapEvent::Failed { error } => Err(error),
        _ => Err(BootstrapError::UnexpectedMessage),
    }
}

/// What the outcome of a read means for the session.
pub open spec fn spec_read_outcome(event: BootstrapEvent) -> Result<
    BootstrapServerMessage,
    BootstrapError,
> {
    match event {
        BootstrapEvent::Received { message } => Ok(message),
        BootstrapEvent::TimedOut => Err(BootstrapError::Timeout),
        BootstrapEvent::Failed { error } => Err(error),
        _ => Err(BootstrapError::UnexpectedMessage),
    }
}

/// The indices `0 .. n` in order.
pub open spec fn identity_order(n: nat) -> Seq<usize> {
    Seq::new(n, |i: int| i as usize)
}

/// Whether `order` holds each of the indices `0 .. n` exactly once.
pub open spec fn is_permutation(order: Seq<usize>, n: nat) -> bool {
    order.to_multiset() == identity_order(n).to_multiset()
}

/// A permutation of `0 .. n` has `n` items, each below `n`.
pub proof fn lemma_permutation_in_range(order: Seq<usize>, n: nat)
    requires
        is_permutation(order, n),
    ensures
        order.len() == n,
        forall|i: int| 0 <= i < order.len() ==> #[trigger] order[i] < n,
{
    let id = identity_order(n);
    order.to_multiset_ensures();
    id.to_multiset_ensures();
    assert forall|i: int| 0 <= i < order.len() implies #[trigger] order[i] < n by {
        assert(order.contains(order[i]));
        assert(id.to_multiset().count(order[i]) > 0);
        assert(id.contains(order[i]));
        let j = choose|j: int| 0 <= j < id.len() && id[j] == order[i];
        assert(id[j] == j as usize);
        if n <= usize::MAX {
            assert(j as usize == j);
        }
    }
}

/// The whole state of a bootstrap.
pub struct BootstrapState {
    pub config: BootstrapConfig,
    pub our_version: Version,
    pub end_timestamp: Option<u64>,
    /// The servers of the bootstrap list, in the order of this round.
    pub order: Seq<usize>,
    /// Which item of `order` is being tried.
    pub position: nat,
    /// The message to send next; while final state streams, the resume cursor.
    pub next_bootstrap_message: BootstrapClientMessage,
    pub global_bootstrap_state: GlobalBootstrapState,
    pub phase: Phase,
    /// When the handshake of this session was started.
    pub send_time: u64,
}

impl BootstrapState {
    /// What holds of every state that a bootstrap reaches.
    pub open spec fn consistent(self) -> bool {
        &&& self.config.bootstrap_list@.len() > 0
        &&& is_permutation(self.order, self.config.bootstrap_list@.len())
        &&& self.position < self.order.len()
        &&& !(self.next_bootstrap_message is BootstrapError)
        &&& (self.phase is Done || self.phase is SendingSuccess) ==> {
            &&& self.global_bootstrap_state.peers is Some
            &&& self.global_bootstrap_state.graph is Some
        }
    }

    /// The server that is being tried, as an index into the bootstrap list.
    pub open spec fn current_server(self) -> usize {
        self.order[self.position as int]
    }

    /// Whether the episode ended before `now`.
    pub open spec fn episode_over(self, now: u64) -> bool {
        self.end_timestamp matches Some(end) && now > end
    }

    /// Turns to the current server, unless the episode has ended.
    pub open spec fn start_attempt(self, now: u64) -> (BootstrapState, BootstrapAction) {
        if self.episode_over(now) {
            (
                BootstrapState { phase: Phase::Aborted, ..self },
                BootstrapAction::Abort { error: BootstrapError::EpisodeEnded },
            )
        } else {
            (
                BootstrapState { phase: Phase::Connecting, ..self },
                BootstrapAction::Connect {
                    server: self.current_server(),
                    timeout: self.config.connect_timeout,
                },
            )
        }
    }

    /// Gives up the current server: turns to the next one of this round, or,
    /// after the last, pauses before a round in the order `fresh`.
    pub open spec fn advance(self, now: u64, fresh: Seq<usize>) -> (
        BootstrapState,
        BootstrapAction,
    ) {
        if self.position + 1 < self.order.len() {
            BootstrapState { position: self.position + 1, ..self }.start_attempt(now)
        } else {
            (
                BootstrapState { position: 0, order: fresh, phase: Phase::Sleeping, ..self },
                BootstrapAction::Sleep { duration: self.config.retry_delay },
            )
        }
    }

    /// Ends the session with `error`: a refusal of the server is not answered,
    /// any other error is reported to the server before the connection closes.
    pub open spec fn fail(self, error: BootstrapError, now: u64, fresh: Seq<usize>) -> (
        BootstrapState,
        BootstrapAction,
    ) {
        if error is ServerRefused {
            self.advance(now, fresh)
        } else {
            (
                BootstrapState { phase: Phase::Echoing, ..self },
                BootstrapAction::Echo { error, timeout: self.config.write_error_timeout },
            )
        }
    }

    /// Sends the next message. Before the closing message goes out, a missing
    /// consensus graph or peer list is asked for instead.
    pub open spec fn dispatch(self) -> (BootstrapState, BootstrapAction) {
        let send = BootstrapAction::SendNext { timeout: self.config.write_timeout };
        if self.next_bootstrap_message is BootstrapSuccess {
            if self.global_bootstrap_state.graph is None {
                (
                    BootstrapState {
                        next_bootstrap_message: BootstrapClientMessage::AskConsensusState,
                        phase: Phase::Sending,
                        ..self
                    },
                    send,
                )
            } else if self.global_bootstrap_state.peers is None {
                (
                    BootstrapState {
                        next_bootstrap_message: BootstrapClientMessage::AskBootstrapPeers,
                        phase: Phase::Sending,
                        ..self
                    },
                    send,
                )
            } else {
                (BootstrapState { phase: Phase::SendingSuccess, ..self }, send)
            }
        } else {
            (BootstrapState { phase: Phase::Sending, ..self }, send)
        }
    }

    /// Takes the server's time and version: checks the version and the round
    /// trip, stores the clock compensation and sends the first request.
    pub open spec fn on_time(self, message: BootstrapServerMessage, now: u64, fresh: Seq<usize>) -> (
        BootstrapState,
        BootstrapAction,
    ) {
        match message {
            BootstrapServerMessage::BootstrapTime { server_time, version } => {
                if !spec_is_compatible(self.our_version, version) {
                    self.fail(BootstrapError::IncompatibleVersion, now, fresh)
                } else {
                    match spec_clock_compensation(
                        self.config.enable_clock_synchronization,
                        self.config.max_ping,
                        self.send_time,
                        now,
                        server_time,
                    ) {
                        Ok(compensation_millis) => BootstrapState {
                            global_bootstrap_state: GlobalBootstrapState {
                                compensation_millis,
                                ..self.global_bootstrap_state
                            },
                            ..self
                        }.dispatch(),
                        Err(error) => self.fail(error, now, fresh),
                    }
                }
            },
            BootstrapServerMessage::BootstrapError { error } => self.fail(
                BootstrapError::ServerRefused(error),
                now,
                fresh,
            ),
            _ => self.fail(BootstrapError::UnexpectedMessage, now, fresh),
        }
    }

    /// Takes a reply while final state streams.
    pub open spec fn stream_final_state(
        self,
        message: BootstrapServerMessage,
        now: u64,
        fresh: Seq<usize>,
    ) -> (BootstrapState, BootstrapAction) {
        match message {
            BootstrapServerMessage::FinalStatePart {
                ledger_data,
                async_pool_part,
                pos_cycle_part,
                pos_credits_part,
                slot,
                final_state_changes,
            } => (
                BootstrapState { phase: Phase::Applying { slot }, ..self },
                BootstrapAction::Apply {
                    part: FinalStatePart {
                        ledger_data,
                        async_pool_part,
                        pos_cycle_part,
                        pos_credits_part,
                        slot,
                        final_state_changes,
                    },
                },
            ),
            BootstrapServerMessage::FinalStateFinished => BootstrapState {
                next_bootstrap_message: BootstrapClientMessage::AskBootstrapPeers,
                ..self
            }.dispatch(),
            BootstrapServerMessage::SlotTooOld => BootstrapState {
                next_bootstrap_message: spec_fresh_ask(),
                ..self
            }.dispatch(),
            _ => self.fail(BootstrapError::UnexpectedMessage, now, fresh),
        }
    }

    /// Takes the reply to the request that was sent.
    pub open spec fn on_reply(self, message: BootstrapServerMessage, now: u64, fresh: Seq<usize>) -> (
        BootstrapState,
        BootstrapAction,
    ) {
        match self.next_bootstrap_message {
            BootstrapClientMessage::AskFinalStatePart { .. } => self.stream_final_state(
                message,
                now,
                fresh,
            ),
            BootstrapClientMessage::AskBootstrapPeers => match message {
                BootstrapServerMessage::BootstrapPeers { peers } => BootstrapState {
                    global_bootstrap_state: GlobalBootstrapState {
                        peers: Some(peers),
                        ..self.global_bootstrap_state
                    },
                    next_bootstrap_message: BootstrapClientMessage::AskConsensusState,
                    ..self
                }.dispatch(),
                BootstrapServerMessage::BootstrapError { error } => self.fail(
                    BootstrapError::ServerRefused(error),
                    now,
                    fresh,
                ),
                _ => self.fail(BootstrapError::UnexpectedMessage, now, fresh),
            },
            BootstrapClientMessage::AskConsensusState => match message {
                BootstrapServerMessage::ConsensusState { graph } => BootstrapState {
                    global_bootstrap_state: GlobalBootstrapState {
                        graph: Some(graph),
                        ..self.global_bootstrap_state
                    },
                    next_bootstrap_message: BootstrapClientMessage::BootstrapSuccess,
                    ..self
                }.dispatch(),
                BootstrapServerMessage::BootstrapError { error } => self.fail(
                    BootstrapError::ServerRefused(error),
                    now,
                    fresh,
                ),
                _ => self.fail(BootstrapError::UnexpectedMessage, now, fresh),
            },
            _ => self.fail(BootstrapError::UnexpectedMessage, now, fresh),
        }
    }

    /// Takes the outcome of the read that looks for an early refusal: silence
    /// is what a server with free slots gives, and starts the handshake.
    pub open spec fn on_probe(self, event: BootstrapEvent, now: u64, fresh: Seq<usize>) -> (
        BootstrapState,
        BootstrapAction,
    ) {
        match event {
            BootstrapEvent::TimedOut => (
                BootstrapState { phase: Phase::Handshaking, send_time: now, ..self },
                BootstrapAction::Handshake {
                    version: self.our_version,
                    timeout: self.config.write_timeout,
                },
            ),
            BootstrapEvent::Received {
                message: BootstrapServerMessage::BootstrapError { error },
            } => self.fail(BootstrapError::ServerRefused(error), now, fresh),
            BootstrapEvent::Failed { error } => self.fail(error, now, fresh),
            _ => self.fail(BootstrapError::UnexpectedMessage, now, fresh),
        }
    }

    /// Takes the new cursor after a chunk as of `slot` was applied.
    pub open spec fn on_applied(self, slot: Slot, event: BootstrapEvent, now: u64, fresh: Seq<usize>) -> (
        BootstrapState,
        BootstrapAction,
    ) {
        match event {
            BootstrapEvent::Applied { cursor } => (
                BootstrapState {
                    next_bootstrap_message: BootstrapClientMessage::AskFinalStatePart {
                        last_key: cursor.last_key,
                        slot: Some(slot),
                        last_async_message_id: cursor.last_async_message_id,
                        last_cycle: cursor.last_cycle,
                        last_credits_slot: cursor.last_credits_slot,
                    },
                    phase: Phase::Awaiting,
                    ..self
                },
                BootstrapAction::Read { timeout: self.config.read_timeout },
            ),
            BootstrapEvent::ApplyFailed => self.fail(BootstrapError::BadFrame, now, fresh),
            _ => self.fail(BootstrapError::UnexpectedMessage, now, fresh),
        }
    }

    /// The state after `event`, known at `now`, and the action to take. Where
    /// a new round starts, its order is `fresh`.
    pub open spec fn step(self, now: u64, event: BootstrapEvent, fresh: Seq<usize>) -> (
        BootstrapState,
        BootstrapAction,
    ) {
        match self.phase {
            Phase::Idle => self.start_attempt(now),
            Phase::Sleeping => self.start_attempt(now),
            Phase::Echoing => self.advance(now, fresh),
            Phase::Connecting => if event is Connected {
                (
                    BootstrapState { phase: Phase::Probing, ..self },
                    BootstrapAction::Read { timeout: self.config.read_error_timeout },
                )
            } else {
                self.advance(now, fresh)
            },
            Phase::Probing => self.on_probe(event, now, fresh),
            Phase::Handshaking => match spec_write_outcome(event) {
                Ok(_) => (
                    BootstrapState { phase: Phase::AwaitingTime, ..self },
                    BootstrapAction::Read { timeout: self.config.read_timeout },
                ),
                Err(error) => self.fail(error, now, fresh),
            },
            Phase::AwaitingTime => match spec_read_outcome(event) {
                Ok(message) => self.on_time(message, now, fresh),
                Err(error) => self.fail(error, now, fresh),
            },
            Phase::Sending => match spec_write_outcome(event) {
                Ok(_) => (
                    BootstrapState { phase: Phase::Awaiting, ..self },
                    BootstrapAction::Read { timeout: self.config.read_timeout },
                ),
                Err(error) => self.fail(error, now, fresh),
            },
            Phase::Awaiting => match spec_read_outcome(event) {
                Ok(message) => self.on_reply(message, now, fresh),
                Err(error) => self.fail(error, now, fresh),
            },
            Phase::Applying { slot } => self.on_applied(slot, event, now, fresh),
            Phase::SendingSuccess => match spec_write_outcome(event) {
                Ok(_) => (BootstrapState { phase: Phase::Done, ..self }, BootstrapAction::Finish),
                Err(error) => self.fail(error, now, fresh),
            },
            Phase::Done => (self, BootstrapAction::Finish),
            Phase::Aborted => (
                self,
                BootstrapAction::Abort { error: BootstrapError::EpisodeEnded },
            ),
        }
    }
}

/// Every step keeps the state consistent: the order of a round names each server
/// once, the next message is never an error report, and the bootstrap is
/// complete only with a peer list and a consensus graph.
pub proof fn lemma_step_keeps_consistency(
    pre: BootstrapState,
    now: u64,
    event: BootstrapEvent,
    fresh: Seq<usize>,
)
    requires
        pre.consistent(),
        is_permutation(fresh, pre.config.bootstrap_list@.len()),
    ensures
        pre.step(now, event, fresh).0.consistent(),
        pre.step(now, event, fresh).0.phase is Done ==> {
            &&& pre.step(now, event, fresh).0.global_bootstrap_state.peers is Some
            &&& pre.step(now, event, fresh).0.global_bootstrap_state.graph is Some
        },
        pre.step(now, event, fresh).1 is Finish <==> pre.step(now, event, fresh).0.phase is Done,
{
    let n = pre.config.bootstrap_list@.len();
    fresh.to_multiset_ensures();
    identity_order(n).to_multiset_ensures();
}

/// When the server answers a request for final state with `SlotTooOld`, the
/// next message is the request with an empty resume cursor, and it is sent.
pub proof fn lemma_slot_too_old_resets_cursor(pre: BootstrapState, now: u64, fresh: Seq<usize>)
    requires
        pre.phase is Awaiting,
        pre.next_bootstrap_message is AskFinalStatePart,
    ensures
        pre.step(
            now,
            BootstrapEvent::Received { message: BootstrapServerMessage::SlotTooOld },
            fresh,
        ).0.next_bootstrap_message == spec_fresh_ask(),
        pre.step(
            now,
            BootstrapEvent::Received { message: BootstrapServerMessage::SlotTooOld },
            fresh,
        ).1 == (BootstrapAction::SendNext { timeout: pre.config.write_timeout }),
{
}

/// After a chunk as of `slot` was applied, the next message asks for what
/// follows the positions that the store reported, as of that slot.
pub proof fn lemma_applied_chunk_moves_cursor(
    pre: BootstrapState,
    slot: Slot,
    cursor: AppliedCursor,
    now: u64,
    fresh: Seq<usize>,
)
    requires
        pre.phase == (Phase::Applying { slot }),
    ensures
        pre.step(now, BootstrapEvent::Applied { cursor }, fresh).0.next_bootstrap_message == (
        BootstrapClientMessage::AskFinalStatePart {
            last_key: cursor.last_key,
            slot: Some(slot),
            last_async_message_id: cursor.last_async_message_id,
            last_cycle: cursor.last_cycle,
            last_credits_slot: cursor.last_credits_slot,
        }),
{
}

/// A session that ends in failure leaves the resume cursor and what was
/// gathered as they were.
pub proof fn lemma_failure_keeps_progress(
    pre: BootstrapState,
    error: BootstrapError,
    now: u64,
    fresh: Seq<usize>,
)
    ensures
        pre.fail(error, now, fresh).0.next_bootstrap_message == pre.next_bootstrap_message,
        pre.fail(error, now, fresh).0.global_bootstrap_state == pre.global_bootstrap_state,
{
}

/// The clock compensation of a session whose handshake started at
/// `send_time`, whose `BootstrapTime` arrived at `recv_time` and carried
/// `server_time`.
///
/// Fails with `PingTooHigh` when the round trip exceeds `max_ping`. With
/// synchronization enabled the compensation is the server's time minus the
/// local time at the middle of the round trip, and the call fails with
/// `ClockOverflow` when its magnitude exceeds `i64::MAX`; without, it is 0.
pub fn clock_compensation(
    enable_clock_synchronization: bool,
    max_ping: u64,
    send_time: u64,
    recv_time: u64,
    server_time: u64,
) -> (res: Result<i64, BootstrapError>)
    ensures
        res == spec_clock_compensation(
            enable_clock_synchronization,
            max_ping,
            send_time,
            recv_time,
            server_time,
        ),
{
    let ping: u64 = recv_time.saturating_sub(send_time);
    if ping > max_ping {
        return Err(BootstrapError::PingTooHigh);
    }
    if !enable_clock_synchronization {
        return Ok(0);
    }
    let local_mid: u64 = recv_time - ping / 2;
    if server_time >= local_mid {
        let ahead: u64 = server_time - local_mid;
        if ahead > i64::MAX as u64 {
            Err(BootstrapError::ClockOverflow)
        } else {
            Ok(ahead as i64)
        }
    } else {
        let behind: u64 = local_mid - server_time;
        if behind > i64::MAX as u64 {
            Err(BootstrapError::ClockOverflow)
        } else {
            Ok(-(behind as i64))
        }
    }
}

/// What the outcome of a write means for the session.
pub fn write_outcome(event: BootstrapEvent) -> (res: Result<(), BootstrapError>)
    ensures
        res == spec_write_outcome(event),
{
    match event {
        BootstrapEvent::Written => Ok(()),
        BootstrapEvent::TimedOut => Err(BootstrapError::Timeout),
        BootstrapEvent::Failed { error } => Err(error),
        _ => Err(BootstrapError::UnexpectedMessage),
    }
}

/// What the outcome of a read means for the session.
pub fn read_outcome(event: BootstrapEvent) -> (res: Result<BootstrapServerMessage, BootstrapError>)
    ensures
        res == spec_read_outcome(event),
{
    match event {
        BootstrapEvent::Received { message } => Ok(message),
        BootstrapEvent::TimedOut => Err(BootstrapError::Timeout),
        BootstrapEvent::Failed { error } => Err(error),
        _ => Err(BootstrapError::UnexpectedMessage),
    }
}

/// One exchange of a request and its reply, seen from the event that ends
/// the write (`sent` is false) or the read (`sent` is true): `Ok(None)` when
/// the request is out and the reply is to be read, `Ok(Some(reply))` when the
/// reply is in, and otherwise the error that ends the session.
pub fn send_client_message(sent: bool, event: BootstrapEvent) -> (res: Result<
    Option<BootstrapServerMessage>,
    BootstrapError,
>)
    ensures
        !sent ==> res == match spec_write_outcome(event) {
            Ok(_) => Ok::<Option<BootstrapServerMessage>, BootstrapError>(None),
            Err(error) => Err(error),
        },
        sent ==> res == match spec_read_outcome(event) {
            Ok(message) => Ok::<Option<BootstrapServerMessage>, BootstrapError>(Some(message)),
            Err(error) => Err(error),
        },
{
    if sent {
        match read_outcome(event) {
            Ok(message) => Ok(Some(message)),
            Err(error) => Err(error),
        }
    } else {
        match write_outcome(event) {
            Ok(_) => Ok(None),
            Err(error) => Err(error),
        }
    }
}

/// The binder for a connection that was opened to the server that signs
/// under `pub_key`.
pub fn connect_to_server(bootstrap_config: &BootstrapConfig, pub_key: &PublicKey) -> (binder:
    BootstrapClientBinder)
    ensures
        binder.max_size() == bootstrap_config.max_bootstrap_message_size,
        binder.key() == pub_key@,
        binder.caps() == bootstrap_config.message_caps,
        binder.prev_hash() is None,
{
    BootstrapClientBinder::new(
        *pub_key,
        bootstrap_config.max_bootstrap_message_size,
        bootstrap_config.message_caps,
    )
}

/// The message that reports `error` to the server.
pub fn error_report(error: &BootstrapError) -> (message: BootstrapClientMessage)
    ensures
        message@ == (ClientMessageView::BootstrapError { error: error.spec_text() }),
{
    BootstrapClientMessage::BootstrapError { error: error.to_text() }
}

/// A bootstrap in progress: the servers and their order, the resume cursor,
/// what was gathered, and the event that is waited for.
#[derive(Debug)]
pub struct BootstrapClient {
    config: BootstrapConfig,
    our_version: Version,
    end_timestamp: Option<u64>,
    order: Vec<usize>,
    position: usize,
    next_bootstrap_message: BootstrapClientMessage,
    global_bootstrap_state: GlobalBootstrapState,
    phase: Phase,
    send_time: u64,
}

impl View for BootstrapClient {
    type V = BootstrapState;

    closed spec fn view(&self) -> BootstrapState {
        BootstrapState {
            config: self.config,
            our_version: self.our_version,
            end_timestamp: self.end_timestamp,
            order: self.order@,
            position: self.position as nat,
            next_bootstrap_message: self.next_bootstrap_message,
            global_bootstrap_state: self.global_bootstrap_state,
            phase: self.phase,
            send_time: self.send_time,
        }
    }
}

/// The state in which a bootstrap from servers starts.
pub open spec fn initial_state(
    config: BootstrapConfig,
    our_version: Version,
    end_timestamp: Option<u64>,
    order: Seq<usize>,
) -> BootstrapState {
    BootstrapState {
        config,
        our_version,
        end_timestamp,
        order,
        position: 0,
        next_bootstrap_message: spec_fresh_ask(),
        global_bootstrap_state: GlobalBootstrapState {
            peers: None,
            graph: None,
            compensation_millis: 0,
        },
        phase: Phase::Idle,
        send_time: 0,
    }
}

impl BootstrapClient {
    #[verifier::type_invariant]
    spec fn well_formed(self) -> bool {
        self@.consistent()
    }

    /// A client that tries the servers in the order of the list.
    ///
    /// Fails with `NoServers` exactly when the list is empty.
    pub fn new(config: BootstrapConfig, our_version: Version, end_timestamp: Option<u64>) -> (res:
        Result<BootstrapClient, BootstrapError>)
        ensures
            match res {
                Ok(client) => {
                    &&& config.bootstrap_list@.len() > 0
                    &&& client@ == initial_state(
                        config,
                        our_version,
                        end_timestamp,
                        identity_order(config.bootstrap_list@.len()),
                    )
                    &&& client@.consistent()
                },
                Err(e) => e == BootstrapError::NoServers && config.bootstrap_list@.len() == 0,
            },
    {
        let n: usize = config.bootstrap_list.len();
        if n == 0 {
            return Err(BootstrapError::NoServers);
        }
        let mut order: Vec<usize> = Vec::new();
        let mut i: usize = 0;
        while i < n
            invariant
                i <= n,
                order@ == identity_order(i as nat),
            decreases n - i,
        {
            order.push(i);
            i = i + 1;
            assert(order@ =~= identity_order(i as nat));
        }
        Ok(
            BootstrapClient {
                config,
                our_version,
                end_timestamp,
                order,
                position: 0,
                next_bootstrap_message: BootstrapClientMessage::fresh_ask(),
                global_bootstrap_state: GlobalBootstrapState::new(),
                phase: Phase::Idle,
                send_time: 0,
            },
        )
    }

    /// Puts the servers of the round in a random order. Where the system
    /// gives no seed, the order stays as it is.
    pub fn shuffle(&mut self)
        ensures
            final(self)@ == (BootstrapState { order: final(self)@.order, ..old(self)@ }),
            final(self)@.consistent(),
    {
        proof {
            use_type_invariant(&*self);
        }
        let shuffled = os_shuffle(self.copy_order());
        proof {
            shuffled@.to_multiset_ensures();
            self.order@.to_multiset_ensures();
        }
        self.order = shuffled;
    }

    /// The order of the round, copied.
    fn copy_order(&self) -> (order: Vec<usize>)
        ensures
            order@ == self@.order,
    {
        let mut order: Vec<usize> = Vec::new();
        let mut i: usize = 0;
        while i < self.order.len()
            invariant
                i <= self.order@.len(),
                order@ == self.order@.take(i as int),
            decreases self.order@.len() - i,
        {
            order.push(self.order[i]);
            i = i + 1;
            assert(order@ =~= self.order@.take(i as int));
        }
        assert(self.order@.take(i as int) =~= self.order@);
        order
    }

    /// The configuration.
    pub fn config(&self) -> (config: &BootstrapConfig)
        ensures
            *config == self@.config,
    {
        &self.config
    }

    /// The message to send next; while final state streams, the resume cursor.
    pub fn next_bootstrap_message(&self) -> (message: &BootstrapClientMessage)
        ensures
            *message == self@.next_bootstrap_message,
            !(message is BootstrapError),
    {
        proof {
            use_type_invariant(self);
        }
        &self.next_bootstrap_message
    }

    /// What was gathered so far.
    pub fn global_bootstrap_state(&self) -> (state: &GlobalBootstrapState)
        ensures
            *state == self@.global_bootstrap_state,
            self@.phase is Done ==> state.peers is Some && state.graph is Some,
    {
        proof {
            use_type_invariant(self);
        }
        &self.global_bootstrap_state
    }

    /// Gives up the client for what was gathered.
    pub fn into_global_bootstrap_state(self) -> (state: GlobalBootstrapState)
        ensures
            state == self@.global_bootstrap_state,
            self@.phase is Done ==> state.peers is Some && state.graph is Some,
    {
        proof {
            use_type_invariant(&self);
        }
        self.global_bootstrap_state
    }

    /// Which event is waited for.
    pub fn phase(&self) -> (phase: Phase)
        ensures
            phase == self@.phase,
    {
        self.phase
    }

    /// The server that is being tried, as an index into the bootstrap list.
    pub fn current_server(&self) -> (server: usize)
        ensures
            server == self@.current_server(),
            server < self@.config.bootstrap_list@.len(),
    {
        proof {
            use_type_invariant(self);
            lemma_permutation_in_range(self.order@, self.config.bootstrap_list@.len());
        }
        self.order[self.position]
    }

    fn start_attempt(&mut self, now: u64) -> (action: BootstrapAction)
        ensures
            (final(self)@, action) == old(self)@.start_attempt(now),
    {
        proof {
            use_type_invariant(&*self);
        }
        let over = match self.end_timestamp {
            Some(end) => now > end,
            None => false,
        };
        if over {
            self.phase = Phase::Aborted;
            BootstrapAction::Abort { error: BootstrapError::EpisodeEnded }
        } else {
            let server: usize = self.current_server();
            self.phase = Phase::Connecting;
            BootstrapAction::Connect { server, timeout: self.config.connect_timeout }
        }
    }

    fn advance(&mut self, now: u64) -> (action: BootstrapAction)
        requires
            !(old(self)@.phase is Done),
        ensures
            (final(self)@, action) == old(self)@.advance(now, final(self)@.order),
    {
        proof {
            use_type_invariant(&*self);
        }
        let n: usize = self.order.len();
        if self.position + 1 < n {
            self.phase = Phase::Idle;
            self.position = self.position + 1;
            self.start_attempt(now)
        } else {
            let shuffled = os_shuffle(self.copy_order());
            proof {
                shuffled@.to_multiset_ensures();
                self.order@.to_multiset_ensures();
            }
            self.phase = Phase::Sleeping;
            self.position = 0;
            self.order = shuffled;
            BootstrapAction::Sleep { duration: self.config.retry_delay }
        }
    }

    fn fail(&mut self, error: BootstrapError, now: u64) -> (action: BootstrapAction)
        requires
            !(old(self)@.phase is Done),
        ensures
            (final(self)@, action) == old(self)@.fail(error, now, final(self)@.order),
    {
        proof {
            use_type_invariant(&*self);
        }
        if let BootstrapError::ServerRefused(_) = &error {
            self.advance(now)
        } else {
            self.phase = Phase::Echoing;
            BootstrapAction::Echo { error, timeout: self.config.write_error_timeout }
        }
    }

    fn dispatch(&mut self) -> (action: BootstrapAction)
        requires
            !(old(self)@.phase is Done),
        ensures
            (final(self)@, action) == old(self)@.dispatch(),
    {
        proof {
            use_type_invariant(&*self);
        }
        if let BootstrapClientMessage::BootstrapSuccess = &self.next_bootstrap_message {
            if self.global_bootstrap_state.graph.is_none() {
                self.phase = Phase::Sending;
                self.next_bootstrap_message = BootstrapClientMessage::AskConsensusState;
            } else if self.global_bootstrap_state.peers.is_none() {
                self.phase = Phase::Sending;
                self.next_bootstrap_message = BootstrapClientMessage::AskBootstrapPeers;
            } else {
                self.phase = Phase::SendingSuccess;
            }
        } else {
            self.phase = Phase::Sending;
        }
        BootstrapAction::SendNext { timeout: self.config.write_timeout }
    }

    fn on_time(&mut self, message: BootstrapServerMessage, now: u64) -> (action: BootstrapAction)
        requires
            !(old(self)@.phase is Done),
        ensures
            (final(self)@, action) == old(self)@.on_time(message, now, final(self)@.order),
    {
        proof {
            use_type_invariant(&*self);
        }
        match message {
            BootstrapServerMessage::BootstrapTime { server_time, version } => {
                if !self.our_version.is_compatible(&version) {
                    return self.fail(BootstrapError::IncompatibleVersion, now);
                }
                match clock_compensation(
                    self.config.enable_clock_synchronization,
                    self.config.max_ping,
                    self.send_time,
                    now,
                    server_time,
                ) {
                    Ok(compensation_millis) => {
                        self.phase = Phase::Idle;
                        self.global_bootstrap_state.compensation_millis = compensation_millis;
                        self.dispatch()
                    },
                    Err(error) => self.fail(error, now),
                }
            },
            BootstrapServerMessage::BootstrapError { error } => self.fail(
                BootstrapError::ServerRefused(error),
                now,
            ),
            _ => self.fail(BootstrapError::UnexpectedMessage, now),
        }
    }

    /// Takes a reply while final state streams: a chunk is handed on to be
    /// applied, the end of the stream turns to the peer list, and a cursor
    /// that the server finds too old is dropped for an empty one.
    fn stream_final_state(&mut self, message: BootstrapServerMessage, now: u64) -> (action:
        BootstrapAction)
        requires
            !(old(self)@.phase is Done),
        ensures
            (final(self)@, action) == old(self)@.stream_final_state(
                message,
                now,
                final(self)@.order,
            ),
    {
        proof {
            use_type_invariant(&*self);
        }
        match message {
            BootstrapServerMessage::FinalStatePart {
                ledger_data,
                async_pool_part,
                pos_cycle_part,
                pos_credits_part,
                slot,
                final_state_changes,
            } => {
                self.phase = Phase::Applying { slot };
                BootstrapAction::Apply {
                    part: FinalStatePart {
                        ledger_data,
                        async_pool_part,
                        pos_cycle_part,
                        pos_credits_part,
                        slot,
                        final_state_changes,
                    },
                }
            },
            BootstrapServerMessage::FinalStateFinished => {
                self.phase = Phase::Idle;
                self.next_bootstrap_message = BootstrapClientMessage::AskBootstrapPeers;
                self.dispatch()
            },
            BootstrapServerMessage::SlotTooOld => {
                self.phase = Phase::Idle;
                self.next_bootstrap_message = BootstrapClientMessage::fresh_ask();
                self.dispatch()
            },
            _ => self.fail(BootstrapError::UnexpectedMessage, now),
        }
    }

    fn on_reply(&mut self, message: BootstrapServerMessage, now: u64) -> (action: BootstrapAction)
        requires
            !(old(self)@.phase is Done),
        ensures
            (final(self)@, action) == old(self)@.on_reply(message, now, final(self)@.order),
    {
        proof {
            use_type_invariant(&*self);
        }
        match &self.next_bootstrap_message {
            BootstrapClientMessage::AskFinalStatePart { .. } => self.stream_final_state(
                message,
                now,
            ),
            BootstrapClientMessage::AskBootstrapPeers => match message {
                BootstrapServerMessage::BootstrapPeers { peers } => {
                    self.phase = Phase::Idle;
                    self.global_bootstrap_state.peers = Some(peers);
                    self.next_bootstrap_message = BootstrapClientMessage::AskConsensusState;
                    self.dispatch()
                },
                BootstrapServerMessage::BootstrapError { error } => self.fail(
                    BootstrapError::ServerRefused(error),
                    now,
                ),
                _ => self.fail(BootstrapError::UnexpectedMessage, now),
            },
            BootstrapClientMessage::AskConsensusState => match message {
                BootstrapServerMessage::ConsensusState { graph } => {
                    self.phase = Phase::Idle;
                    self.global_bootstrap_state.graph = Some(graph);
                    self.next_bootstrap_message = BootstrapClientMessage::BootstrapSuccess;
                    self.dispatch()
                },
                BootstrapServerMessage::BootstrapError { error } => self.fail(
                    BootstrapError::ServerRefused(error),
                    now,
                ),
                _ => self.fail(BootstrapError::UnexpectedMessage, now),
            },
            _ => self.fail(BootstrapError::UnexpectedMessage, now),
        }
    }

    fn on_probe(&mut self, event: BootstrapEvent, now: u64) -> (action: BootstrapAction)
        requires
            !(old(self)@.phase is Done),
        ensures
            (final(self)@, action) == old(self)@.on_probe(event, now, final(self)@.order),
    {
        proof {
            use_type_invariant(&*self);
        }
        match event {
            BootstrapEvent::TimedOut => {
                self.phase = Phase::Handshaking;
                self.send_time = now;
                BootstrapAction::Handshake {
                    version: self.our_version,
                    timeout: self.config.write_timeout,
                }
            },
            BootstrapEvent::Received {
                message: BootstrapServerMessage::BootstrapError { error },
            } => self.fail(BootstrapError::ServerRefused(error), now),
            BootstrapEvent::Failed { error } => self.fail(error, now),
            _ => self.fail(BootstrapError::UnexpectedMessage, now),
        }
    }

    fn on_applied(&mut self, slot: Slot, event: BootstrapEvent, now: u64) -> (action:
        BootstrapAction)
        requires
            !(old(self)@.phase is Done),
        ensures
            (final(self)@, action) == old(self)@.on_applied(slot, event, now, final(self)@.order),
    {
        proof {
            use_type_invariant(&*self);
        }
        match event {
            BootstrapEvent::Applied { cursor } => {
                self.phase = Phase::Awaiting;
                self.next_bootstrap_message = BootstrapClientMessage::AskFinalStatePart {
                    last_key: cursor.last_key,
                    slot: Some(slot),
                    last_async_message_id: cursor.last_async_message_id,
                    last_cycle: cursor.last_cycle,
                    last_credits_slot: cursor.last_credits_slot,
                };
                BootstrapAction::Read { timeout: self.config.read_timeout }
            },
            BootstrapEvent::ApplyFailed => self.fail(BootstrapError::BadFrame, now),
            _ => self.fail(BootstrapError::UnexpectedMessage, now),
        }
    }

    /// Runs one session on an open connection, event by event: the probe for
    /// an early refusal, the handshake, the exchange of clocks and versions,
    /// then one request after the other until the closing message is out.
    fn bootstrap_from_server(&mut self, now: u64, event: BootstrapEvent) -> (action:
        BootstrapAction)
        requires
            old(self)@.phase is Probing || old(self)@.phase is Handshaking || old(self)@.phase
                is AwaitingTime || old(self)@.phase is Sending || old(self)@.phase is Awaiting
                || old(self)@.phase is Applying || old(self)@.phase is SendingSuccess,
        ensures
            (final(self)@, action) == old(self)@.step(now, event, final(self)@.order),
    {
        proof {
            use_type_invariant(&*self);
        }
        match self.phase {
            Phase::Probing => self.on_probe(event, now),
            Phase::Handshaking => match write_outcome(event) {
                Ok(_) => {
                    self.phase = Phase::AwaitingTime;
                    BootstrapAction::Read { timeout: self.config.read_timeout }
                },
                Err(error) => self.fail(error, now),
            },
            Phase::AwaitingTime => match read_outcome(event) {
                Ok(message) => self.on_time(message, now),
                Err(error) => self.fail(error, now),
            },
            Phase::Sending => match send_client_message(false, event) {
                Ok(_) => {
                    self.phase = Phase::Awaiting;
                    BootstrapAction::Read { timeout: self.config.read_timeout }
                },
                Err(error) => self.fail(error, now),
            },
            Phase::Awaiting => match send_client_message(true, event) {
                Ok(Some(message)) => self.on_reply(message, now),
                Ok(None) => self.fail(BootstrapError::UnexpectedMessage, now),
                Err(error) => self.fail(error, now),
            },
            Phase::Applying { slot } => self.on_applied(slot, event, now),
            _ => match write_outcome(event) {
                Ok(_) => {
                    self.phase = Phase::Done;
                    BootstrapAction::Finish
                },
                Err(error) => self.fail(error, now),
            },
        }
    }

    /// Takes what the last action led to, known at `now`, and returns the
    /// next action.
    ///
    /// Between attempts and after a pause, any event turns the machine to the
    /// current server, or stops it with `EpisodeEnded` when `now` is past the
    /// end of the episode. A connection that does not open is given up for
    /// the next server. On an open connection the session runs; an event
    /// that the current phase does not wait for ends it with
    /// `UnexpectedMessage`. A session that fails is reported to the server,
    /// unless the server refused, and the next server is tried with the same
    /// cursor; after the last server of a round comes a pause and a new
    /// round in a new order.
    pub fn step(&mut self, now: u64, event: BootstrapEvent) -> (action: BootstrapAction)
        ensures
            (final(self)@, action) == old(self)@.step(now, event, final(self)@.order),
            final(self)@.consistent(),
            action is Finish ==> {
                &&& final(self)@.global_bootstrap_state.peers is Some
                &&& final(self)@.global_bootstrap_state.graph is Some
            },
    {
        proof {
            use_type_invariant(&*self);
        }
        let action = match self.phase {
            Phase::Idle => self.start_attempt(now),
            Phase::Sleeping => self.start_attempt(now),
            Phase::Echoing => self.advance(now),
            Phase::Connecting => {
                if let BootstrapEvent::Connected = &event {
                    self.phase = Phase::Probing;
                    BootstrapAction::Read { timeout: self.config.read_error_timeout }
                } else {
                    self.advance(now)
                }
            },
            Phase::Done => BootstrapAction::Finish,
            Phase::Aborted => BootstrapAction::Abort { error: BootstrapError::EpisodeEnded },
            _ => self.bootstrap_from_server(now, event),
        };
        proof {
            use_type_invariant(&*self);
        }
        action
    }
}

/// How a bootstrap starts.
#[derive(Debug)]
pub enum BootstrapStart {
    /// Before genesis there is nothing to download: the caller loads the
    /// initial ledger and creates the initial cycle, and this is the result.
    FromScratch(GlobalBootstrapState),
    /// After genesis the state comes from the servers.
    FromServers(BootstrapClient),
}

/// Decides at `now` how a node gets its state.
///
/// Before `genesis_timestamp` the node starts from scratch, with no peers,
/// no graph and no clock compensation. Otherwise the call fails with
/// `NoServers` when the bootstrap list is empty, and else returns a client
/// that tries the servers in a random order, starting with an empty cursor.
pub fn get_state(
    bootstrap_config: BootstrapConfig,
    version: Version,
    now: u64,
    genesis_timestamp: u64,
    end_timestamp: Option<u64>,
) -> (res: Result<BootstrapStart, BootstrapError>)
    ensures
        match res {
            Ok(BootstrapStart::FromScratch(state)) => {
                &&& now < genesis_timestamp
                &&& state == (GlobalBootstrapState {
                    peers: None,
                    graph: None,
                    compensation_millis: 0,
                })
            },
            Ok(BootstrapStart::FromServers(client)) => {
                &&& now >= genesis_timestamp
                &&& bootstrap_config.bootstrap_list@.len() > 0
                &&& client@ == initial_state(
                    bootstrap_config,
                    version,
                    end_timestamp,
                    client@.order,
                )
                &&& client@.consistent()
            },
            Err(e) => {
                &&& now >= genesis_timestamp
                &&& bootstrap_config.bootstrap_list@.len() == 0
                &&& e == BootstrapError::NoServers
            },
        },
{
    if now < genesis_timestamp {
        return Ok(BootstrapStart::FromScratch(GlobalBootstrapState::new()));
    }
    match BootstrapClient::new(bootstrap_config, version, end_timestamp) {
        Ok(mut client) => {
            client.shuffle();
            Ok(BootstrapStart::FromServers(client))
        },
        Err(e) => Err(e),
    }
}

} // verus!
