//! The framed binder of the client side of a bootstrap connection.
//!
//! Every frame is tied to the one before it. What the client sends starts
//! with the hash it holds of the previous message, and the server signs the
//! hash of that previous hash and the body it sends. The binder computes the
//! bytes to write and checks the bytes that were read; it does not touch the
//! connection.

use crate::client_message::spec_encode_client;
use crate::codec::put_bytes;
use crate::error::BootstrapError;
use crate::fields::{enc_version, lemma_enc_version_len, put_version};
use crate::hash::{blake3_digest, HASH_SIZE_BYTES};
use crate::messages::{
    BootstrapClientMessage, BootstrapServerMessage, MessageCaps, Version, VERSION_SIZE_BYTES,
};
use crate::min_be_int::{
    be_bytes, be_bytes_min_length, be_value, from_be_bytes_min, lemma_be_bytes_len,
    lemma_be_value_of_bytes, lemma_min_width_is_minimal, min_width, put_be,
};
use crate::random::os_random_bytes;
use crate::server_message::spec_decode_server;
use crate::signature::{ed25519_accepts, PublicKey, Signature};
use vstd::prelude::*;

verus! {

/// Number of random bytes that follow the version in a handshake.
pub const BOOTSTRAP_RANDOMNESS_SIZE_BYTES: usize = 32;

/// The bytes of the previous-message hash, none before the first message.
pub open spec fn chain_prefix(prev: Option<Seq<u8>>) -> Seq<u8> {
    match prev {
        Some(hash) => hash,
        None => Seq::empty(),
    }
}

/// The hash that ties `body` to the message before it.
pub open spec fn chained_hash(prev: Option<Seq<u8>>, body: Seq<u8>) -> Seq<u8> {
    blake3_digest(chain_prefix(prev) + body)
}

/// The frame that carries `body` to the server: the previous-message hash
/// where there is one, the length of the body in the width that `max` needs,
/// and the body.
pub open spec fn client_frame(prev: Option<Seq<u8>>, body: Seq<u8>, max: u32) -> Seq<u8> {
    chain_prefix(prev) + be_bytes(body.len(), min_width(max as nat)) + body
}

/// What a server reads off a frame of the client: the hash that the client
/// sent along, where the server expects one, and the body. Nothing is read
/// where the frame is cut short, overlong, or announces more than `max`.
pub open spec fn server_reads(wire: Seq<u8>, expects_prev: bool, max: u32) -> Option<
    (Option<Seq<u8>>, Seq<u8>),
> {
    let width = min_width(max as nat) as int;
    let lead: int = if expects_prev {
        32
    } else {
        0
    };
    if wire.len() < lead + width {
        None
    } else {
        let announced = be_value(wire.subrange(lead, lead + width));
        if announced > max || wire.len() != lead + width + announced {
            None
        } else {
            Some(
                (
                    if expects_prev {
                        Some(wire.take(32))
                    } else {
                        None
                    },
                    wire.skip(lead + width),
                ),
            )
        }
    }
}

/// Why the binder turns a frame of the server away before looking into its
/// body, or `None` where it accepts the frame.
pub open spec fn frame_error(
    max: u32,
    key: Seq<u8>,
    prev: Option<Seq<u8>>,
    signature: Seq<u8>,
    length: Seq<u8>,
    body: Seq<u8>,
) -> Option<BootstrapError> {
    if length.len() != min_width(max as nat) {
        Some(BootstrapError::BadFrame)
    } else if be_value(length) > max {
        Some(BootstrapError::OversizeFrame)
    } else if body.len() != be_value(length) {
        Some(BootstrapError::BadFrame)
    } else if !ed25519_accepts(key, chained_hash(prev, body), signature) {
        Some(BootstrapError::BadSignature)
    } else {
        None
    }
}

/// A server that reads a frame made by the client finds in it the hash that
/// the client held and the body that the client sent, so the hash that it
/// computes from them is the one that the client keeps after sending.
pub proof fn lemma_server_mirrors_send(prev: Option<Seq<u8>>, body: Seq<u8>, max: u32)
    requires
        prev matches Some(hash) ==> hash.len() == HASH_SIZE_BYTES,
        body.len() <= max,
    ensures
        server_reads(client_frame(prev, body, max), prev is Some, max) == Some((prev, body)),
        server_reads(client_frame(prev, body, max), prev is Some, max) matches Some((seen, read))
            && chained_hash(seen, read) == chained_hash(prev, body),
{
    let width = min_width(max as nat);
    let wire = client_frame(prev, body, max);
    let lead: int = if prev is Some {
        32
    } else {
        0
    };
    lemma_be_bytes_len(body.len(), width);
    lemma_min_width_is_minimal(max as nat);
    lemma_be_value_of_bytes(body.len(), width);
    assert(wire.subrange(lead, lead + width) =~= be_bytes(body.len(), width));
    assert(wire.skip(lead + width) =~= body);
    if prev is Some {
        assert(wire.take(32) =~= prev->0);
    }
}

/// A length field that announces exactly the maximum is not turned away for
/// its length; one that announces one more is, as oversize.
pub proof fn lemma_length_boundary(
    max: u32,
    key: Seq<u8>,
    prev: Option<Seq<u8>>,
    signature: Seq<u8>,
    length: Seq<u8>,
    body: Seq<u8>,
)
    requires
        length.len() == min_width(max as nat),
    ensures
        be_value(length) == max ==> frame_error(max, key, prev, signature, length, body)
            != Some(BootstrapError::OversizeFrame),
        be_value(length) == max + 1 ==> frame_error(max, key, prev, signature, length, body)
            == Some(BootstrapError::OversizeFrame),
        frame_error(max, key, prev, signature, length, body) is None ==> be_value(length) <= max,
{
}

/// The client's end of the framing: the limits of the connection, the key
/// of the server and the hash of the previous message.
#[derive(Debug)]
pub struct BootstrapClientBinder {
    max_bootstrap_message_size: u32,
    size_field_len: usize,
    remote_pubkey: PublicKey,
    prev_message: Option<crate::hash::Hash>,
    caps: MessageCaps,
}

impl BootstrapClientBinder {
    #[verifier::type_invariant]
    spec fn well_formed(self) -> bool {
        self.size_field_len == min_width(self.max_bootstrap_message_size as nat)
    }

    /// The largest body that is sent or accepted.
    pub closed spec fn max_size(&self) -> u32 {
        self.max_bootstrap_message_size
    }

    /// Number of bytes of a length field: the least that the maximum needs.
    pub open spec fn width(&self) -> nat {
        min_width(self.max_size() as nat)
    }

    /// The key under which the server signs.
    pub closed spec fn key(&self) -> Seq<u8> {
        self.remote_pubkey@
    }

    /// The caps under which bodies are decoded.
    pub closed spec fn caps(&self) -> MessageCaps {
        self.caps
    }

    /// The hash of the previous message, none before the first exchange.
    pub closed spec fn prev_hash(&self) -> Option<Seq<u8>> {
        match self.prev_message {
            Some(hash) => Some(hash@),
            None => None,
        }
    }

    /// Whether `other` differs from `self` in the previous-message hash at most.
    pub open spec fn same_connection(&self, other: &BootstrapClientBinder) -> bool {
        &&& self.max_size() == other.max_size()
        &&& self.key() == other.key()
        &&& self.caps() == other.caps()
    }

    /// A previous-message hash has the size of a hash.
    pub proof fn lemma_prev_hash_len(&self)
        ensures
            self.prev_hash() matches Some(hash) ==> hash.len() == HASH_SIZE_BYTES,
    {
        if let Some(hash) = self.prev_message {
            hash.lemma_len();
        }
    }

    /// A binder for a fresh connection to the server that signs under
    /// `remote_pubkey`.
    pub fn new(
        remote_pubkey: PublicKey,
        max_bootstrap_message_size: u32,
        caps: MessageCaps,
    ) -> (binder: BootstrapClientBinder)
        ensures
            binder.max_size() == max_bootstrap_message_size,
            binder.key() == remote_pubkey@,
            binder.caps() == caps,
            binder.prev_hash() is None,
    {
        let size_field_len: usize = be_bytes_min_length(max_bootstrap_message_size);
        BootstrapClientBinder {
            max_bootstrap_message_size,
            size_field_len,
            remote_pubkey,
            prev_message: None,
            caps,
        }
    }

    /// Number of bytes of a length field on this connection.
    pub fn size_field_len(&self) -> (width: usize)
        ensures
            width == self.width(),
            width <= 4,
    {
        proof {
            use_type_invariant(self);
            crate::min_be_int::lemma_min_width_of_u32(self.max_bootstrap_message_size as nat);
        }
        self.size_field_len
    }

    /// The largest body that is sent or accepted.
    pub fn max_bootstrap_message_size(&self) -> (max: u32)
        ensures
            max == self.max_size(),
    {
        self.max_bootstrap_message_size
    }

    /// The hash of the previous message, none before the first exchange.
    pub fn prev_message(&self) -> (prev: Option<crate::hash::Hash>)
        ensures
            match prev {
                Some(hash) => self.prev_hash() == Some(hash@),
                None => self.prev_hash() is None,
            },
    {
        self.prev_message
    }

    /// The bytes that precede a length field: the previous-message hash, if any.
    fn prefix_bytes(&self) -> (out: Vec<u8>)
        ensures
            out@ == chain_prefix(self.prev_hash()),
    {
        let mut out: Vec<u8> = Vec::new();
        match &self.prev_message {
            Some(hash) => {
                put_bytes(&mut out, hash.to_bytes().as_slice());
            },
            None => {},
        }
        assert(out@ =~= chain_prefix(self.prev_hash()));
        out
    }

    /// Starts the exchange with the random bytes `randomness`: returns the
    /// bytes to write, which are the encoded version followed by those bytes,
    /// and keeps their hash as the previous message.
    pub fn handshake_with_randomness(&mut self, version: Version, randomness: &[u8]) -> (bytes:
        Vec<u8>)
        ensures
            final(self).same_connection(old(self)),
            bytes@ == enc_version(version) + randomness@,
            final(self).prev_hash() == Some(blake3_digest(bytes@)),
    {
        proof {
            use_type_invariant(&*self);
        }
        let mut bytes: Vec<u8> = Vec::new();
        put_version(&mut bytes, &version);
        put_bytes(&mut bytes, randomness);
        assert(bytes@ =~= enc_version(version) + randomness@);
        let hash = crate::hash::Hash::compute_from(bytes.as_slice());
        self.prev_message = Some(hash);
        bytes
    }

    /// Starts the exchange: returns the bytes to write, which are the encoded
    /// version followed by fresh random bytes, and keeps their hash as the
    /// previous message.
    ///
    /// Fails with `EntropyUnavailable`, changing nothing, when the system
    /// gives no random bytes.
    pub fn handshake(&mut self, version: Version) -> (res: Result<Vec<u8>, BootstrapError>)
        ensures
            final(self).same_connection(old(self)),
            match res {
                Ok(bytes) => {
                    &&& bytes@.len() == VERSION_SIZE_BYTES + BOOTSTRAP_RANDOMNESS_SIZE_BYTES
                    &&& bytes@.take(VERSION_SIZE_BYTES as int) == enc_version(version)
                    &&& final(self).prev_hash() == Some(blake3_digest(bytes@))
                },
                Err(e) => e == BootstrapError::EntropyUnavailable && final(self).prev_hash() == old(
                    self,
                ).prev_hash(),
            },
    {
        let random = match os_random_bytes(BOOTSTRAP_RANDOMNESS_SIZE_BYTES) {
            Some(bytes) => bytes,
            None => { return Err(BootstrapError::EntropyUnavailable); },
        };
        let bytes = self.handshake_with_randomness(version, random.as_slice());
        proof {
            lemma_enc_version_len(version);
            assert(bytes@.take(VERSION_SIZE_BYTES as int) =~= enc_version(version));
        }
        Ok(bytes)
    }

    /// Frames `msg` for the server: returns the bytes to write and moves the
    /// previous-message hash on to the hash of the old one and the body.
    ///
    /// Fails with `OversizeFrame`, changing nothing, exactly when the encoded
    /// message is longer than the maximum message size.
    pub fn send(&mut self, msg: &BootstrapClientMessage) -> (res: Result<Vec<u8>, BootstrapError>)
        ensures
            final(self).same_connection(old(self)),
            match res {
                Ok(frame) => {
                    &&& spec_encode_client(msg@).len() <= old(self).max_size()
                    &&& frame@ == client_frame(
                        old(self).prev_hash(),
                        spec_encode_client(msg@),
                        old(self).max_size(),
                    )
                    &&& final(self).prev_hash() == Some(
                        chained_hash(old(self).prev_hash(), spec_encode_client(msg@)),
                    )
                },
                Err(e) => {
                    &&& e == BootstrapError::OversizeFrame
                    &&& spec_encode_client(msg@).len() > old(self).max_size()
                    &&& final(self).prev_hash() == old(self).prev_hash()
                },
            },
    {
        proof {
            use_type_invariant(&*self);
        }
        let body = msg.to_bytes();
        if body.len() > self.max_bootstrap_message_size as usize {
            return Err(BootstrapError::OversizeFrame);
        }
        let mut frame = self.prefix_bytes();
        let mut chained: Vec<u8> = self.prefix_bytes();
        put_bytes(&mut chained, body.as_slice());
        let hash = crate::hash::Hash::compute_from(chained.as_slice());
        put_be(&mut frame, body.len() as u64, self.size_field_len);
        put_bytes(&mut frame, body.as_slice());
        self.prev_message = Some(hash);
        Ok(frame)
    }

    /// Reads the length that a length field announces.
    ///
    /// Fails with `BadFrame` when the field has not the width of this
    /// connection, and with `OversizeFrame` when it announces more than the
    /// maximum message size.
    pub fn frame_length(&self, length: &[u8]) -> (res: Result<u32, BootstrapError>)
        ensures
            match res {
                Ok(announced) => {
                    &&& length@.len() == self.width()
                    &&& announced == be_value(length@)
                    &&& announced <= self.max_size()
                },
                Err(e) => if length@.len() != self.width() {
                    e == BootstrapError::BadFrame
                } else {
                    e == BootstrapError::OversizeFrame && be_value(length@) > self.max_size()
                },
            },
    {
        proof {
            use_type_invariant(self);
        }
        if length.len() != self.size_field_len {
            return Err(BootstrapError::BadFrame);
        }
        assert(length@.take(length@.len() as int) =~= length@);
        match from_be_bytes_min(length, self.max_bootstrap_message_size) {
            Ok((announced, _)) => Ok(announced),
            Err(e) => Err(e),
        }
    }

    /// Takes the next frame of the server, read off the connection as its
    /// signature, its length field and its body.
    ///
    /// A frame is turned away, and nothing changes, for the first of these
    /// that holds: the length field has not the width of this connection
    /// (`BadFrame`), it announces more than the maximum message size
    /// (`OversizeFrame`), the body has not the announced length (`BadFrame`),
    /// the signature does not sign the hash of the previous-message hash and
    /// the body (`BadSignature`). Otherwise the previous-message hash becomes
    /// the hash of the signature, and the body is decoded: into the message
    /// that is returned, or else the call fails with `BadFrame`.
    pub fn next(&mut self, signature: &[u8; 64], length: &[u8], body: &[u8]) -> (res: Result<
        BootstrapServerMessage,
        BootstrapError,
    >)
        ensures
            final(self).same_connection(old(self)),
            final(self).prev_hash() == match frame_error(
                old(self).max_size(),
                old(self).key(),
                old(self).prev_hash(),
                signature@,
                length@,
                body@,
            ) {
                Some(_) => old(self).prev_hash(),
                None => Some(blake3_digest(signature@)),
            },
            match res {
                Ok(message) => {
                    &&& frame_error(
                        old(self).max_size(),
                        old(self).key(),
                        old(self).prev_hash(),
                        signature@,
                        length@,
                        body@,
                    ) is None
                    &&& be_value(length@) <= old(self).max_size()
                    &&& spec_decode_server(body@, old(self).caps()) == Some(message@)
                },
                Err(e) => match frame_error(
                    old(self).max_size(),
                    old(self).key(),
                    old(self).prev_hash(),
                    signature@,
                    length@,
                    body@,
                ) {
                    Some(why) => e == why,
                    None => e == BootstrapError::BadFrame && spec_decode_server(
                        body@,
                        old(self).caps(),
                    ) is None,
                },
            },
    {
        proof {
            use_type_invariant(&*self);
        }
        let announced: u32 = match self.frame_length(length) {
            Ok(v) => v,
            Err(e) => { return Err(e); },
        };
        if body.len() != announced as usize {
            return Err(BootstrapError::BadFrame);
        }
        let mut chained: Vec<u8> = self.prefix_bytes();
        put_bytes(&mut chained, body);
        let hash = crate::hash::Hash::compute_from(chained.as_slice());
        let sig = Signature::from_bytes(signature);
        match self.remote_pubkey.verify_signature(&hash, &sig) {
            Ok(_) => {},
            Err(e) => { return Err(e); },
        }
        self.prev_message = Some(crate::hash::Hash::compute_from(signature.as_slice()));
        BootstrapServerMessage::from_bytes(body, &self.caps)
    }
}

} // verus!
