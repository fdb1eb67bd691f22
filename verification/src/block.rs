//! Blocks, their headers and their compact encoding.
//!
//! A header content is the creator's public key, the slot in nine bytes, one
//! byte that says whether parents follow, the parents, and the root hash of
//! the operations. A header is a content followed by its signature. A block
//! is a header, the number of operations in the width that the configured
//! maximum needs, and each operation behind its length in four bytes.

use crate::codec::{
    dec_blob, dec_u8, enc_blob, enc_u8, lemma_concat_assoc, lemma_dec_enc_blob, lemma_dec_enc_u8,
    put_blob, put_bytes, put_u8, Reader,
};
use crate::fields::{dec_slot, enc_slot, lemma_dec_enc_slot, put_slot, take_slot};
use crate::hash::{blake3_digest, HASH_SIZE_BYTES};
use crate::messages::Slot;
use crate::min_be_int::{
    be_bytes, be_value, from_be_bytes_min, lemma_be_bytes_len, lemma_be_value_of_bytes,
    lemma_min_width_is_minimal, min_width, to_be_bytes_min,
};
use crate::signature::{
    ed25519_accepts, ed25519_signature, PrivateKey, PublicKey, Signature, PUBLIC_KEY_SIZE_BYTES,
    SIGNATURE_SIZE_BYTES,
};
use vstd::prelude::*;
use vstd::slice::slice_subrange;

verus! {

/// Number of bytes of a block identifier.
pub const BLOCK_ID_SIZE_BYTES: usize = HASH_SIZE_BYTES;

/// Number of bytes of a slot in the message that a creator signs.
pub const SLOT_KEY_SIZE: usize = 9;

/// Why a block, or a part of one, could not be handled.
#[derive(Clone, Copy, Debug, PartialEq, Eq)]
pub enum ModelsError {
    /// The text is not the form of a hash.
    HashError,
    /// The value cannot be encoded under the limits of the context.
    SerializeError,
    /// The bytes do not encode a value under the limits of the context.
    DeserializeError,
    /// A signature could not be made, or does not verify.
    CryptoError,
}

/// The limits under which values are encoded and decoded.
#[derive(Clone, Copy, Debug, PartialEq, Eq)]
pub struct SerializationContext {
    pub max_block_size: u32,
    pub max_block_operations: u32,
    pub parent_count: u8,
    pub max_peer_list_length: u32,
    pub max_message_size: u32,
    pub max_bootstrap_blocks: u32,
    pub max_bootstrap_cliques: u32,
    pub max_bootstrap_deps: u32,
    pub max_bootstrap_children: u32,
    pub max_ask_blocks_per_message: u32,
    pub max_operations_per_message: u32,
    pub max_bootstrap_message_size: u32,
}

/// The identifier of a block: the hash of its encoded header.
#[derive(Clone, Copy, Debug, Eq, PartialEq, Ord, PartialOrd, Hash)]
pub struct BlockId(crate::hash::Hash);

impl View for BlockId {
    type V = Seq<u8>;

    closed spec fn view(&self) -> Seq<u8> {
        self.0@
    }
}

/// An operation, as its encoded form.
#[derive(Clone, Debug, PartialEq, Eq)]
pub struct Operation {
    pub content: Vec<u8>,
}

/// The identifier of an operation: the hash of its encoded form.
#[derive(Clone, Copy, Debug, Eq, PartialEq, Ord, PartialOrd, Hash)]
pub struct OperationId(crate::hash::Hash);

impl View for OperationId {
    type V = Seq<u8>;

    closed spec fn view(&self) -> Seq<u8> {
        self.0@
    }
}

/// What a creator signs.
#[derive(Debug, Clone, PartialEq, Eq)]
pub struct BlockHeaderContent {
    pub creator: PublicKey,
    pub slot: Slot,
    pub parents: Vec<BlockId>,
    pub operation_merkle_root: crate::hash::Hash,
}

/// A signed header content.
#[derive(Debug, Clone, PartialEq, Eq)]
pub struct BlockHeader {
    pub content: BlockHeaderContent,
    pub signature: Signature,
}

/// A header and the operations of the block.
#[derive(Debug, Clone, PartialEq, Eq)]
pub struct Block {
    pub header: BlockHeader,
    pub operations: Vec<Operation>,
}

/// The mathematical content of a `BlockHeaderContent`.
pub struct BlockHeaderContentView {
    pub creator: Seq<u8>,
    pub slot: Slot,
    pub parents: Seq<Seq<u8>>,
    pub operation_merkle_root: Seq<u8>,
}

/// The mathematical content of a `BlockHeader`.
pub struct BlockHeaderView {
    pub content: BlockHeaderContentView,
    pub signature: Seq<u8>,
}

/// The mathematical content of a `Block`.
pub struct BlockView {
    pub header: BlockHeaderView,
    pub operations: Seq<Seq<u8>>,
}

/// The identifiers of a list, as bytes.
pub open spec fn ids_view(ids: Seq<BlockId>) -> Seq<Seq<u8>> {
    Seq::new(ids.len(), |i: int| ids[i]@)
}

/// The operations of a list, as bytes.
pub open spec fn operations_view(operations: Seq<Operation>) -> Seq<Seq<u8>> {
    Seq::new(operations.len(), |i: int| operations[i].content@)
}

impl View for BlockHeaderContent {
    type V = BlockHeaderContentView;

    open spec fn view(&self) -> BlockHeaderContentView {
        BlockHeaderContentView {
            creator: self.creator@,
            slot: self.slot,
            parents: ids_view(self.parents@),
            operation_merkle_root: self.operation_merkle_root@,
        }
    }
}

impl View for BlockHeader {
    type V = BlockHeaderView;

    open spec fn view(&self) -> BlockHeaderView {
        BlockHeaderView { content: self.content@, signature: self.signature@ }
    }
}

impl View for Block {
    type V = BlockView;

    open spec fn view(&self) -> BlockView {
        BlockView { header: self.header@, operations: operations_view(self.operations@) }
    }
}

// ------------------------------------------------------------ encodings

/// Reads `n` bytes off the front of `s`.
pub open spec fn dec_fixed(s: Seq<u8>, n: nat) -> Option<(Seq<u8>, Seq<u8>)> {
    if s.len() < n {
        None
    } else {
        Some((s.take(n as int), s.skip(n as int)))
    }
}

/// Hashes of 32 bytes each, one after the other.
pub open spec fn enc_hashes(list: Seq<Seq<u8>>) -> Seq<u8>
    decreases list.len(),
{
    if list.len() == 0 {
        Seq::empty()
    } else {
        list[0] + enc_hashes(list.skip(1))
    }
}

/// Reads `count` hashes.
pub open spec fn dec_hashes(s: Seq<u8>, count: nat) -> Option<(Seq<Seq<u8>>, Seq<u8>)>
    decreases count,
{
    if count == 0 {
        Some((Seq::empty(), s))
    } else {
        match dec_fixed(s, 32) {
            Some((hash, rest)) => match dec_hashes(rest, (count - 1) as nat) {
                Some((tail, rest)) => Some((seq![hash] + tail, rest)),
                None => None,
            },
            None => None,
        }
    }
}

/// Whether every item of a list has 32 bytes.
pub open spec fn all_hashes(list: Seq<Seq<u8>>) -> bool
    decreases list.len(),
{
    list.len() > 0 ==> list[0].len() == 32 && all_hashes(list.skip(1))
}

/// Operations, each behind its length.
pub open spec fn enc_operations(list: Seq<Seq<u8>>) -> Seq<u8>
    decreases list.len(),
{
    if list.len() == 0 {
        Seq::empty()
    } else {
        enc_blob(list[0]) + enc_operations(list.skip(1))
    }
}

/// Reads `count` operations.
pub open spec fn dec_operations(s: Seq<u8>, count: nat) -> Option<(Seq<Seq<u8>>, Seq<u8>)>
    decreases count,
{
    if count == 0 {
        Some((Seq::empty(), s))
    } else {
        match dec_blob(s, u32::MAX) {
            Some((operation, rest)) => match dec_operations(rest, (count - 1) as nat) {
                Some((tail, rest)) => Some((seq![operation] + tail, rest)),
                None => None,
            },
            None => None,
        }
    }
}

/// Whether every operation of a list has a length that four bytes can hold.
pub open spec fn all_operations(list: Seq<Seq<u8>>) -> bool
    decreases list.len(),
{
    list.len() > 0 ==> list[0].len() <= u32::MAX && all_operations(list.skip(1))
}

/// A count in the width that `max` needs.
pub open spec fn enc_count(count: nat, max: u32) -> Seq<u8> {
    be_bytes(count, min_width(max as nat))
}

/// Reads a count of at most `max` in the width that `max` needs.
pub open spec fn dec_count(s: Seq<u8>, max: u32) -> Option<(nat, Seq<u8>)> {
    let width = min_width(max as nat);
    if s.len() < width {
        None
    } else if be_value(s.take(width as int)) > max {
        None
    } else {
        Some((be_value(s.take(width as int)), s.skip(width as int)))
    }
}

/// The byte that says whether parents follow.
pub open spec fn parents_flag(parents: Seq<Seq<u8>>) -> u8 {
    if parents.len() == 0 {
        0
    } else {
        1
    }
}

/// The bytes of a header content.
#[verifier::opaque]
pub open spec fn enc_content(content: BlockHeaderContentView) -> Seq<u8> {
    content.creator + enc_slot(content.slot) + enc_u8(parents_flag(content.parents)) + enc_hashes(
        content.parents,
    ) + content.operation_merkle_root
}

/// Reads a header content whose slot has a thread below `parent_count` and
/// which has no parents or `parent_count` of them.
#[verifier::opaque]
pub open spec fn dec_content(s: Seq<u8>, parent_count: u8) -> Option<
    (BlockHeaderContentView, Seq<u8>),
> {
    match dec_fixed(s, 32) {
        Some((creator, s)) => match dec_slot(s, parent_count) {
            Some((slot, s)) => match dec_u8(s) {
                Some((flag, s)) => if flag > 1 {
                    None
                } else {
                    match dec_hashes(
                        s,
                        if flag == 1 {
                            parent_count as nat
                        } else {
                            0
                        },
                    ) {
                        Some((parents, s)) => match dec_fixed(s, 32) {
                            Some((operation_merkle_root, s)) => Some(
                                (
                                    BlockHeaderContentView {
                                        creator,
                                        slot,
                                        parents,
                                        operation_merkle_root,
                                    },
                                    s,
                                ),
                            ),
                            None => None,
                        },
                        None => None,
                    }
                },
                None => None,
            },
            None => None,
        },
        None => None,
    }
}

/// The bytes of a header.
pub open spec fn enc_header(header: BlockHeaderView) -> Seq<u8> {
    enc_content(header.content) + header.signature
}

/// Reads a header.
pub open spec fn dec_header(s: Seq<u8>, parent_count: u8) -> Option<(BlockHeaderView, Seq<u8>)> {
    match dec_content(s, parent_count) {
        Some((content, s)) => match dec_fixed(s, 64) {
            Some((signature, s)) => Some((BlockHeaderView { content, signature }, s)),
            None => None,
        },
        None => None,
    }
}

/// The bytes of a block under a maximum of `max_block_operations`.
pub open spec fn enc_block(block: BlockView, max_block_operations: u32) -> Seq<u8> {
    enc_header(block.header) + enc_count(block.operations.len(), max_block_operations)
        + enc_operations(block.operations)
}

/// Reads a block that takes at most `max_block_size` bytes.
pub open spec fn dec_block(s: Seq<u8>, context: SerializationContext) -> Option<
    (BlockView, Seq<u8>),
> {
    match dec_header(s, context.parent_count) {
        Some((header, s1)) => match dec_count(s1, context.max_block_operations) {
            Some((count, s2)) => match dec_operations(s2, count) {
                Some((operations, s3)) => if s.len() - s3.len() > context.max_block_size {
                    None
                } else {
                    Some((BlockView { header, operations }, s3))
                },
                None => None,
            },
            None => None,
        },
        None => None,
    }
}

impl BlockHeaderContentView {
    /// Whether the keys and hashes have their sizes.
    pub open spec fn well_formed(self) -> bool {
        &&& self.creator.len() == PUBLIC_KEY_SIZE_BYTES
        &&& all_hashes(self.parents)
        &&& self.operation_merkle_root.len() == HASH_SIZE_BYTES
    }

    /// Whether the content can be read back under `parent_count`.
    pub open spec fn within(self, parent_count: u8) -> bool {
        &&& self.slot.thread < parent_count
        &&& self.parents.len() == 0 || self.parents.len() == parent_count
    }
}

/// The message that the creator of a block signs: the hash of the slot and
/// the hash of the header content.
pub open spec fn spec_signature_message(slot: Slot, hash: Seq<u8>) -> Seq<u8> {
    blake3_digest(enc_slot(slot) + hash)
}

/// The identifier of the block with this header.
pub open spec fn spec_block_id(header: BlockHeaderView) -> Seq<u8> {
    blake3_digest(enc_header(header))
}

/// Whether the signature of a header is the creator's, over the header's
/// slot and the hash of its content.
pub open spec fn header_signature_valid(header: BlockHeaderView) -> bool {
    ed25519_accepts(
        header.content.creator,
        spec_signature_message(header.content.slot, blake3_digest(enc_content(header.content))),
        header.signature,
    )
}

// ----------------------------------------------------------------- laws

/// Reading a field of fixed size off its encoding gives it back and leaves what follows.
pub proof fn lemma_dec_enc_fixed(bytes: Seq<u8>, rest: Seq<u8>)
    ensures
        dec_fixed(bytes + rest, bytes.len()) == Some((bytes, rest)),
{
    assert((bytes + rest).take(bytes.len() as int) =~= bytes);
    assert((bytes + rest).skip(bytes.len() as int) =~= rest);
}

/// Reading a list of hashes off its encoding gives it back and leaves what follows.
pub proof fn lemma_dec_enc_hashes(list: Seq<Seq<u8>>, rest: Seq<u8>)
    requires
        all_hashes(list),
    ensures
        dec_hashes(enc_hashes(list) + rest, list.len()) == Some((list, rest)),
    decreases list.len(),
{
    if list.len() == 0 {
        assert(enc_hashes(list) + rest =~= rest);
        assert(list =~= Seq::empty());
    } else {
        let head = list[0];
        let tail = list.skip(1);
        lemma_dec_enc_hashes(tail, rest);
        lemma_concat_assoc(head, enc_hashes(tail), rest);
        lemma_dec_enc_fixed(head, enc_hashes(tail) + rest);
        assert(seq![head] + tail =~= list);
    }
}

/// Appending a hash to a list appends its bytes to the list's bytes.
pub proof fn lemma_enc_hashes_push(list: Seq<Seq<u8>>, hash: Seq<u8>)
    ensures
        enc_hashes(list.push(hash)) == enc_hashes(list) + hash,
        all_hashes(list) && hash.len() == 32 ==> all_hashes(list.push(hash)),
    decreases list.len(),
{
    let longer = list.push(hash);
    assert(enc_hashes(longer) == longer[0] + enc_hashes(longer.skip(1)));
    if list.len() == 0 {
        assert(longer.skip(1) =~= Seq::empty());
        assert(enc_hashes(longer.skip(1)) =~= Seq::empty());
        assert(enc_hashes(list) =~= Seq::empty());
        assert(enc_hashes(longer) =~= enc_hashes(list) + hash);
        assert(all_hashes(longer.skip(1)));
    } else {
        assert(longer[0] == list[0]);
        assert(longer.skip(1) =~= list.skip(1).push(hash));
        lemma_enc_hashes_push(list.skip(1), hash);
        lemma_concat_assoc(list[0], enc_hashes(list.skip(1)), hash);
    }
}

/// Reading a list of operations off its encoding gives it back and leaves what follows.
pub proof fn lemma_dec_enc_operations(list: Seq<Seq<u8>>, rest: Seq<u8>)
    requires
        all_operations(list),
    ensures
        dec_operations(enc_operations(list) + rest, list.len()) == Some((list, rest)),
    decreases list.len(),
{
    if list.len() == 0 {
        assert(enc_operations(list) + rest =~= rest);
        assert(list =~= Seq::empty());
    } else {
        let head = list[0];
        let tail = list.skip(1);
        lemma_dec_enc_operations(tail, rest);
        lemma_concat_assoc(enc_blob(head), enc_operations(tail), rest);
        lemma_dec_enc_blob(head, u32::MAX, enc_operations(tail) + rest);
        assert(seq![head] + tail =~= list);
    }
}

/// Appending an operation to a list appends its bytes to the list's bytes.
pub proof fn lemma_enc_operations_push(list: Seq<Seq<u8>>, operation: Seq<u8>)
    ensures
        enc_operations(list.push(operation)) == enc_operations(list) + enc_blob(operation),
    decreases list.len(),
{
    let longer = list.push(operation);
    assert(enc_operations(longer) == enc_blob(longer[0]) + enc_operations(longer.skip(1)));
    if list.len() == 0 {
        assert(longer.skip(1) =~= Seq::empty());
        assert(enc_operations(longer.skip(1)) =~= Seq::empty());
        assert(enc_operations(list) =~= Seq::empty());
        assert(enc_operations(longer) =~= enc_operations(list) + enc_blob(operation));
    } else {
        assert(longer[0] == list[0]);
        assert(longer.skip(1) =~= list.skip(1).push(operation));
        lemma_enc_operations_push(list.skip(1), operation);
        lemma_concat_assoc(enc_blob(list[0]), enc_operations(list.skip(1)), enc_blob(operation));
    }
}

/// Reading a count off its encoding gives it back and leaves what follows.
pub proof fn lemma_dec_enc_count(count: nat, max: u32, rest: Seq<u8>)
    requires
        count <= max,
    ensures
        dec_count(enc_count(count, max) + rest, max) == Some((count, rest)),
{
    let width = min_width(max as nat);
    lemma_be_bytes_len(count, width);
    lemma_min_width_is_minimal(max as nat);
    lemma_be_value_of_bytes(count, width);
    assert((enc_count(count, max) + rest).take(width as int) =~= enc_count(count, max));
    assert((enc_count(count, max) + rest).skip(width as int) =~= rest);
}

/// Reading a header content off its encoding gives it back and leaves what follows.
pub proof fn lemma_dec_enc_content(content: BlockHeaderContentView, parent_count: u8, rest: Seq<u8>)
    requires
        content.well_formed(),
        content.within(parent_count),
    ensures
        dec_content(enc_content(content) + rest, parent_count) == Some((content, rest)),
{
    reveal(enc_content);
    reveal(dec_content);
    let flag = parents_flag(content.parents);
    let e4 = content.operation_merkle_root + rest;
    let e3 = enc_hashes(content.parents) + e4;
    let e2 = enc_u8(flag) + e3;
    let e1 = enc_slot(content.slot) + e2;
    let a1 = content.creator + enc_slot(content.slot);
    let a2 = a1 + enc_u8(flag);
    let a3 = a2 + enc_hashes(content.parents);
    lemma_concat_assoc(a3, content.operation_merkle_root, rest);
    lemma_concat_assoc(a2, enc_hashes(content.parents), e4);
    lemma_concat_assoc(a1, enc_u8(flag), e3);
    lemma_concat_assoc(content.creator, enc_slot(content.slot), e2);
    assert(enc_content(content) + rest == content.creator + e1);
    lemma_dec_enc_fixed(content.creator, e1);
    lemma_dec_enc_slot(content.slot, parent_count, e2);
    lemma_dec_enc_u8(flag, e3);
    lemma_dec_enc_hashes(content.parents, e4);
    lemma_dec_enc_fixed(content.operation_merkle_root, rest);
}

/// Reading a header off its encoding gives it back and leaves what follows.
pub proof fn lemma_dec_enc_header(header: BlockHeaderView, parent_count: u8, rest: Seq<u8>)
    requires
        header.content.well_formed(),
        header.content.within(parent_count),
        header.signature.len() == SIGNATURE_SIZE_BYTES,
    ensures
        dec_header(enc_header(header) + rest, parent_count) == Some((header, rest)),
{
    lemma_concat_assoc(enc_content(header.content), header.signature, rest);
    lemma_dec_enc_content(header.content, parent_count, header.signature + rest);
    lemma_dec_enc_fixed(header.signature, rest);
}

/// A block that respects the limits of the context is read back from its
/// bytes, whatever follows them.
pub proof fn lemma_block_round_trip(block: BlockView, context: SerializationContext, rest: Seq<u8>)
    requires
        block.header.content.well_formed(),
        block.header.content.within(context.parent_count),
        block.header.signature.len() == SIGNATURE_SIZE_BYTES,
        block.operations.len() <= context.max_block_operations,
        all_operations(block.operations),
        enc_block(block, context.max_block_operations).len() <= context.max_block_size,
    ensures
        dec_block(enc_block(block, context.max_block_operations) + rest, context) == Some(
            (block, rest),
        ),
{
    let max = context.max_block_operations;
    let count = enc_count(block.operations.len(), max);
    let e2 = enc_operations(block.operations) + rest;
    let e1 = count + e2;
    lemma_concat_assoc(enc_header(block.header) + count, enc_operations(block.operations), rest);
    lemma_concat_assoc(enc_header(block.header), count, e2);
    lemma_dec_enc_header(block.header, context.parent_count, e1);
    lemma_dec_enc_count(block.operations.len(), max, e2);
    lemma_dec_enc_operations(block.operations, rest);
}

// ------------------------------------------------------ reading, writing

/// The text that `bs58` gives for `bytes` with a checksum.
pub uninterp spec fn bs58_check_text(bytes: Seq<u8>) -> Seq<char>;

/// The bytes that `bs58` reads from `text` after checking its checksum, or
/// `None` where it turns the text away.
pub uninterp spec fn bs58_check_bytes(text: Seq<char>) -> Option<Seq<u8>>;

/// Calls `bs58::encode` with a checksum.
///
/// Trusted: the text depends on the bytes alone.
#[verifier::external_body]
fn bs58_encode_check(bytes: &[u8]) -> (text: String)
    ensures
        text@ == bs58_check_text(bytes@),
{
    bs58::encode(bytes).with_check().into_string()
}

/// Calls `bs58::decode` with a checksum and no version byte.
///
/// Trusted: whether bytes come back, and which, depends on the text alone.
#[verifier::external_body]
fn bs58_decode_check(text: &str) -> (bytes: Option<Vec<u8>>)
    ensures
        match bytes {
            Some(b) => bs58_check_bytes(text@) == Some(b@),
            None => bs58_check_bytes(text@) is None,
        },
{
    match bs58::decode(text).with_check(None).into_vec() {
        Ok(bytes) => Some(bytes),
        Err(_) => None,
    }
}

/// The first 32 bytes of `bytes`.
fn array_32(bytes: &[u8]) -> (out: [u8; 32])
    requires
        bytes@.len() >= 32,
    ensures
        out@ == bytes@.take(32),
{
    let mut out: [u8; 32] = [0u8; 32];
    let mut i: usize = 0;
    while i < 32
        invariant
            i <= 32,
            bytes@.len() >= 32,
            forall|j: int| 0 <= j < i ==> out@[j] == bytes@[j],
        decreases 32 - i,
    {
        out[i] = bytes[i];
        i = i + 1;
    }
    assert(out@ =~= bytes@.take(32));
    out
}

/// The first 64 bytes of `bytes`.
fn array_64(bytes: &[u8]) -> (out: [u8; 64])
    requires
        bytes@.len() >= 64,
    ensures
        out@ == bytes@.take(64),
{
    let mut out: [u8; 64] = [0u8; 64];
    let mut i: usize = 0;
    while i < 64
        invariant
            i <= 64,
            bytes@.len() >= 64,
            forall|j: int| 0 <= j < i ==> out@[j] == bytes@[j],
        decreases 64 - i,
    {
        out[i] = bytes[i];
        i = i + 1;
    }
    assert(out@ =~= bytes@.take(64));
    out
}

fn take_32(r: &mut Reader<'_>) -> (res: Option<[u8; 32]>)
    requires
        old(r).wf(),
    ensures
        final(r).wf(),
        final(r).data == old(r).data,
        match res {
            Some(v) => dec_fixed(old(r).rest(), 32) == Some((v@, final(r).rest())),
            None => dec_fixed(old(r).rest(), 32) is None,
        },
{
    if r.data.len() - r.pos < 32 {
        return None;
    }
    let field = slice_subrange(r.data, r.pos, r.data.len());
    let out = array_32(field);
    r.pos = r.pos + 32;
    assert(old(r).rest().skip(32) =~= r.rest());
    Some(out)
}

fn take_64(r: &mut Reader<'_>) -> (res: Option<[u8; 64]>)
    requires
        old(r).wf(),
    ensures
        final(r).wf(),
        final(r).data == old(r).data,
        match res {
            Some(v) => dec_fixed(old(r).rest(), 64) == Some((v@, final(r).rest())),
            None => dec_fixed(old(r).rest(), 64) is None,
        },
{
    if r.data.len() - r.pos < 64 {
        return None;
    }
    let field = slice_subrange(r.data, r.pos, r.data.len());
    let out = array_64(field);
    r.pos = r.pos + 64;
    assert(old(r).rest().skip(64) =~= r.rest());
    Some(out)
}

fn take_count(r: &mut Reader<'_>, max: u32) -> (res: Option<u32>)
    requires
        old(r).wf(),
    ensures
        final(r).wf(),
        final(r).data == old(r).data,
        match res {
            Some(v) => dec_count(old(r).rest(), max) == Some((v as nat, final(r).rest())),
            None => dec_count(old(r).rest(), max) is None,
        },
{
    let field = slice_subrange(r.data, r.pos, r.data.len());
    match from_be_bytes_min(field, max) {
        Ok((count, width)) => {
            r.pos = r.pos + width;
            assert(old(r).rest().skip(width as int) =~= r.rest());
            Some(count)
        },
        Err(_) => None,
    }
}

fn put_ids(out: &mut Vec<u8>, ids: &Vec<BlockId>)
    ensures
        final(out)@ == old(out)@ + enc_hashes(ids_view(ids@)),
        all_hashes(ids_view(ids@)),
{
    let ghost all = ids_view(ids@);
    let mut i: usize = 0;
    assert(all.take(0) =~= Seq::empty());
    assert(out@ =~= old(out)@ + enc_hashes(all.take(0)));
    while i < ids.len()
        invariant
            i <= ids@.len(),
            all == ids_view(ids@),
            out@ == old(out)@ + enc_hashes(all.take(i as int)),
            all_hashes(all.take(i as int)),
        decreases ids@.len() - i,
    {
        put_bytes(out, ids[i].0.to_bytes().as_slice());
        proof {
            ids[i as int].0.lemma_len();
            assert(all.take(i + 1) =~= all.take(i as int).push(all[i as int]));
            lemma_enc_hashes_push(all.take(i as int), all[i as int]);
            lemma_concat_assoc(old(out)@, enc_hashes(all.take(i as int)), all[i as int]);
        }
        i = i + 1;
    }
    assert(all.take(i as int) =~= all);
}

fn take_ids(r: &mut Reader<'_>, count: u8) -> (res: Option<Vec<BlockId>>)
    requires
        old(r).wf(),
    ensures
        final(r).wf(),
        final(r).data == old(r).data,
        match res {
            Some(v) => dec_hashes(old(r).rest(), count as nat) == Some(
                (ids_view(v@), final(r).rest()),
            ),
            None => dec_hashes(old(r).rest(), count as nat) is None,
        },
{
    let ghost start = r.rest();
    let mut out: Vec<BlockId> = Vec::new();
    let mut i: u8 = 0;
    assert(ids_view(out@) =~= Seq::empty());
    assert(forall|tail: Seq<Seq<u8>>| ids_view(out@) + tail =~= tail);
    while i < count
        invariant
            r.wf(),
            r.data == old(r).data,
            start == old(r).rest(),
            i <= count,
            out@.len() == i,
            dec_hashes(start, count as nat) == match dec_hashes(r.rest(), (count - i) as nat) {
                Some((tail, rest)) => Some((ids_view(out@) + tail, rest)),
                None => None,
            },
        decreases count - i,
    {
        let ghost before = ids_view(out@);
        let bytes = match take_32(r) {
            Some(v) => v,
            None => { return None; },
        };
        let id = BlockId(crate::hash::Hash::from_bytes(&bytes));
        let ghost e = id@;
        out.push(id);
        i = i + 1;
        proof {
            assert(ids_view(out@) =~= before.push(e));
            assert forall|tail: Seq<Seq<u8>>|
                before + (seq![e] + tail) == #[trigger] (ids_view(out@) + tail) by {
                assert(before + (seq![e] + tail) =~= ids_view(out@) + tail);
            }
        }
    }
    assert(forall|tail: Seq<Seq<u8>>| tail.len() == 0 ==> ids_view(out@) + tail =~= ids_view(out@));
    Some(out)
}

fn put_operations(out: &mut Vec<u8>, operations: &Vec<Operation>)
    ensures
        final(out)@ == old(out)@ + enc_operations(operations_view(operations@)),
{
    let ghost all = operations_view(operations@);
    let mut i: usize = 0;
    assert(all.take(0) =~= Seq::empty());
    assert(out@ =~= old(out)@ + enc_operations(all.take(0)));
    while i < operations.len()
        invariant
            i <= operations@.len(),
            all == operations_view(operations@),
            out@ == old(out)@ + enc_operations(all.take(i as int)),
        decreases operations@.len() - i,
    {
        put_blob(out, operations[i].content.as_slice());
        proof {
            assert(all.take(i + 1) =~= all.take(i as int).push(all[i as int]));
            lemma_enc_operations_push(all.take(i as int), all[i as int]);
            lemma_concat_assoc(
                old(out)@,
                enc_operations(all.take(i as int)),
                enc_blob(all[i as int]),
            );
        }
        i = i + 1;
    }
    assert(all.take(i as int) =~= all);
}

fn take_operations(r: &mut Reader<'_>, count: u32) -> (res: Option<Vec<Operation>>)
    requires
        old(r).wf(),
    ensures
        final(r).wf(),
        final(r).data == old(r).data,
        match res {
            Some(v) => dec_operations(old(r).rest(), count as nat) == Some(
                (operations_view(v@), final(r).rest()),
            ),
            None => dec_operations(old(r).rest(), count as nat) is None,
        },
{
    let ghost start = r.rest();
    let mut out: Vec<Operation> = Vec::new();
    let mut i: u32 = 0;
    assert(operations_view(out@) =~= Seq::empty());
    assert(forall|tail: Seq<Seq<u8>>| operations_view(out@) + tail =~= tail);
    while i < count
        invariant
            r.wf(),
            r.data == old(r).data,
            start == old(r).rest(),
            i <= count,
            out@.len() == i,
            dec_operations(start, count as nat) == match dec_operations(
                r.rest(),
                (count - i) as nat,
            ) {
                Some((tail, rest)) => Some((operations_view(out@) + tail, rest)),
                None => None,
            },
        decreases count - i,
    {
        let ghost before = operations_view(out@);
        let content = match r.take_blob(u32::MAX) {
            Some(v) => v,
            None => { return None; },
        };
        let ghost e = content@;
        out.push(Operation { content });
        i = i + 1;
        proof {
            assert(operations_view(out@) =~= before.push(e));
            assert forall|tail: Seq<Seq<u8>>|
                before + (seq![e] + tail) == #[trigger] (operations_view(out@) + tail) by {
                assert(before + (seq![e] + tail) =~= operations_view(out@) + tail);
            }
        }
    }
    assert(forall|tail: Seq<Seq<u8>>|
        tail.len() == 0 ==> operations_view(out@) + tail =~= operations_view(out@));
    Some(out)
}

impl BlockId {
    /// The identifier made of the hash of a text.
    pub fn for_tests(s: &str) -> (res: Result<BlockId, ModelsError>)
        ensures
            res matches Ok(id) && id@ == blake3_digest(vstd::utf8::encode_utf8(s@)),
    {
        Ok(BlockId(crate::hash::Hash::compute_from(s.as_bytes())))
    }

    /// The bytes of the identifier.
    pub fn to_bytes(&self) -> (bytes: [u8; 32])
        ensures
            bytes@ == self@,
    {
        *self.0.to_bytes()
    }

    /// The bytes of the identifier.
    pub fn into_bytes(self) -> (bytes: [u8; 32])
        ensures
            bytes@ == self@,
    {
        *self.0.to_bytes()
    }

    /// The identifier with these bytes.
    pub fn from_bytes(data: &[u8; 32]) -> (res: Result<BlockId, ModelsError>)
        ensures
            res matches Ok(id) && id@ == data@,
    {
        Ok(BlockId(crate::hash::Hash::from_bytes(data)))
    }

    /// The identifier as text with a checksum.
    pub fn to_bs58_check(&self) -> (text: String)
        ensures
            text@ == bs58_check_text(self@),
    {
        bs58_encode_check(self.0.to_bytes().as_slice())
    }

    /// Reads an identifier from text with a checksum.
    ///
    /// Fails with `HashError` exactly when the text is turned away or does
    /// not hold 32 bytes.
    pub fn from_bs58_check(data: &str) -> (res: Result<BlockId, ModelsError>)
        ensures
            match res {
                Ok(id) => bs58_check_bytes(data@) == Some(id@),
                Err(e) => e == ModelsError::HashError && !(bs58_check_bytes(data@) matches Some(b)
                    && b.len() == 32),
            },
    {
        match bs58_decode_check(data) {
            Some(bytes) => {
                if bytes.len() != 32 {
                    return Err(ModelsError::HashError);
                }
                let array = array_32(bytes.as_slice());
                assert(bytes@.take(32) =~= bytes@);
                Ok(BlockId(crate::hash::Hash::from_bytes(&array)))
            },
            None => Err(ModelsError::HashError),
        }
    }

    /// Whether two identifiers have the same bytes.
    pub fn equals(&self, other: &BlockId) -> (same: bool)
        ensures
            same == (self@ == other@),
    {
        self.0.equals(&other.0)
    }
}

impl Operation {
    /// The identifier of the operation.
    pub fn get_operation_id(&self, context: &SerializationContext) -> (res: Result<
        OperationId,
        ModelsError,
    >)
        ensures
            res matches Ok(id) && id@ == blake3_digest(self.content@),
    {
        Ok(OperationId(crate::hash::Hash::compute_from(self.content.as_slice())))
    }
}

impl OperationId {
    /// Whether two identifiers have the same bytes.
    pub fn equals(&self, other: &OperationId) -> (same: bool)
        ensures
            same == (self@ == other@),
    {
        self.0.equals(&other.0)
    }
}

impl BlockHeaderContent {
    /// The bytes of the content.
    pub fn to_bytes_compact(&self, context: &SerializationContext) -> (res: Result<
        Vec<u8>,
        ModelsError,
    >)
        ensures
            res matches Ok(bytes) && bytes@ == enc_content(self@),
            self@.well_formed(),
    {
        proof {
            reveal(enc_content);
            self.operation_merkle_root.lemma_len();
        }
        let mut res: Vec<u8> = Vec::new();
        put_bytes(&mut res, self.creator.to_bytes().as_slice());
        put_slot(&mut res, &self.slot);
        if self.parents.len() == 0 {
            put_u8(&mut res, 0);
        } else {
            put_u8(&mut res, 1);
        }
        put_ids(&mut res, &self.parents);
        put_bytes(&mut res, self.operation_merkle_root.to_bytes().as_slice());
        assert(res@ =~= enc_content(self@));
        Ok(res)
    }

    /// Reads a content off the front of `buffer` and says how many bytes it
    /// took.
    ///
    /// Fails with `DeserializeError` exactly when the buffer does not start
    /// with a content under `context`.
    pub fn from_bytes_compact(buffer: &[u8], context: &SerializationContext) -> (res: Result<
        (BlockHeaderContent, usize),
        ModelsError,
    >)
        ensures
            match res {
                Ok((content, used)) => used <= buffer@.len() && dec_content(
                    buffer@,
                    context.parent_count,
                ) == Some((content@, buffer@.skip(used as int))),
                Err(e) => e == ModelsError::DeserializeError && dec_content(
                    buffer@,
                    context.parent_count,
                ) is None,
            },
    {
        let mut r = Reader::new(buffer);
        match Self::from_reader(&mut r, context.parent_count) {
            Some(content) => Ok((content, r.pos)),
            None => Err(ModelsError::DeserializeError),
        }
    }

    fn from_reader(r: &mut Reader<'_>, parent_count: u8) -> (res: Option<BlockHeaderContent>)
        requires
            old(r).wf(),
        ensures
            final(r).wf(),
            final(r).data == old(r).data,
            match res {
                Some(v) => dec_content(old(r).rest(), parent_count) == Some(
                    (v@, final(r).rest()),
                ),
                None => dec_content(old(r).rest(), parent_count) is None,
            },
    {
        proof {
            reveal(dec_content);
        }
        let creator = match take_32(r) {
            Some(v) => PublicKey::from_bytes(&v),
            None => { return None; },
        };
        let slot = match take_slot(r, parent_count) {
            Some(v) => v,
            None => { return None; },
        };
        let has_parents: u8 = match r.take_u8() {
            Some(v) => v,
            None => { return None; },
        };
        if has_parents > 1 {
            return None;
        }
        let count: u8 = if has_parents == 1 {
            parent_count
        } else {
            0
        };
        let parents = match take_ids(r, count) {
            Some(v) => v,
            None => { return None; },
        };
        let operation_merkle_root = match take_32(r) {
            Some(v) => crate::hash::Hash::from_bytes(&v),
            None => { return None; },
        };
        Some(BlockHeaderContent { creator, slot, parents, operation_merkle_root })
    }

    /// The hash of the bytes of the content.
    pub fn compute_hash(&self, context: &SerializationContext) -> (res: Result<
        crate::hash::Hash,
        ModelsError,
    >)
        ensures
            res matches Ok(hash) && hash@ == blake3_digest(enc_content(self@)),
    {
        match self.to_bytes_compact(context) {
            Ok(bytes) => Ok(crate::hash::Hash::compute_from(bytes.as_slice())),
            Err(e) => Err(e),
        }
    }
}

impl BlockHeader {
    /// The bytes of the header.
    pub fn to_bytes_compact(&self, context: &SerializationContext) -> (res: Result<
        Vec<u8>,
        ModelsError,
    >)
        ensures
            res matches Ok(bytes) && bytes@ == enc_header(self@),
    {
        match self.content.to_bytes_compact(context) {
            Ok(mut res) => {
                put_bytes(&mut res, self.signature.to_bytes().as_slice());
                Ok(res)
            },
            Err(e) => Err(e),
        }
    }

    /// Reads a header off the front of `buffer` and says how many bytes it
    /// took.
    ///
    /// Fails with `DeserializeError` exactly when the buffer does not start
    /// with a header under `context`.
    pub fn from_bytes_compact(buffer: &[u8], context: &SerializationContext) -> (res: Result<
        (BlockHeader, usize),
        ModelsError,
    >)
        ensures
            match res {
                Ok((header, used)) => used <= buffer@.len() && dec_header(
                    buffer@,
                    context.parent_count,
                ) == Some((header@, buffer@.skip(used as int))),
                Err(e) => e == ModelsError::DeserializeError && dec_header(
                    buffer@,
                    context.parent_count,
                ) is None,
            },
    {
        let mut r = Reader::new(buffer);
        match Self::from_reader(&mut r, context.parent_count) {
            Some(header) => Ok((header, r.pos)),
            None => Err(ModelsError::DeserializeError),
        }
    }

    fn from_reader(r: &mut Reader<'_>, parent_count: u8) -> (res: Option<BlockHeader>)
        requires
            old(r).wf(),
        ensures
            final(r).wf(),
            final(r).data == old(r).data,
            match res {
                Some(v) => dec_header(old(r).rest(), parent_count) == Some((v@, final(r).rest())),
                None => dec_header(old(r).rest(), parent_count) is None,
            },
    {
        let content = match BlockHeaderContent::from_reader(r, parent_count) {
            Some(v) => v,
            None => { return None; },
        };
        let signature = match take_64(r) {
            Some(v) => Signature::from_bytes(&v),
            None => { return None; },
        };
        Some(BlockHeader { content, signature })
    }

    /// The identifier of the block, without a look at the signature.
    pub fn compute_block_id(&self, context: &SerializationContext) -> (res: Result<
        BlockId,
        ModelsError,
    >)
        ensures
            res matches Ok(id) && id@ == spec_block_id(self@),
    {
        match self.to_bytes_compact(context) {
            Ok(bytes) => Ok(BlockId(crate::hash::Hash::compute_from(bytes.as_slice()))),
            Err(e) => Err(e),
        }
    }

    /// The message that the creator of a block at `slot` signs for a content
    /// with this `hash`.
    pub fn get_signature_message(slot: &Slot, hash: &crate::hash::Hash) -> (message:
        crate::hash::Hash)
        ensures
            message@ == spec_signature_message(*slot, hash@),
    {
        let mut res: Vec<u8> = Vec::new();
        put_slot(&mut res, slot);
        put_bytes(&mut res, hash.to_bytes().as_slice());
        crate::hash::Hash::compute_from(res.as_slice())
    }

    /// Checks that `signature` is the one of `public_key` over `slot` and
    /// `hash`.
    ///
    /// Fails with `CryptoError` exactly when the signature is not accepted.
    pub fn verify_slot_hash_signature(
        slot: &Slot,
        hash: &crate::hash::Hash,
        signature: &Signature,
        public_key: &PublicKey,
    ) -> (res: Result<(), ModelsError>)
        ensures
            match res {
                Ok(_) => ed25519_accepts(
                    public_key@,
                    spec_signature_message(*slot, hash@),
                    signature@,
                ),
                Err(e) => e == ModelsError::CryptoError && !ed25519_accepts(
                    public_key@,
                    spec_signature_message(*slot, hash@),
                    signature@,
                ),
            },
    {
        let message = BlockHeader::get_signature_message(slot, hash);
        match crate::signature::verify_signature(&message, signature, public_key) {
            Ok(_) => Ok(()),
            Err(_) => Err(ModelsError::CryptoError),
        }
    }

    /// Signs `content` with `private_key` and returns the header with the
    /// identifier of its block.
    ///
    /// Fails with `CryptoError` when no signature could be made.
    pub fn new_signed(
        private_key: &PrivateKey,
        content: BlockHeaderContent,
        context: &SerializationContext,
    ) -> (res: Result<(BlockId, BlockHeader), ModelsError>)
        ensures
            match res {
                Ok((id, header)) => {
                    &&& header.content == content
                    &&& header.signature@ == ed25519_signature(
                        private_key@,
                        spec_signature_message(content.slot, blake3_digest(enc_content(content@))),
                    )
                    &&& id@ == spec_block_id(header@)
                },
                Err(e) => e == ModelsError::CryptoError,
            },
    {
        let hash = match content.compute_hash(context) {
            Ok(v) => v,
            Err(_) => { return Err(ModelsError::CryptoError); },
        };
        let message = BlockHeader::get_signature_message(&content.slot, &hash);
        let signature = match crate::signature::sign(&message, private_key) {
            Ok(v) => v,
            Err(_) => { return Err(ModelsError::CryptoError); },
        };
        let header = BlockHeader { content, signature };
        match header.compute_block_id(context) {
            Ok(id) => Ok((id, header)),
            Err(_) => Err(ModelsError::CryptoError),
        }
    }

    /// Checks that the signature of the header is the creator's over the
    /// header's slot and `hash`.
    ///
    /// Fails with `CryptoError` exactly when the signature is not accepted.
    pub fn verify_signature(&self, hash: &crate::hash::Hash) -> (res: Result<(), ModelsError>)
        ensures
            match res {
                Ok(_) => ed25519_accepts(
                    self@.content.creator,
                    spec_signature_message(self.content.slot, hash@),
                    self@.signature,
                ),
                Err(e) => e == ModelsError::CryptoError && !ed25519_accepts(
                    self@.content.creator,
                    spec_signature_message(self.content.slot, hash@),
                    self@.signature,
                ),
            },
    {
        BlockHeader::verify_slot_hash_signature(
            &self.content.slot,
            hash,
            &self.signature,
            &self.content.creator,
        )
    }

    /// Checks the signature of the header against its content and returns
    /// the identifier of the block.
    ///
    /// Fails with `CryptoError` exactly when the signature is not the
    /// creator's over the slot and the hash of the content.
    pub fn verify_integrity(&self, context: &SerializationContext) -> (res: Result<
        BlockId,
        ModelsError,
    >)
        ensures
            match res {
                Ok(id) => header_signature_valid(self@) && id@ == spec_block_id(self@),
                Err(e) => e == ModelsError::CryptoError && !header_signature_valid(self@),
            },
    {
        let hash = match self.content.compute_hash(context) {
            Ok(v) => v,
            Err(e) => { return Err(e); },
        };
        match self.verify_signature(&hash) {
            Ok(_) => {},
            Err(e) => { return Err(e); },
        }
        self.compute_block_id(context)
    }
}

impl Block {
    /// Whether the block holds an operation with the identifier of `op`.
    pub fn contains_operation(&self, op: &Operation, context: &SerializationContext) -> (res:
        Result<bool, ModelsError>)
        ensures
            res matches Ok(found) && found == (exists|i: int|
                0 <= i < self.operations@.len() && blake3_digest(
                    #[trigger] self.operations@[i].content@,
                ) == blake3_digest(op.content@)),
    {
        let op_id = match op.get_operation_id(context) {
            Ok(v) => v,
            Err(e) => { return Err(e); },
        };
        let mut i: usize = 0;
        while i < self.operations.len()
            invariant
                i <= self.operations@.len(),
                op_id@ == blake3_digest(op.content@),
                forall|j: int|
                    0 <= j < i ==> blake3_digest(#[trigger] self.operations@[j].content@)
                        != blake3_digest(op.content@),
            decreases self.operations@.len() - i,
        {
            let same = match self.operations[i].get_operation_id(context) {
                Ok(id) => id.equals(&op_id),
                Err(_) => false,
            };
            if same {
                return Ok(true);
            }
            i = i + 1;
        }
        Ok(false)
    }

    /// The bytes of the block.
    ///
    /// Fails with `SerializeError` exactly when the block holds more
    /// operations than `max_block_operations`.
    pub fn to_bytes_compact(&self, context: &SerializationContext) -> (res: Result<
        Vec<u8>,
        ModelsError,
    >)
        ensures
            match res {
                Ok(bytes) => self.operations@.len() <= context.max_block_operations && bytes@
                    == enc_block(self@, context.max_block_operations),
                Err(e) => e == ModelsError::SerializeError && self.operations@.len()
                    > context.max_block_operations,
            },
    {
        let mut res = match self.header.to_bytes_compact(context) {
            Ok(v) => v,
            Err(e) => { return Err(ModelsError::SerializeError); },
        };
        if self.operations.len() > context.max_block_operations as usize {
            return Err(ModelsError::SerializeError);
        }
        let operation_count: u32 = self.operations.len() as u32;
        match to_be_bytes_min(operation_count, context.max_block_operations) {
            Ok(count) => {
                put_bytes(&mut res, count.as_slice());
            },
            Err(_) => { return Err(ModelsError::SerializeError); },
        }
        put_operations(&mut res, &self.operations);
        Ok(res)
    }

    /// Reads a block off the front of `buffer` and says how many bytes it
    /// took.
    ///
    /// Fails with `DeserializeError` exactly when the buffer does not start
    /// with a block under `context`, which includes a block that takes more
    /// than `max_block_size` bytes.
    pub fn from_bytes_compact(buffer: &[u8], context: &SerializationContext) -> (res: Result<
        (Block, usize),
        ModelsError,
    >)
        ensures
            match res {
                Ok((block, used)) => used <= buffer@.len() && dec_block(buffer@, *context) == Some(
                    (block@, buffer@.skip(used as int)),
                ),
                Err(e) => e == ModelsError::DeserializeError && dec_block(buffer@, *context)
                    is None,
            },
    {
        let mut r = Reader::new(buffer);
        let header = match BlockHeader::from_reader(&mut r, context.parent_count) {
            Some(v) => v,
            None => { return Err(ModelsError::DeserializeError); },
        };
        let operation_count: u32 = match take_count(&mut r, context.max_block_operations) {
            Some(v) => v,
            None => { return Err(ModelsError::DeserializeError); },
        };
        let operations = match take_operations(&mut r, operation_count) {
            Some(v) => v,
            None => { return Err(ModelsError::DeserializeError); },
        };
        if r.pos > context.max_block_size as usize {
            return Err(ModelsError::DeserializeError);
        }
        Ok((Block { header, operations }, r.pos))
    }

    /// Number of bytes of the block.
    pub fn bytes_count(&self, context: &SerializationContext) -> (res: Result<u64, ModelsError>)
        ensures
            match res {
                Ok(count) => self.operations@.len() <= context.max_block_operations && count
                    == enc_block(self@, context.max_block_operations).len(),
                Err(e) => e == ModelsError::SerializeError && self.operations@.len()
                    > context.max_block_operations,
            },
    {
        match self.to_bytes_compact(context) {
            Ok(bytes) => Ok(bytes.len() as u64),
            Err(e) => Err(e),
        }
    }
}

} // verus!
