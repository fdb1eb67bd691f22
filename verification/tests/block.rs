use ed25519_dalek::{Signer, SigningKey};
use massa_bootstrap::block::{
    Block, BlockHeader, BlockHeaderContent, BlockId, ModelsError, Operation,
    SerializationContext, BLOCK_ID_SIZE_BYTES,
};
use massa_bootstrap::messages::Slot;
use massa_bootstrap::signature::{
    derive_public_key, generate_random_private_key, sign, verify_signature, PrivateKey, PublicKey,
    Signature,
};

fn context() -> SerializationContext {
    SerializationContext {
        max_block_size: 1024 * 1024,
        max_block_operations: 1024,
        parent_count: 3,
        max_peer_list_length: 128,
        max_message_size: 3 * 1024 * 1024,
        max_bootstrap_blocks: 100,
        max_bootstrap_cliques: 100,
        max_bootstrap_deps: 100,
        max_bootstrap_children: 100,
        max_ask_blocks_per_message: 10,
        max_operations_per_message: 1024,
        max_bootstrap_message_size: 100000000,
    }
}

fn hash(text: &str) -> massa_bootstrap::hash::Hash {
    massa_bootstrap::hash::Hash::compute_from(text.as_bytes())
}

fn content(key: &PrivateKey, parents: Vec<BlockId>) -> BlockHeaderContent {
    BlockHeaderContent {
        creator: derive_public_key(key),
        slot: Slot { period: 1, thread: 2 },
        parents,
        operation_merkle_root: hash("mno"),
    }
}

fn three_parents() -> Vec<BlockId> {
    vec![
        BlockId::for_tests("abc").unwrap(),
        BlockId::for_tests("def").unwrap(),
        BlockId::for_tests("ghi").unwrap(),
    ]
}

#[test]
fn test_block_serialization() {
    let ctx = context();
    let private_key = generate_random_private_key().unwrap();
    let public_key = derive_public_key(&private_key);

    // create block header
    let (orig_id, orig_header) = BlockHeader::new_signed(
        &private_key,
        BlockHeaderContent {
            creator: public_key,
            slot: Slot { period: 1, thread: 2 },
            parents: vec![
                BlockId::for_tests("abc").unwrap(),
                BlockId::for_tests("def").unwrap(),
                BlockId::for_tests("ghi").unwrap(),
            ],
            operation_merkle_root: hash("mno"),
        },
        &ctx,
    )
    .unwrap();

    // create block
    let orig_block = Block { header: orig_header, operations: vec![] };

    // serialize block
    let orig_bytes = orig_block.to_bytes_compact(&ctx).unwrap();

    // deserialize
    let (res_block, res_size) = Block::from_bytes_compact(&orig_bytes, &ctx).unwrap();
    assert_eq!(orig_bytes.len(), res_size);

    // check equality
    let res_id = res_block.header.verify_integrity(&ctx).unwrap();
    let generated_res_id = res_block.header.compute_block_id(&ctx).unwrap();
    assert_eq!(orig_id, res_id);
    assert_eq!(orig_id, generated_res_id);
    assert_eq!(res_block.header.signature, orig_block.header.signature);
}

#[test]
fn header_content_has_exact_bytes() {
    let key = PrivateKey::from_bytes(&[3u8; 32]);
    let c = content(&key, three_parents());
    let bytes = c.to_bytes_compact(&context()).unwrap();
    let mut expected = derive_public_key(&key).to_bytes().to_vec();
    expected.extend_from_slice(&[0, 0, 0, 0, 0, 0, 0, 1, 2]);
    expected.push(1);
    for text in ["abc", "def", "ghi"] {
        expected.extend_from_slice(blake3::hash(text.as_bytes()).as_bytes());
    }
    expected.extend_from_slice(blake3::hash(b"mno").as_bytes());
    assert_eq!(bytes, expected);
    assert_eq!(
        c.compute_hash(&context()).unwrap().to_bytes(),
        blake3::hash(&expected).as_bytes()
    );

    let none = content(&key, vec![]);
    let bytes = none.to_bytes_compact(&context()).unwrap();
    assert_eq!(bytes.len(), 32 + 9 + 1 + 32);
    assert_eq!(bytes[41], 0);
    assert_eq!(
        BlockHeaderContent::from_bytes_compact(&bytes, &context()),
        Ok((none, 74))
    );
}

#[test]
fn header_content_reads_back_and_leaves_the_rest() {
    let key = PrivateKey::from_bytes(&[3u8; 32]);
    let c = content(&key, three_parents());
    let mut bytes = c.to_bytes_compact(&context()).unwrap();
    let used = bytes.len();
    bytes.extend_from_slice(&[9, 9, 9]);
    assert_eq!(BlockHeaderContent::from_bytes_compact(&bytes, &context()), Ok((c, used)));
}

#[test]
fn header_content_decoder_rejects_what_is_not_a_content() {
    let key = PrivateKey::from_bytes(&[3u8; 32]);
    let ctx = context();
    let bytes = content(&key, three_parents()).to_bytes_compact(&ctx).unwrap();
    let bad = |b: &[u8]| {
        assert_eq!(
            BlockHeaderContent::from_bytes_compact(b, &ctx),
            Err(ModelsError::DeserializeError)
        );
    };
    bad(&[]);
    bad(&bytes[..bytes.len() - 1]);
    bad(&bytes[..40]);
    let mut flag = bytes.clone();
    flag[41] = 2;
    bad(&flag);
    let mut thread = bytes.clone();
    thread[40] = 3;
    bad(&thread);
    // a flag of 1 announces as many parents as the context has threads
    let two = content(&key, three_parents()[..2].to_vec()).to_bytes_compact(&ctx).unwrap();
    bad(&two);
}

#[test]
fn header_signature_is_checked_against_content_and_slot() {
    let ctx = context();
    let key = PrivateKey::from_bytes(&[5u8; 32]);
    let (id, header) = BlockHeader::new_signed(&key, content(&key, three_parents()), &ctx).unwrap();
    assert_eq!(header.verify_integrity(&ctx), Ok(id));
    let bytes = header.to_bytes_compact(&ctx).unwrap();
    assert_eq!(id.to_bytes(), *blake3::hash(&bytes).as_bytes());
    assert_eq!(&bytes[bytes.len() - 64..], header.signature.to_bytes());
    assert_eq!(BlockHeader::from_bytes_compact(&bytes, &ctx), Ok((header.clone(), bytes.len())));

    let mut moved = header.clone();
    moved.content.slot = Slot { period: 2, thread: 2 };
    assert_eq!(moved.verify_integrity(&ctx), Err(ModelsError::CryptoError));

    let other = PrivateKey::from_bytes(&[6u8; 32]);
    let mut stolen = header.clone();
    stolen.content.creator = derive_public_key(&other);
    assert_eq!(stolen.verify_integrity(&ctx), Err(ModelsError::CryptoError));

    let content_hash = header.content.compute_hash(&ctx).unwrap();
    assert_eq!(header.verify_signature(&content_hash), Ok(()));
    assert_eq!(header.verify_signature(&hash("other")), Err(ModelsError::CryptoError));
    assert_eq!(
        BlockHeader::verify_slot_hash_signature(
            &header.content.slot,
            &content_hash,
            &header.signature,
            &header.content.creator
        ),
        Ok(())
    );
}

#[test]
fn the_signed_message_is_the_hash_of_slot_and_hash() {
    let h = hash("content");
    let message = BlockHeader::get_signature_message(&Slot { period: 258, thread: 7 }, &h);
    let mut data = vec![0, 0, 0, 0, 0, 0, 1, 2, 7];
    data.extend_from_slice(h.to_bytes());
    assert_eq!(message.to_bytes(), blake3::hash(&data).as_bytes());
}

#[test]
fn keys_and_signatures_agree_with_ed25519() {
    let secret = [9u8; 32];
    let key = PrivateKey::from_bytes(&secret);
    let reference = SigningKey::from_bytes(&secret);
    assert_eq!(derive_public_key(&key).to_bytes(), &reference.verifying_key().to_bytes());
    let h = hash("message");
    let signature = sign(&h, &key).unwrap();
    assert_eq!(signature.to_bytes(), &reference.sign(h.to_bytes()).to_bytes());
    let public = derive_public_key(&key);
    assert_eq!(verify_signature(&h, &signature, &public), Ok(()));
    assert!(verify_signature(&hash("other"), &signature, &public).is_err());
    let mut bytes = *signature.to_bytes();
    bytes[0] ^= 1;
    assert!(verify_signature(&h, &Signature::from_bytes(&bytes), &public).is_err());
    // bytes that encode no point of the curve are no key
    let mut no_key = None;
    for last in 0..=255u8 {
        let mut candidate = [2u8; 32];
        candidate[31] = last;
        if ed25519_dalek::VerifyingKey::from_bytes(&candidate).is_err() {
            no_key = Some(candidate);
            break;
        }
    }
    let no_key = PublicKey::from_bytes(&no_key.expect("bytes that are no key"));
    assert!(verify_signature(&h, &signature, &no_key).is_err());
}

#[test]
fn a_private_key_is_made_of_exactly_32_bytes() {
    let bytes: Vec<u8> = (0..32).collect();
    let key = PrivateKey::from_slice(&bytes).unwrap();
    assert_eq!(&key.to_bytes()[..], &bytes[..]);
    let mut array = [0u8; 32];
    array.copy_from_slice(&bytes);
    assert_eq!(key, PrivateKey::from_bytes(&array));
    assert_eq!(PrivateKey::from_slice(&bytes[..31]), None);
    assert_eq!(PrivateKey::from_slice(&[0u8; 33]), None);
    assert_eq!(PrivateKey::from_slice(&[]), None);
}

#[test]
fn random_private_keys_differ() {
    let a = generate_random_private_key().unwrap();
    let b = generate_random_private_key().unwrap();
    assert_ne!(a, b);
    assert_ne!(a.to_bytes(), &[0u8; 32]);
}

#[test]
fn block_with_operations_round_trips() {
    let ctx = context();
    let key = PrivateKey::from_bytes(&[5u8; 32]);
    let (_, header) = BlockHeader::new_signed(&key, content(&key, vec![]), &ctx).unwrap();
    let block = Block {
        header,
        operations: vec![
            Operation { content: vec![1, 2, 3] },
            Operation { content: vec![] },
            Operation { content: vec![4; 300] },
        ],
    };
    let bytes = block.to_bytes_compact(&ctx).unwrap();
    let header_len = 74 + 64;
    assert_eq!(&bytes[header_len..header_len + 2], &[0, 3]);
    assert_eq!(&bytes[header_len + 2..header_len + 9], &[0, 0, 0, 3, 1, 2, 3]);
    assert_eq!(bytes.len(), header_len + 2 + 7 + 4 + 304);
    assert_eq!(block.bytes_count(&ctx), Ok(bytes.len() as u64));
    assert_eq!(Block::from_bytes_compact(&bytes, &ctx), Ok((block.clone(), bytes.len())));
    let mut longer = bytes.clone();
    longer.push(77);
    assert_eq!(Block::from_bytes_compact(&longer, &ctx), Ok((block, bytes.len())));
    assert_eq!(
        Block::from_bytes_compact(&bytes[..bytes.len() - 1], &ctx),
        Err(ModelsError::DeserializeError)
    );
}

#[test]
fn block_limits_are_enforced() {
    let key = PrivateKey::from_bytes(&[5u8; 32]);
    let mut ctx = context();
    ctx.max_block_operations = 2;
    let (_, header) = BlockHeader::new_signed(&key, content(&key, vec![]), &ctx).unwrap();
    let op = Operation { content: vec![1] };
    let two = Block { header: header.clone(), operations: vec![op.clone(), op.clone()] };
    let three = Block { header, operations: vec![op.clone(), op.clone(), op] };
    assert_eq!(three.to_bytes_compact(&ctx), Err(ModelsError::SerializeError));
    assert_eq!(three.bytes_count(&ctx), Err(ModelsError::SerializeError));
    let bytes = two.to_bytes_compact(&ctx).unwrap();
    assert_eq!(bytes.len(), 138 + 1 + 10);

    // the count on the wire may not exceed the maximum
    let mut over = bytes.clone();
    over[138] = 3;
    over.extend_from_slice(&[0, 0, 0, 1, 1]);
    assert_eq!(Block::from_bytes_compact(&over, &ctx), Err(ModelsError::DeserializeError));

    // a block of exactly the maximum size is read, one byte less room is too little
    ctx.max_block_size = bytes.len() as u32;
    assert_eq!(Block::from_bytes_compact(&bytes, &ctx), Ok((two, bytes.len())));
    ctx.max_block_size = bytes.len() as u32 - 1;
    assert_eq!(Block::from_bytes_compact(&bytes, &ctx), Err(ModelsError::DeserializeError));
}

#[test]
fn contains_operation_goes_by_identifier() {
    let ctx = context();
    let key = PrivateKey::from_bytes(&[5u8; 32]);
    let (_, header) = BlockHeader::new_signed(&key, content(&key, vec![]), &ctx).unwrap();
    let block = Block {
        header,
        operations: vec![Operation { content: vec![1, 2] }, Operation { content: vec![3] }],
    };
    assert_eq!(block.contains_operation(&Operation { content: vec![3] }, &ctx), Ok(true));
    assert_eq!(block.contains_operation(&Operation { content: vec![1, 2] }, &ctx), Ok(true));
    assert_eq!(block.contains_operation(&Operation { content: vec![1] }, &ctx), Ok(false));
    let id = Operation { content: vec![3] }.get_operation_id(&ctx).unwrap();
    let again = Operation { content: vec![3] }.get_operation_id(&ctx).unwrap();
    assert!(id.equals(&again));
    assert!(!id.equals(&Operation { content: vec![4] }.get_operation_id(&ctx).unwrap()));
}

#[test]
fn block_ids_convert_to_bytes_and_text() {
    assert_eq!(BLOCK_ID_SIZE_BYTES, 32);
    let id = BlockId::for_tests("abc").unwrap();
    assert_eq!(id.to_bytes(), *blake3::hash(b"abc").as_bytes());
    assert_eq!(id.into_bytes(), id.to_bytes());
    assert_eq!(BlockId::from_bytes(&id.to_bytes()), Ok(id));
    assert!(id.equals(&BlockId::for_tests("abc").unwrap()));
    assert!(!id.equals(&BlockId::for_tests("abd").unwrap()));

    let text = id.to_bs58_check();
    assert_eq!(BlockId::from_bs58_check(&text), Ok(id));
    assert_eq!(text, bs58::encode(id.to_bytes()).with_check().into_string());
    let zero = BlockId::from_bytes(&[0u8; 32]).unwrap();
    assert_eq!(
        zero.to_bs58_check(),
        format!("{}{}", "1".repeat(32), &zero.to_bs58_check()[32..])
    );

    assert_eq!(BlockId::from_bs58_check("not base 58!"), Err(ModelsError::HashError));
    let mut broken = text.clone();
    let last = if broken.ends_with('2') { '3' } else { '2' };
    broken.pop();
    broken.push(last);
    assert_eq!(BlockId::from_bs58_check(&broken), Err(ModelsError::HashError));
    let short = bs58::encode([1u8, 2, 3]).with_check().into_string();
    assert_eq!(BlockId::from_bs58_check(&short), Err(ModelsError::HashError));
}
