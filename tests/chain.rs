use blockchain::{
    as_bytes, bytes_to_str, find_nonce, hash, leading_zero_bits, make_block, matches_difficulty,
    zero_hash, Block, Blockchain, Chain, MiningError, VerificationError, DIFFICULTY,
};

fn demo_chain() -> Chain {
    let mut chain: Chain = Blockchain::init();
    chain.push(vec![0, 0, 0, 0]).unwrap();
    chain.push(vec![0, 0, 0, 1]).unwrap();
    chain.push(vec![0, 0, 0, 2]).unwrap();
    chain
}

#[test]
fn init_works() {
    let chain: Chain = Blockchain::init();
    assert_eq!(0, chain.blocks.len());
}

#[test]
fn push_works() {
    let mut chain: Chain = Blockchain::init();

    let _ = chain.push(vec![0, 0, 0, 0]);
    assert_eq!(1, chain.blocks.len());
    let _ = chain.push(vec![0, 0, 0, 1]);
    assert_eq!(2, chain.blocks.len());

    let block1 = &chain.blocks[0];
    let block2 = &chain.blocks[1];
    assert_eq!(vec![0, 0, 0, 0], block1.data);
    assert_eq!(zero_hash(), block1.prev_hash);
    assert_eq!(vec![0, 0, 0, 1], block2.data);
    assert_eq!(hash(block1), block2.prev_hash);
}

#[test]
fn verify_works() {
    let mut chain: Chain = Blockchain::init();

    let _ = chain.push(vec![1, 2, 3, 4]);
    let _ = chain.push(vec![0]);
    let _ = chain.push(vec![5, 6, 7, 8]);

    assert!(chain.verify().is_ok());
    chain.blocks[1].data = vec![5];
    assert!(chain.verify().is_err());
    chain.blocks[1].data = vec![0];
    assert!(chain.verify().is_ok());
    chain.blocks[2].prev_hash = zero_hash();
    assert!(chain.verify().is_err());
    chain.blocks[2].prev_hash = hash(&chain.blocks[1]);
    assert!(chain.verify().is_ok());
    let _ = find_nonce(&mut chain.blocks[2], 1);
    assert!(chain.verify().is_err());
}

#[test]
fn empty_chain_verifies() {
    let chain: Chain = Blockchain::init();
    assert!(chain.verify().is_ok());
    assert!(blockchain::verify(&chain).is_ok());
}

#[test]
fn three_pushes_link_and_verify() {
    let chain = demo_chain();
    assert_eq!(3, chain.blocks.len());
    assert_eq!(zero_hash(), chain.blocks[0].prev_hash);
    assert_eq!(hash(&chain.blocks[0]), chain.blocks[1].prev_hash);
    assert_eq!(hash(&chain.blocks[1]), chain.blocks[2].prev_hash);
    for (i, block) in chain.blocks.iter().enumerate() {
        assert_eq!(i as u64, block.id);
        assert!(matches_difficulty(&hash(block), DIFFICULTY));
    }
    assert!(chain.verify().is_ok());
}

#[test]
fn mined_nonces_are_the_first_that_work() {
    let chain = demo_chain();
    assert_eq!(32, chain.blocks[0].nonce);
    assert_eq!(26, chain.blocks[1].nonce);
    assert_eq!(3, chain.blocks[2].nonce);
    assert_eq!(
        bytes_to_str(&hash(&chain.blocks[0])),
        "0a530e3236526496bf17a53c7bc3c8dc8a6d5624f751c511bf9c8aa79bf806d2"
    );
    for block in &chain.blocks {
        let mut probe = Block {
            id: block.id,
            nonce: 0,
            data: block.data.clone(),
            prev_hash: block.prev_hash,
        };
        for n in 0..block.nonce {
            probe.nonce = n;
            assert!(!matches_difficulty(&hash(&probe), DIFFICULTY));
        }
    }
}

#[test]
fn make_block_genesis_and_successor() {
    let genesis = make_block(None, vec![0, 0, 0, 0]).unwrap();
    assert_eq!(0, genesis.id);
    assert_eq!(32, genesis.nonce);
    assert_eq!(zero_hash(), genesis.prev_hash);
    let next = make_block(Some(&genesis), vec![0, 0, 0, 1]).unwrap();
    assert_eq!(1, next.id);
    assert_eq!(26, next.nonce);
    assert_eq!(hash(&genesis), next.prev_hash);
}

#[test]
fn payload_tampering_reported_and_undone() {
    let mut chain: Chain = Blockchain::init();
    chain.push(vec![1, 2, 3, 4]).unwrap();
    chain.push(vec![0]).unwrap();
    chain.push(vec![5, 6, 7, 8]).unwrap();
    chain.blocks[1].data = vec![5];
    let expected = hash(&chain.blocks[1]);
    match chain.verify() {
        Err(VerificationError::DifficultyNotMet { index, target, hash }) => {
            assert_eq!(1, index);
            assert_eq!(DIFFICULTY, target);
            assert_eq!(expected, hash);
        }
        other => panic!("unexpected result {:?}", other),
    }
    chain.blocks[1].data = vec![0];
    assert!(chain.verify().is_ok());
}

#[test]
fn broken_link_reported_and_undone() {
    let mut chain = demo_chain();
    let right = chain.blocks[2].prev_hash;
    chain.blocks[2].prev_hash = zero_hash();
    match chain.verify() {
        Err(VerificationError::BrokenLink { index, expected, found }) => {
            assert_eq!(2, index);
            assert_eq!(hash(&chain.blocks[1]), expected);
            assert_eq!(zero_hash(), found);
        }
        other => panic!("unexpected result {:?}", other),
    }
    chain.blocks[2].prev_hash = right;
    assert!(chain.verify().is_ok());
}

#[test]
fn genesis_with_nonzero_link_is_broken() {
    let mut chain = demo_chain();
    chain.blocks[0].prev_hash = [1u8; 32];
    assert!(matches!(
        chain.verify(),
        Err(VerificationError::BrokenLink { index: 0, .. })
    ));
}

#[test]
fn index_mismatch_reported() {
    let mut chain = demo_chain();
    chain.blocks[1].id = 7;
    match chain.verify() {
        Err(VerificationError::IndexMismatch { index, id }) => {
            assert_eq!(1, index);
            assert_eq!(7, id);
        }
        other => panic!("unexpected result {:?}", other),
    }
}

#[test]
fn weaker_work_reported() {
    let mut chain: Chain = Blockchain::init();
    chain.push(vec![1, 2, 3, 4]).unwrap();
    chain.push(vec![0]).unwrap();
    chain.push(vec![5, 6, 7, 8]).unwrap();
    assert_eq!(12, chain.blocks[2].nonce);
    assert_eq!(Ok(()), find_nonce(&mut chain.blocks[2], 1));
    assert_eq!(2, chain.blocks[2].nonce);
    assert_eq!(1, leading_zero_bits(&hash(&chain.blocks[2])));
    assert!(matches!(
        chain.verify(),
        Err(VerificationError::DifficultyNotMet { index: 2, target: 4, .. })
    ));
}

#[test]
fn find_nonce_at_zero_difficulty_takes_nonce_zero() {
    let mut block = Block { id: 5, nonce: 99, data: vec![], prev_hash: zero_hash() };
    assert_eq!(Ok::<(), MiningError>(()), find_nonce(&mut block, 0));
    assert_eq!(0, block.nonce);
    assert_eq!(5, block.id);
}

#[test]
fn leading_zero_bits_counts_bytes_then_bits() {
    assert_eq!(256, leading_zero_bits(&[0u8; 32]));
    let mut h = [0xffu8; 32];
    assert_eq!(0, leading_zero_bits(&h));
    h[0] = 0;
    h[1] = 0;
    h[2] = 0x0f;
    assert_eq!(20, leading_zero_bits(&h));
    assert!(matches_difficulty(&h, 20));
    assert!(!matches_difficulty(&h, 21));
    h[2] = 0x01;
    assert_eq!(23, leading_zero_bits(&h));
}

#[test]
fn encoding_is_big_endian_fields_then_payload_then_link() {
    let block = Block { id: 1, nonce: 2, data: vec![9], prev_hash: zero_hash() };
    let mut expected = vec![0, 0, 0, 0, 0, 0, 0, 1, 0, 0, 0, 2, 9];
    expected.extend_from_slice(&[0u8; 32]);
    assert_eq!(expected, as_bytes(&block));
    let wide = Block {
        id: 0x0102030405060708,
        nonce: 0x0a0b0c0d,
        data: vec![],
        prev_hash: [0xee; 32],
    };
    let bytes = as_bytes(&wide);
    assert_eq!(&bytes[0..12], &[1, 2, 3, 4, 5, 6, 7, 8, 0x0a, 0x0b, 0x0c, 0x0d]);
    assert_eq!(44, bytes.len());
}

#[test]
fn hash_is_sha256_of_encoding() {
    let block = Block { id: 1, nonce: 2, data: vec![9], prev_hash: zero_hash() };
    let expected: [u8; 32] = [
        142, 2, 231, 77, 69, 23, 232, 238, 114, 81, 35, 198, 202, 217, 64, 138, 227, 147, 134, 108,
        15, 76, 44, 22, 172, 158, 214, 25, 82, 186, 52, 161,
    ];
    assert_eq!(expected, hash(&block));
}

#[test]
fn bytes_render_as_lower_hex() {
    assert_eq!("", bytes_to_str(&[]));
    assert_eq!("ab0100ff", bytes_to_str(&[0xab, 0x01, 0x00, 0xff]));
    assert_eq!(64, bytes_to_str(&zero_hash()).len());
}
