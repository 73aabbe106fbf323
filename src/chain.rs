//! The chain: block construction with its proof-of-work search, and whole-chain
//! verification.
use crate::block::{
    encode_fields, hash, matches_difficulty, meets_difficulty, same_hash, sentinel, sha256_of,
    zero_hash, Block, Data, DIFFICULTY, MAX_PAYLOAD_LEN,
};
use vstd::prelude::*;

verus! {

broadcast use vstd::array::group_array_axioms;

/// Why a chain failed verification: the first violation met in index order.
#[derive(Debug)]
pub enum VerificationError {
    /// The block at `index` carries the id `id`.
    IndexMismatch { index: usize, id: u64 },
    /// The block at `index` refers to `found` where its predecessor's digest is `expected`.
    BrokenLink { index: usize, expected: crate::block::Hash, found: crate::block::Hash },
    /// The digest `hash` of the block at `index` has fewer than `target` leading zero bits.
    DifficultyNotMet { index: usize, target: u32, hash: crate::block::Hash },
}

/// Why a block could not be mined.
#[derive(Debug, PartialEq, Eq, Structural)]
pub enum MiningError {
    /// No nonce in the whole 32-bit range gives a digest that meets the difficulty.
    NonceSpaceExhausted,
}

/// An ordered, append-only sequence of blocks; index 0 is the genesis block.
pub struct Chain {
    pub blocks: Vec<Block>,
}

/// The digest of the fields of a block with the given nonce.
pub open spec fn digest_with_nonce(
    id: u64,
    nonce: u32,
    data: Seq<u8>,
    prev_hash: Seq<u8>,
) -> Seq<u8> {
    sha256_of(encode_fields(id, nonce, data, prev_hash))
}

/// Whether `nonce` seals a block with these fields at `difficulty`.
pub open spec fn nonce_works(
    id: u64,
    nonce: u32,
    data: Seq<u8>,
    prev_hash: Seq<u8>,
    difficulty: u32,
) -> bool {
    meets_difficulty(digest_with_nonce(id, nonce, data, prev_hash), difficulty)
}

/// Whether `block.nonce` is the least nonce that seals the block at `difficulty`.
pub open spec fn is_mined(block: Block, difficulty: u32) -> bool {
    &&& meets_difficulty(block.digest(), difficulty)
    &&& forall|m: u32|
        m < block.nonce ==> !nonce_works(block.id, m, block.data@, block.prev_hash@, difficulty)
}

/// Whether no nonce at all seals a block with these fields at `difficulty`.
pub open spec fn no_nonce_works(
    id: u64,
    data: Seq<u8>,
    prev_hash: Seq<u8>,
    difficulty: u32,
) -> bool {
    forall|m: u32| !nonce_works(id, m, data, prev_hash, difficulty)
}

/// The digest that the block at position `i` must refer to.
pub open spec fn expected_prev(blocks: Seq<Block>, i: int) -> Seq<u8> {
    if i == 0 {
        sentinel()
    } else {
        blocks[i - 1].digest()
    }
}

/// The block at position `i` carries `i` as its id.
pub open spec fn id_ok(blocks: Seq<Block>, i: int) -> bool {
    blocks[i].id == i
}

/// The block at position `i` refers to its predecessor's digest (the sentinel at 0).
pub open spec fn link_ok(blocks: Seq<Block>, i: int) -> bool {
    blocks[i].prev_hash@ == expected_prev(blocks, i)
}

/// The digest of the block at position `i` meets `difficulty`.
pub open spec fn work_ok(blocks: Seq<Block>, i: int, difficulty: u32) -> bool {
    meets_difficulty(blocks[i].digest(), difficulty)
}

/// The block at position `i` passes all three checks.
pub open spec fn block_valid(blocks: Seq<Block>, i: int, difficulty: u32) -> bool {
    &&& id_ok(blocks, i)
    &&& link_ok(blocks, i)
    &&& work_ok(blocks, i, difficulty)
}

/// Every block passes all three checks.
pub open spec fn chain_valid(blocks: Seq<Block>, difficulty: u32) -> bool {
    forall|i: int| 0 <= i < blocks.len() ==> block_valid(blocks, i, difficulty)
}

/// Position `i` holds the first block that fails a check.
pub open spec fn first_invalid(blocks: Seq<Block>, i: int, difficulty: u32) -> bool {
    &&& 0 <= i < blocks.len()
    &&& forall|j: int| 0 <= j < i ==> block_valid(blocks, j, difficulty)
    &&& !block_valid(blocks, i, difficulty)
}

impl VerificationError {
    /// The error describes the first violation in `blocks`: the first failing
    /// block, the first of its checks that fails, and the values involved.
    pub open spec fn reports(self, blocks: Seq<Block>, difficulty: u32) -> bool {
        match self {
            VerificationError::IndexMismatch { index, id } => {
                &&& first_invalid(blocks, index as int, difficulty)
                &&& !id_ok(blocks, index as int)
                &&& id == blocks[index as int].id
            },
            VerificationError::BrokenLink { index, expected, found } => {
                &&& first_invalid(blocks, index as int, difficulty)
                &&& id_ok(blocks, index as int)
                &&& !link_ok(blocks, index as int)
                &&& expected@ == expected_prev(blocks, index as int)
                &&& found == blocks[index as int].prev_hash
            },
            VerificationError::DifficultyNotMet { index, target, hash } => {
                &&& first_invalid(blocks, index as int, difficulty)
                &&& id_ok(blocks, index as int)
                &&& link_ok(blocks, index as int)
                &&& target == difficulty
                &&& hash@ == blocks[index as int].digest()
            },
        }
    }
}

/// Searches the nonces 0, 1, ..., u32::MAX in order for the first that seals
/// `block` at `difficulty`, and leaves it in `block.nonce`. Only the nonce changes.
pub fn find_nonce(block: &mut Block, difficulty: u32) -> (r: Result<(), MiningError>)
    requires
        old(block).hashable(),
    ensures
        final(block).id == old(block).id,
        final(block).data == old(block).data,
        final(block).prev_hash == old(block).prev_hash,
        r is Ok <==> is_mined(*final(block), difficulty),
        r is Err <==> no_nonce_works(
            old(block).id,
            old(block).data@,
            old(block).prev_hash@,
            difficulty,
        ),
{
    let ghost orig = *block;
    let mut n: u32 = 0;
    loop
        invariant
            orig == *old(block),
            orig.hashable(),
            block.id == orig.id,
            block.data == orig.data,
            block.prev_hash == orig.prev_hash,
            forall|m: u32| m < n ==> !nonce_works(orig.id, m, orig.data@, orig.prev_hash@, difficulty),
        decreases u32::MAX - n,
    {
        block.nonce = n;
        let h = hash(block);
        if matches_difficulty(&h, difficulty) {
            assert(nonce_works(orig.id, n, orig.data@, orig.prev_hash@, difficulty));
            return Ok(());
        }
        if n == u32::MAX {
            return Err(MiningError::NonceSpaceExhausted);
        }
        n = n + 1;
    }
}

/// Checks every block in index order: its id, its link to its predecessor,
/// and its proof of work at [`DIFFICULTY`]. Stops at the first violation.
pub fn verify(chain: &Chain) -> (r: Result<(), VerificationError>)
    requires
        all_hashable(chain.blocks@),
    ensures
        r is Ok <==> chain_valid(chain.blocks@, DIFFICULTY),
        r matches Err(e) ==> e.reports(chain.blocks@, DIFFICULTY),
{
    let ghost blocks = chain.blocks@;
    let mut prev_hash = zero_hash();
    let mut i: usize = 0;
    while i < chain.blocks.len()
        invariant
            blocks == chain.blocks@,
            all_hashable(blocks),
            i <= blocks.len(),
            prev_hash@ == expected_prev(blocks, i as int),
            forall|j: int| 0 <= j < i ==> block_valid(blocks, j, DIFFICULTY),
        decreases blocks.len() - i,
    {
        let block = &chain.blocks[i];
        if block.id != i as u64 {
            assert(!block_valid(blocks, i as int, DIFFICULTY));
            return Err(VerificationError::IndexMismatch { index: i, id: block.id });
        }
        if !same_hash(&block.prev_hash, &prev_hash) {
            assert(!block_valid(blocks, i as int, DIFFICULTY));
            return Err(
                VerificationError::BrokenLink { index: i, expected: prev_hash, found: block.prev_hash },
            );
        }
        let h = hash(block);
        if !matches_difficulty(&h, DIFFICULTY) {
            assert(!block_valid(blocks, i as int, DIFFICULTY));
            return Err(
                VerificationError::DifficultyNotMet { index: i, target: DIFFICULTY, hash: h },
            );
        }
        prev_hash = h;
        i = i + 1;
    }
    Ok(())
}

/// Builds and mines the block that follows `prev` (the genesis block when
/// `prev` is `None`) with the payload `data`.
pub fn make_block(prev: Option<&Block>, data: Data) -> (r: Result<Block, MiningError>)
    requires
        prev matches Some(p) ==> p.id < u64::MAX && p.hashable(),
        data@.len() <= MAX_PAYLOAD_LEN,
    ensures
        match r {
            Ok(b) => {
                &&& b.id == (if prev is Some { prev->0.id + 1 } else { 0 })
                &&& b.data == data
                &&& b.prev_hash@ == (if prev is Some { prev->0.digest() } else { sentinel() })
                &&& is_mined(b, DIFFICULTY)
            },
            Err(_) => no_nonce_works(
                (if prev is Some { (prev->0.id + 1) as u64 } else { 0 }),
                data@,
                (if prev is Some { prev->0.digest() } else { sentinel() }),
                DIFFICULTY,
            ),
        },
{
    let (id, prev_hash) = match prev {
        Some(p) => (p.id + 1, hash(p)),
        None => (0u64, zero_hash()),
    };
    let mut block = Block { id, nonce: 0, data, prev_hash };
    match find_nonce(&mut block, DIFFICULTY) {
        Ok(()) => Ok(block),
        Err(e) => Err(e),
    }
}

/// Every block's payload is short enough to be hashed.
pub open spec fn all_hashable(blocks: Seq<Block>) -> bool {
    forall|i: int| 0 <= i < blocks.len() ==> #[trigger] blocks[i].hashable()
}

/// Whether a block with the payload `data` can follow `blocks`: every block
/// can be hashed, and the next id fits in 64 bits.
pub open spec fn can_extend(blocks: Seq<Block>, data: Seq<u8>) -> bool {
    &&& all_hashable(blocks)
    &&& data.len() <= MAX_PAYLOAD_LEN
    &&& blocks.len() > 0 ==> blocks.last().id < u64::MAX
}

/// The id of the block that follows `blocks`.
pub open spec fn next_id(blocks: Seq<Block>) -> u64 {
    if blocks.len() == 0 {
        0
    } else {
        (blocks.last().id + 1) as u64
    }
}

/// The digest that the block that follows `blocks` refers to.
pub open spec fn next_link(blocks: Seq<Block>) -> Seq<u8> {
    if blocks.len() == 0 {
        sentinel()
    } else {
        blocks.last().digest()
    }
}

/// What pushing `data` does: on success one mined block that carries `data`
/// and links to the previous last block is appended, and a valid chain stays
/// valid; failure comes only where no nonce at all seals that block, and then
/// nothing changes.
pub open spec fn push_outcome(
    old_blocks: Seq<Block>,
    new_blocks: Seq<Block>,
    data: Data,
    r: Result<(), MiningError>,
) -> bool {
    match r {
        Ok(()) => {
            let b = new_blocks.last();
            &&& new_blocks.len() == old_blocks.len() + 1
            &&& new_blocks.drop_last() == old_blocks
            &&& b.data == data
            &&& b.id == next_id(old_blocks)
            &&& b.prev_hash@ == next_link(old_blocks)
            &&& is_mined(b, DIFFICULTY)
            &&& (chain_valid(old_blocks, DIFFICULTY) ==> chain_valid(new_blocks, DIFFICULTY))
        },
        Err(_) => {
            &&& new_blocks == old_blocks
            &&& no_nonce_works(next_id(old_blocks), data@, next_link(old_blocks), DIFFICULTY)
        },
    }
}

/// Mines a block with the payload `data` on top of the chain and appends it.
/// A valid chain stays valid.
pub fn push(chain: &mut Chain, data: Data) -> (r: Result<(), MiningError>)
    requires
        can_extend(old(chain).blocks@, data@),
    ensures
        push_outcome(old(chain).blocks@, final(chain).blocks@, data, r),
{
    let n = chain.blocks.len();
    let made = if n == 0 {
        make_block(None, data)
    } else {
        make_block(Some(&chain.blocks[n - 1]), data)
    };
    match made {
        Ok(b) => {
            chain.blocks.push(b);
            proof {
                let (old_blocks, new_blocks) = (old(chain).blocks@, chain.blocks@);
                assert(new_blocks.drop_last() =~= old_blocks);
                assert(new_blocks[n as int] == b);
                if chain_valid(old_blocks, DIFFICULTY) {
                    assert forall|j: int| 0 <= j < new_blocks.len() implies block_valid(
                        new_blocks,
                        j,
                        DIFFICULTY,
                    ) by {
                        if j < n {
                            assert(block_valid(old_blocks, j, DIFFICULTY));
                        } else if n > 0 {
                            assert(block_valid(old_blocks, n - 1, DIFFICULTY));
                        }
                    }
                }
            }
            Ok(())
        },
        Err(e) => Err(e),
    }
}

/// An empty chain.
pub fn init() -> (r: Chain)
    ensures
        r.blocks@.len() == 0,
{
    Chain { blocks: Vec::new() }
}

/// A ledger that can be created empty, extended by mining, and verified.
pub trait Blockchain: Sized {
    /// The blocks of the ledger, in order.
    spec fn block_seq(&self) -> Seq<Block>;

    /// An empty ledger.
    fn init() -> (r: Self)
        ensures
            r.block_seq().len() == 0,
    ;

    /// Mines a block with the payload `data` and appends it.
    fn push(&mut self, data: Data) -> (r: Result<(), MiningError>)
        requires
            can_extend(old(self).block_seq(), data@),
        ensures
            push_outcome(old(self).block_seq(), final(self).block_seq(), data, r),
    ;

    /// Checks every block; reports the first violation.
    fn verify(&self) -> (r: Result<(), VerificationError>)
        requires
            all_hashable(self.block_seq()),
        ensures
            r is Ok <==> chain_valid(self.block_seq(), DIFFICULTY),
            r matches Err(e) ==> e.reports(self.block_seq(), DIFFICULTY),
    ;
}

impl Blockchain for Chain {
    open spec fn block_seq(&self) -> Seq<Block> {
        self.blocks@
    }

    fn init() -> (r: Self) {
        init()
    }

    fn push(&mut self, data: Data) -> (r: Result<(), MiningError>) {
        push(self, data)
    }

    fn verify(&self) -> (r: Result<(), VerificationError>) {
        verify(self)
    }
}

} // verus!
