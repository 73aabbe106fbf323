//! What verification detects: changes made to a valid chain behind the
//! engine's back, and what undoing them restores.
use crate::block::{meets_difficulty, Block, Data};
use crate::chain::{
    block_valid, chain_valid, expected_prev, first_invalid, id_ok, is_mined, link_ok,
    nonce_works,
};
use vstd::prelude::*;

verus! {

/// The empty chain is valid at every difficulty.
pub proof fn lemma_empty_chain_valid(difficulty: u32)
    ensures
        chain_valid(Seq::<Block>::empty(), difficulty),
{
}

/// A block whose payload has been replaced by `data`, nothing else changed.
pub open spec fn with_data(b: Block, data: Data) -> Block {
    Block { data: data, ..b }
}

/// A block whose predecessor digest has been replaced by `h`.
pub open spec fn with_prev_hash(b: Block, h: crate::block::Hash) -> Block {
    Block { prev_hash: h, ..b }
}

/// A block whose nonce has been replaced by `nonce`.
pub open spec fn with_nonce(b: Block, nonce: u32) -> Block {
    Block { nonce: nonce, ..b }
}

/// Replacing the payload of block `k` of a valid chain, without mining it
/// again, makes verification fail. Where the new digest misses the difficulty,
/// the first violation is at `k`, on proof of work; where it still meets it but
/// differs from the old digest, the first violation is at `k + 1`, on the link.
/// Putting the old block back makes the chain valid again.
pub proof fn lemma_payload_tampering_detected(
    blocks: Seq<Block>,
    k: int,
    data: Data,
    difficulty: u32,
)
    requires
        chain_valid(blocks, difficulty),
        0 <= k < blocks.len(),
        !meets_difficulty(with_data(blocks[k], data).digest(), difficulty) || (k + 1 < blocks.len()
            && with_data(blocks[k], data).digest() != blocks[k].digest()),
    ensures
        ({
            let t = blocks.update(k, with_data(blocks[k], data));
            &&& !chain_valid(t, difficulty)
            &&& !meets_difficulty(t[k].digest(), difficulty) ==> {
                &&& first_invalid(t, k, difficulty)
                &&& id_ok(t, k)
                &&& link_ok(t, k)
            }
            &&& meets_difficulty(t[k].digest(), difficulty) ==> {
                &&& first_invalid(t, k + 1, difficulty)
                &&& id_ok(t, k + 1)
                &&& !link_ok(t, k + 1)
            }
            &&& chain_valid(t.update(k, blocks[k]), difficulty)
        }),
{
    let t = blocks.update(k, with_data(blocks[k], data));
    assert forall|j: int| 0 <= j < k implies block_valid(t, j, difficulty) by {
        assert(block_valid(blocks, j, difficulty));
    }
    assert(block_valid(blocks, k, difficulty));
    if meets_difficulty(t[k].digest(), difficulty) {
        assert(block_valid(blocks, k + 1, difficulty));
        assert(block_valid(t, k, difficulty));
        assert forall|j: int| 0 <= j < k + 1 implies block_valid(t, j, difficulty) by {
            if j < k {
                assert(block_valid(blocks, j, difficulty));
            }
        }
        assert(!block_valid(t, k + 1, difficulty));
    } else {
        assert(!block_valid(t, k, difficulty));
    }
    assert(t.update(k, blocks[k]) =~= blocks);
}

/// Replacing the predecessor digest of block `k` of a valid chain by a wrong
/// one makes verification fail first at `k`, on the link, with its id still
/// right. Setting it to the right digest again makes the chain valid again.
pub proof fn lemma_link_tampering_detected(
    blocks: Seq<Block>,
    k: int,
    h: crate::block::Hash,
    fixed: crate::block::Hash,
    difficulty: u32,
)
    requires
        chain_valid(blocks, difficulty),
        0 <= k < blocks.len(),
        h@ != expected_prev(blocks, k),
        fixed@ == expected_prev(blocks, k),
    ensures
        ({
            let t = blocks.update(k, with_prev_hash(blocks[k], h));
            &&& first_invalid(t, k, difficulty)
            &&& id_ok(t, k)
            &&& !link_ok(t, k)
            &&& chain_valid(t.update(k, with_prev_hash(t[k], fixed)), difficulty)
        }),
{
    let t = blocks.update(k, with_prev_hash(blocks[k], h));
    assert forall|j: int| 0 <= j < k implies block_valid(t, j, difficulty) by {
        assert(block_valid(blocks, j, difficulty));
    }
    assert(block_valid(blocks, k, difficulty));
    assert(expected_prev(t, k) == expected_prev(blocks, k));
    assert(!block_valid(t, k, difficulty));
    let u = t.update(k, with_prev_hash(t[k], fixed));
    assert(u[k].encoding() =~= blocks[k].encoding());
    assert forall|j: int| 0 <= j < u.len() implies block_valid(u, j, difficulty) by {
        assert(block_valid(blocks, j, difficulty));
        if j == k + 1 {
            assert(u[j] == blocks[j]);
        }
    }
}

/// Mining block `k` of a valid chain again at a lower difficulty, with a nonce
/// whose digest misses the chain's difficulty, makes verification fail first
/// at `k` on proof of work, while its id and its link are right.
pub proof fn lemma_weaker_work_detected(
    blocks: Seq<Block>,
    k: int,
    nonce: u32,
    lower: u32,
    difficulty: u32,
)
    requires
        chain_valid(blocks, difficulty),
        0 <= k < blocks.len(),
        lower < difficulty,
        is_mined(with_nonce(blocks[k], nonce), lower),
        !nonce_works(blocks[k].id, nonce, blocks[k].data@, blocks[k].prev_hash@, difficulty),
    ensures
        ({
            let t = blocks.update(k, with_nonce(blocks[k], nonce));
            &&& first_invalid(t, k, difficulty)
            &&& id_ok(t, k)
            &&& link_ok(t, k)
        }),
{
    let t = blocks.update(k, with_nonce(blocks[k], nonce));
    assert forall|j: int| 0 <= j < k implies block_valid(t, j, difficulty) by {
        assert(block_valid(blocks, j, difficulty));
    }
    assert(block_valid(blocks, k, difficulty));
    assert(!block_valid(t, k, difficulty));
}

} // verus!
