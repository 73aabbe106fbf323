//! Blocks, their canonical byte encoding, their digest and the difficulty predicate.
use crypto::digest::Digest;
use crypto::sha2::Sha256;
use vstd::prelude::*;
use vstd::string::StringExecFns;

verus! {

broadcast use vstd::array::group_array_axioms;

pub type Nonce = u32;

pub type Hash = [u8; 32];

pub type Data = Vec<u8>;


/// The number of leading zero bits that a block's digest must have.
pub const DIFFICULTY: u32 = 4;

/// The longest payload whose block encoding the digest accepts: the digest
/// counts the message length in bits in 64 bits.
pub const MAX_PAYLOAD_LEN: u64 = 0x1fff_ffff_ffff_ffc0;

/// One ledger entry.
#[derive(Debug)]
pub struct Block {
    pub id: u64,
    pub nonce: Nonce,
    pub data: Data,
    pub prev_hash: Hash,
}

/// The sentinel digest as a sequence: 32 zero bytes.
pub open spec fn sentinel() -> Seq<u8> {
    Seq::new(32, |_i: int| 0u8)
}

/// Big-endian bytes of a 64-bit value, most significant first.
pub open spec fn be_u64(n: u64) -> Seq<u8> {
    seq![
        (n >> 56u64) as u8,
        (n >> 48u64) as u8,
        (n >> 40u64) as u8,
        (n >> 32u64) as u8,
        (n >> 24u64) as u8,
        (n >> 16u64) as u8,
        (n >> 8u64) as u8,
        n as u8,
    ]
}

/// Big-endian bytes of a 32-bit value, most significant first.
pub open spec fn be_u32(n: u32) -> Seq<u8> {
    seq![(n >> 24u32) as u8, (n >> 16u32) as u8, (n >> 8u32) as u8, n as u8]
}

/// The digest that the genesis block refers to as its predecessor.
pub fn zero_hash() -> (r: Hash)
    ensures
        r@ == sentinel(),
{
    let r = [0u8; 32];
    assert(r@ =~= sentinel());
    r
}

/// The canonical encoding of a block's fields, in this order.
pub open spec fn encode_fields(id: u64, nonce: u32, data: Seq<u8>, prev_hash: Seq<u8>) -> Seq<u8> {
    be_u64(id) + be_u32(nonce) + data + prev_hash
}

impl Block {
    /// The canonical encoding: id (8 bytes, big-endian), nonce (4 bytes,
    /// big-endian), the payload as it stands, then the predecessor's digest.
    /// No length separates the payload from the digest that follows it.
    pub open spec fn encoding(self) -> Seq<u8> {
        encode_fields(self.id, self.nonce, self.data@, self.prev_hash@)
    }

    /// The block's payload is short enough to be hashed.
    pub open spec fn hashable(self) -> bool {
        self.data@.len() <= MAX_PAYLOAD_LEN
    }

    /// The block's digest.
    pub open spec fn digest(self) -> Seq<u8> {
        sha256_of(self.encoding())
    }
}

/// The SHA-256 digest of a byte sequence.
pub uninterp spec fn sha256_of(bytes: Seq<u8>) -> Seq<u8>;

/// Relies on rust-crypto's `Sha256` (`new`, `Digest::input`, `Digest::result`):
/// the 32-byte SHA-256 digest of the input, which depends on the bytes alone.
/// `input` panics when the message length in bits does not fit in 64 bits.
#[verifier::external_body]
fn sha256(bytes: &Vec<u8>) -> (r: Hash)
    requires
        bytes@.len() < 0x2000_0000_0000_0000,
    ensures
        r@ == sha256_of(bytes@),
{
    let mut hasher = Sha256::new();
    hasher.input(bytes.as_slice());
    let mut result = [0u8; 32];
    hasher.result(&mut result);
    result
}

/// Appends the big-endian bytes of `n` to `bytes`.
fn push_be_u64(bytes: &mut Vec<u8>, n: u64)
    ensures
        final(bytes)@ == old(bytes)@ + be_u64(n),
{
    bytes.push((n >> 56u64) as u8);
    bytes.push((n >> 48u64) as u8);
    bytes.push((n >> 40u64) as u8);
    bytes.push((n >> 32u64) as u8);
    bytes.push((n >> 24u64) as u8);
    bytes.push((n >> 16u64) as u8);
    bytes.push((n >> 8u64) as u8);
    bytes.push(n as u8);
    assert(final(bytes)@ =~= old(bytes)@ + be_u64(n));
}

/// Appends the big-endian bytes of `n` to `bytes`.
fn push_be_u32(bytes: &mut Vec<u8>, n: u32)
    ensures
        final(bytes)@ == old(bytes)@ + be_u32(n),
{
    bytes.push((n >> 24u32) as u8);
    bytes.push((n >> 16u32) as u8);
    bytes.push((n >> 8u32) as u8);
    bytes.push(n as u8);
    assert(final(bytes)@ =~= old(bytes)@ + be_u32(n));
}

/// Appends every byte of `src` to `bytes`, in order.
fn append_bytes(bytes: &mut Vec<u8>, src: &[u8])
    ensures
        final(bytes)@ == old(bytes)@ + src@,
{
    let ghost start = bytes@;
    let mut i: usize = 0;
    while i < src.len()
        invariant
            i <= src@.len(),
            bytes@ == start + src@.subrange(0, i as int),
        decreases src@.len() - i,
    {
        bytes.push(src[i]);
        i = i + 1;
        assert(src@.subrange(0, i as int) =~= src@.subrange(0, i - 1) + seq![src@[i - 1]]);
    }
    assert(src@.subrange(0, i as int) =~= src@);
}

/// The canonical encoding of `block` (see [`Block::encoding`]).
pub fn as_bytes(block: &Block) -> (r: Vec<u8>)
    ensures
        r@ == block.encoding(),
{
    let mut bytes: Vec<u8> = Vec::new();
    push_be_u64(&mut bytes, block.id);
    push_be_u32(&mut bytes, block.nonce);
    append_bytes(&mut bytes, block.data.as_slice());
    append_bytes(&mut bytes, block.prev_hash.as_slice());
    assert(bytes@ =~= block.encoding());
    bytes
}

/// The digest of `block`'s canonical encoding.
pub fn hash(block: &Block) -> (r: Hash)
    requires
        block.hashable(),
    ensures
        r@ == block.digest(),
{
    let bytes = as_bytes(block);
    sha256(&bytes)
}

/// Leading zero bits of a byte sequence read most significant bit first: eight
/// for each zero byte, then those of the first non-zero byte.
pub open spec fn leading_zeros_of(h: Seq<u8>) -> nat
    decreases h.len(),
{
    if h.len() == 0 {
        0
    } else if h[0] == 0 {
        8 + leading_zeros_of(h.drop_first())
    } else {
        h[0].leading_zeros() as nat
    }
}

/// Whether a digest has at least `difficulty` leading zero bits.
pub open spec fn meets_difficulty(h: Seq<u8>, difficulty: u32) -> bool {
    leading_zeros_of(h) >= difficulty
}

/// The number of leading zero bits of `hash`.
pub fn leading_zero_bits(hash: &Hash) -> (r: u32)
    ensures
        r == leading_zeros_of(hash@),
{
    let mut zero_bits: u32 = 0;
    let mut i: usize = 0;
    assert(hash@.subrange(0, 32) =~= hash@);
    while i < 32
        invariant
            i <= 32,
            zero_bits == 8 * i,
            leading_zeros_of(hash@) == zero_bits + leading_zeros_of(hash@.subrange(i as int, 32)),
        decreases 32 - i,
    {
        let byte = hash[i];
        let ghost rest = hash@.subrange(i as int, 32);
        assert(rest.drop_first() =~= hash@.subrange(i + 1, 32));
        if byte == 0 {
            zero_bits = zero_bits + 8;
        } else {
            return zero_bits + byte.leading_zeros();
        }
        i = i + 1;
    }
    assert(hash@.subrange(32, 32).len() == 0);
    zero_bits
}

/// Whether `hash` has at least `difficulty` leading zero bits.
pub fn matches_difficulty(hash: &Hash, difficulty: u32) -> (r: bool)
    ensures
        r == meets_difficulty(hash@, difficulty),
{
    leading_zero_bits(hash) >= difficulty
}

/// Whether two digests hold the same bytes.
pub(crate) fn same_hash(a: &Hash, b: &Hash) -> (r: bool)
    ensures
        r == (a@ == b@),
{
    let mut i: usize = 0;
    while i < 32
        invariant
            i <= 32,
            forall|j: int| 0 <= j < i ==> a@[j] == b@[j],
        decreases 32 - i,
    {
        if a[i] != b[i] {
            return false;
        }
        i = i + 1;
    }
    assert(a@ =~= b@);
    true
}

/// The lower-case hexadecimal digits, by value.
pub open spec fn hex_digits() -> Seq<char> {
    seq!['0', '1', '2', '3', '4', '5', '6', '7', '8', '9', 'a', 'b', 'c', 'd', 'e', 'f']
}

/// Two lower-case hexadecimal digits per byte, high digit first.
pub open spec fn hex_of(bytes: Seq<u8>) -> Seq<char>
    decreases bytes.len(),
{
    if bytes.len() == 0 {
        seq![]
    } else {
        let b = bytes.last();
        hex_of(bytes.drop_last()) + seq![hex_digits()[b as int / 16], hex_digits()[b as int % 16]]
    }
}

fn hex_digit(n: u8) -> (r: &'static str)
    requires
        n < 16,
    ensures
        r@ == seq![hex_digits()[n as int]],
{
    if n == 0 {
        proof {
            reveal_strlit("0");
        }
        "0"
    } else if n == 1 {
        proof {
            reveal_strlit("1");
        }
        "1"
    } else if n == 2 {
        proof {
            reveal_strlit("2");
        }
        "2"
    } else if n == 3 {
        proof {
            reveal_strlit("3");
        }
        "3"
    } else if n == 4 {
        proof {
            reveal_strlit("4");
        }
        "4"
    } else if n == 5 {
        proof {
            reveal_strlit("5");
        }
        "5"
    } else if n == 6 {
        proof {
            reveal_strlit("6");
        }
        "6"
    } else if n == 7 {
        proof {
            reveal_strlit("7");
        }
        "7"
    } else if n == 8 {
        proof {
            reveal_strlit("8");
        }
        "8"
    } else if n == 9 {
        proof {
            reveal_strlit("9");
        }
        "9"
    } else if n == 10 {
        proof {
            reveal_strlit("a");
        }
        "a"
    } else if n == 11 {
        proof {
            reveal_strlit("b");
        }
        "b"
    } else if n == 12 {
        proof {
            reveal_strlit("c");
        }
        "c"
    } else if n == 13 {
        proof {
            reveal_strlit("d");
        }
        "d"
    } else if n == 14 {
        proof {
            reveal_strlit("e");
        }
        "e"
    } else {
        proof {
            reveal_strlit("f");
        }
        "f"
    }
}

/// Renders `arr` as lower-case hexadecimal, two digits per byte.
pub fn bytes_to_str(arr: &[u8]) -> (r: String)
    ensures
        r@ == hex_of(arr@),
{
    let mut s = String::new();
    let mut i: usize = 0;
    while i < arr.len()
        invariant
            i <= arr@.len(),
            s@ == hex_of(arr@.subrange(0, i as int)),
        decreases arr@.len() - i,
    {
        let byte = arr[i];
        s.append(hex_digit(byte / 16));
        s.append(hex_digit(byte % 16));
        assert(arr@.subrange(0, i + 1).drop_last() =~= arr@.subrange(0, i as int));
        i = i + 1;
    }
    assert(arr@.subrange(0, i as int) =~= arr@);
    s
}

} // verus!
