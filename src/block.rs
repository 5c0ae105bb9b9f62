//! Blocks: content-addressed records whose hash commits to their fields, and
//! the proof-of-work search that finds a nonce meeting a difficulty target.
use crate::primitives::{
    clock_nanos, decimal_text, fresh_id, render_decimal, render_utc, render_uuid, sha512_hex,
    sha512_hex_of, utc_text, uuid_text,
};
use vstd::prelude::*;
use vstd::string::StringExecFns;

verus! {

/// Why a block could not be created.
#[derive(Clone, Copy, Debug, PartialEq, Eq, Structural)]
pub enum BlockError {
    /// No nonce in the whole `u64` range gives a hash meeting the difficulty.
    ExhaustedSearchSpace,
    /// The clock reads a time that nanoseconds since the epoch in an `i64` cannot hold.
    ClockOutOfRange,
}

/// One committed unit of data.
#[derive(Clone, Debug)]
pub struct Block {
    /// Random identifier, used only as input to the hash.
    pub id: u128,
    /// Creation time in nanoseconds since the Unix epoch (UTC), used only as input to the hash.
    pub timestamp: i64,
    /// The payload.
    pub data: String,
    /// The hash of the preceding block; `None` for a genesis block.
    pub previous_block_hash: Option<String>,
    /// The digest of the other fields.
    pub hash: String,
    /// The value found by mining so that `hash` meets the difficulty.
    pub nonce: u64,
}

struct MiningResult {
    nonce: u64,
    hash: String,
}

/// The text a missing previous hash contributes: nothing.
pub open spec fn previous_text(previous: Option<String>) -> Seq<char> {
    match previous {
        Some(h) => h@,
        None => seq![],
    }
}

/// The text that is hashed: the identifier, the time, the data, the previous
/// hash and the nonce, in that order and without separators.
pub open spec fn preimage(
    id: u128,
    timestamp: i64,
    data: Seq<char>,
    previous: Seq<char>,
    nonce: u64,
) -> Seq<char> {
    uuid_text(id) + utc_text(timestamp) + data + previous + decimal_text(nonce as nat)
}

/// The digest of a block with the given fields.
pub open spec fn digest(
    id: u128,
    timestamp: i64,
    data: Seq<char>,
    previous: Option<String>,
    nonce: u64,
) -> Seq<char> {
    sha512_hex(preimage(id, timestamp, data, previous_text(previous), nonce))
}

/// The first `difficulty` characters of `hash` exist and are all `'0'`.
pub open spec fn has_leading_zeros(hash: Seq<char>, difficulty: nat) -> bool {
    &&& difficulty <= hash.len()
    &&& forall|i: int| 0 <= i < difficulty ==> hash[i] == '0'
}

impl Block {
    /// The digest recomputed from this block's recorded fields.
    pub open spec fn recomputed(&self) -> Seq<char> {
        digest(self.id, self.timestamp, self.data@, self.previous_block_hash, self.nonce)
    }

    /// The recorded hash is the digest of the recorded fields.
    pub open spec fn self_consistent(&self) -> bool {
        self.hash@ == self.recomputed()
    }

    /// Some nonce would make the digest of these fields meet `difficulty`.
    pub open spec fn solvable(
        id: u128,
        timestamp: i64,
        data: Seq<char>,
        previous: Option<String>,
        difficulty: nat,
    ) -> bool {
        exists|n: u64| has_leading_zeros(#[trigger] digest(id, timestamp, data, previous, n), difficulty)
    }

    /// Creates a block for `data` after `previous_block_hash`, with a fresh
    /// identifier and the current time, mined to `difficulty`.
    pub fn new(data: String, previous_block_hash: Option<String>, difficulty: u32) -> (r: Result<
        Block,
        BlockError,
    >)
        ensures
            r matches Ok(b) ==> {
                &&& b.data == data
                &&& b.previous_block_hash == previous_block_hash
                &&& b.self_consistent()
                &&& has_leading_zeros(b.hash@, difficulty as nat)
            },
            difficulty == 0 ==> (r matches Ok(b) ==> b.nonce == 0),
            difficulty == 0 ==> r is Ok || r == Err::<Block, BlockError>(BlockError::ClockOutOfRange),
    {
        let id = fresh_id();
        match clock_nanos() {
            Some(timestamp) => Self::with_identity(id, timestamp, data, previous_block_hash, difficulty),
            None => Err(BlockError::ClockOutOfRange),
        }
    }

    /// Creates a block with the given identifier and time, mined to
    /// `difficulty`: the nonce is the least one whose digest meets it.
    pub fn with_identity(
        id: u128,
        timestamp: i64,
        data: String,
        previous_block_hash: Option<String>,
        difficulty: u32,
    ) -> (r: Result<Block, BlockError>)
        ensures
            r matches Ok(b) ==> {
                &&& b.id == id
                &&& b.timestamp == timestamp
                &&& b.data == data
                &&& b.previous_block_hash == previous_block_hash
                &&& b.self_consistent()
                &&& has_leading_zeros(b.hash@, difficulty as nat)
                &&& forall|n: u64|
                    n < b.nonce ==> !has_leading_zeros(
                        #[trigger] digest(id, timestamp, data@, previous_block_hash, n),
                        difficulty as nat,
                    )
            },
            r is Ok <==> Self::solvable(id, timestamp, data@, previous_block_hash, difficulty as nat),
            r is Err ==> r == Err::<Block, BlockError>(BlockError::ExhaustedSearchSpace),
            difficulty == 0 ==> (r matches Ok(b) && b.nonce == 0),
    {
        let mined = Self::mine_and_return_hash(id, timestamp, &data, &previous_block_hash, difficulty);
        match mined {
            Ok(m) => Ok(
                Block {
                    id,
                    timestamp,
                    data,
                    previous_block_hash,
                    hash: m.hash,
                    nonce: m.nonce,
                },
            ),
            Err(e) => Err(e),
        }
    }

    /// The recorded hash.
    pub fn get_hash(&self) -> (r: String)
        ensures
            r == self.hash,
    {
        self.hash.clone()
    }

    /// The digest of the given fields: SHA-512 over the concatenation of the
    /// identifier, the time, the data, the previous hash (empty where absent)
    /// and the nonce, in lowercase hexadecimal.
    pub fn generate_hash(
        id: u128,
        timestamp: i64,
        data: &String,
        previous_block_hash: &Option<String>,
        nonce: u64,
    ) -> (r: String)
        ensures
            r@ == digest(id, timestamp, data@, *previous_block_hash, nonce),
    {
        let mut text = render_uuid(id);
        let time = render_utc(timestamp);
        text.append(time.as_str());
        text.append(data.as_str());
        match previous_block_hash {
            Some(h) => text.append(h.as_str()),
            None => {},
        }
        let count = render_decimal(nonce);
        text.append(count.as_str());
        sha512_hex_of(&text)
    }

    /// Searches nonces from zero upwards for the first whose digest meets `difficulty`.
    fn mine_and_return_hash(
        id: u128,
        timestamp: i64,
        data: &String,
        previous_block_hash: &Option<String>,
        difficulty: u32,
    ) -> (r: Result<MiningResult, BlockError>)
        ensures
            r matches Ok(m) ==> {
                &&& m.hash@ == digest(id, timestamp, data@, *previous_block_hash, m.nonce)
                &&& has_leading_zeros(m.hash@, difficulty as nat)
                &&& forall|n: u64|
                    n < m.nonce ==> !has_leading_zeros(
                        #[trigger] digest(id, timestamp, data@, *previous_block_hash, n),
                        difficulty as nat,
                    )
            },
            r is Ok <==> Self::solvable(id, timestamp, data@, *previous_block_hash, difficulty as nat),
            r is Err ==> r == Err::<MiningResult, BlockError>(BlockError::ExhaustedSearchSpace),
            difficulty == 0 ==> (r matches Ok(m) && m.nonce == 0),
    {
        let mut nonce: u64 = 0;
        loop
            invariant
                difficulty == 0 ==> nonce == 0,
                forall|n: u64|
                    n < nonce ==> !has_leading_zeros(
                        #[trigger] digest(id, timestamp, data@, *previous_block_hash, n),
                        difficulty as nat,
                    ),
            decreases u64::MAX - nonce,
        {
            let hash = Self::generate_hash(id, timestamp, data, previous_block_hash, nonce);
            if meets_difficulty(&hash, difficulty) {
                return Ok(MiningResult { nonce, hash });
            }
            if nonce == u64::MAX {
                assert(forall|n: u64|
                    !has_leading_zeros(
                        #[trigger] digest(id, timestamp, data@, *previous_block_hash, n),
                        difficulty as nat,
                    ));
                return Err(BlockError::ExhaustedSearchSpace);
            }
            nonce = nonce + 1;
        }
    }

    /// The digest recomputed from the block's recorded fields, nonce included.
    pub fn generate_hash_from_block(block: &Block) -> (r: String)
        ensures
            r@ == block.recomputed(),
    {
        Self::generate_hash(
            block.id,
            block.timestamp,
            &block.data,
            &block.previous_block_hash,
            block.nonce,
        )
    }

    /// A copy of this block that shares nothing with it.
    pub fn duplicate(&self) -> (r: Block)
        ensures
            r == *self,
    {
        let previous_block_hash = match &self.previous_block_hash {
            Some(h) => Some(h.clone()),
            None => None,
        };
        Block {
            id: self.id,
            timestamp: self.timestamp,
            data: self.data.clone(),
            previous_block_hash,
            hash: self.hash.clone(),
            nonce: self.nonce,
        }
    }
}

/// `block` records `prev`'s hash as its previous hash.
pub open spec fn links_to(block: Block, prev: Block) -> bool {
    match block.previous_block_hash {
        Some(h) => h@ == prev.hash@,
        None => false,
    }
}

impl Block {
    /// Whether this block's recorded hash equals `recomputed_hash` and it
    /// records `prev`'s hash as its previous hash.
    pub fn follows(&self, prev: &Block, recomputed_hash: &String) -> (r: bool)
        ensures
            r == (self.hash@ == recomputed_hash@ && links_to(*self, *prev)),
    {
        if self.hash != *recomputed_hash {
            return false;
        }
        match &self.previous_block_hash {
            Some(h) => *h == prev.hash,
            None => false,
        }
    }
}

/// Whether the first `difficulty` characters of `hash` exist and are all `'0'`.
pub fn meets_difficulty(hash: &String, difficulty: u32) -> (r: bool)
    ensures
        r == has_leading_zeros(hash@, difficulty as nat),
{
    let s = hash.as_str();
    let len = s.unicode_len();
    if difficulty as usize > len {
        return false;
    }
    let mut i: usize = 0;
    while i < difficulty as usize
        invariant
            difficulty <= s@.len(),
            s@ == hash@,
            i <= difficulty,
            forall|j: int| 0 <= j < i ==> s@[j] == '0',
        decreases difficulty - i,
    {
        if s.get_char(i) != '0' {
            return false;
        }
        i = i + 1;
    }
    true
}

/// Two computations of the digest over the same fields agree.
pub proof fn lemma_digest_deterministic(a: Block, b: Block)
    requires
        a.id == b.id,
        a.timestamp == b.timestamp,
        a.data@ == b.data@,
        previous_text(a.previous_block_hash) == previous_text(b.previous_block_hash),
        a.nonce == b.nonce,
    ensures
        a.recomputed() == b.recomputed(),
{
}

/// At difficulty zero every hash is accepted.
pub proof fn lemma_zero_difficulty_accepts_all(hash: Seq<char>)
    ensures
        has_leading_zeros(hash, 0),
{
}

} // verus!
