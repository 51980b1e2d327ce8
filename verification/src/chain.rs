use vstd::prelude::*;
use vstd::string::*;
use crate::block::{Block, BlockView, Headers, Payload, payload_json, serialize_payload};
use crate::clock::now_timestamp;
use crate::codec::{decimal, i64_to_string};
use crate::hasher::{generate_hash, sha256_hex_of};
use crate::pow::{meets_target, validate_hash};

verus! {

/// Why a chain operation could not do its work. Rejections are ordinary,
/// recoverable outcomes: the chain is left exactly as it was.
#[derive(Clone, Copy, Debug, PartialEq, Eq, Structural)]
pub enum ChainError {
    /// The chain holds no block at all. The constructor makes this
    /// unreachable, but a chain assembled by hand can exhibit it.
    ChainEmpty,
    /// The candidate's `previous_hash` does not match the current tip.
    RejectedLinkage,
    /// The digest recomputed from the candidate's payload and nonce does
    /// not meet the difficulty target.
    RejectedProofOfWork,
}

/// The mathematical value of a chain.
pub struct BlockchainView {
    pub difficulty: nat,
    pub chain: Seq<BlockView>,
    pub pow_prefix: Seq<char>,
}

/// The values of a sequence of blocks.
pub open spec fn chain_view(blocks: Seq<Block>) -> Seq<BlockView> {
    blocks.map_values(|b: Block| b@)
}

/// The digest that the proof-of-work rule inspects: the payload's hash,
/// with the nonce's decimal digits appended, hashed once more.
pub open spec fn pow_digest(p: crate::block::PayloadView, nonce: int) -> Seq<char> {
    sha256_hex_of(sha256_hex_of(payload_json(p)) + decimal(nonce))
}

/// A block is sealed when its payload and nonce satisfy the proof-of-work
/// rule at the given prefix symbol and difficulty. The stored `block_hash`
/// plays no part: it is never trusted during verification.
pub open spec fn block_sealed(b: BlockView, prefix: Seq<char>, difficulty: nat) -> bool {
    meets_target(pow_digest(b.payload, b.headers.nonce), prefix, difficulty)
}

/// The acceptance rule of `send_block`: the candidate must link to the
/// current tip and be sealed. A pure function of the tip's hash, the
/// candidate, the prefix symbol and the difficulty — nothing else.
pub open spec fn block_accepted(
    tip_hash: Seq<char>,
    b: BlockView,
    prefix: Seq<char>,
    difficulty: nat,
) -> bool {
    b.payload.previous_hash == tip_hash && block_sealed(b, prefix, difficulty)
}

/// The chain's standing invariant: never empty, the genesis block at index
/// 0 with sequence number 0, empty `previous_hash` and nonce 0, every later
/// block linked to its predecessor's stored hash and sealed at the chain's
/// current difficulty. The genesis block is exempt from proof-of-work.
pub open spec fn well_formed(c: BlockchainView) -> bool {
    &&& c.chain.len() >= 1
    &&& c.chain[0].payload.seq == 0
    &&& c.chain[0].payload.previous_hash == Seq::<char>::empty()
    &&& c.chain[0].headers.nonce == 0
    &&& forall|i: int|
        1 <= i < c.chain.len() ==> (#[trigger] c.chain[i]).payload.previous_hash == c.chain[i
            - 1].headers.block_hash
    &&& forall|i: int|
        1 <= i < c.chain.len() ==> block_sealed(#[trigger] c.chain[i], c.pow_prefix, c.difficulty)
}

/// Sequence numbers count up from 0 in chain order. The constructor
/// establishes this and honest proposals keep it (`create_block` hands out
/// the tip's number plus one), but acceptance checks linkage and the seal
/// only: a block offered with an alien sequence number is not turned away
/// for that alone.
pub open spec fn seq_numbers_consecutive(c: BlockchainView) -> bool {
    forall|i: int| 0 <= i < c.chain.len() ==> (#[trigger] c.chain[i]).payload.seq == i
}

/// The same chain with one more block at the end.
pub open spec fn with_block(c: BlockchainView, b: BlockView) -> BlockchainView {
    BlockchainView { difficulty: c.difficulty, pow_prefix: c.pow_prefix, chain: c.chain.push(b) }
}

/// Appending an accepted block keeps the chain well-formed: the new block
/// links to the old tip and is sealed, and nothing before it changes.
pub proof fn lemma_append_preserves_well_formed(c: BlockchainView, b: BlockView)
    requires
        well_formed(c),
        block_accepted(c.chain.last().headers.block_hash, b, c.pow_prefix, c.difficulty),
    ensures
        well_formed(with_block(c, b)),
{
    let c2 = with_block(c, b);
    assert forall|i: int|
        1 <= i < c2.chain.len() implies (#[trigger] c2.chain[i]).payload.previous_hash == c2.chain[
        i - 1].headers.block_hash by {
        if i < c.chain.len() {
            assert(c2.chain[i] == c.chain[i]);
            assert(c2.chain[i - 1] == c.chain[i - 1]);
        } else {
            assert(c2.chain[i] == b);
            assert(c2.chain[i - 1] == c.chain[c.chain.len() - 1]);
        }
    }
    assert forall|i: int|
        1 <= i < c2.chain.len() implies block_sealed(
        #[trigger] c2.chain[i],
        c2.pow_prefix,
        c2.difficulty,
    ) by {
        if i < c.chain.len() {
            assert(c2.chain[i] == c.chain[i]);
        } else {
            assert(c2.chain[i] == b);
        }
    }
}

/// Acceptance is a pure decision: two chains with the same tip hash, prefix
/// symbol and difficulty treat every candidate block identically.
pub proof fn lemma_send_block_deterministic(c1: BlockchainView, c2: BlockchainView, b: BlockView)
    requires
        c1.chain.len() > 0,
        c2.chain.len() > 0,
        c1.chain.last().headers.block_hash == c2.chain.last().headers.block_hash,
        c1.pow_prefix == c2.pow_prefix,
        c1.difficulty == c2.difficulty,
    ensures
        block_accepted(c1.chain.last().headers.block_hash, b, c1.pow_prefix, c1.difficulty)
            == block_accepted(c2.chain.last().headers.block_hash, b, c2.pow_prefix, c2.difficulty),
{
}

/// A hash recorded when a block was sealed and a hash recomputed later from
/// the same unmodified payload are one and the same.
pub proof fn lemma_round_trip(p: crate::block::PayloadView, stored: Seq<char>, recomputed: Seq<char>)
    requires
        stored == sha256_hex_of(payload_json(p)),
        recomputed == sha256_hex_of(payload_json(p)),
    ensures
        stored == recomputed,
{
}

/// The chain itself: the required difficulty, the proof-of-work prefix
/// symbol, and the blocks in insertion order, the genesis block first.
pub struct Blockchain {
    pub difficulty: usize,
    pub chain: Vec<Block>,
    pub pow_prefix: String,
}

impl View for Blockchain {
    type V = BlockchainView;

    open spec fn view(&self) -> BlockchainView {
        BlockchainView {
            difficulty: self.difficulty as nat,
            chain: chain_view(self.chain@),
            pow_prefix: self.pow_prefix@,
        }
    }
}

impl Blockchain {
    /// Creates the chain and synthesizes the genesis block directly: it is
    /// constructed, not mined, and carries sequence number 0, an empty
    /// `previous_hash`, nonce 0, and the hash of its own serialization.
    pub fn new(difficulty: usize, pow_prefix: &str) -> (r: Blockchain)
        ensures
            r@.difficulty == difficulty as nat,
            r@.pow_prefix == pow_prefix@,
            r@.chain.len() == 1,
            r@.chain[0].payload.seq == 0,
            r@.chain[0].payload.data == "Genesis Block"@,
            r@.chain[0].payload.previous_hash == Seq::<char>::empty(),
            r@.chain[0].headers.nonce == 0,
            r@.chain[0].headers.block_hash == sha256_hex_of(payload_json(r@.chain[0].payload)),
            r@.chain[0].headers.block_hash.len() == 64,
            well_formed(r@),
            seq_numbers_consecutive(r@),
    {
        let mut blockchain = Blockchain {
            difficulty,
            chain: Vec::new(),
            pow_prefix: String::from_str(pow_prefix),
        };
        blockchain.generate_genesis_block();
        blockchain
    }

    /// Builds and inserts the genesis block at index 0.
    fn generate_genesis_block(&mut self)
        requires
            old(self).chain@.len() == 0,
        ensures
            final(self).difficulty == old(self).difficulty,
            final(self).pow_prefix@ == old(self).pow_prefix@,
            final(self)@.chain.len() == 1,
            final(self)@.chain[0].payload.seq == 0,
            final(self)@.chain[0].payload.data == "Genesis Block"@,
            final(self)@.chain[0].payload.previous_hash == Seq::<char>::empty(),
            final(self)@.chain[0].headers.nonce == 0,
            final(self)@.chain[0].headers.block_hash == sha256_hex_of(
                payload_json(final(self)@.chain[0].payload),
            ),
            final(self)@.chain[0].headers.block_hash.len() == 64,
    {
        let payload = Payload {
            seq: 0,
            data: String::from_str("Genesis Block"),
            timestamp: now_timestamp(),
            previous_hash: String::new(),
        };
        let serialized_payload = serialize_payload(&payload);
        let block = Block {
            headers: Headers { block_hash: generate_hash(serialized_payload.as_str()), nonce: 0 },
            payload,
        };
        self.chain.insert(0, block);
        proof {
            assert(self@.chain =~= seq![block@]);
        }
    }

    /// The chain's final block, or `ChainEmpty` if there is none.
    pub fn last_block(&self) -> (r: Result<Block, ChainError>)
        ensures
            self.chain@.len() == 0 ==> (r matches Err(e) && e == ChainError::ChainEmpty),
            self.chain@.len() > 0 ==> (r matches Ok(b) && b@ == self@.chain.last()),
    {
        if self.chain.len() == 0 {
            Err(ChainError::ChainEmpty)
        } else {
            Ok(self.chain[self.chain.len() - 1].clone())
        }
    }

    /// The stored hash of the chain's final block, or `ChainEmpty`.
    pub fn last_hash(&self) -> (r: Result<String, ChainError>)
        ensures
            self.chain@.len() == 0 ==> (r matches Err(e) && e == ChainError::ChainEmpty),
            self.chain@.len() > 0 ==> (r matches Ok(h) && h@ == self@.chain.last().headers.block_hash),
    {
        match self.last_block() {
            Ok(block) => Ok(block.headers.block_hash),
            Err(e) => Err(e),
        }
    }

    /// Proposes a payload for the next block: one past the tip's sequence
    /// number, linked to the tip's stored hash, stamped with the clock's
    /// current reading. The chain itself is not touched.
    pub fn create_block(&mut self, data: String) -> (r: Result<Payload, ChainError>)
        requires
            old(self).chain@.len() > 0 ==> old(self)@.chain.last().payload.seq < i32::MAX,
        ensures
            final(self)@ == old(self)@,
            old(self).chain@.len() == 0 ==> (r matches Err(e) && e == ChainError::ChainEmpty),
            old(self).chain@.len() > 0 ==> (r matches Ok(p) && p@.seq == old(self)@.chain.last().payload.seq
                + 1 && p@.previous_hash == old(self)@.chain.last().headers.block_hash && p@.data
                == data@),
    {
        let last_block = match self.last_block() {
            Ok(b) => b,
            Err(e) => {
                return Err(e);
            },
        };
        let previous_hash = match self.last_hash() {
            Ok(h) => h,
            Err(e) => {
                return Err(e);
            },
        };
        let payload = Payload {
            seq: last_block.payload.seq + 1,
            previous_hash,
            data,
            timestamp: now_timestamp(),
        };
        Ok(payload)
    }

    /// The proof-of-work search: starting at nonce 0 and counting up, finds
    /// the smallest nonce whose derived digest meets the target, and seals
    /// the payload with it. Returns `None` only if no nonce in the whole
    /// search space works — the search is capped rather than unbounded, so
    /// an impossible target cannot hang the caller forever.
    pub fn mine_block(&mut self, block: &Payload) -> (r: Option<Block>)
        ensures
            final(self)@ == old(self)@,
            r matches Some(b) ==> (b@.payload == block@ && b@.headers.block_hash == sha256_hex_of(
                payload_json(block@),
            ) && block_sealed(b@, old(self)@.pow_prefix, old(self)@.difficulty) && forall|n: int|
                0 <= n < b@.headers.nonce ==> !meets_target(
                    pow_digest(block@, n),
                    old(self)@.pow_prefix,
                    old(self)@.difficulty,
                )),
            r is None ==> forall|n: int|
                0 <= n <= i32::MAX ==> !meets_target(
                    pow_digest(block@, n),
                    old(self)@.pow_prefix,
                    old(self)@.difficulty,
                ),
    {
        let serialized = serialize_payload(block);
        let block_hash = generate_hash(serialized.as_str());
        let mut nonce: i32 = 0;
        loop
            invariant
                block_hash@ == sha256_hex_of(payload_json(block@)),
                0 <= nonce <= i32::MAX,
                forall|n: int|
                    0 <= n < nonce ==> !meets_target(
                        pow_digest(block@, n),
                        self@.pow_prefix,
                        self@.difficulty,
                    ),
            decreases i32::MAX - nonce,
        {
            let nonce_digits = i64_to_string(nonce as i64);
            let mut pow_input = block_hash.clone();
            pow_input.append(nonce_digits.as_str());
            let candidate = generate_hash(pow_input.as_str());
            if validate_hash(candidate.as_str(), self.pow_prefix.as_str(), self.difficulty) {
                let sealed = Block {
                    headers: Headers { block_hash, nonce },
                    payload: block.clone(),
                };
                return Some(sealed);
            }
            if nonce == i32::MAX {
                return None;
            }
            nonce = nonce + 1;
        }
    }

    /// The verification gate: the candidate must link to the current tip,
    /// and the digest recomputed from its payload and nonce must meet the
    /// target. The candidate's own stored `block_hash` is ignored — a
    /// forged value there cannot help a block in.
    pub fn verify_block(&self, block: &Block) -> (r: Result<(), ChainError>)
        ensures
            self.chain@.len() == 0 ==> (r matches Err(e) && e == ChainError::ChainEmpty),
            self.chain@.len() > 0 ==> (r is Ok <==> block_accepted(
                self@.chain.last().headers.block_hash,
                block@,
                self@.pow_prefix,
                self@.difficulty,
            )),
            self.chain@.len() > 0 ==> (r == Err::<(), ChainError>(ChainError::RejectedLinkage)
                <==> block@.payload.previous_hash != self@.chain.last().headers.block_hash),
            self.chain@.len() > 0 ==> (r == Err::<(), ChainError>(ChainError::RejectedProofOfWork)
                <==> block@.payload.previous_hash == self@.chain.last().headers.block_hash
                && !block_sealed(block@, self@.pow_prefix, self@.difficulty)),
    {
        let last_block_hash = match self.last_hash() {
            Ok(h) => h,
            Err(e) => {
                return Err(e);
            },
        };
        let linked = block.payload.previous_hash == last_block_hash;
        if !linked {
            return Err(ChainError::RejectedLinkage);
        }
        let serialized = serialize_payload(&block.payload);
        let mut pow_input = generate_hash(serialized.as_str());
        let nonce_digits = i64_to_string(block.headers.nonce as i64);
        pow_input.append(nonce_digits.as_str());
        let test_hash = generate_hash(pow_input.as_str());
        if !validate_hash(test_hash.as_str(), self.pow_prefix.as_str(), self.difficulty) {
            return Err(ChainError::RejectedProofOfWork);
        }
        Ok(())
    }

    /// Verifies the candidate and, if both checks pass, appends it as the
    /// new tip; a rejected block leaves the chain untouched. Either way the
    /// chain's contents after the attempt are returned. Acceptance keeps
    /// the chain well-formed.
    pub fn send_block(&mut self, block: &Block) -> (r: Vec<Block>)
        ensures
            old(self).chain@.len() > 0 && block_accepted(
                old(self)@.chain.last().headers.block_hash,
                block@,
                old(self)@.pow_prefix,
                old(self)@.difficulty,
            ) ==> final(self)@ == with_block(old(self)@, block@),
            !(old(self).chain@.len() > 0 && block_accepted(
                old(self)@.chain.last().headers.block_hash,
                block@,
                old(self)@.pow_prefix,
                old(self)@.difficulty,
            )) ==> final(self)@ == old(self)@,
            chain_view(r@) == final(self)@.chain,
            well_formed(old(self)@) ==> well_formed(final(self)@),
    {
        let ghost pre = self@;
        let verdict = self.verify_block(block);
        if verdict.is_ok() {
            self.chain.push(block.clone());
            proof {
                assert(self@.chain =~= pre.chain.push(block@));
                if well_formed(pre) {
                    lemma_append_preserves_well_formed(pre, block@);
                }
            }
        }
        self.chain_snapshot()
    }

    /// A copy of the chain's blocks, in chain order.
    fn chain_snapshot(&self) -> (r: Vec<Block>)
        ensures
            chain_view(r@) == self@.chain,
    {
        let mut out: Vec<Block> = Vec::new();
        let mut i: usize = 0;
        while i < self.chain.len()
            invariant
                i <= self.chain@.len(),
                out@.len() == i,
                forall|k: int| 0 <= k < i ==> (#[trigger] out@[k])@ == self.chain@[k]@,
            decreases self.chain@.len() - i,
        {
            let copied = self.chain[i].clone();
            out.push(copied);
            i += 1;
        }
        proof {
            assert(chain_view(out@) =~= self@.chain);
        }
        out
    }
}

} // verus!
