use vstd::prelude::*;

verus! {

/// The proof-of-work target: the prefix symbol repeated `difficulty` times.
pub open spec fn pow_target(prefix: Seq<char>, difficulty: nat) -> Seq<char>
    decreases difficulty,
{
    if difficulty == 0 {
        Seq::empty()
    } else {
        pow_target(prefix, (difficulty - 1) as nat) + prefix
    }
}

/// A digest meets the target exactly when the target is a prefix of it.
/// Difficulty 0 (and an empty prefix symbol) always succeeds.
pub open spec fn meets_target(digest: Seq<char>, prefix: Seq<char>, difficulty: nat) -> bool {
    pow_target(prefix, difficulty).is_prefix_of(digest)
}

/// With an empty prefix symbol the target is empty at every difficulty.
proof fn lemma_pow_target_empty_prefix(prefix: Seq<char>, difficulty: nat)
    requires
        prefix.len() == 0,
    ensures
        pow_target(prefix, difficulty) =~= Seq::<char>::empty(),
    decreases difficulty,
{
    if difficulty > 0 {
        lemma_pow_target_empty_prefix(prefix, (difficulty - 1) as nat);
    }
}

/// The target only grows as the difficulty grows.
proof fn lemma_pow_target_len_monotone(prefix: Seq<char>, k: nat, d: nat)
    requires
        k <= d,
    ensures
        pow_target(prefix, k).len() <= pow_target(prefix, d).len(),
    decreases d,
{
    if k < d {
        lemma_pow_target_len_monotone(prefix, k, (d - 1) as nat);
    }
}

/// A shorter repetition, extended by one more copy of the prefix symbol,
/// still sits at the front of a longer repetition.
proof fn lemma_pow_target_block(prefix: Seq<char>, k: nat, d: nat)
    requires
        k < d,
    ensures
        (pow_target(prefix, k) + prefix).is_prefix_of(pow_target(prefix, d)),
    decreases d,
{
    if k + 1 == d {
        assert((pow_target(prefix, k) + prefix).is_prefix_of(pow_target(prefix, d)));
    } else {
        lemma_pow_target_block(prefix, k, (d - 1) as nat);
        let shorter = pow_target(prefix, (d - 1) as nat);
        let longer = pow_target(prefix, d);
        assert(longer == shorter + prefix);
        assert((pow_target(prefix, k) + prefix).is_prefix_of(longer));
    }
}

/// Decides whether a digest satisfies the proof-of-work rule: it must start
/// with `pow_prefix` repeated `difficulty` times, compared exactly and
/// case-sensitively on the digest's textual form.
pub fn validate_hash(block_hash_pow: &str, pow_prefix: &str, difficulty: usize) -> (r: bool)
    ensures
        r == meets_target(block_hash_pow@, pow_prefix@, difficulty as nat),
{
    let plen = pow_prefix.unicode_len();
    let dlen = block_hash_pow.unicode_len();
    if plen == 0 {
        proof {
            lemma_pow_target_empty_prefix(pow_prefix@, difficulty as nat);
        }
        return true;
    }
    let mut k: usize = 0;
    let mut pos: usize = 0;
    while k < difficulty
        invariant
            0 < plen == pow_prefix@.len(),
            dlen == block_hash_pow@.len(),
            k <= difficulty,
            pos <= dlen,
            pos == pow_target(pow_prefix@, k as nat).len(),
            block_hash_pow@.take(pos as int) == pow_target(pow_prefix@, k as nat),
        decreases difficulty - k,
    {
        if plen > dlen - pos {
            proof {
                let target_next = pow_target(pow_prefix@, (k + 1) as nat);
                assert(target_next == pow_target(pow_prefix@, k as nat) + pow_prefix@);
                assert(target_next.len() == pos + plen);
                lemma_pow_target_len_monotone(pow_prefix@, (k + 1) as nat, difficulty as nat);
                assert(pow_target(pow_prefix@, difficulty as nat).len() > dlen);
            }
            return false;
        }
        let mut j: usize = 0;
        while j < plen
            invariant
                0 < plen == pow_prefix@.len(),
                dlen == block_hash_pow@.len(),
                k < difficulty,
                j <= plen,
                pos + plen <= dlen,
                pos == pow_target(pow_prefix@, k as nat).len(),
                block_hash_pow@.take(pos as int) == pow_target(pow_prefix@, k as nat),
                forall|m: int| 0 <= m < j ==> block_hash_pow@[pos + m] == pow_prefix@[m],
            decreases plen - j,
        {
            if block_hash_pow.get_char(pos + j) != pow_prefix.get_char(j) {
                proof {
                    let full = pow_target(pow_prefix@, difficulty as nat);
                    let head = pow_target(pow_prefix@, k as nat) + pow_prefix@;
                    lemma_pow_target_block(pow_prefix@, k as nat, difficulty as nat);
                    if full.is_prefix_of(block_hash_pow@) {
                        assert(head[pos + j] == pow_prefix@[j as int]);
                        assert(full[pos + j] == head[pos + j]);
                        assert(block_hash_pow@[pos + j] == full[pos + j]);
                        assert(false);
                    }
                }
                return false;
            }
            j += 1;
        }
        proof {
            let next = pow_target(pow_prefix@, (k + 1) as nat);
            assert(next == pow_target(pow_prefix@, k as nat) + pow_prefix@);
            assert(block_hash_pow@.take((pos + plen) as int) =~= next);
        }
        pos += plen;
        k += 1;
    }
    proof {
        assert(pow_target(pow_prefix@, difficulty as nat).is_prefix_of(block_hash_pow@));
    }
    true
}

} // verus!
