//! Proof-of-work mining of chunks, to a difficulty target or for a time
//! budget.
//!
//! Both modes try nonces 0, 1, 2, ..., each attempt a fresh payload with the
//! current wall-clock timestamp. The attempts made are handed back as a
//! ghost sequence, so that the contracts can say which attempt was signed.

use vstd::prelude::*;

use crate::chunk::{encode_spec, pow_spec, Chunk, ChunkData, ChunkDataView, VERSION};
use crate::clock::{elapsed_millis, monotonic_now, now_millis};
use crate::crypto::{blake3_digest, blake3_hash, ed25519_signature_of, ed25519_strict_accepts};
use crate::data_struct::Block;
use crate::hash::{be_value, cmp_hash, hash_modulus, lemma_value_from_bound, Hash256};
use crate::key::Identity;
use vstd::string::StringSliceAdditionalSpecFns;

verus! {

/// The text whose digest is the `prev_hash` of budget-mode payloads.
pub const BUDGET_PLACEHOLDER_SEED: &'static str = "nice hash";

/// A chunk that this node may send: its proof of work is the digest of its
/// payload, its signature is accepted under its payload key, and that key is
/// the node's own.
pub open spec fn emittable(c: Chunk, key: Identity) -> bool {
    &&& c.pow_ok()
    &&& c.sign_ok()
    &&& c.data.pub_key == key.public()
}

/// The proof of work of a payload, as a number.
pub open spec fn pow_value(d: ChunkDataView) -> nat {
    be_value(pow_spec(d))
}

/// Strict verification accepts the signature that `key` makes on payload
/// `d` (over the digest of its proof of work and its canonical bytes).
pub open spec fn seal_accepts(key: Identity, d: ChunkDataView) -> bool {
    let m = blake3_digest(pow_spec(d) + encode_spec(d));
    ed25519_strict_accepts(d.pub_key, m, ed25519_signature_of(key.seed(), m))
}

/// `d` is a payload that `key` builds for the claim `block`, with
/// `prev_hash` bytes `prev` and salt `salt` (any nonce, any timestamp).
pub open spec fn attempt_of(
    d: ChunkDataView,
    key: Identity,
    block: Block,
    prev: Seq<u8>,
    salt: Seq<char>,
) -> bool {
    &&& d.version == VERSION@
    &&& d.prev_hash.bytes@ == prev
    &&& d.x == block.point.x
    &&& d.y == block.point.y
    &&& d.z == block.point.z
    &&& d.block_type == block.block_info.type_id@
    &&& d.pub_key == key.public().bytes@
    &&& d.external_salt == salt
}

/// The attempts are those of nonces 0, 1, 2, ... for one claim, and each
/// has a 32-byte proof of work.
pub open spec fn attempt_run(
    attempts: Seq<ChunkDataView>,
    key: Identity,
    block: Block,
    prev: Seq<u8>,
    salt: Seq<char>,
) -> bool {
    forall|i: int|
        0 <= i < attempts.len() ==> attempt_of(#[trigger] attempts[i], key, block, prev, salt)
            && attempts[i].nonce == i && pow_spec(attempts[i]).len() == 32
}

/// Attempt `j` has the smallest proof of work of all.
pub open spec fn is_smallest(attempts: Seq<ChunkDataView>, j: int) -> bool {
    forall|i: int| 0 <= i < attempts.len() ==> pow_value(attempts[j]) <= #[trigger] pow_value(attempts[i])
}

/// The bytes of the budget-mode `prev_hash`.
pub open spec fn budget_prev() -> Seq<u8> {
    blake3_digest(BUDGET_PLACEHOLDER_SEED.spec_bytes())
}

/// Signs a mined payload, and hands the chunk out only if the signature
/// checks, so that no chunk leaves this node that a peer would reject.
fn seal(data: ChunkData, key: &Identity) -> (r: Option<Chunk>)
    requires
        data.pub_key == key.public(),
    ensures
        r matches Some(c) ==> emittable(c, *key) && c.data == data,
        r is None <==> !seal_accepts(*key, data@),
{
    let chunk = Chunk::new(data, key);
    if chunk.verify_sign() {
        Some(chunk)
    } else {
        None
    }
}

/// Target mode: tries nonces 0, 1, 2, ... until the proof of work is at most
/// `target`, then signs that payload. The payload's `prev_hash` carries the
/// target. Returns the chunk, or `None` when every nonce was above the target
/// or the signature of the payload that met it does not verify; and the
/// attempts made.
pub fn mine_to_target(key: &Identity, block: &Block, target: &Hash256, salt: &String) -> (r: (
    Option<Chunk>,
    Ghost<Seq<ChunkDataView>>,
))
    ensures
        r.1@.len() >= 1,
        attempt_run(r.1@, *key, *block, target.bytes@, salt@),
        forall|i: int| 0 <= i < r.1@.len() - 1 ==> #[trigger] pow_value(r.1@[i]) > target@,
        r.0 matches Some(c) ==> {
            &&& emittable(c, *key)
            &&& c.data@ == r.1@.last()
            &&& c.pow@ <= target@
            &&& c.data.prev_hash == *target
            &&& c.data.explanation == *block
            &&& c.data.external_salt == *salt
        },
        r.0 is None ==> (r.1@.last().nonce == u64::MAX && pow_value(r.1@.last()) > target@) || (
        pow_value(r.1@.last()) <= target@ && !seal_accepts(*key, r.1@.last())),
        target@ + 1 == hash_modulus() ==> r.1@.len() == 1 && (r.0 is None ==> !seal_accepts(
            *key,
            r.1@[0],
        )),
{
    let ghost mut attempts: Seq<ChunkDataView> = Seq::empty();
    let mut nonce: u64 = 0;
    loop
        invariant
            attempts.len() == nonce,
            attempt_run(attempts, *key, *block, target.bytes@, salt@),
            forall|i: int| 0 <= i < attempts.len() ==> #[trigger] pow_value(attempts[i]) > target@,
            target@ + 1 == hash_modulus() ==> nonce == 0,
        decreases u64::MAX - nonce,
    {
        let data = ChunkData::new(
            *target,
            block.clone(),
            salt.clone(),
            nonce,
            key.verifying_key(),
            now_millis(),
        );
        let pow = data.pow();
        proof {
            attempts = attempts.push(data@);
            lemma_value_from_bound(pow.bytes@, 0);
        }
        match cmp_hash(&pow, target) {
            core::cmp::Ordering::Greater => {},
            _ => {
                let r = seal(data, key);
                proof {
                    if r is Some {
                        let c = r->Some_0;
                        assert(c.pow.bytes@ == pow.bytes@);
                        assert(c.pow.bytes =~= pow.bytes);
                    }
                }
                return (r, Ghost(attempts));
            },
        }
        if nonce == u64::MAX {
            return (None, Ghost(attempts));
        }
        nonce = nonce + 1;
    }
}

/// The fixed `prev_hash` of budget-mode payloads.
pub fn budget_placeholder() -> (r: Hash256)
    ensures
        r.bytes@ == budget_prev(),
{
    blake3_hash(BUDGET_PLACEHOLDER_SEED.as_bytes())
}

/// Budget mode: tries nonces 0, 1, 2, ... until `cost_ms` milliseconds of
/// the monotonic clock have passed since the start, and signs the attempt
/// with the smallest proof of work (the earliest among equals). At least one
/// attempt is made, and a budget of 0 gives exactly one. Returns the chunk,
/// or `None` when its signature does not verify; and the attempts made.
pub fn mine_for_duration(key: &Identity, block: &Block, cost_ms: u64, salt: &String) -> (r: (
    Option<Chunk>,
    Ghost<Seq<ChunkDataView>>,
))
    ensures
        r.1@.len() >= 1,
        attempt_run(r.1@, *key, *block, budget_prev(), salt@),
        cost_ms == 0 ==> r.1@.len() == 1,
        r.0 matches Some(c) ==> {
            &&& emittable(c, *key)
            &&& c.data.explanation == *block
            &&& c.data.external_salt == *salt
            &&& exists|j: int| 0 <= j < r.1@.len() && c.data@ == r.1@[j] && is_smallest(r.1@, j)
        },
        r.0 is None ==> exists|j: int|
            0 <= j < r.1@.len() && is_smallest(r.1@, j) && !seal_accepts(*key, r.1@[j]),
{
    let prev_hash = budget_placeholder();
    let start = monotonic_now();
    let mut nonce: u64 = 0;
    let mut best = ChunkData::new(
        prev_hash,
        block.clone(),
        salt.clone(),
        nonce,
        key.verifying_key(),
        now_millis(),
    );
    let mut smallest = best.pow();
    let ghost mut attempts: Seq<ChunkDataView> = seq![best@];
    let ghost mut best_j: int = 0;
    loop
        invariant
            attempts.len() == nonce + 1,
            attempt_run(attempts, *key, *block, budget_prev(), salt@),
            0 <= best_j < attempts.len(),
            best@ == attempts[best_j],
            is_smallest(attempts, best_j),
            smallest.bytes@ == pow_spec(best@),
            best.explanation == *block,
            best.external_salt == *salt,
            best.pub_key == key.public(),
            prev_hash.bytes@ == budget_prev(),
            cost_ms == 0 ==> nonce == 0,
        decreases u64::MAX - nonce,
    {
        if elapsed_millis(&start) >= cost_ms as u128 || nonce == u64::MAX {
            break;
        }
        nonce = nonce + 1;
        let candidate = ChunkData::new(
            prev_hash,
            block.clone(),
            salt.clone(),
            nonce,
            key.verifying_key(),
            now_millis(),
        );
        let pow = candidate.pow();
        let ghost old_attempts = attempts;
        let ghost old_best = best_j;
        proof {
            attempts = attempts.push(candidate@);
        }
        if let core::cmp::Ordering::Less = cmp_hash(&pow, &smallest) {
            best = candidate;
            smallest = pow;
            proof {
                best_j = attempts.len() - 1;
                assert forall|i: int| 0 <= i < attempts.len() implies pow_value(attempts[best_j])
                    <= #[trigger] pow_value(attempts[i]) by {
                    if i < old_attempts.len() {
                        assert(pow_value(old_attempts[i]) >= pow_value(old_attempts[old_best]));
                    }
                }
            }
        } else {
            proof {
                assert forall|i: int| 0 <= i < attempts.len() implies pow_value(attempts[best_j])
                    <= #[trigger] pow_value(attempts[i]) by {
                    if i < old_attempts.len() {
                        assert(pow_value(old_attempts[i]) >= pow_value(old_attempts[old_best]));
                    }
                }
            }
        }
    }
    let r = seal(best, key);
    proof {
        if r is Some {
            assert(r->Some_0.data@ == attempts[best_j]);
        }
    }
    (r, Ghost(attempts))
}

} // verus!
