//! 256-bit digests read as big-endian unsigned integers: their order and
//! their wrapping sum.

use vstd::prelude::*;

verus! {

/// `256^n`.
pub open spec fn pow256(n: nat) -> nat
    decreases n,
{
    if n == 0 {
        1
    } else {
        256 * pow256((n - 1) as nat)
    }
}

/// The modulus of digest arithmetic, `2^256`.
pub open spec fn hash_modulus() -> nat {
    pow256(32)
}

/// Big-endian value of the bytes `s[i..]`.
pub open spec fn value_from(s: Seq<u8>, i: int) -> nat
    decreases s.len() - i,
{
    if i < 0 || i >= s.len() {
        0
    } else {
        s[i] as nat * pow256((s.len() - 1 - i) as nat) + value_from(s, i + 1)
    }
}

/// Big-endian value of a byte string.
pub open spec fn be_value(s: Seq<u8>) -> nat {
    value_from(s, 0)
}

/// Sum of two digest values, wrapping at `2^256`.
pub open spec fn add_mod(x: nat, y: nat) -> nat {
    (x + y) % hash_modulus()
}

/// A 32-byte digest (a BLAKE3 output, a difficulty target or an amount of
/// accumulated evidence).
#[derive(Clone, Copy, Debug)]
pub struct Hash256 {
    pub bytes: [u8; 32],
}

impl View for Hash256 {
    type V = nat;

    /// The digest as a big-endian unsigned integer.
    open spec fn view(&self) -> nat {
        be_value(self.bytes@)
    }
}

pub proof fn lemma_pow256_positive(n: nat)
    ensures
        pow256(n) > 0,
    decreases n,
{
    if n > 0 {
        lemma_pow256_positive((n - 1) as nat);
    }
}

/// `value_from(s, i)` is below `256^(len - i)`.
pub proof fn lemma_value_from_bound(s: Seq<u8>, i: int)
    requires
        0 <= i <= s.len(),
    ensures
        value_from(s, i) < pow256((s.len() - i) as nat),
    decreases s.len() - i,
{
    if i < s.len() {
        lemma_value_from_bound(s, i + 1);
        let p = pow256((s.len() - 1 - i) as nat);
        let v = value_from(s, i + 1);
        let b = s[i] as nat;
        assert(b <= 255);
        assert(b * p + v < 256 * p) by (nonlinear_arith)
            requires
                b <= 255,
                v < p,
        ;
    }
}

/// `value_from(s, i)` reads only the bytes at `i` and after.
pub proof fn lemma_value_from_frame(s1: Seq<u8>, s2: Seq<u8>, i: int)
    requires
        s1.len() == s2.len(),
        0 <= i,
        forall|j: int| i <= j < s1.len() ==> s1[j] == s2[j],
    ensures
        value_from(s1, i) == value_from(s2, i),
    decreases s1.len() - i,
{
    if i < s1.len() {
        lemma_value_from_frame(s1, s2, i + 1);
    }
}

/// Two byte strings of one length that agree before `k` differ in value by
/// what they hold from `k` on.
proof fn lemma_value_from_common_prefix(s1: Seq<u8>, s2: Seq<u8>, i: int, k: int)
    requires
        s1.len() == s2.len(),
        0 <= i <= k <= s1.len(),
        forall|j: int| 0 <= j < k ==> s1[j] == s2[j],
    ensures
        value_from(s1, i) - value_from(s1, k) == value_from(s2, i) - value_from(s2, k),
    decreases k - i,
{
    if i < k {
        lemma_value_from_common_prefix(s1, s2, i + 1, k);
    }
}

/// A byte string of a given length is determined by its value.
pub proof fn lemma_value_injective(s1: Seq<u8>, s2: Seq<u8>, i: int)
    requires
        s1.len() == s2.len(),
        0 <= i <= s1.len(),
        value_from(s1, i) == value_from(s2, i),
    ensures
        forall|j: int| i <= j < s1.len() ==> s1[j] == s2[j],
    decreases s1.len() - i,
{
    if i < s1.len() {
        let p = pow256((s1.len() - 1 - i) as nat);
        let v1 = value_from(s1, i + 1);
        let v2 = value_from(s2, i + 1);
        let b1 = s1[i] as nat;
        let b2 = s2[i] as nat;
        lemma_value_from_bound(s1, i + 1);
        lemma_value_from_bound(s2, i + 1);
        assert(b1 == b2) by (nonlinear_arith)
            requires
                b1 * p + v1 == b2 * p + v2,
                v1 < p,
                v2 < p,
        ;
        lemma_value_injective(s1, s2, i + 1);
    }
}

/// Where two byte strings of one length first differ at `k`, the one with the
/// smaller byte there has the smaller value.
proof fn lemma_first_difference_orders(s1: Seq<u8>, s2: Seq<u8>, k: int)
    requires
        s1.len() == s2.len(),
        0 <= k < s1.len(),
        forall|j: int| 0 <= j < k ==> s1[j] == s2[j],
        s1[k] < s2[k],
    ensures
        be_value(s1) < be_value(s2),
{
    lemma_value_from_common_prefix(s1, s2, 0, k);
    lemma_value_from_bound(s1, k + 1);
    let p = pow256((s1.len() - 1 - k) as nat);
    let v1 = value_from(s1, k + 1);
    let v2 = value_from(s2, k + 1);
    let b1 = s1[k] as nat;
    let b2 = s2[k] as nat;
    assert(b1 * p + v1 < b2 * p + v2) by (nonlinear_arith)
        requires
            b1 < b2,
            v1 < p,
    ;
}

/// Compares two digests as big-endian unsigned integers, which is the
/// lexicographic order of their bytes.
pub fn cmp_hash(hash1: &Hash256, hash2: &Hash256) -> (r: core::cmp::Ordering)
    ensures
        (r == core::cmp::Ordering::Less) == (hash1@ < hash2@),
        (r == core::cmp::Ordering::Equal) == (hash1@ == hash2@),
        (r == core::cmp::Ordering::Greater) == (hash1@ > hash2@),
        (r == core::cmp::Ordering::Equal) == (*hash1 == *hash2),
{
    let h1 = &hash1.bytes;
    let h2 = &hash2.bytes;
    let mut i: usize = 0;
    while i < 32
        invariant
            i <= 32,
            h1@ == hash1.bytes@,
            h2@ == hash2.bytes@,
            forall|j: int| 0 <= j < i ==> h1@[j] == h2@[j],
        decreases 32 - i,
    {
        if h1[i] < h2[i] {
            proof {
                assert(h1@[i as int] < h2@[i as int]);
                lemma_first_difference_orders(h1@, h2@, i as int);
            }
            return core::cmp::Ordering::Less;
        } else if h1[i] > h2[i] {
            proof {
                assert(h1@[i as int] > h2@[i as int]);
                lemma_first_difference_orders(h2@, h1@, i as int);
            }
            return core::cmp::Ordering::Greater;
        }
        i = i + 1;
    }
    proof {
        assert(h1@ =~= h2@);
        assert(hash1.bytes == hash2.bytes);
    }
    core::cmp::Ordering::Equal
}

/// Adds two digests as 256-bit big-endian unsigned integers; a carry out of
/// the most significant byte is dropped.
pub fn hash_add(hash1: &Hash256, hash2: &Hash256) -> (r: Hash256)
    ensures
        r@ == add_mod(hash1@, hash2@),
{
    let h1 = &hash1.bytes;
    let h2 = &hash2.bytes;
    let mut out: [u8; 32] = [0u8; 32];
    let mut carry: u32 = 0;
    let mut i: usize = 32;
    while i > 0
        invariant
            i <= 32,
            carry <= 1,
            h1@ == hash1.bytes@,
            h2@ == hash2.bytes@,
            value_from(out@, i as int) + carry * pow256((32 - i) as nat) == value_from(h1@, i as int)
                + value_from(h2@, i as int),
        decreases i,
    {
        let k = i - 1;
        let tmp: u32 = h1[k] as u32 + h2[k] as u32 + carry;
        let ghost old_out = out@;
        out[k] = (tmp % 256) as u8;
        proof {
            lemma_value_from_frame(old_out, out@, i as int);
            let p = pow256((32 - i) as nat);
            let a = h1@[k as int] as nat;
            let b = h2@[k as int] as nat;
            let c = carry as nat;
            let t = tmp as nat;
            let rest = value_from(out@, i as int);
            assert(t == a + b + c);
            assert(pow256((32 - k) as nat) == 256 * p);
            assert(value_from(out@, k as int) == (t % 256) * p + rest);
            assert(value_from(h1@, k as int) == a * p + value_from(h1@, i as int));
            assert(value_from(h2@, k as int) == b * p + value_from(h2@, i as int));
            assert((t % 256) * p + (t / 256) * (256 * p) == t * p) by (nonlinear_arith);
            assert(t * p == a * p + b * p + c * p) by (nonlinear_arith)
                requires
                    t == a + b + c,
            ;
            assert(t / 256 == if t > 255 { 1nat } else { 0nat });
        }
        carry = if tmp > 255 { 1 } else { 0 };
        i = k;
    }
    proof {
        lemma_value_from_bound(out@, 0);
        let m = hash_modulus();
        let v = value_from(out@, 0);
        let s = value_from(h1@, 0) + value_from(h2@, 0);
        assert(v == s % m) by (nonlinear_arith)
            requires
                v + carry * m == s,
                v < m,
                carry <= 1,
        ;
    }
    Hash256 { bytes: out }
}

/// Evidence sums do not depend on the order of the two operands.
pub proof fn lemma_hash_add_commutative(a: Hash256, b: Hash256)
    ensures
        add_mod(a@, b@) == add_mod(b@, a@),
{
}

/// Evidence sums do not depend on how three amounts are grouped.
pub proof fn lemma_hash_add_associative(a: Hash256, b: Hash256, c: Hash256)
    ensures
        add_mod(add_mod(a@, b@), c@) == add_mod(a@, add_mod(b@, c@)),
{
    let m = hash_modulus() as int;
    lemma_pow256_positive(32);
    let (x, y, z) = (a@ as int, b@ as int, c@ as int);
    vstd::arithmetic::div_mod::lemma_add_mod_noop(x + y, z, m);
    vstd::arithmetic::div_mod::lemma_add_mod_noop(x, y + z, m);
    lemma_value_from_bound(a.bytes@, 0);
    lemma_value_from_bound(c.bytes@, 0);
    vstd::arithmetic::div_mod::lemma_small_mod(a@, m as nat);
    vstd::arithmetic::div_mod::lemma_small_mod(c@, m as nat);
    vstd::arithmetic::div_mod::lemma_mod_twice(x + y, m);
    vstd::arithmetic::div_mod::lemma_mod_twice(y + z, m);
    assert(((x + y) % m + z) % m == ((x + y) % m + z % m) % m);
    assert(((x + y) % m + z % m) % m == (x + y + z) % m);
    assert((x + (y + z) % m) % m == (x % m + (y + z) % m) % m);
    assert((x % m + (y + z) % m) % m == (x + y + z) % m);
}

} // verus!
