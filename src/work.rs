//! The per-tick aggregation: evidence is summed per (cell, signer, type) and
//! each cell takes the best supported claim.

use vstd::prelude::*;

use crate::data_struct::{Block, BlockInfo, BlockPoint, PubKey};
use crate::hash::{add_mod, cmp_hash, hash_add, lemma_value_from_bound, Hash256};
use crate::order::{bytes32_equal, bytes_less, bytes_lt, lemma_bytes_lt_irreflexive,
    lemma_bytes_lt_transitive};
use crate::receive::ChunkWithTime;
use crate::tick::TickClock;
use crate::world::{BlockInfoWithPubKey, BlockWithPubKey, World};

verus! {

/// A chunk arrived no earlier than the previous tick.
pub open spec fn survives(c: ChunkWithTime, last_tick: i64) -> bool {
    c.time >= last_tick
}

/// A chunk claims type `ty` at `p`, signed by `pk`.
pub open spec fn claims(c: ChunkWithTime, p: BlockPoint, pk: Seq<u8>, ty: Seq<char>) -> bool {
    &&& c.chunk.data.explanation.point == p
    &&& c.chunk.data.pub_key.bytes@ == pk
    &&& c.chunk.data.explanation.block_info.type_id@ == ty
}

/// The summed proof of work (wrapping at `2^256`) that the surviving chunks
/// of `s` give to the claim `(pk, ty)` at `p`.
pub open spec fn evidence(
    s: Seq<ChunkWithTime>,
    last_tick: i64,
    p: BlockPoint,
    pk: Seq<u8>,
    ty: Seq<char>,
) -> nat
    decreases s.len(),
{
    if s.len() == 0 {
        0
    } else {
        let prev = evidence(s.drop_last(), last_tick, p, pk, ty);
        if survives(s.last(), last_tick) && claims(s.last(), p, pk, ty) {
            add_mod(prev, s.last().chunk.pow@)
        } else {
            prev
        }
    }
}

/// Some surviving chunk of `s` makes the claim `(pk, ty)` at `p`.
pub open spec fn claimed(
    s: Seq<ChunkWithTime>,
    last_tick: i64,
    p: BlockPoint,
    pk: Seq<u8>,
    ty: Seq<char>,
) -> bool {
    exists|i: int| 0 <= i < s.len() && survives(s[i], last_tick) && #[trigger] claims(s[i], p, pk, ty)
}

/// Some surviving chunk of `s` makes a claim at `p`.
pub open spec fn cell_claimed(s: Seq<ChunkWithTime>, last_tick: i64, p: BlockPoint) -> bool {
    exists|i: int|
        0 <= i < s.len() && survives(s[i], last_tick) && #[trigger] s[i].chunk.data.explanation.point
            == p
}

/// The bytes by which equally supported claims are ordered: the signer's
/// key, then the type's UTF-8 bytes.
pub open spec fn rank_key(pk: Seq<u8>, ty: Seq<char>) -> Seq<u8> {
    pk + vstd::utf8::encode_utf8(ty)
}

/// A claim with evidence `v1` and rank key `k1` beats one with `v2` and
/// `k2`: more evidence, or as much and a smaller rank key.
pub open spec fn outranks(v1: nat, k1: Seq<u8>, v2: nat, k2: Seq<u8>) -> bool {
    v1 > v2 || (v1 == v2 && bytes_lt(k1, k2))
}

/// `(pk, ty)` is the claim that `p` takes in a tick whose buffer is `s`: it
/// is claimed, and no claim at `p` beats it.
pub open spec fn tick_winner(
    s: Seq<ChunkWithTime>,
    last_tick: i64,
    p: BlockPoint,
    pk: Seq<u8>,
    ty: Seq<char>,
) -> bool {
    &&& claimed(s, last_tick, p, pk, ty)
    &&& forall|pk2: Seq<u8>, ty2: Seq<char>|
        #[trigger] claimed(s, last_tick, p, pk2, ty2) ==> !outranks(
            evidence(s, last_tick, p, pk2, ty2),
            rank_key(pk2, ty2),
            evidence(s, last_tick, p, pk, ty),
            rank_key(pk, ty),
        )
}

/// A signer and the type it asserts.
#[derive(Debug)]
pub struct InfoKey {
    pub pub_key: PubKey,
    pub block_appearance: BlockInfo,
}

impl InfoKey {
    pub fn new(pub_key: PubKey, block_appearance: BlockInfo) -> (r: Self)
        ensures
            r.pub_key == pub_key,
            r.block_appearance == block_appearance,
    {
        Self { pub_key, block_appearance }
    }
}

/// The evidence gathered in one tick for one claim at one cell.
#[derive(Debug)]
pub struct Evidence {
    pub point: BlockPoint,
    pub key: InfoKey,
    pub pow: Hash256,
}

impl Evidence {
    pub open spec fn pk(&self) -> Seq<u8> {
        self.key.pub_key.bytes@
    }

    pub open spec fn ty(&self) -> Seq<char> {
        self.key.block_appearance.type_id@
    }

    pub open spec fn rank(&self) -> Seq<u8> {
        rank_key(self.pk(), self.ty())
    }

    pub open spec fn same_claim(&self, other: Evidence) -> bool {
        self.point == other.point && self.pk() == other.pk() && self.ty() == other.ty()
    }

    pub open spec fn beats(&self, other: Evidence) -> bool {
        outranks(self.pow@, self.rank(), other.pow@, other.rank())
    }
}

proof fn lemma_outranks_irreflexive(a: Evidence)
    ensures
        !a.beats(a),
{
    lemma_bytes_lt_irreflexive(a.rank());
}

proof fn lemma_outranks_transitive(a: Evidence, b: Evidence, c: Evidence)
    requires
        a.beats(b),
        b.beats(c),
    ensures
        a.beats(c),
{
    if a.pow@ == b.pow@ && b.pow@ == c.pow@ {
        lemma_bytes_lt_transitive(a.rank(), b.rank(), c.rank());
    }
}

/// Evidence for a claim that no surviving chunk makes is zero.
proof fn lemma_unclaimed_evidence(
    s: Seq<ChunkWithTime>,
    last_tick: i64,
    p: BlockPoint,
    pk: Seq<u8>,
    ty: Seq<char>,
)
    requires
        !claimed(s, last_tick, p, pk, ty),
    ensures
        evidence(s, last_tick, p, pk, ty) == 0,
    decreases s.len(),
{
    if s.len() > 0 {
        let t = s.drop_last();
        assert(!claimed(t, last_tick, p, pk, ty)) by {
            if claimed(t, last_tick, p, pk, ty) {
                let i = choose|i: int|
                    0 <= i < t.len() && survives(t[i], last_tick) && #[trigger] claims(
                        t[i],
                        p,
                        pk,
                        ty,
                    );
                assert(s[i] == t[i]);
            }
        }
        assert(!(survives(s.last(), last_tick) && claims(s.last(), p, pk, ty))) by {
            if survives(s.last(), last_tick) && claims(s.last(), p, pk, ty) {
                assert(claims(s[s.len() - 1], p, pk, ty));
            }
        }
        lemma_unclaimed_evidence(t, last_tick, p, pk, ty);
    }
}

/// Whether an entry is the claim `(p, pk, ty)`.
fn claim_matches(e: &Evidence, p: &BlockPoint, pk: &PubKey, ty: &String) -> (r: bool)
    ensures
        r == (e.point == *p && e.pk() == pk.bytes@ && e.ty() == ty@),
{
    e.point == *p && bytes32_equal(&e.key.pub_key.bytes, &pk.bytes) && e.key.block_appearance.type_id
        == *ty
}

/// Whether `a` beats `b`.
fn evidence_beats(a: &Evidence, b: &Evidence) -> (r: bool)
    ensures
        r == a.beats(*b),
{
    match cmp_hash(&a.pow, &b.pow) {
        core::cmp::Ordering::Greater => true,
        core::cmp::Ordering::Less => false,
        core::cmp::Ordering::Equal => {
            let mut ka: Vec<u8> = Vec::new();
            crate::codec::push_bytes(&mut ka, a.key.pub_key.bytes.as_slice());
            crate::codec::push_bytes(&mut ka, a.key.block_appearance.type_id.as_str().as_bytes());
            let mut kb: Vec<u8> = Vec::new();
            crate::codec::push_bytes(&mut kb, b.key.pub_key.bytes.as_slice());
            crate::codec::push_bytes(&mut kb, b.key.block_appearance.type_id.as_str().as_bytes());
            bytes_less(ka.as_slice(), kb.as_slice())
        },
    }
}

/// What the accumulated list says of the buffer prefix `s`.
pub open spec fn accumulated(list: Seq<Evidence>, s: Seq<ChunkWithTime>, last_tick: i64) -> bool {
    &&& forall|i: int, j: int|
        0 <= i < j < list.len() ==> !(#[trigger] list[i]).same_claim(#[trigger] list[j])
    &&& forall|i: int|
        0 <= i < list.len() ==> claimed(s, last_tick, (#[trigger] list[i]).point, list[i].pk(), list[i].ty())
            && list[i].pow@ == evidence(s, last_tick, list[i].point, list[i].pk(), list[i].ty())
    &&& forall|p: BlockPoint, pk: Seq<u8>, ty: Seq<char>|
        #[trigger] claimed(s, last_tick, p, pk, ty) ==> exists|i: int|
            0 <= i < list.len() && list[i].point == p && list[i].pk() == pk && #[trigger] list[i].ty()
                == ty
}

/// Sums, per (cell, signer, type), the proof of work of the chunks that
/// arrived no earlier than `last_tick`; later ones are dropped.
pub fn accumulate(chunks: &Vec<ChunkWithTime>, last_tick: i64) -> (r: Vec<Evidence>)
    ensures
        accumulated(r@, chunks@, last_tick),
{
    let mut list: Vec<Evidence> = Vec::new();
    let mut n: usize = 0;
    assert(chunks@.subrange(0, 0) =~= Seq::<ChunkWithTime>::empty());
    while n < chunks.len()
        invariant
            n <= chunks@.len(),
            accumulated(list@, chunks@.subrange(0, n as int), last_tick),
        decreases chunks@.len() - n,
    {
        let ghost s0 = chunks@.subrange(0, n as int);
        let ghost s1 = chunks@.subrange(0, n as int + 1);
        assert(s1.drop_last() =~= s0);
        assert(s1.last() == chunks@[n as int]);
        let c = &chunks[n];
        let ghost old_list = list@;
        if c.time >= last_tick {
            let p = c.chunk.data.explanation.point;
            let pk = c.chunk.data.pub_key;
            let ty = &c.chunk.data.explanation.block_info.type_id;
            let mut j: usize = 0;
            let mut found = false;
            while j < list.len()
                invariant_except_break
                    !found,
                invariant
                    j <= list@.len(),
                    list@ == old_list,
                    forall|k: int|
                        0 <= k < j ==> !(list@[k].point == p && list@[k].pk() == pk.bytes@
                            && list@[k].ty() == ty@),
                ensures
                    j <= list@.len(),
                    found ==> j < list@.len() && list@[j as int].point == p && list@[j as int].pk()
                        == pk.bytes@ && list@[j as int].ty() == ty@,
                    !found ==> j == list@.len(),
                decreases list@.len() - j,
            {
                if claim_matches(&list[j], &p, &pk, ty) {
                    found = true;
                    break;
                }
                j = j + 1;
            }
            if found {
                let total = hash_add(&list[j].pow, &c.chunk.pow);
                list[j].pow = total;
                proof {
                    assert forall|i: int| 0 <= i < list@.len() implies claimed(
                        s1,
                        last_tick,
                        (#[trigger] list@[i]).point,
                        list@[i].pk(),
                        list@[i].ty(),
                    ) && list@[i].pow@ == evidence(
                        s1,
                        last_tick,
                        list@[i].point,
                        list@[i].pk(),
                        list@[i].ty(),
                    ) by {
                        let e = list@[i];
                        assert(claimed(s0, last_tick, old_list[i].point, old_list[i].pk(), old_list[i].ty()));
                        let w = choose|w: int|
                            0 <= w < s0.len() && survives(s0[w], last_tick) && #[trigger] claims(
                                s0[w],
                                e.point,
                                e.pk(),
                                e.ty(),
                            );
                        assert(s1[w] == s0[w]);
                        if i != j {
                            assert(old_list[i].same_claim(old_list[j as int]) == false);
                        }
                    }
                    assert forall|q: BlockPoint, qk: Seq<u8>, qt: Seq<char>| #[trigger]
                        claimed(s1, last_tick, q, qk, qt) implies exists|i: int|
                        0 <= i < list@.len() && list@[i].point == q && list@[i].pk() == qk
                            && #[trigger] list@[i].ty() == qt by {
                        let w = choose|w: int|
                            0 <= w < s1.len() && survives(s1[w], last_tick) && #[trigger] claims(
                                s1[w],
                                q,
                                qk,
                                qt,
                            );
                        if w < s0.len() {
                            assert(s0[w] == s1[w]);
                            assert(claimed(s0, last_tick, q, qk, qt));
                            let k = choose|k: int|
                                0 <= k < old_list.len() && old_list[k].point == q
                                    && old_list[k].pk() == qk && #[trigger] old_list[k].ty() == qt;
                            assert(list@[k].point == q && list@[k].pk() == qk && list@[k].ty() == qt);
                        } else {
                            assert(list@[j as int].ty() == qt);
                        }
                    }
                    assert forall|a: int, b: int| 0 <= a < b < list@.len() implies !(
                    #[trigger] list@[a]).same_claim(#[trigger] list@[b]) by {
                        assert(!old_list[a].same_claim(old_list[b]));
                    }
                }
            } else {
                let ghost before = list@;
                list.push(
                    Evidence {
                        point: p,
                        key: InfoKey::new(pk, c.chunk.data.explanation.block_info.clone()),
                        pow: c.chunk.pow,
                    },
                );
                proof {
                    let m = list@.len() - 1;
                    assert(!claimed(s0, last_tick, p, pk.bytes@, ty@)) by {
                        if claimed(s0, last_tick, p, pk.bytes@, ty@) {
                            let k = choose|k: int|
                                0 <= k < before.len() && before[k].point == p && before[k].pk()
                                    == pk.bytes@ && #[trigger] before[k].ty() == ty@;
                            assert(k < j);
                        }
                    }
                    lemma_unclaimed_evidence(s0, last_tick, p, pk.bytes@, ty@);
                    lemma_value_from_bound(c.chunk.pow.bytes@, 0);
                    vstd::arithmetic::div_mod::lemma_small_mod(
                        c.chunk.pow@,
                        crate::hash::hash_modulus(),
                    );
                    assert(claims(s1[n as int], p, pk.bytes@, ty@));
                    assert forall|i: int| 0 <= i < list@.len() implies claimed(
                        s1,
                        last_tick,
                        (#[trigger] list@[i]).point,
                        list@[i].pk(),
                        list@[i].ty(),
                    ) && list@[i].pow@ == evidence(
                        s1,
                        last_tick,
                        list@[i].point,
                        list@[i].pk(),
                        list@[i].ty(),
                    ) by {
                        if i < m {
                            let e = list@[i];
                            assert(e == before[i]);
                            let w = choose|w: int|
                                0 <= w < s0.len() && survives(s0[w], last_tick) && #[trigger] claims(
                                    s0[w],
                                    e.point,
                                    e.pk(),
                                    e.ty(),
                                );
                            assert(s1[w] == s0[w]);
                        }
                    }
                    assert forall|q: BlockPoint, qk: Seq<u8>, qt: Seq<char>| #[trigger]
                        claimed(s1, last_tick, q, qk, qt) implies exists|i: int|
                        0 <= i < list@.len() && list@[i].point == q && list@[i].pk() == qk
                            && #[trigger] list@[i].ty() == qt by {
                        let w = choose|w: int|
                            0 <= w < s1.len() && survives(s1[w], last_tick) && #[trigger] claims(
                                s1[w],
                                q,
                                qk,
                                qt,
                            );
                        if w < s0.len() {
                            assert(s0[w] == s1[w]);
                            assert(claimed(s0, last_tick, q, qk, qt));
                            let k = choose|k: int|
                                0 <= k < before.len() && before[k].point == q && before[k].pk() == qk
                                    && #[trigger] before[k].ty() == qt;
                            assert(list@[k] == before[k]);
                        } else {
                            assert(list@[m].ty() == qt);
                        }
                    }
                    assert forall|a: int, b: int| 0 <= a < b < list@.len() implies !(
                    #[trigger] list@[a]).same_claim(#[trigger] list@[b]) by {
                        if b < m {
                            assert(!before[a].same_claim(before[b]));
                        }
                    }
                }
            }
        } else {
            proof {
                assert forall|i: int| 0 <= i < list@.len() implies claimed(
                    s1,
                    last_tick,
                    (#[trigger] list@[i]).point,
                    list@[i].pk(),
                    list@[i].ty(),
                ) && list@[i].pow@ == evidence(
                    s1,
                    last_tick,
                    list@[i].point,
                    list@[i].pk(),
                    list@[i].ty(),
                ) by {
                    let e = list@[i];
                    let w = choose|w: int|
                        0 <= w < s0.len() && survives(s0[w], last_tick) && #[trigger] claims(
                            s0[w],
                            e.point,
                            e.pk(),
                            e.ty(),
                        );
                    assert(s1[w] == s0[w]);
                }
                assert forall|q: BlockPoint, qk: Seq<u8>, qt: Seq<char>| #[trigger]
                    claimed(s1, last_tick, q, qk, qt) implies exists|i: int|
                    0 <= i < list@.len() && list@[i].point == q && list@[i].pk() == qk
                        && #[trigger] list@[i].ty() == qt by {
                    let w = choose|w: int|
                        0 <= w < s1.len() && survives(s1[w], last_tick) && #[trigger] claims(
                            s1[w],
                            q,
                            qk,
                            qt,
                        );
                    assert(s0[w] == s1[w]);
                    assert(claimed(s0, last_tick, q, qk, qt));
                }
            }
        }
        n = n + 1;
    }
    assert(chunks@.subrange(0, n as int) =~= chunks@);
    list
}

/// `winners` picks, among the first `n` entries of `list`, one entry per
/// cell that no entry at that cell beats.
pub open spec fn selected(list: Seq<Evidence>, winners: Seq<usize>, n: int) -> bool {
    &&& forall|k: int| 0 <= k < winners.len() ==> #[trigger] winners[k] < n
    &&& forall|a: int, b: int|
        0 <= a < b < winners.len() ==> list[#[trigger] winners[a] as int].point != list[
            #[trigger] winners[b] as int].point
    &&& forall|k: int, e: int|
        0 <= k < winners.len() && 0 <= e < n && (#[trigger] list[e]).point == list[
            #[trigger] winners[k] as int].point ==> !list[e].beats(list[winners[k] as int])
    &&& forall|e: int|
        0 <= e < n ==> exists|k: int|
            0 <= k < winners.len() && #[trigger] list[winners[k] as int].point == (#[trigger] list[
                e]).point
}

/// The position in `winners` of the entry at cell `p`, if there is one.
fn find_cell(list: &Vec<Evidence>, winners: &Vec<usize>, p: &BlockPoint) -> (r: Option<usize>)
    requires
        forall|k: int| 0 <= k < winners@.len() ==> #[trigger] winners@[k] < list@.len(),
    ensures
        r matches Some(k) ==> k < winners@.len() && list@[winners@[k as int] as int].point == *p,
        r is None ==> forall|k: int|
            0 <= k < winners@.len() ==> list@[#[trigger] winners@[k] as int].point != *p,
{
    let mut k: usize = 0;
    while k < winners.len()
        invariant
            k <= winners@.len(),
            forall|j: int| 0 <= j < winners@.len() ==> #[trigger] winners@[j] < list@.len(),
            forall|j: int| 0 <= j < k ==> list@[#[trigger] winners@[j] as int].point != *p,
        decreases winners@.len() - k,
    {
        if list[winners[k]].point == *p {
            return Some(k);
        }
        k = k + 1;
    }
    None
}

/// For each cell of `list`, the index of the entry that no other entry at
/// that cell beats.
pub fn select_winners(list: &Vec<Evidence>) -> (r: Vec<usize>)
    ensures
        selected(list@, r@, list@.len() as int),
{
    let mut winners: Vec<usize> = Vec::new();
    let mut n: usize = 0;
    while n < list.len()
        invariant
            n <= list@.len(),
            selected(list@, winners@, n as int),
        decreases list@.len() - n,
    {
        let slot = find_cell(list, &winners, &list[n].point);
        let found = slot.is_some();
        let k: usize = match slot {
            Some(k) => k,
            None => 0,
        };
        let ghost before = winners@;
        proof {
            lemma_outranks_irreflexive(list@[n as int]);
        }
        if found {
            let w = winners[k];
            if evidence_beats(&list[n], &list[w]) {
                winners.set(k, n);
                proof {
                    assert forall|a: int, e: int|
                        0 <= a < winners@.len() && 0 <= e < n + 1 && (#[trigger] list@[e]).point
                            == list@[#[trigger] winners@[a] as int].point implies !list@[e].beats(
                        list@[winners@[a] as int],
                    ) by {
                        if a == k && e < n {
                            if list@[e].beats(list@[n as int]) {
                                lemma_outranks_transitive(list@[e], list@[n as int], list@[w as int]);
                            }
                        }
                    }
                    assert forall|e: int| 0 <= e < n + 1 implies exists|a: int|
                        0 <= a < winners@.len() && #[trigger] list@[winners@[a] as int].point == (
                        #[trigger] list@[e]).point by {
                        if e < n {
                            let a = choose|a: int|
                                0 <= a < before.len() && #[trigger] list@[before[a] as int].point == (
                                #[trigger] list@[e]).point;
                            if a == k {
                                assert(list@[winners@[a] as int].point == list@[e].point);
                            } else {
                                assert(winners@[a] == before[a]);
                            }
                        } else {
                            assert(list@[winners@[k as int] as int].point == list@[e].point);
                        }
                    }
                    assert forall|a: int, b: int| 0 <= a < b < winners@.len() implies list@[
                        #[trigger] winners@[a] as int].point != list@[#[trigger] winners@[b] as int].point by {
                        assert(list@[before[a] as int].point != list@[before[b] as int].point);
                    }
                }
            } else {
                proof {
                    assert forall|e: int| 0 <= e < n + 1 implies exists|a: int|
                        0 <= a < winners@.len() && #[trigger] list@[winners@[a] as int].point == (
                        #[trigger] list@[e]).point by {
                        if e == n {
                            assert(list@[winners@[k as int] as int].point == list@[e].point);
                        }
                    }
                }
            }
        } else {
            winners.push(n);
            proof {
                let m = winners@.len() - 1;
                assert forall|a: int, e: int|
                    0 <= a < winners@.len() && 0 <= e < n + 1 && (#[trigger] list@[e]).point
                        == list@[#[trigger] winners@[a] as int].point implies !list@[e].beats(
                    list@[winners@[a] as int],
                ) by {
                    if a == m && e < n {
                        let b = choose|b: int|
                            0 <= b < before.len() && #[trigger] list@[before[b] as int].point == (
                            #[trigger] list@[e]).point;
                        assert(list@[before[b] as int].point != list@[n as int].point);
                    } else if a < m {
                        assert(winners@[a] == before[a]);
                    }
                }
                assert forall|e: int| 0 <= e < n + 1 implies exists|a: int|
                    0 <= a < winners@.len() && #[trigger] list@[winners@[a] as int].point == (
                    #[trigger] list@[e]).point by {
                    if e < n {
                        let a = choose|a: int|
                            0 <= a < before.len() && #[trigger] list@[before[a] as int].point == (
                            #[trigger] list@[e]).point;
                        assert(winners@[a] == before[a]);
                    } else {
                        assert(list@[winners@[m] as int].point == list@[e].point);
                    }
                }
                assert forall|a: int, b: int| 0 <= a < b < winners@.len() implies list@[
                    #[trigger] winners@[a] as int].point != list@[#[trigger] winners@[b] as int].point by {
                    if b < m {
                        assert(list@[before[a] as int].point != list@[before[b] as int].point);
                    } else {
                        assert(winners@[a] == before[a]);
                    }
                }
            }
        }
        n = n + 1;
    }
    winners
}

/// `m1` and `m2` agree at `p`.
pub open spec fn unchanged_at(
    m1: Map<BlockPoint, BlockInfoWithPubKey>,
    m2: Map<BlockPoint, BlockInfoWithPubKey>,
    p: BlockPoint,
) -> bool {
    &&& m1.contains_key(p) == m2.contains_key(p)
    &&& m1.contains_key(p) ==> m1[p] == m2[p]
}

/// One of the first `k` winners sits at `p`.
pub open spec fn touched(list: Seq<Evidence>, winners: Seq<usize>, k: int, p: BlockPoint) -> bool {
    exists|a: int| 0 <= a < k && list[#[trigger] winners[a] as int].point == p
}

/// The world entry an accumulated claim stands for.
pub open spec fn entry_of(e: Evidence) -> BlockInfoWithPubKey {
    BlockInfoWithPubKey { block_info: e.key.block_appearance, pub_key: e.key.pub_key }
}

/// One tick of aggregation. Chunks that arrived before `last_tick` are
/// dropped; the others are summed per (cell, signer, type), and every cell
/// that some chunk claims is set to its best supported claim (most summed
/// proof of work; among equals, the smallest signer key, then type). Cells
/// that no chunk claims keep their entries. Returns one update per cell
/// set, for observers.
pub fn work(world: &mut World, chunks: Vec<ChunkWithTime>, last_tick: i64) -> (r: Vec<
    BlockWithPubKey,
>)
    ensures
        forall|p: BlockPoint|
            #[trigger] cell_claimed(chunks@, last_tick, p) ==> final(world)@.contains_key(p)
                && tick_winner(
                chunks@,
                last_tick,
                p,
                final(world)@[p].pub_key.bytes@,
                final(world)@[p].block_info.type_id@,
            ),
        forall|p: BlockPoint|
            !#[trigger] cell_claimed(chunks@, last_tick, p) ==> unchanged_at(final(world)@, old(world)@, p),
        forall|i: int|
            0 <= i < r@.len() ==> cell_claimed(chunks@, last_tick, (#[trigger] r@[i]).block.point)
                && final(world)@[r@[i].block.point] == r@[i].entry(),
        forall|p: BlockPoint|
            #[trigger] cell_claimed(chunks@, last_tick, p) ==> exists|i: int|
                0 <= i < r@.len() && #[trigger] r@[i].block.point == p,
        forall|i: int, j: int|
            0 <= i < j < r@.len() ==> (#[trigger] r@[i]).block.point != (#[trigger] r@[j]).block.point,
{
    let ghost s = chunks@;
    let list = accumulate(&chunks, last_tick);
    let winners = select_winners(&list);
    let ghost old_world = world@;
    let mut updates: Vec<BlockWithPubKey> = Vec::new();
    let mut k: usize = 0;
    while k < winners.len()
        invariant
            k <= winners@.len(),
            selected(list@, winners@, list@.len() as int),
            updates@.len() == k,
            forall|a: int|
                0 <= a < k ==> world@.contains_key(list@[#[trigger] winners@[a] as int].point)
                    && world@[list@[winners@[a] as int].point] == entry_of(list@[winners@[a] as int])
                    && updates@[a].block.point == list@[winners@[a] as int].point
                    && updates@[a].entry() == entry_of(list@[winners@[a] as int]),
            forall|p: BlockPoint|
                !#[trigger] touched(list@, winners@, k as int, p) ==> unchanged_at(world@, old_world, p),
        decreases winners@.len() - k,
    {
        let e = &list[winners[k]];
        let info = e.key.block_appearance.clone();
        let ghost pre = world@;
        world.set_block(e.point, info, e.key.pub_key);
        updates.push(
            BlockWithPubKey::new(
                Block::new(e.point, e.key.block_appearance.clone()),
                e.key.pub_key,
            ),
        );
        proof {
            assert forall|p: BlockPoint| !#[trigger] touched(list@, winners@, k + 1, p) implies unchanged_at(
                world@,
                old_world,
                p,
            ) by {
                if touched(list@, winners@, k as int, p) {
                    let a = choose|a: int| 0 <= a < k && list@[#[trigger] winners@[a] as int].point == p;
                    assert(0 <= a < k + 1 && list@[winners@[a] as int].point == p);
                }
                if list@[winners@[k as int] as int].point == p {
                    assert(0 <= k < k + 1 && list@[winners@[k as int] as int].point == p);
                }
            }
            assert forall|a: int| 0 <= a < k + 1 implies world@.contains_key(
                list@[#[trigger] winners@[a] as int].point,
            ) && world@[list@[winners@[a] as int].point] == entry_of(list@[winners@[a] as int])
                && updates@[a].block.point == list@[winners@[a] as int].point
                && updates@[a].entry() == entry_of(list@[winners@[a] as int]) by {
                if a < k {
                    assert(list@[winners@[a] as int].point != list@[winners@[k as int] as int].point);
                }
            }
        }
        k = k + 1;
    }
    proof {
        assert forall|p: BlockPoint| #[trigger] cell_claimed(s, last_tick, p) implies world@.contains_key(p)
            && tick_winner(s, last_tick, p, world@[p].pub_key.bytes@, world@[p].block_info.type_id@)
            && exists|i: int| 0 <= i < updates@.len() && #[trigger] updates@[i].block.point == p by {
            let c = choose|c: int|
                0 <= c < s.len() && survives(s[c], last_tick) && #[trigger] s[c].chunk.data.explanation.point
                    == p;
            let cpk = s[c].chunk.data.pub_key.bytes@;
            let cty = s[c].chunk.data.explanation.block_info.type_id@;
            assert(claims(s[c], p, cpk, cty));
            assert(claimed(s, last_tick, p, cpk, cty));
            let e = choose|e: int|
                0 <= e < list@.len() && list@[e].point == p && list@[e].pk() == cpk
                    && #[trigger] list@[e].ty() == cty;
            let a = choose|a: int|
                0 <= a < winners@.len() && #[trigger] list@[winners@[a] as int].point == (
                #[trigger] list@[e]).point;
            let w = list@[winners@[a] as int];
            assert(world@[p] == entry_of(w));
            assert(updates@[a].block.point == p);
            assert(claimed(s, last_tick, w.point, w.pk(), w.ty()));
            assert forall|pk2: Seq<u8>, ty2: Seq<char>| #[trigger] claimed(s, last_tick, p, pk2, ty2) implies !outranks(
                evidence(s, last_tick, p, pk2, ty2),
                rank_key(pk2, ty2),
                evidence(s, last_tick, p, w.pk(), w.ty()),
                rank_key(w.pk(), w.ty()),
            ) by {
                let f = choose|f: int|
                    0 <= f < list@.len() && list@[f].point == p && list@[f].pk() == pk2
                        && #[trigger] list@[f].ty() == ty2;
                assert(!list@[f].beats(w));
                assert(claimed(s, last_tick, list@[f].point, list@[f].pk(), list@[f].ty()));
            }
        }
        assert forall|p: BlockPoint| !#[trigger] cell_claimed(s, last_tick, p) implies unchanged_at(
            world@,
            old_world,
            p,
        ) by {
            if touched(list@, winners@, winners@.len() as int, p) {
                let a = choose|a: int|
                    0 <= a < winners@.len() && list@[#[trigger] winners@[a] as int].point == p;
                let w = list@[winners@[a] as int];
                assert(claimed(s, last_tick, w.point, w.pk(), w.ty()));
                let c = choose|c: int|
                    0 <= c < s.len() && survives(s[c], last_tick) && #[trigger] claims(s[c], w.point, w.pk(), w.ty());
                assert(s[c].chunk.data.explanation.point == w.point);
            }
        }
        assert forall|i: int| 0 <= i < updates@.len() implies cell_claimed(s, last_tick, (#[trigger] updates@[i]).block.point)
            && world@[updates@[i].block.point] == updates@[i].entry() by {
            let w = list@[winners@[i] as int];
            assert(claimed(s, last_tick, w.point, w.pk(), w.ty()));
            let c = choose|c: int|
                0 <= c < s.len() && survives(s[c], last_tick) && #[trigger] claims(s[c], w.point, w.pk(), w.ty());
            assert(s[c].chunk.data.explanation.point == w.point);
        }
        assert forall|i: int, j: int| 0 <= i < j < updates@.len() implies (
        #[trigger] updates@[i]).block.point != (#[trigger] updates@[j]).block.point by {
            assert(list@[winners@[i] as int].point != list@[winners@[j] as int].point);
        }
    }
    updates
}

/// One tick at local time `now`: the clock advances, and the buffer is
/// aggregated against the start of the previous tick.
pub fn run_tick(world: &mut World, clock: &mut TickClock, buffer: Vec<ChunkWithTime>, now: i64) -> (r:
    Vec<BlockWithPubKey>)
    ensures
        final(clock).last_tick == old(clock).current_tick,
        final(clock).current_tick == now,
        forall|p: BlockPoint|
            #[trigger] cell_claimed(buffer@, old(clock).current_tick, p) ==> final(world)@.contains_key(p)
                && tick_winner(
                buffer@,
                old(clock).current_tick,
                p,
                final(world)@[p].pub_key.bytes@,
                final(world)@[p].block_info.type_id@,
            ),
        forall|p: BlockPoint|
            !#[trigger] cell_claimed(buffer@, old(clock).current_tick, p) ==> unchanged_at(
                final(world)@,
                old(world)@,
                p,
            ),
        forall|i: int|
            0 <= i < r@.len() ==> cell_claimed(buffer@, old(clock).current_tick, (#[trigger] r@[i]).block.point)
                && final(world)@[r@[i].block.point] == r@[i].entry(),
        forall|p: BlockPoint|
            #[trigger] cell_claimed(buffer@, old(clock).current_tick, p) ==> exists|i: int|
                0 <= i < r@.len() && #[trigger] r@[i].block.point == p,
        forall|i: int, j: int|
            0 <= i < j < r@.len() ==> (#[trigger] r@[i]).block.point != (#[trigger] r@[j]).block.point,
{
    clock.advance(now);
    work(world, buffer, clock.last_tick)
}

/// A cell has at most one tick winner: the claim with the most evidence,
/// ties broken by the smaller rank key, is unique.
pub proof fn lemma_tick_winner_unique(
    s: Seq<ChunkWithTime>,
    last_tick: i64,
    p: BlockPoint,
    pk1: Seq<u8>,
    ty1: Seq<char>,
    pk2: Seq<u8>,
    ty2: Seq<char>,
)
    requires
        tick_winner(s, last_tick, p, pk1, ty1),
        tick_winner(s, last_tick, p, pk2, ty2),
    ensures
        pk1 == pk2,
        ty1 == ty2,
{
    let i1 = choose|i: int| 0 <= i < s.len() && survives(s[i], last_tick) && #[trigger] claims(s[i], p, pk1, ty1);
    let i2 = choose|i: int| 0 <= i < s.len() && survives(s[i], last_tick) && #[trigger] claims(s[i], p, pk2, ty2);
    assert(pk1.len() == 32 && pk2.len() == 32);
    let k1 = rank_key(pk1, ty1);
    let k2 = rank_key(pk2, ty2);
    if k1 == k2 {
        crate::codec::lemma_split_concat(pk1, vstd::utf8::encode_utf8(ty1), pk2, vstd::utf8::encode_utf8(ty2));
        vstd::utf8::encode_utf8_decode_utf8(ty1);
        vstd::utf8::encode_utf8_decode_utf8(ty2);
    } else {
        crate::order::lemma_bytes_lt_total(k1, k2);
        assert(claimed(s, last_tick, p, pk1, ty1));
        assert(claimed(s, last_tick, p, pk2, ty2));
        assert(false);
    }
}

} // verus!
