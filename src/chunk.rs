//! Chunks: signed, proof-of-work stamped claims about one cell.

use vstd::prelude::*;

use crate::codec::{
    i64_be, lemma_i64_be_injective, lemma_peel_bytes, lemma_peel_i64, lemma_peel_text,
    lemma_peel_u64, push_bytes, push_i64_be, push_text, push_u64_be,
    read_bytes32, read_i64_be, read_text, read_u64_be, text_field, text_fits, u64_be,
};
use crate::crypto::{
    blake3_digest, blake3_hash, ed25519_signature_of, ed25519_strict_accepts, ed25519_verify_strict,
};
use crate::data_struct::{Block, BlockInfo, BlockPoint, PubKey, Signature};
use crate::hash::{cmp_hash, Hash256};
use crate::key::Identity;

verus! {

/// The protocol version written into every payload this node makes.
pub const VERSION: &'static str = "0.1.0";

/// The signed payload of a chunk.
#[derive(Debug)]
pub struct ChunkData {
    /// Protocol version tag.
    pub version: String,
    /// The difficulty target in target mode, a fixed placeholder otherwise.
    pub prev_hash: Hash256,
    /// The claimed cell and block type.
    pub explanation: Block,
    /// Creation time, in milliseconds since the Unix epoch (UTC).
    pub timestamp: i64,
    /// The signer's verifying key.
    pub pub_key: PubKey,
    /// Externally supplied freshness token.
    pub external_salt: String,
    /// The value varied while mining.
    pub nonce: u64,
}

/// What a payload holds, with its texts as character sequences.
pub struct ChunkDataView {
    pub version: Seq<char>,
    pub prev_hash: Hash256,
    pub x: i64,
    pub y: i64,
    pub z: i64,
    pub block_type: Seq<char>,
    pub timestamp: i64,
    pub pub_key: Seq<u8>,
    pub external_salt: Seq<char>,
    pub nonce: u64,
}

impl View for ChunkData {
    type V = ChunkDataView;

    open spec fn view(&self) -> ChunkDataView {
        ChunkDataView {
            version: self.version@,
            prev_hash: self.prev_hash,
            x: self.explanation.point.x,
            y: self.explanation.point.y,
            z: self.explanation.point.z,
            block_type: self.explanation.block_info.type_id@,
            timestamp: self.timestamp,
            pub_key: self.pub_key.bytes@,
            external_salt: self.external_salt@,
            nonce: self.nonce,
        }
    }
}

/// The canonical bytes of a payload.
pub open spec fn encode_spec(d: ChunkDataView) -> Seq<u8> {
    text_field(d.version) + (d.prev_hash.bytes@ + (i64_be(d.x) + (i64_be(d.y) + (i64_be(d.z) + (
    text_field(d.block_type) + (i64_be(d.timestamp) + (d.pub_key + (text_field(d.external_salt)
        + u64_be(d.nonce)))))))))
}

/// Every text of the payload fits its length prefix (true of any Rust
/// string).
pub open spec fn texts_fit(d: ChunkDataView) -> bool {
    &&& text_fits(d.version)
    &&& text_fits(d.block_type)
    &&& text_fits(d.external_salt)
}

/// The proof of work of a payload: the BLAKE3 digest of its canonical bytes.
pub open spec fn pow_spec(d: ChunkDataView) -> Seq<u8> {
    blake3_digest(encode_spec(d))
}

/// What is signed: the BLAKE3 digest of the proof of work followed by the
/// canonical bytes.
pub open spec fn sign_message_spec(pow: Hash256, d: ChunkDataView) -> Seq<u8> {
    blake3_digest(pow.bytes@ + encode_spec(d))
}

impl ChunkData {
    /// A payload of this node's protocol version.
    pub fn new(
        prev_hash: Hash256,
        explanation: Block,
        external_salt: String,
        nonce: u64,
        pub_key: PubKey,
        timestamp: i64,
    ) -> (r: Self)
        ensures
            r.prev_hash == prev_hash,
            r.explanation == explanation,
            r.external_salt == external_salt,
            r.nonce == nonce,
            r.pub_key == pub_key,
            r.timestamp == timestamp,
            r.version@ == VERSION@,
    {
        ChunkData {
            version: VERSION.to_owned(),
            prev_hash,
            explanation,
            timestamp,
            pub_key,
            external_salt,
            nonce,
        }
    }

    /// The canonical bytes of this payload.
    pub fn encode(&self) -> (r: Vec<u8>)
        ensures
            r@ == encode_spec(self@),
            texts_fit(self@),
    {
        let mut out: Vec<u8> = Vec::new();
        push_text(&mut out, &self.version);
        push_bytes(&mut out, self.prev_hash.bytes.as_slice());
        push_i64_be(&mut out, self.explanation.point.x);
        push_i64_be(&mut out, self.explanation.point.y);
        push_i64_be(&mut out, self.explanation.point.z);
        push_text(&mut out, &self.explanation.block_info.type_id);
        push_i64_be(&mut out, self.timestamp);
        push_bytes(&mut out, self.pub_key.bytes.as_slice());
        push_text(&mut out, &self.external_salt);
        push_u64_be(&mut out, self.nonce);
        let ghost d = self@;
        assert(out@ =~= encode_spec(d));
        out
    }

    /// The proof of work: the BLAKE3 digest of the canonical bytes.
    pub fn pow(&self) -> (r: Hash256)
        ensures
            r.bytes@ == pow_spec(self@),
    {
        let bytes = self.encode();
        blake3_hash(bytes.as_slice())
    }
}

impl Clone for ChunkData {
    fn clone(&self) -> (r: Self)
        ensures
            r == *self,
    {
        ChunkData {
            version: self.version.clone(),
            prev_hash: self.prev_hash,
            explanation: self.explanation.clone(),
            timestamp: self.timestamp,
            pub_key: self.pub_key,
            external_salt: self.external_salt.clone(),
            nonce: self.nonce,
        }
    }
}

/// A payload that the canonical encoding can carry: its texts fit their
/// length prefixes and its key has 32 bytes.
pub open spec fn encodable(d: ChunkDataView) -> bool {
    texts_fit(d) && d.pub_key.len() == 32
}

/// Where the bytes from `p` on are `field + rest` and the read of `field`
/// ended at `q`, the bytes from `q` on are `rest`.
proof fn lemma_advance(b: Seq<u8>, p: int, q: int, field: Seq<u8>, rest: Seq<u8>)
    requires
        0 <= p <= b.len(),
        b.subrange(p, b.len() as int) == field + rest,
        q == p + field.len(),
    ensures
        b.subrange(q, b.len() as int) == rest,
        b.subrange(p, q) == field,
        q + rest.len() == b.len(),
{
    assert(b.subrange(q, b.len() as int) =~= (field + rest).subrange(field.len() as int, (field + rest).len() as int));
    assert(b.subrange(p, q) =~= (field + rest).subrange(0, field.len() as int));
}

/// Ten consecutive pieces of `b` that cover it make it up.
proof fn lemma_pieces(b: Seq<u8>, p: Seq<int>)
    requires
        p.len() == 11,
        p[0] == 0,
        p[10] == b.len(),
        p[0] <= p[1] <= p[2] <= p[3] <= p[4] <= p[5] <= p[6] <= p[7] <= p[8] <= p[9] <= p[10],
    ensures
        b == b.subrange(p[0], p[1]) + (b.subrange(p[1], p[2]) + (b.subrange(p[2], p[3]) + (
        b.subrange(p[3], p[4]) + (b.subrange(p[4], p[5]) + (b.subrange(p[5], p[6]) + (b.subrange(
            p[6],
            p[7],
        ) + (b.subrange(p[7], p[8]) + (b.subrange(p[8], p[9]) + b.subrange(p[9], p[10]))))))))),
{
    assert(b.subrange(p[9], p[10]) =~= b.subrange(p[9], b.len() as int));
    assert(b.subrange(p[8], p[9]) + b.subrange(p[9], p[10]) =~= b.subrange(p[8], p[10]));
    assert(b.subrange(p[7], p[8]) + b.subrange(p[8], p[10]) =~= b.subrange(p[7], p[10]));
    assert(b.subrange(p[6], p[7]) + b.subrange(p[7], p[10]) =~= b.subrange(p[6], p[10]));
    assert(b.subrange(p[5], p[6]) + b.subrange(p[6], p[10]) =~= b.subrange(p[5], p[10]));
    assert(b.subrange(p[4], p[5]) + b.subrange(p[5], p[10]) =~= b.subrange(p[4], p[10]));
    assert(b.subrange(p[3], p[4]) + b.subrange(p[4], p[10]) =~= b.subrange(p[3], p[10]));
    assert(b.subrange(p[2], p[3]) + b.subrange(p[3], p[10]) =~= b.subrange(p[2], p[10]));
    assert(b.subrange(p[1], p[2]) + b.subrange(p[2], p[10]) =~= b.subrange(p[1], p[10]));
    assert(b.subrange(p[0], p[1]) + b.subrange(p[1], p[10]) =~= b);
}

impl ChunkData {
    /// Reads a payload from its canonical bytes. Succeeds exactly when the
    /// bytes are the encoding of some payload, and then gives that payload.
    #[verifier::rlimit(100)]
    pub fn decode(bytes: &[u8]) -> (r: Option<ChunkData>)
        ensures
            r matches Some(d) ==> encode_spec(d@) == bytes@ && encodable(d@),
            (exists|w: ChunkDataView| encodable(w) && encode_spec(w) == bytes@) ==> r is Some,
            forall|w: ChunkDataView|
                encodable(w) && #[trigger] encode_spec(w) == bytes@ ==> (r matches Some(d) && d@
                    == w),
    {
        let ghost has = exists|w: ChunkDataView| encodable(w) && encode_spec(w) == bytes@;
        let ghost w: ChunkDataView = if has {
            choose|w: ChunkDataView| encodable(w) && encode_spec(w) == bytes@
        } else {
            vstd::pervasive::arbitrary()
        };
        let ghost b = bytes@;
        let ghost t9 = u64_be(w.nonce);
        let ghost t8 = text_field(w.external_salt) + t9;
        let ghost t7 = w.pub_key + t8;
        let ghost t6 = i64_be(w.timestamp) + t7;
        let ghost t5 = text_field(w.block_type) + t6;
        let ghost t4 = i64_be(w.z) + t5;
        let ghost t3 = i64_be(w.y) + t4;
        let ghost t2 = i64_be(w.x) + t3;
        let ghost t1 = w.prev_hash.bytes@ + t2;
        proof {
            if has {
                assert(b.subrange(0, b.len() as int) =~= b);
                lemma_advance(b, 0, text_field(w.version).len() as int, text_field(w.version), t1);
            }
        }
        let (version, p1) = match read_text(bytes, 0, Ghost(w.version)) {
            Some(x) => x,
            None => {
                return None;
            },
        };
        let (prev, p2) = match read_bytes32(bytes, p1) {
            Some(x) => x,
            None => {
                return None;
            },
        };
        proof {
            if has {
                lemma_advance(b, p1 as int, p2 as int, w.prev_hash.bytes@, t2);
                assert(prev =~= w.prev_hash.bytes);
            }
        }
        let (x, p3) = match read_i64_be(bytes, p2) {
            Some(v) => v,
            None => {
                return None;
            },
        };
        proof {
            if has {
                lemma_advance(b, p2 as int, p3 as int, i64_be(w.x), t3);
                lemma_i64_be_injective(x, w.x);
            }
        }
        let (y, p4) = match read_i64_be(bytes, p3) {
            Some(v) => v,
            None => {
                return None;
            },
        };
        proof {
            if has {
                lemma_advance(b, p3 as int, p4 as int, i64_be(w.y), t4);
                lemma_i64_be_injective(y, w.y);
            }
        }
        let (z, p5) = match read_i64_be(bytes, p4) {
            Some(v) => v,
            None => {
                return None;
            },
        };
        proof {
            if has {
                lemma_advance(b, p4 as int, p5 as int, i64_be(w.z), t5);
                lemma_i64_be_injective(z, w.z);
                lemma_advance(b, p5 as int, p5 + text_field(w.block_type).len(), text_field(w.block_type), t6);
            }
        }
        let (type_id, p6) = match read_text(bytes, p5, Ghost(w.block_type)) {
            Some(x) => x,
            None => {
                return None;
            },
        };
        let (timestamp, p7) = match read_i64_be(bytes, p6) {
            Some(v) => v,
            None => {
                return None;
            },
        };
        proof {
            if has {
                lemma_advance(b, p6 as int, p7 as int, i64_be(w.timestamp), t7);
                lemma_i64_be_injective(timestamp, w.timestamp);
            }
        }
        let (key, p8) = match read_bytes32(bytes, p7) {
            Some(x) => x,
            None => {
                return None;
            },
        };
        proof {
            if has {
                lemma_advance(b, p7 as int, p8 as int, w.pub_key, t8);
                lemma_advance(b, p8 as int, p8 + text_field(w.external_salt).len(), text_field(w.external_salt), t9);
            }
        }
        let (external_salt, p9) = match read_text(bytes, p8, Ghost(w.external_salt)) {
            Some(x) => x,
            None => {
                return None;
            },
        };
        let (nonce, p10) = match read_u64_be(bytes, p9) {
            Some(v) => v,
            None => {
                return None;
            },
        };
        proof {
            if has {
                assert(t9 + Seq::<u8>::empty() =~= t9);
                lemma_advance(b, p9 as int, p10 as int, t9, Seq::empty());
            }
        }
        if p10 != bytes.len() {
            return None;
        }
        let d = ChunkData {
            version,
            prev_hash: Hash256 { bytes: prev },
            explanation: Block::new(BlockPoint::new(x, y, z), BlockInfo::new(type_id)),
            timestamp,
            pub_key: PubKey { bytes: key },
            external_salt,
            nonce,
        };
        proof {
            let ps = seq![0int, p1 as int, p2 as int, p3 as int, p4 as int, p5 as int, p6 as int, p7 as int, p8 as int, p9 as int, p10 as int];
            lemma_pieces(b, ps);
            assert(encode_spec(d@) == b);
            assert forall|v: ChunkDataView| encodable(v) && #[trigger] encode_spec(v) == b implies d@ == v by {
                lemma_encoding_injective(d@, v);
            }
        }
        Some(d)
    }
}

/// Payloads that encode to the same bytes hold the same fields.
pub proof fn lemma_encoding_injective(a: ChunkDataView, b: ChunkDataView)
    requires
        texts_fit(a),
        texts_fit(b),
        a.pub_key.len() == 32,
        b.pub_key.len() == 32,
        encode_spec(a) == encode_spec(b),
    ensures
        a == b,
{
    let r9a = text_field(a.external_salt) + u64_be(a.nonce);
    let r9b = text_field(b.external_salt) + u64_be(b.nonce);
    let r8a = a.pub_key + r9a;
    let r8b = b.pub_key + r9b;
    let r7a = i64_be(a.timestamp) + r8a;
    let r7b = i64_be(b.timestamp) + r8b;
    let r6a = text_field(a.block_type) + r7a;
    let r6b = text_field(b.block_type) + r7b;
    let r5a = i64_be(a.z) + r6a;
    let r5b = i64_be(b.z) + r6b;
    let r4a = i64_be(a.y) + r5a;
    let r4b = i64_be(b.y) + r5b;
    let r3a = i64_be(a.x) + r4a;
    let r3b = i64_be(b.x) + r4b;
    let r2a = a.prev_hash.bytes@ + r3a;
    let r2b = b.prev_hash.bytes@ + r3b;
    lemma_peel_text(a.version, r2a, b.version, r2b);
    lemma_peel_bytes(a.prev_hash.bytes@, r3a, b.prev_hash.bytes@, r3b);
    lemma_peel_i64(a.x, r4a, b.x, r4b);
    lemma_peel_i64(a.y, r5a, b.y, r5b);
    lemma_peel_i64(a.z, r6a, b.z, r6b);
    lemma_peel_text(a.block_type, r7a, b.block_type, r7b);
    lemma_peel_i64(a.timestamp, r8a, b.timestamp, r8b);
    lemma_peel_bytes(a.pub_key, r9a, b.pub_key, r9b);
    assert(u64_be(a.nonce).len() == 8);
    lemma_peel_text(a.external_salt, u64_be(a.nonce), b.external_salt, u64_be(b.nonce));
    assert(u64_be(a.nonce) + Seq::<u8>::empty() =~= u64_be(a.nonce));
    assert(u64_be(b.nonce) + Seq::<u8>::empty() =~= u64_be(b.nonce));
    lemma_peel_u64(a.nonce, Seq::empty(), b.nonce, Seq::empty());
    assert(a.prev_hash.bytes =~= b.prev_hash.bytes);
}

/// A proof-of-work stamped, signed claim.
#[derive(Debug)]
pub struct Chunk {
    pub sign: Signature,
    pub pow: Hash256,
    pub data: ChunkData,
}

impl Chunk {
    /// The proof of work is the digest of the payload.
    pub open spec fn pow_ok(&self) -> bool {
        self.pow.bytes@ == pow_spec(self.data@)
    }

    /// The signature is accepted under the payload's own key.
    pub open spec fn sign_ok(&self) -> bool {
        ed25519_strict_accepts(
            self.data.pub_key.bytes@,
            sign_message_spec(self.pow, self.data@),
            self.sign.bytes@,
        )
    }

    /// The digest that is signed: BLAKE3 of the proof of work followed by the
    /// canonical payload bytes.
    pub fn hash_data_for_sign(pow: &Hash256, data: &ChunkData) -> (r: Hash256)
        ensures
            r.bytes@ == sign_message_spec(*pow, data@),
    {
        let mut bytes: Vec<u8> = Vec::new();
        push_bytes(&mut bytes, pow.bytes.as_slice());
        let encoded = data.encode();
        push_bytes(&mut bytes, encoded.as_slice());
        blake3_hash(bytes.as_slice())
    }

    /// Checks the signature strictly against the payload's key.
    pub fn verify_sign(&self) -> (r: bool)
        ensures
            r == self.sign_ok(),
    {
        let hash = Self::hash_data_for_sign(&self.pow, &self.data);
        ed25519_verify_strict(&self.data.pub_key.bytes, hash.bytes.as_slice(), &self.sign.bytes)
    }

    /// Checks that the stored proof of work is the digest of the payload.
    pub fn verify_pow(&self) -> (r: bool)
        ensures
            r == self.pow_ok(),
    {
        let recomputed = self.data.pow();
        let same = cmp_hash(&self.pow, &recomputed);
        proof {
            if self.pow.bytes@ == recomputed.bytes@ {
                assert(self.pow.bytes =~= recomputed.bytes);
            }
        }
        match same {
            core::cmp::Ordering::Equal => true,
            _ => false,
        }
    }

    /// Stamps and signs a payload with `key`.
    pub fn new(data: ChunkData, key: &Identity) -> (r: Self)
        ensures
            r.data == data,
            r.pow_ok(),
            r.sign.bytes@ == ed25519_signature_of(key.seed(), sign_message_spec(r.pow, data@)),
    {
        let pow = data.pow();
        let hash = Self::hash_data_for_sign(&pow, &data);
        let sign = key.sign(hash.bytes.as_slice());
        Chunk { sign, pow, data }
    }

    /// A chunk from parts received from elsewhere; nothing is checked.
    pub fn new_from_raw(data: ChunkData, pow: Hash256, sign: Signature) -> (r: Self)
        ensures
            r.data == data,
            r.pow == pow,
            r.sign == sign,
    {
        Self { sign, pow, data }
    }
}

} // verus!
