//! The canonical encoding of the signed payload of a chunk.
//!
//! Every field is written in declaration order. Integers are big-endian and
//! fixed-width (signed ones in two's complement); a text field is its UTF-8
//! length as a big-endian `u64`, then its UTF-8 bytes; a digest or a key is
//! its raw bytes. The encoding is self-delimiting, so two payloads with the
//! same bytes are the same payload.

use vstd::prelude::*;

verus! {

broadcast use vstd::utf8::encode_utf8_decode_utf8;

/// Eight big-endian bytes of `n`.
pub open spec fn u64_be(n: u64) -> Seq<u8> {
    seq![
        (n >> 56u64) as u8,
        (n >> 48u64) as u8,
        (n >> 40u64) as u8,
        (n >> 32u64) as u8,
        (n >> 24u64) as u8,
        (n >> 16u64) as u8,
        (n >> 8u64) as u8,
        n as u8,
    ]
}

/// Eight big-endian bytes of `v` in two's complement.
pub open spec fn i64_be(v: i64) -> Seq<u8> {
    u64_be(v as u64)
}

/// A text field: its UTF-8 length, then its UTF-8 bytes.
pub open spec fn text_field(s: Seq<char>) -> Seq<u8> {
    u64_be(vstd::utf8::encode_utf8(s).len() as u64) + vstd::utf8::encode_utf8(s)
}

/// A text whose UTF-8 length fits the length prefix.
pub open spec fn text_fits(s: Seq<char>) -> bool {
    vstd::utf8::encode_utf8(s).len() <= u64::MAX
}

pub fn push_u64_be(out: &mut Vec<u8>, n: u64)
    ensures
        final(out)@ == old(out)@ + u64_be(n),
{
    out.push((n >> 56u64) as u8);
    out.push((n >> 48u64) as u8);
    out.push((n >> 40u64) as u8);
    out.push((n >> 32u64) as u8);
    out.push((n >> 24u64) as u8);
    out.push((n >> 16u64) as u8);
    out.push((n >> 8u64) as u8);
    out.push(n as u8);
    assert(final(out)@ =~= old(out)@ + u64_be(n));
}

pub fn push_i64_be(out: &mut Vec<u8>, v: i64)
    ensures
        final(out)@ == old(out)@ + i64_be(v),
{
    push_u64_be(out, v as u64);
}

pub fn push_bytes(out: &mut Vec<u8>, bytes: &[u8])
    ensures
        final(out)@ == old(out)@ + bytes@,
{
    let ghost start = out@;
    let mut i: usize = 0;
    while i < bytes.len()
        invariant
            i <= bytes@.len(),
            out@ == start + bytes@.subrange(0, i as int),
        decreases bytes@.len() - i,
    {
        out.push(bytes[i]);
        i = i + 1;
        assert(out@ =~= start + bytes@.subrange(0, i as int));
    }
    assert(bytes@.subrange(0, i as int) =~= bytes@);
}

pub fn push_text(out: &mut Vec<u8>, s: &String)
    ensures
        final(out)@ == old(out)@ + text_field(s@),
        text_fits(s@),
{
    let b = s.as_str().as_bytes();
    let len = b.len();
    push_u64_be(out, len as u64);
    push_bytes(out, b);
    assert(final(out)@ =~= old(out)@ + text_field(s@));
}

/// Splitting a concatenation at the length of its first part.
pub proof fn lemma_split_concat(p1: Seq<u8>, r1: Seq<u8>, p2: Seq<u8>, r2: Seq<u8>)
    requires
        p1.len() == p2.len(),
        p1 + r1 == p2 + r2,
    ensures
        p1 == p2,
        r1 == r2,
{
    assert(p1 =~= (p1 + r1).subrange(0, p1.len() as int));
    assert(p2 =~= (p2 + r2).subrange(0, p2.len() as int));
    assert(r1 =~= (p1 + r1).subrange(p1.len() as int, (p1 + r1).len() as int));
    assert(r2 =~= (p2 + r2).subrange(p2.len() as int, (p2 + r2).len() as int));
}

pub proof fn lemma_u64_be_injective(a: u64, b: u64)
    requires
        u64_be(a) == u64_be(b),
    ensures
        a == b,
{
    assert(u64_be(a)[0] == u64_be(b)[0]);
    assert(u64_be(a)[1] == u64_be(b)[1]);
    assert(u64_be(a)[2] == u64_be(b)[2]);
    assert(u64_be(a)[3] == u64_be(b)[3]);
    assert(u64_be(a)[4] == u64_be(b)[4]);
    assert(u64_be(a)[5] == u64_be(b)[5]);
    assert(u64_be(a)[6] == u64_be(b)[6]);
    assert(u64_be(a)[7] == u64_be(b)[7]);
    assert(a == b) by (bit_vector)
        requires
            (a >> 56u64) as u8 == (b >> 56u64) as u8,
            (a >> 48u64) as u8 == (b >> 48u64) as u8,
            (a >> 40u64) as u8 == (b >> 40u64) as u8,
            (a >> 32u64) as u8 == (b >> 32u64) as u8,
            (a >> 24u64) as u8 == (b >> 24u64) as u8,
            (a >> 16u64) as u8 == (b >> 16u64) as u8,
            (a >> 8u64) as u8 == (b >> 8u64) as u8,
            a as u8 == b as u8,
    ;
}

pub proof fn lemma_i64_be_injective(a: i64, b: i64)
    requires
        i64_be(a) == i64_be(b),
    ensures
        a == b,
{
    lemma_u64_be_injective(a as u64, b as u64);
    assert(a == b) by (bit_vector)
        requires
            a as u64 == b as u64,
    ;
}

/// Peels one integer field off two equal encodings.
pub proof fn lemma_peel_u64(a: u64, r1: Seq<u8>, b: u64, r2: Seq<u8>)
    requires
        u64_be(a) + r1 == u64_be(b) + r2,
    ensures
        a == b,
        r1 == r2,
{
    lemma_split_concat(u64_be(a), r1, u64_be(b), r2);
    lemma_u64_be_injective(a, b);
}

pub proof fn lemma_peel_i64(a: i64, r1: Seq<u8>, b: i64, r2: Seq<u8>)
    requires
        i64_be(a) + r1 == i64_be(b) + r2,
    ensures
        a == b,
        r1 == r2,
{
    lemma_split_concat(i64_be(a), r1, i64_be(b), r2);
    lemma_i64_be_injective(a, b);
}

/// Peels one fixed-width byte field off two equal encodings.
pub proof fn lemma_peel_bytes(a: Seq<u8>, r1: Seq<u8>, b: Seq<u8>, r2: Seq<u8>)
    requires
        a.len() == b.len(),
        a + r1 == b + r2,
    ensures
        a == b,
        r1 == r2,
{
    lemma_split_concat(a, r1, b, r2);
}

/// Peels one text field off two equal encodings.
pub proof fn lemma_peel_text(s: Seq<char>, r1: Seq<u8>, t: Seq<char>, r2: Seq<u8>)
    requires
        text_fits(s),
        text_fits(t),
        text_field(s) + r1 == text_field(t) + r2,
    ensures
        s == t,
        r1 == r2,
{
    let bs = vstd::utf8::encode_utf8(s);
    let bt = vstd::utf8::encode_utf8(t);
    assert(text_field(s) + r1 =~= u64_be(bs.len() as u64) + (bs + r1));
    assert(text_field(t) + r2 =~= u64_be(bt.len() as u64) + (bt + r2));
    lemma_peel_u64(bs.len() as u64, bs + r1, bt.len() as u64, bt + r2);
    lemma_split_concat(bs, r1, bt, r2);
    assert(vstd::utf8::decode_utf8(bs) == s);
    assert(vstd::utf8::decode_utf8(bt) == t);
}

/// Relies on `String::from_utf8`: it succeeds exactly on valid UTF-8, and
/// the text is those bytes decoded.
#[verifier::external_body]
pub(crate) fn utf8_to_string(bytes: Vec<u8>) -> (r: Option<String>)
    ensures
        r is Some <==> vstd::utf8::valid_utf8(bytes@),
        r matches Some(s) ==> s@ == vstd::utf8::decode_utf8(bytes@),
{
    String::from_utf8(bytes).ok()
}

/// Reads eight big-endian bytes at `pos`.
pub fn read_u64_be(b: &[u8], pos: usize) -> (r: Option<(u64, usize)>)
    ensures
        r is Some <==> pos + 8 <= b@.len(),
        r matches Some((v, next)) ==> next == pos + 8 && b@.subrange(pos as int, next as int)
            == u64_be(v),
{
    if pos > b.len() || b.len() - pos < 8 {
        return None;
    }
    let b0 = b[pos];
    let b1 = b[pos + 1];
    let b2 = b[pos + 2];
    let b3 = b[pos + 3];
    let b4 = b[pos + 4];
    let b5 = b[pos + 5];
    let b6 = b[pos + 6];
    let b7 = b[pos + 7];
    let v: u64 = (b0 as u64) << 56u64 | (b1 as u64) << 48u64 | (b2 as u64) << 40u64 | (b3 as u64)
        << 32u64 | (b4 as u64) << 24u64 | (b5 as u64) << 16u64 | (b6 as u64) << 8u64 | (b7 as u64);
    assert((v >> 56u64) as u8 == b0 && (v >> 48u64) as u8 == b1 && (v >> 40u64) as u8 == b2 && (v
        >> 32u64) as u8 == b3 && (v >> 24u64) as u8 == b4 && (v >> 16u64) as u8 == b5 && (v >> 8u64)
        as u8 == b6 && v as u8 == b7) by (bit_vector)
        requires
            v == (b0 as u64) << 56u64 | (b1 as u64) << 48u64 | (b2 as u64) << 40u64 | (b3 as u64)
                << 32u64 | (b4 as u64) << 24u64 | (b5 as u64) << 16u64 | (b6 as u64) << 8u64 | (
            b7 as u64),
    ;
    assert(b@.subrange(pos as int, pos + 8) =~= u64_be(v));
    Some((v, pos + 8))
}

/// Reads eight big-endian two's complement bytes at `pos`.
pub fn read_i64_be(b: &[u8], pos: usize) -> (r: Option<(i64, usize)>)
    ensures
        r is Some <==> pos + 8 <= b@.len(),
        r matches Some((v, next)) ==> next == pos + 8 && b@.subrange(pos as int, next as int)
            == i64_be(v),
{
    match read_u64_be(b, pos) {
        Some((u, next)) => {
            let v = u as i64;
            assert(v as u64 == u) by (bit_vector)
                requires
                    v == u as i64,
            ;
            Some((v, next))
        },
        None => None,
    }
}

/// Reads 32 raw bytes at `pos`.
pub fn read_bytes32(b: &[u8], pos: usize) -> (r: Option<([u8; 32], usize)>)
    ensures
        r is Some <==> pos + 32 <= b@.len(),
        r matches Some((v, next)) ==> next == pos + 32 && b@.subrange(pos as int, next as int)
            == v@,
{
    if pos > b.len() || b.len() - pos < 32 {
        return None;
    }
    let mut out: [u8; 32] = [0u8; 32];
    let n = b.len();
    let mut i: usize = 0;
    while i < 32
        invariant
            i <= 32,
            n == b@.len(),
            pos + 32 <= n,
            forall|j: int| 0 <= j < i ==> out@[j] == b@[pos + j],
        decreases 32 - i,
    {
        out[i] = b[pos + i];
        i = i + 1;
    }
    assert(b@.subrange(pos as int, pos + 32) =~= out@);
    Some((out, pos + 32))
}

/// Reads a text field at `pos`. Where the bytes there are the text field of
/// `expect`, the read gives back `expect`.
pub fn read_text(b: &[u8], pos: usize, Ghost(expect): Ghost<Seq<char>>) -> (r: Option<(String, usize)>)
    ensures
        r matches Some((s, next)) ==> pos <= next <= b@.len() && b@.subrange(pos as int, next as int)
            == text_field(s@) && text_fits(s@),
        text_fits(expect) && pos + text_field(expect).len() <= b@.len() && b@.subrange(
            pos as int,
            pos + text_field(expect).len(),
        ) == text_field(expect) ==> (r matches Some((s, next)) && s@ == expect && next == pos
            + text_field(expect).len()),
{
    let ghost eb = vstd::utf8::encode_utf8(expect);
    let ghost expected_here = text_fits(expect) && pos + text_field(expect).len() <= b@.len()
        && b@.subrange(pos as int, pos + text_field(expect).len()) == text_field(expect);
    let (len, start) = match read_u64_be(b, pos) {
        Some(x) => x,
        None => {
            return None;
        },
    };
    proof {
        if expected_here {
            assert(b@.subrange(pos as int, pos + 8) =~= text_field(expect).subrange(0, 8));
            assert(text_field(expect).subrange(0, 8) =~= u64_be(eb.len() as u64));
            lemma_u64_be_injective(len, eb.len() as u64);
        }
    }
    if len > (b.len() - start) as u64 {
        return None;
    }
    let end = start + len as usize;
    let mut bytes: Vec<u8> = Vec::new();
    let mut i: usize = start;
    while i < end
        invariant
            start <= i <= end <= b@.len(),
            bytes@ == b@.subrange(start as int, i as int),
        decreases end - i,
    {
        bytes.push(b[i]);
        i = i + 1;
        assert(bytes@ =~= b@.subrange(start as int, i as int));
    }
    let ghost raw = bytes@;
    proof {
        if expected_here {
            assert(raw =~= text_field(expect).subrange(8, text_field(expect).len() as int));
            assert(text_field(expect).subrange(8, text_field(expect).len() as int) =~= eb);
            vstd::utf8::encode_utf8_valid_utf8(expect);
            vstd::utf8::encode_utf8_decode_utf8(expect);
        }
    }
    match utf8_to_string(bytes) {
        Some(s) => {
            proof {
                vstd::utf8::decode_utf8_encode_utf8(raw);
                assert(b@.subrange(pos as int, end as int) =~= b@.subrange(pos as int, start as int)
                    + raw);
                assert(text_field(s@) =~= u64_be(len) + raw);
            }
            Some((s, end))
        },
        None => None,
    }
}

} // verus!
