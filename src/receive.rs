//! Validation of inbound chunks before they reach the tick buffer.

use vstd::prelude::*;

use crate::chunk::Chunk;
use crate::clock::now_millis;

verus! {

/// How far a chunk's timestamp may lie from the local clock: two minutes.
pub const FRESHNESS_WINDOW_MS: i64 = 120000;

/// The largest inbound payload, in bytes: 1 MiB.
pub const MAX_PAYLOAD_BYTES: usize = 1048576;

/// Why an inbound chunk was discarded.
#[derive(Clone, Copy, Debug, PartialEq, Eq, Structural)]
pub enum Rejection {
    /// The timestamp is more than two minutes from the local clock.
    Stale,
    /// The signature is not accepted under the payload's key.
    BadSignature,
    /// The proof of work is not the digest of the payload.
    BadPow,
}

/// `|now - timestamp|` is within the freshness window.
pub open spec fn is_fresh(timestamp: i64, now: i64) -> bool {
    -FRESHNESS_WINDOW_MS <= now - timestamp <= FRESHNESS_WINDOW_MS
}

/// A payload of `len` bytes is small enough to be read.
pub fn payload_size_ok(len: usize) -> (r: bool)
    ensures
        r == (len <= MAX_PAYLOAD_BYTES),
{
    len <= MAX_PAYLOAD_BYTES
}

/// The chunk's timestamp is within two minutes of `now`, both ends included.
pub fn timestamp_fresh(timestamp: i64, now: i64) -> (r: bool)
    ensures
        r == is_fresh(timestamp, now),
{
    let diff: i128 = now as i128 - timestamp as i128;
    -(FRESHNESS_WINDOW_MS as i128) <= diff && diff <= FRESHNESS_WINDOW_MS as i128
}

/// The checks of an inbound chunk at local time `now`, in order: freshness,
/// signature, proof of work. Proof-of-work magnitude is not checked.
pub fn check_chunk(chunk: &Chunk, now: i64) -> (r: Result<(), Rejection>)
    ensures
        r == check_chunk_result(*chunk, now),
{
    if !timestamp_fresh(chunk.data.timestamp, now) {
        return Err(Rejection::Stale);
    }
    if !chunk.verify_sign() {
        return Err(Rejection::BadSignature);
    }
    if !chunk.verify_pow() {
        return Err(Rejection::BadPow);
    }
    Ok(())
}

/// A validated chunk with the local time at which it was accepted.
#[derive(Debug)]
pub struct ChunkWithTime {
    pub chunk: Chunk,
    /// Arrival time, in milliseconds since the Unix epoch.
    pub time: i64,
}

impl ChunkWithTime {
    /// Stamps `chunk` with the current time.
    pub fn new(chunk: Chunk) -> (r: Self)
        ensures
            r.chunk == chunk,
    {
        ChunkWithTime { chunk, time: now_millis() }
    }

    pub fn at(chunk: Chunk, time: i64) -> (r: Self)
        ensures
            r.chunk == chunk,
            r.time == time,
    {
        ChunkWithTime { chunk, time }
    }
}

/// Validates `chunk` against `now` and, if it passes, stamps it with `now`
/// as its arrival time for the tick buffer.
pub fn accept_chunk(chunk: Chunk, now: i64) -> (r: Result<ChunkWithTime, Rejection>)
    ensures
        r matches Ok(c) ==> c.chunk == chunk && c.time == now,
        r matches Err(e) ==> check_chunk_result(chunk, now) == Err::<(), Rejection>(e),
        r is Ok <==> check_chunk_result(chunk, now) is Ok,
{
    match check_chunk(&chunk, now) {
        Ok(()) => Ok(ChunkWithTime::at(chunk, now)),
        Err(e) => Err(e),
    }
}

/// The outcome of the checks, as a value.
pub open spec fn check_chunk_result(chunk: Chunk, now: i64) -> Result<(), Rejection> {
    if !is_fresh(chunk.data.timestamp, now) {
        Err(Rejection::Stale)
    } else if !chunk.sign_ok() {
        Err(Rejection::BadSignature)
    } else if !chunk.pow_ok() {
        Err(Rejection::BadPow)
    } else {
        Ok(())
    }
}

/// Validates an inbound chunk against the local clock. Whatever the clock
/// reads, an accepted chunk is fresh relative to its own arrival time, and its
/// signature and proof of work check.
pub fn process_chuck(chunk: Chunk) -> (r: Result<ChunkWithTime, Rejection>)
    ensures
        r matches Ok(c) ==> {
            &&& c.chunk == chunk
            &&& is_fresh(c.chunk.data.timestamp, c.time)
            &&& c.chunk.sign_ok()
            &&& c.chunk.pow_ok()
        },
        !chunk.sign_ok() ==> r is Err,
        !chunk.pow_ok() ==> r is Err,
{
    let now = now_millis();
    accept_chunk(chunk, now)
}

} // verus!
