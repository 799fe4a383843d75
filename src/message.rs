//! Peer messages and the decisions taken on each: chunks go to validation,
//! join announcements are answered, and the first answer to our own
//! announcement starts a world download.

use vstd::prelude::*;

use crate::chunk::Chunk;
use crate::data_struct::PubKey;
use crate::order::bytes32_equal;
use crate::receive::{accept_chunk, check_chunk_result, ChunkWithTime, Rejection};

verus! {

/// A joining node's announcement.
#[derive(Clone, Copy, Debug)]
pub struct InitBroadcast {
    pub listen_only: bool,
    /// The port of the announcing node's world API.
    pub api_port: u16,
    pub pub_key: PubKey,
}

impl InitBroadcast {
    pub fn new(listen_only: bool, api_port: u16, pub_key: PubKey) -> (r: Self)
        ensures
            r.listen_only == listen_only,
            r.api_port == api_port,
            r.pub_key == pub_key,
    {
        Self { listen_only, api_port, pub_key }
    }
}

/// An answer to a join announcement: where the answering node serves its
/// world.
#[derive(Clone, Copy, Debug, PartialEq, Eq, Structural)]
pub struct InitResponed {
    pub host_port: u16,
    pub listen_only: bool,
}

/// A message from a peer.
#[derive(Debug)]
pub enum NetworkMessage {
    Init(InitBroadcast),
    Chunk(Chunk),
    Response(InitResponed),
}

/// What to do about a message.
#[derive(Debug)]
pub enum Action {
    /// Put the validated chunk into the tick buffer.
    Enqueue(ChunkWithTime),
    /// The chunk was discarded.
    Drop(Rejection),
    /// Broadcast this answer.
    Reply(InitResponed),
    /// Download the world from the sender, at this port.
    FetchWorld(u16),
    /// Nothing to do.
    Ignore,
}

/// Whether this node still waits for a first answer to its announcement.
pub struct Bootstrap {
    pub wait_pong: bool,
}

impl Bootstrap {
    /// A node that has announced itself and waits for an answer.
    pub fn new() -> (r: Self)
        ensures
            r.wait_pong,
    {
        Bootstrap { wait_pong: true }
    }

    /// Decides what to do with one message. `self_key` is this node's key,
    /// `api_port` the port of its own world API, `now` the local time.
    pub fn process_pack(&mut self, msg: NetworkMessage, self_key: &PubKey, api_port: u16, now: i64) -> (r:
        Action)
        ensures
            msg matches NetworkMessage::Chunk(c) ==> final(self).wait_pong == old(self).wait_pong && (
            match check_chunk_result(c, now) {
                Ok(()) => r matches Action::Enqueue(e) && e.chunk == c && e.time == now,
                Err(why) => r == Action::Drop(why),
            }),
            msg matches NetworkMessage::Init(b) ==> final(self).wait_pong == old(self).wait_pong && (
            if b.pub_key.bytes@ == self_key.bytes@ {
                r is Ignore
            } else {
                r == Action::Reply(InitResponed { host_port: api_port, listen_only: false })
            }),
            msg matches NetworkMessage::Response(resp) ==> (if old(self).wait_pong {
                !final(self).wait_pong && r == Action::FetchWorld(resp.host_port)
            } else {
                !final(self).wait_pong && r is Ignore
            }),
    {
        match msg {
            NetworkMessage::Chunk(c) => match accept_chunk(c, now) {
                Ok(e) => Action::Enqueue(e),
                Err(why) => Action::Drop(why),
            },
            NetworkMessage::Init(b) => {
                if bytes32_equal(&b.pub_key.bytes, &self_key.bytes) {
                    Action::Ignore
                } else {
                    Action::Reply(InitResponed { host_port: api_port, listen_only: false })
                }
            },
            NetworkMessage::Response(resp) => {
                if self.wait_pong {
                    self.wait_pong = false;
                    Action::FetchWorld(resp.host_port)
                } else {
                    Action::Ignore
                }
            },
        }
    }
}

} // verus!
