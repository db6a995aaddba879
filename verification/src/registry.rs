//! The mathematical model of the connection registry: the unclaimed holding,
//! the bound threads, the active table and the player count, with the
//! registry's invariants and its transitions.

use crate::address::peer_key;
use crate::address::PeerAddr;
use crate::data::GameServerBootData;
use crate::data::PlayerAccountData;
use crate::data::PlayerPreviewAccountData;
use crate::data::PlayerRoomPreviewAccountData;
use crate::packet::body_u32;
use crate::packet::CLAIM_THREAD_PACKET_ID;
use crate::packet::header_of;
use crate::packet::is_packet_message;
use crate::packet::PING_PACKET_ID;
use crate::packet::ping_response_bytes;
use crate::packet::PingResponsePacket;
use crate::packet::ServerThreadMessage;
use crate::text::parsed_i32;
use crate::text::same_name;
use vstd::prelude::*;

verus! {

/// What the server keeps of one session: the fields that other tasks may read.
#[derive(Debug)]
pub struct GameServerThread {
    /// The handle of the session; no two sessions of one server share it.
    pub id: u64,
    /// The peer of the reliable channel, fixed when the session is accepted.
    pub tcp_peer: PeerAddr,
    /// The peer of the datagram channel, set once by the claim.
    pub udp_peer: Option<PeerAddr>,
    /// The key that a datagram must carry to claim the session.
    pub claim_secret_key: u32,
    pub claimed: bool,
    /// Zero until the session has logged in.
    pub account_id: i32,
    pub level_id: i32,
    pub room_id: u32,
    pub account_data: PlayerAccountData,
}

/// One thing that is left to do after a session has left the registry.
#[derive(Clone, Copy, Debug, PartialEq, Eq, Structural)]
pub enum CleanupStep {
    /// Take the account out of the room's player manager.
    RemovePlayer { room_id: u32, account_id: i32 },
    /// Take the account off the level it was on.
    RemoveFromLevel { room_id: u32, level_id: i32, account_id: i32 },
    /// Drop the room if it is empty now.
    MaybeRemoveRoom { room_id: u32 },
    /// Tell whoever waits for this session's cleanup that it is done.
    NotifyCleanup,
}

/// Why a datagram was not handled.
#[derive(Clone, Copy, Debug, PartialEq, Eq, Structural)]
pub enum DatagramError {
    /// The sender is not an IPv4 host.
    Ipv6Rejected,
    /// The datagram is shorter than what its header or its id announces.
    MalformedMessage,
}

/// What is to be done with a datagram that the server has looked at.
#[derive(Debug)]
pub enum DatagramAction {
    /// Send these bytes back to the sender.
    Reply(Vec<u8>),
    /// A claim was handled; the session that it bound, if any, is to be woken.
    Claimed(Option<u64>),
    /// Put the message into the inbox of the session.
    Forward { thread_id: u64, message: ServerThreadMessage },
    /// Nobody is bound to the sender: drop the datagram.
    Dropped,
}

/// The registry by value.
pub struct ServerState {
    /// The holding area, in the order of acceptance.
    pub unclaimed: Seq<GameServerThread>,
    /// The sessions that were claimed and are not yet cleaned up, in the order of their claims.
    pub bound: Seq<GameServerThread>,
    /// The active table: from the key of a datagram peer to the id of the session bound to it.
    pub active: Map<u64, u64>,
    pub player_count: u32,
    /// The id that the next accepted session gets.
    pub next_id: u64,
    pub central_conf: GameServerBootData,
    pub standalone: bool,
    pub secret_key: Seq<u8>,
    pub public_key: Seq<u8>,
}

/// What the server runs beside its two loops.
#[derive(Clone, Copy, Debug, PartialEq, Eq, Structural)]
pub struct BackgroundTasks {
    /// The seconds between two refreshes of the configuration; none on a standalone server.
    pub refresh_interval: Option<u64>,
    /// The seconds between two status reports; none where the configuration sets zero.
    pub status_interval: Option<u64>,
}

/// The seconds between two refreshes of the configuration.
pub const REFRESH_INTERVAL_SECS: u64 = 300;

/// The record of a session that was just accepted.
pub open spec fn fresh_thread(id: u64, tcp_peer: PeerAddr, secret_key: u32, data: PlayerAccountData) -> GameServerThread {
    GameServerThread {
        id,
        tcp_peer,
        udp_peer: None,
        claim_secret_key: secret_key,
        claimed: false,
        account_id: 0,
        level_id: 0,
        room_id: 0,
        account_data: data,
    }
}

/// The previews of the records, one for one.
pub open spec fn previews(threads: Seq<GameServerThread>) -> Seq<PlayerPreviewAccountData> {
    threads.map_values(|t: GameServerThread| t.account_data.preview())
}

/// The room previews of the records, one for one, each with the record's level.
pub open spec fn room_previews(threads: Seq<GameServerThread>) -> Seq<PlayerRoomPreviewAccountData> {
    threads.map_values(|t: GameServerThread| t.account_data.room_preview(t.level_id))
}

/// Whether the list holds the account data of the records, one for one.
pub open spec fn is_account_data_of(list: Seq<PlayerAccountData>, threads: Seq<GameServerThread>) -> bool {
    &&& list.len() == threads.len()
    &&& forall|k: int| 0 <= k < list.len() ==> (#[trigger] list[k])@ == threads[k].account_data@
}

/// Whether some record of the sequence has the id.
pub open spec fn has_id(threads: Seq<GameServerThread>, id: u64) -> bool {
    exists|i: int| 0 <= i < threads.len() && (#[trigger] threads[i]).id == id
}

/// The place of the record with the id, where `has_id` holds.
pub open spec fn index_in(threads: Seq<GameServerThread>, id: u64) -> int {
    choose|i: int| 0 <= i < threads.len() && (#[trigger] threads[i]).id == id
}

/// No two records of the sequence share an id.
pub open spec fn ids_distinct(threads: Seq<GameServerThread>) -> bool {
    forall|i: int, j: int|
        0 <= i < j < threads.len() ==> (#[trigger] threads[i]).id != (#[trigger] threads[j]).id
}

/// The number of records with a non-zero account id.
pub open spec fn authenticated_count(threads: Seq<GameServerThread>) -> nat
    decreases threads.len(),
{
    if threads.len() == 0 {
        0
    } else {
        authenticated_count(threads.drop_last()) + if threads.last().account_id != 0 {
            1nat
        } else {
            0nat
        }
    }
}

/// What is left to do after the record has left the registry, in order: for
/// a session that had logged in, the room manager's part; then the cleanup
/// notification.
pub open spec fn cleanup_steps(thread: GameServerThread) -> Seq<CleanupStep> {
    if thread.account_id == 0 {
        seq![CleanupStep::NotifyCleanup]
    } else {
        seq![CleanupStep::RemovePlayer { room_id: thread.room_id, account_id: thread.account_id }] + (
        if thread.level_id != 0 {
            seq![
                CleanupStep::RemoveFromLevel {
                    room_id: thread.room_id,
                    level_id: thread.level_id,
                    account_id: thread.account_id,
                },
            ]
        } else {
            Seq::<CleanupStep>::empty()
        }) + (if thread.room_id != 0 {
            seq![CleanupStep::MaybeRemoveRoom { room_id: thread.room_id }]
        } else {
            Seq::<CleanupStep>::empty()
        }) + seq![CleanupStep::NotifyCleanup]
    }
}

impl GameServerThread {
    /// Whether the session has logged in.
    pub open spec fn spec_authenticated(&self) -> bool {
        self.account_id != 0
    }

    /// Whether the session has logged in.
    #[verifier::when_used_as_spec(spec_authenticated)]
    pub fn authenticated(&self) -> (yes: bool)
        ensures
            yes == (self.account_id != 0),
    {
        self.account_id != 0
    }

    /// This record after the claim from `udp_addr`.
    pub open spec fn bind(self, udp_addr: PeerAddr) -> GameServerThread {
        GameServerThread { udp_peer: Some(udp_addr), claimed: true, ..self }
    }

    /// This record after a login as `data`.
    pub open spec fn logged_in(self, data: PlayerAccountData) -> GameServerThread {
        GameServerThread { account_id: data.account_id, account_data: data, ..self }
    }
}

impl ServerState {
    /// The invariant of the registry.
    pub open spec fn wf(self) -> bool {
        &&& ids_distinct(self.unclaimed)
        &&& ids_distinct(self.bound)
        &&& forall|i: int, j: int|
            0 <= i < self.unclaimed.len() && 0 <= j < self.bound.len() ==> (
            #[trigger] self.unclaimed[i]).id != (#[trigger] self.bound[j]).id
        &&& forall|i: int|
            0 <= i < self.unclaimed.len() ==> {
                &&& (#[trigger] self.unclaimed[i]).id < self.next_id
                &&& !self.unclaimed[i].claimed
                &&& self.unclaimed[i].udp_peer is None
            }
        &&& forall|j: int|
            0 <= j < self.bound.len() ==> {
                &&& (#[trigger] self.bound[j]).id < self.next_id
                &&& self.bound[j].claimed
                &&& self.bound[j].udp_peer is Some
            }
        &&& forall|key: u64| #[trigger]
            self.active.contains_key(key) ==> exists|j: int|
                0 <= j < self.bound.len() && (#[trigger] self.bound[j]).id == self.active[key]
                    && peer_key(self.bound[j].udp_peer->0) == key
        &&& self.unclaimed.len() + self.bound.len() <= u32::MAX
    }

    /// Whether the bound record is the one that the active table holds under its datagram peer.
    pub open spec fn is_active(self, thread: GameServerThread) -> bool {
        &&& thread.udp_peer is Some
        &&& self.active.contains_key(peer_key(thread.udp_peer->0))
        &&& self.active[peer_key(thread.udp_peer->0)] == thread.id
    }

    /// The sessions of the active table, in the order of their claims.
    pub open spec fn active_threads(self) -> Seq<GameServerThread> {
        self.bound.filter(|t: GameServerThread| self.is_active(t))
    }

    /// The test for a session of the active table with one of the account ids.
    pub open spec fn one_of(self, ids: Seq<i32>) -> spec_fn(GameServerThread) -> bool {
        |t: GameServerThread| self.is_active(t) && ids.contains(t.account_id)
    }

    /// The test for a session of the active table.
    pub open spec fn any_active(self) -> spec_fn(GameServerThread) -> bool {
        |t: GameServerThread| self.is_active(t)
    }

    /// The test for a session of the active table that has logged in.
    pub open spec fn any_player(self) -> spec_fn(GameServerThread) -> bool {
        |t: GameServerThread| self.is_active(t) && t.account_id != 0
    }

    /// The test for a session of the active table that has logged in and is in the room.
    pub open spec fn in_room(self, room_id: u32) -> spec_fn(GameServerThread) -> bool {
        |t: GameServerThread| self.is_active(t) && t.account_id != 0 && t.room_id == room_id
    }

    /// The test for a session of the active table with the account id.
    pub open spec fn with_account(self, account_id: i32) -> spec_fn(GameServerThread) -> bool {
        |t: GameServerThread| self.is_active(t) && t.account_id == account_id
    }

    /// The test for a session of the active table whose player goes by the
    /// name, the case of ASCII letters set aside.
    pub open spec fn with_name(self, name: Seq<char>) -> spec_fn(GameServerThread) -> bool {
        |t: GameServerThread| self.is_active(t) && same_name(t.account_data.name@, name)
    }

    /// The test for the session that `get_user_by_name_or_id` looks for: by
    /// account id where the text spells a number, by name where it does not.
    pub open spec fn named_or_numbered(self, name: Seq<char>) -> spec_fn(GameServerThread) -> bool {
        match parsed_i32(name) {
            Some(account_id) => self.with_account(account_id),
            None => self.with_name(name),
        }
    }

    /// The test for a session of the active table that is to get a broadcast
    /// of `origin_id`: any player of the level but the origin.
    pub open spec fn listener(self, origin_id: i32, players: Seq<i32>) -> spec_fn(
        GameServerThread,
    ) -> bool {
        |t: GameServerThread|
            self.is_active(t) && t.account_id != origin_id && players.contains(t.account_id)
    }

    /// The first bound session that meets the test.
    pub open spec fn first_thread(self, test: spec_fn(GameServerThread) -> bool) -> Option<
        GameServerThread,
    > {
        let found = self.bound.filter(test);
        if found.len() > 0 {
            Some(found[0])
        } else {
            None
        }
    }

    /// The id of the first bound session that meets the test.
    pub open spec fn first_id(self, test: spec_fn(GameServerThread) -> bool) -> Option<u64> {
        match self.first_thread(test) {
            Some(t) => Some(t.id),
            None => None,
        }
    }

    /// The ids of the bound sessions that meet the test, in the order of their claims.
    pub open spec fn ids_where(self, test: spec_fn(GameServerThread) -> bool) -> Seq<u64> {
        self.bound.filter(test).map_values(|t: GameServerThread| t.id)
    }

    /// Whether the session is in the unclaimed holding.
    pub open spec fn in_holding(self, id: u64) -> bool {
        has_id(self.unclaimed, id)
    }

    /// Whether the session is in the active table.
    pub open spec fn in_active_table(self, id: u64) -> bool {
        exists|key: u64| #[trigger] self.active.contains_key(key) && self.active[key] == id
    }

    /// Whether the server still knows the session.
    pub open spec fn has_thread(self, id: u64) -> bool {
        has_id(self.unclaimed, id) || has_id(self.bound, id)
    }

    /// The number of sessions that have logged in.
    pub open spec fn authenticated_threads(self) -> nat {
        authenticated_count(self.unclaimed) + authenticated_count(self.bound)
    }

    /// The player count says how many sessions have logged in.
    pub open spec fn count_exact(self) -> bool {
        self.player_count == self.authenticated_threads()
    }

    /// No two sessions of the active table share an account id.
    pub open spec fn accounts_distinct(self) -> bool {
        forall|i: int, j: int|
            0 <= i < j < self.bound.len() && self.is_active(#[trigger] self.bound[i])
                && self.is_active(#[trigger] self.bound[j]) ==> self.bound[i].account_id
                != self.bound[j].account_id
    }

    /// Whether some session of the active table has the account id.
    pub open spec fn account_active(self, account_id: i32) -> bool {
        exists|j: int|
            0 <= j < self.bound.len() && self.is_active(#[trigger] self.bound[j])
                && self.bound[j].account_id == account_id
    }

    /// Whether the holding's entry at `i` answers a claim with `secret_key`.
    pub open spec fn claimable(self, i: int, secret_key: u32) -> bool {
        &&& 0 <= i < self.unclaimed.len()
        &&& self.unclaimed[i].claim_secret_key == secret_key
        &&& !self.unclaimed[i].claimed
    }

    /// The registry after the holding's entry at `i` was claimed from `udp_addr`.
    pub open spec fn claimed_at(self, i: int, udp_addr: PeerAddr) -> ServerState {
        ServerState {
            unclaimed: self.unclaimed.remove(i),
            bound: self.bound.push(self.unclaimed[i].bind(udp_addr)),
            active: self.active.insert(peer_key(udp_addr), self.unclaimed[i].id),
            ..self
        }
    }

    /// The registry after a session from `tcp_peer` with the claim key `secret_key` was accepted.
    pub open spec fn accepted(self, tcp_peer: PeerAddr, secret_key: u32, data: PlayerAccountData) -> ServerState {
        ServerState {
            unclaimed: self.unclaimed.push(fresh_thread(self.next_id, tcp_peer, secret_key, data)),
            next_id: (self.next_id + 1) as u64,
            ..self
        }
    }

    /// The record of the session; meaningful where `has_thread` holds.
    pub open spec fn thread(self, id: u64) -> GameServerThread {
        if has_id(self.unclaimed, id) {
            self.unclaimed[index_in(self.unclaimed, id)]
        } else {
            self.bound[index_in(self.bound, id)]
        }
    }

    /// Whether some entry of the holding answers a claim with `secret_key`.
    pub open spec fn some_claimable(self, secret_key: u32) -> bool {
        exists|i: int| self.claimable(i, secret_key)
    }

    /// The first entry of the holding that answers a claim with `secret_key`.
    pub open spec fn first_claimable(self, secret_key: u32) -> int {
        choose|i: int|
            self.claimable(i, secret_key) && forall|j: int|
                0 <= j < i ==> !self.claimable(j, secret_key)
    }

    /// The registry after a claim with `secret_key` from `udp_addr`: the first
    /// entry of the holding that answers the claim is bound, and where none
    /// answers nothing changes.
    pub open spec fn after_claim(self, udp_addr: PeerAddr, secret_key: u32) -> ServerState {
        if self.some_claimable(secret_key) {
            self.claimed_at(self.first_claimable(secret_key), udp_addr)
        } else {
            self
        }
    }

    /// The session that a claim with `secret_key` binds, if any.
    pub open spec fn claim_result(self, secret_key: u32) -> Option<u64> {
        if self.some_claimable(secret_key) {
            Some(self.unclaimed[self.first_claimable(secret_key)].id)
        } else {
            None
        }
    }

    /// The registry after the cleanup of the session: the session has left
    /// the table it was in, and the player count is one lower if the session
    /// had logged in. Where the server does not know the session nothing
    /// changes.
    pub open spec fn after_cleanup(self, id: u64) -> ServerState {
        if has_id(self.unclaimed, id) {
            let i = index_in(self.unclaimed, id);
            ServerState {
                unclaimed: self.unclaimed.remove(i),
                player_count: self.count_after_cleanup(self.unclaimed[i].account_id),
                ..self
            }
        } else if has_id(self.bound, id) {
            let j = index_in(self.bound, id);
            let t = self.bound[j];
            ServerState {
                bound: self.bound.remove(j),
                active: if self.is_active(t) {
                    self.active.remove(peer_key(t.udp_peer->0))
                } else {
                    self.active
                },
                player_count: self.count_after_cleanup(t.account_id),
                ..self
            }
        } else {
            self
        }
    }

    /// What is left to do after the cleanup of the session; nothing where
    /// the server does not know the session.
    pub open spec fn cleanup_report(self, id: u64) -> Seq<CleanupStep> {
        if self.has_thread(id) {
            cleanup_steps(self.thread(id))
        } else {
            Seq::<CleanupStep>::empty()
        }
    }

    /// The registry after the session has moved to the room and the level.
    /// Where the server does not know the session nothing changes.
    pub open spec fn after_move(self, id: u64, room_id: u32, level_id: i32) -> ServerState {
        if has_id(self.unclaimed, id) {
            let i = index_in(self.unclaimed, id);
            ServerState {
                unclaimed: self.unclaimed.update(
                    i,
                    GameServerThread { room_id, level_id, ..self.unclaimed[i] },
                ),
                ..self
            }
        } else if has_id(self.bound, id) {
            let j = index_in(self.bound, id);
            ServerState {
                bound: self.bound.update(j, GameServerThread { room_id, level_id, ..self.bound[j] }),
                ..self
            }
        } else {
            self
        }
    }

    /// What the server runs beside its two loops: the refresh of the
    /// configuration unless it is standalone, and the status report where
    /// the configuration sets an interval.
    pub open spec fn background_tasks(self) -> BackgroundTasks {
        BackgroundTasks {
            refresh_interval: if self.standalone {
                None
            } else {
                Some(REFRESH_INTERVAL_SECS)
            },
            status_interval: if self.central_conf.status_print_interval == 0 {
                None
            } else {
                Some(self.central_conf.status_print_interval)
            },
        }
    }

    /// The registry after the session has logged in as `data`: the record
    /// holds the account, and the player count is one higher. Where the
    /// server does not know the session nothing changes.
    pub open spec fn after_login(self, id: u64, data: PlayerAccountData) -> ServerState {
        if has_id(self.unclaimed, id) {
            let i = index_in(self.unclaimed, id);
            ServerState {
                unclaimed: self.unclaimed.update(i, self.unclaimed[i].logged_in(data)),
                player_count: self.count_after_login(),
                ..self
            }
        } else if has_id(self.bound, id) {
            let j = index_in(self.bound, id);
            ServerState {
                bound: self.bound.update(j, self.bound[j].logged_in(data)),
                player_count: self.count_after_login(),
                ..self
            }
        } else {
            self
        }
    }

    /// Whether the datagram is one that the server answers alone: a ping or a claim.
    pub open spec fn is_global(data: Seq<u8>) -> bool {
        header_of(data) matches Some(h) && (h.packet_id == PING_PACKET_ID || h.packet_id
            == CLAIM_THREAD_PACKET_ID)
    }

    /// The registry after the datagram `data` from `peer`: a well-formed
    /// claim binds a session, nothing else changes anything.
    pub open spec fn after_datagram(self, data: Seq<u8>, peer: PeerAddr) -> ServerState {
        match (header_of(data), body_u32(data)) {
            (Some(h), Some(secret_key)) => if h.packet_id == CLAIM_THREAD_PACKET_ID {
                self.after_claim(peer, secret_key)
            } else {
                self
            },
            _ => self,
        }
    }

    /// Whether `outcome` is what `try_udp_handle` returns for the datagram:
    /// an error for a datagram without a header, or for a ping or a claim
    /// without its number; the ping response for a ping; the bound session
    /// for a claim; nothing for any other id.
    pub open spec fn is_global_outcome(
        self,
        data: Seq<u8>,
        outcome: Result<Option<DatagramAction>, DatagramError>,
    ) -> bool {
        match header_of(data) {
            None => outcome == Err::<Option<DatagramAction>, DatagramError>(
                DatagramError::MalformedMessage,
            ),
            Some(h) => if h.packet_id == PING_PACKET_ID {
                match body_u32(data) {
                    None => outcome == Err::<Option<DatagramAction>, DatagramError>(
                        DatagramError::MalformedMessage,
                    ),
                    Some(id) => outcome matches Ok(Some(DatagramAction::Reply(bytes))) && bytes@
                        == ping_response_bytes(
                        PingResponsePacket { id, player_count: self.player_count },
                    ),
                }
            } else if h.packet_id == CLAIM_THREAD_PACKET_ID {
                match body_u32(data) {
                    None => outcome == Err::<Option<DatagramAction>, DatagramError>(
                        DatagramError::MalformedMessage,
                    ),
                    Some(secret_key) => outcome matches Ok(Some(DatagramAction::Claimed(bound)))
                        && bound == self.claim_result(secret_key),
                }
            } else {
                outcome matches Ok(None)
            },
        }
    }

    /// Whether `outcome` is what `recv_and_handle_udp` returns for the
    /// datagram: what `try_udp_handle` returns where that is an error or an
    /// action; else the datagram wrapped for the session that the active
    /// table holds under the sender, or dropped where it holds none.
    pub open spec fn is_datagram_outcome(
        self,
        data: Seq<u8>,
        peer: PeerAddr,
        outcome: Result<DatagramAction, DatagramError>,
    ) -> bool {
        if header_of(data) is None || Self::is_global(data) {
            match outcome {
                Ok(action) => self.is_global_outcome(data, Ok(Some(action))),
                Err(e) => self.is_global_outcome(data, Err(e)),
            }
        } else if self.active.contains_key(peer_key(peer)) {
            outcome matches Ok(DatagramAction::Forward { thread_id, message }) && thread_id
                == self.active[peer_key(peer)] && is_packet_message(message, data)
        } else {
            outcome matches Ok(DatagramAction::Dropped)
        }
    }

    /// The sessions that are told of a maintenance that begins with the new
    /// configuration: every session of the active table where the server was
    /// not under maintenance and now is, none otherwise.
    pub open spec fn maintenance_notices(self, maintenance: bool) -> Seq<u64> {
        if !self.central_conf.maintenance && maintenance {
            self.ids_where(self.any_active())
        } else {
            Seq::<u64>::empty()
        }
    }

    /// The player count after one more login.
    pub open spec fn count_after_login(self) -> u32 {
        if self.player_count == u32::MAX {
            0
        } else {
            (self.player_count + 1) as u32
        }
    }

    /// The player count after the cleanup of a session with the account id.
    pub open spec fn count_after_cleanup(self, account_id: i32) -> u32 {
        if account_id == 0 {
            self.player_count
        } else if self.player_count == 0 {
            u32::MAX
        } else {
            (self.player_count - 1) as u32
        }
    }
}

/// Where some entry of the holding answers a claim, one of them is the first.
pub proof fn lemma_first_claimable(s: ServerState, secret_key: u32)
    requires
        s.some_claimable(secret_key),
    ensures
        s.claimable(s.first_claimable(secret_key), secret_key),
        forall|j: int| 0 <= j < s.first_claimable(secret_key) ==> !s.claimable(j, secret_key),
{
    let i = choose|i: int| s.claimable(i, secret_key);
    lemma_least_claimable(s, secret_key, i);
}

/// Under an entry that answers a claim there is a least one.
proof fn lemma_least_claimable(s: ServerState, secret_key: u32, i: int)
    requires
        s.claimable(i, secret_key),
    ensures
        exists|m: int|
            s.claimable(m, secret_key) && forall|j: int| 0 <= j < m ==> !s.claimable(j, secret_key),
    decreases i,
{
    if exists|j: int| 0 <= j < i && s.claimable(j, secret_key) {
        let j = choose|j: int| 0 <= j < i && s.claimable(j, secret_key);
        lemma_least_claimable(s, secret_key, j);
    }
}

/// Among records with distinct ids, the place of a record is the place of its id.
pub proof fn lemma_index_in(threads: Seq<GameServerThread>, i: int)
    requires
        ids_distinct(threads),
        0 <= i < threads.len(),
    ensures
        has_id(threads, threads[i].id),
        index_in(threads, threads[i].id) == i,
{
    let id = threads[i].id;
    let k = index_in(threads, id);
    assert(0 <= k < threads.len() && threads[k].id == id);
    if k < i {
        assert(threads[k].id != threads[i].id);
    } else if i < k {
        assert(threads[i].id != threads[k].id);
    }
}

/// Appending a record adds one to the count if the record has logged in.
pub proof fn lemma_count_push(threads: Seq<GameServerThread>, thread: GameServerThread)
    ensures
        authenticated_count(threads.push(thread)) == authenticated_count(threads) + if thread.account_id
            != 0 {
            1nat
        } else {
            0nat
        },
{
    assert(threads.push(thread).drop_last() =~= threads);
}

/// The count is at most the length.
pub proof fn lemma_count_bound(threads: Seq<GameServerThread>)
    ensures
        authenticated_count(threads) <= threads.len(),
    decreases threads.len(),
{
    if threads.len() > 0 {
        lemma_count_bound(threads.drop_last());
    }
}

/// Removing a record takes one from the count if the record had logged in.
pub proof fn lemma_count_remove(threads: Seq<GameServerThread>, i: int)
    requires
        0 <= i < threads.len(),
    ensures
        authenticated_count(threads) == authenticated_count(threads.remove(i)) + if threads[i].account_id
            != 0 {
            1nat
        } else {
            0nat
        },
    decreases threads.len(),
{
    if i == threads.len() - 1 {
        assert(threads.remove(i) =~= threads.drop_last());
    } else {
        lemma_count_remove(threads.drop_last(), i);
        assert(threads.remove(i).drop_last() =~= threads.drop_last().remove(i));
        assert(threads.remove(i).last() == threads.last());
    }
}

/// Replacing a record changes the count by what the two records contribute.
pub proof fn lemma_count_update(threads: Seq<GameServerThread>, i: int, thread: GameServerThread)
    requires
        0 <= i < threads.len(),
    ensures
        authenticated_count(threads.update(i, thread)) + (if threads[i].account_id != 0 {
            1nat
        } else {
            0nat
        }) == authenticated_count(threads) + if thread.account_id != 0 {
            1nat
        } else {
            0nat
        },
    decreases threads.len(),
{
    if i == threads.len() - 1 {
        assert(threads.update(i, thread).drop_last() =~= threads.drop_last());
    } else {
        lemma_count_update(threads.drop_last(), i, thread);
        assert(threads.update(i, thread).drop_last() =~= threads.drop_last().update(i, thread));
    }
}

/// The first element that meets a predicate is the first element of what
/// the filter lets through.
pub proof fn lemma_filter_first<A>(s: Seq<A>, i: int, pred: spec_fn(A) -> bool)
    requires
        0 <= i < s.len(),
        s.subrange(0, i).filter(pred).len() == 0,
        pred(s[i]),
    ensures
        s.filter(pred).len() > 0,
        s.filter(pred)[0] == s[i],
{
    lemma_filter_step(s, i, pred);
    let head = s.subrange(0, i + 1);
    let tail = s.subrange(i + 1, s.len() as int);
    assert(head + tail =~= s);
    Seq::filter_distributes_over_add(head, tail, pred);
    assert(head.filter(pred) =~= seq![s[i]]);
}

/// One more element of a sequence passes through a filter: the filtered prefix
/// grows by the element if the element meets the predicate.
pub proof fn lemma_filter_step<A>(s: Seq<A>, i: int, pred: spec_fn(A) -> bool)
    requires
        0 <= i < s.len(),
    ensures
        s.subrange(0, i + 1).filter(pred) == if pred(s[i]) {
            s.subrange(0, i).filter(pred).push(s[i])
        } else {
            s.subrange(0, i).filter(pred)
        },
{
    reveal(Seq::filter);
    assert(s.subrange(0, i + 1).drop_last() =~= s.subrange(0, i));
}

} // verus!
