//! The game server: the connection registry and what the dispatcher and the
//! sessions ask of it.

use crate::address::peer_key;
use crate::address::PeerAddr;
use crate::address::SocketPeer;
use crate::crypto::generate_secret_key;
use crate::crypto::public_key_for;
use crate::crypto::public_key_of;
use crate::data::GameServerBootData;
use crate::data::PlayerAccountData;
use crate::data::PlayerPreviewAccountData;
use crate::data::PlayerRoomPreviewAccountData;
use crate::laws::accept_keeps_invariant;
use crate::laws::binding_keeps_invariant;
use crate::laws::cleanup_keeps_invariant;
use crate::laws::login_keeps_invariant;
use crate::laws::move_keeps_invariant;
use crate::packet::ChatMessageBroadcastPacket;
use crate::packet::CLAIM_THREAD_PACKET_ID;
use crate::packet::ClaimThreadPacket;
use crate::packet::packet_message;
use crate::packet::PING_PACKET_ID;
use crate::packet::PingPacket;
use crate::packet::PingResponsePacket;
use crate::packet::read_packet_header;
use crate::packet::VoiceBroadcastPacket;
use crate::registry::BackgroundTasks;
use crate::registry::cleanup_steps;
use crate::registry::CleanupStep;
use crate::registry::DatagramAction;
use crate::registry::DatagramError;
use crate::registry::fresh_thread;
use crate::registry::GameServerThread;
use crate::registry::has_id;
use crate::registry::index_in;
use crate::registry::is_account_data_of;
use crate::registry::lemma_filter_first;
use crate::registry::lemma_filter_step;
use crate::registry::lemma_index_in;
use crate::registry::previews;
use crate::registry::REFRESH_INTERVAL_SECS;
use crate::registry::room_previews;
use crate::registry::ServerState;
use crate::table::table_get;
use crate::table::table_insert;
use crate::table::table_remove;
use crate::text::eq_ignore_ascii_case;
use crate::text::parse_i32;
use crate::unauthorized::UnauthorizedThread;
use rustc_hash::FxHashMap;
use vstd::prelude::*;

verus! {

/// Why a connection was not accepted.
#[derive(Clone, Copy, Debug, PartialEq, Eq, Structural)]
pub enum AcceptError {
    /// The peer is not an IPv4 host.
    Ipv6Rejected,
    /// The server holds as many sessions as it can number.
    Exhausted,
}

/// The server: one registry, one configuration snapshot, one key.
pub struct GameServer {
    /// The active table: from the key of a datagram peer to the id of the session bound to it.
    threads: FxHashMap<u64, u64>,
    /// The records of the sessions that were claimed, in the order of their claims.
    bound_threads: Vec<GameServerThread>,
    /// The unclaimed holding, in the order of acceptance.
    unclaimed_threads: Vec<GameServerThread>,
    /// The number of players that have logged in.
    player_count: u32,
    /// The id that the next accepted session gets.
    next_id: u64,
    central_conf: GameServerBootData,
    /// Whether the server runs without a central service.
    standalone: bool,
    secret_key: [u8; 32],
    public_key: [u8; 32],
}

impl View for GameServer {
    type V = ServerState;

    closed spec fn view(&self) -> ServerState {
        ServerState {
            unclaimed: self.unclaimed_threads@,
            bound: self.bound_threads@,
            active: self.threads@,
            player_count: self.player_count,
            next_id: self.next_id,
            central_conf: self.central_conf,
            standalone: self.standalone,
            secret_key: self.secret_key@,
            public_key: self.public_key@,
        }
    }
}

/// The place of the first record with the id.
fn position_of(threads: &Vec<GameServerThread>, id: u64) -> (found: Option<usize>)
    ensures
        match found {
            Some(i) => i < threads.len() && threads@[i as int].id == id,
            None => !has_id(threads@, id),
        },
{
    let mut i: usize = 0;
    while i < threads.len()
        invariant
            i <= threads.len(),
            forall|j: int| 0 <= j < i ==> (#[trigger] threads@[j]).id != id,
        decreases threads.len() - i,
    {
        if threads[i].id == id {
            return Some(i);
        }
        i += 1;
    }
    None
}

/// Whether the list holds the number.
fn contains_id(ids: &[i32], id: i32) -> (found: bool)
    ensures
        found == ids@.contains(id),
{
    let mut i: usize = 0;
    while i < ids.len()
        invariant
            i <= ids.len(),
            forall|j: int| 0 <= j < i ==> ids@[j] != id,
        decreases ids.len() - i,
    {
        if ids[i] == id {
            return true;
        }
        i += 1;
    }
    false
}

impl GameServer {
    /// The registry's invariant holds.
    pub open spec fn wf(&self) -> bool {
        self@.wf()
    }

    /// Whether the server is one that was just made: nothing in its
    /// registry, the configuration as given, and the public key that belongs
    /// to its secret key.
    pub open spec fn is_new(&self, central_conf: GameServerBootData, standalone: bool) -> bool {
        &&& self@.unclaimed.len() == 0
        &&& self@.bound.len() == 0
        &&& self@.active == Map::<u64, u64>::empty()
        &&& self@.player_count == 0
        &&& self@.next_id == 0
        &&& self@.central_conf == central_conf
        &&& self@.standalone == standalone
        &&& self@.public_key == public_key_for(self@.secret_key)
    }

    /// A server with an empty registry and a key pair drawn at random.
    pub fn new(central_conf: GameServerBootData, standalone: bool) -> (server: GameServer)
        ensures
            server.wf(),
            server.is_new(central_conf, standalone),
    {
        Self::with_secret_key(central_conf, standalone, generate_secret_key())
    }

    /// A server with an empty registry and the given secret key.
    pub fn with_secret_key(central_conf: GameServerBootData, standalone: bool, secret_key: [u8; 32]) -> (server:
        GameServer)
        ensures
            server.wf(),
            server.is_new(central_conf, standalone),
            server@.secret_key == secret_key@,
    {
        let public_key = public_key_of(&secret_key);
        GameServer {
            threads: FxHashMap::default(),
            bound_threads: Vec::new(),
            unclaimed_threads: Vec::new(),
            player_count: 0,
            next_id: 0,
            central_conf,
            standalone,
            secret_key,
            public_key,
        }
    }

    /// The server's public key, which a handshake hands to the client.
    pub fn public_key(&self) -> (key: [u8; 32])
        ensures
            key@ == self@.public_key,
    {
        self.public_key
    }

    /// The server's secret key.
    pub fn secret_key(&self) -> (key: [u8; 32])
        ensures
            key@ == self@.secret_key,
    {
        self.secret_key
    }

    /// What the server runs beside its two loops.
    pub fn background_tasks(&self) -> (tasks: BackgroundTasks)
        ensures
            tasks == self@.background_tasks(),
    {
        BackgroundTasks {
            refresh_interval: if self.standalone {
                None
            } else {
                Some(REFRESH_INTERVAL_SECS)
            },
            status_interval: if self.central_conf.status_print_interval == 0 {
                None
            } else {
                Some(self.central_conf.status_print_interval)
            },
        }
    }

    /// The server's record of the session, if it knows the session.
    pub fn thread(&self, id: u64) -> (record: Option<&GameServerThread>)
        requires
            self.wf(),
        ensures
            match record {
                Some(t) => self@.has_thread(id) && *t == self@.thread(id),
                None => !self@.has_thread(id),
            },
    {
        match position_of(&self.unclaimed_threads, id) {
            Some(i) => {
                proof {
                    lemma_index_in(self.unclaimed_threads@, i as int);
                }
                Some(&self.unclaimed_threads[i])
            },
            None => match position_of(&self.bound_threads, id) {
                Some(j) => {
                    proof {
                        lemma_index_in(self.bound_threads@, j as int);
                    }
                    Some(&self.bound_threads[j])
                },
                None => None,
            },
        }
    }

    /// The session that the active table holds under the datagram peer.
    pub fn thread_at(&self, udp_peer: PeerAddr) -> (id: Option<u64>)
        ensures
            id == (if self@.active.contains_key(peer_key(udp_peer)) {
                Some(self@.active[peer_key(udp_peer)])
            } else {
                None
            }),
    {
        table_get(&self.threads, udp_peer.key())
    }

    /// The number of sessions in the unclaimed holding.
    pub fn unclaimed_count(&self) -> (n: usize)
        ensures
            n == self@.unclaimed.len(),
    {
        self.unclaimed_threads.len()
    }

    /// The number of sessions in the active table.
    pub fn thread_count(&self) -> (n: usize)
        ensures
            n == self@.active_threads().len(),
    {
        let ghost test = |t: GameServerThread| self@.is_active(t);
        let mut n: usize = 0;
        let mut j: usize = 0;
        proof {
            reveal(Seq::filter);
            assert(self@.bound.subrange(0, 0).filter(test).len() == 0);
        }
        while j < self.bound_threads.len()
            invariant
                j <= self@.bound.len(),
                n <= j,
                self@.bound == self.bound_threads@,
                test == |t: GameServerThread| self@.is_active(t),
                n == self@.bound.subrange(0, j as int).filter(test).len(),
            decreases self.bound_threads.len() - j,
        {
            proof {
                lemma_filter_step(self@.bound, j as int, test);
            }
            if self.is_active_at(j) {
                n += 1;
            }
            j += 1;
        }
        proof {
            assert(self@.bound.subrange(0, j as int) =~= self@.bound);
        }
        n
    }

    /// Records the room and the level that a session has moved to. Returns
    /// whether the server knows the session; where it does not, nothing
    /// changes.
    pub fn move_thread(&mut self, id: u64, room_id: u32, level_id: i32) -> (known: bool)
        requires
            old(self).wf(),
        ensures
            final(self).wf(),
            final(self)@ == old(self)@.after_move(id, room_id, level_id),
            known == old(self)@.has_thread(id),
    {
        match position_of(&self.unclaimed_threads, id) {
            Some(i) => {
                proof {
                    lemma_index_in(self.unclaimed_threads@, i as int);
                }
                self.unclaimed_threads[i].room_id = room_id;
                self.unclaimed_threads[i].level_id = level_id;
                proof {
                    assert(final(self)@.unclaimed =~= old(self)@.unclaimed.update(
                        i as int,
                        GameServerThread { room_id, level_id, ..old(self)@.unclaimed[i as int] },
                    ));
                    move_keeps_invariant(old(self)@, id, room_id, level_id);
                }
                true
            },
            None => match position_of(&self.bound_threads, id) {
                Some(j) => {
                    proof {
                        lemma_index_in(self.bound_threads@, j as int);
                    }
                    self.bound_threads[j].room_id = room_id;
                    self.bound_threads[j].level_id = level_id;
                    proof {
                        assert(final(self)@.bound =~= old(self)@.bound.update(
                            j as int,
                            GameServerThread { room_id, level_id, ..old(self)@.bound[j as int] },
                        ));
                        move_keeps_invariant(old(self)@, id, room_id, level_id);
                    }
                    true
                },
                None => false,
            },
        }
    }

    /// What `accept_connection` returns and does: a peer that is no IPv4
    /// host is rejected, and so is any peer where the server has no room;
    /// else the new session gets the next id and is filed at the end of the
    /// unclaimed holding.
    pub open spec fn is_accept(
        pre: ServerState,
        post: ServerState,
        tcp_peer: SocketPeer,
        accepted: Result<UnauthorizedThread, AcceptError>,
    ) -> bool {
        match tcp_peer {
            SocketPeer::V6 => post == pre && accepted == Err::<UnauthorizedThread, AcceptError>(
                AcceptError::Ipv6Rejected,
            ),
            SocketPeer::V4(peer) => if pre.next_id < u64::MAX && pre.unclaimed.len() + pre.bound.len()
                < u32::MAX {
                &&& accepted matches Ok(thread)
                &&& thread == UnauthorizedThread::fresh(pre.next_id, peer, thread.secret_key)
                &&& post == pre.accepted(peer, thread.secret_key, post.unclaimed.last().account_data)
                &&& post.unclaimed.last().account_data@ == PlayerAccountData::empty_view()
            } else {
                post == pre && accepted == Err::<UnauthorizedThread, AcceptError>(
                    AcceptError::Exhausted,
                )
            },
        }
    }

    /// Accepts a connection of the reliable channel: makes a session with a
    /// claim key drawn at random and files it in the unclaimed holding.
    pub fn accept_connection(&mut self, tcp_peer: SocketPeer) -> (accepted: Result<
        UnauthorizedThread,
        AcceptError,
    >)
        requires
            old(self).wf(),
        ensures
            final(self).wf(),
            Self::is_accept(old(self)@, final(self)@, tcp_peer, accepted),
    {
        let peer = match tcp_peer {
            SocketPeer::V4(peer) => peer,
            SocketPeer::V6 => {
                return Err(AcceptError::Ipv6Rejected);
            },
        };
        if !self.has_room() {
            return Err(AcceptError::Exhausted);
        }
        let thread = UnauthorizedThread::new(self.next_id, peer);
        self.file_thread(&thread);
        Ok(thread)
    }

    /// Accepts a connection as `accept_connection` does, with the given claim key.
    pub fn accept_with_key(&mut self, tcp_peer: SocketPeer, secret_key: u32) -> (accepted: Result<
        UnauthorizedThread,
        AcceptError,
    >)
        requires
            old(self).wf(),
        ensures
            final(self).wf(),
            Self::is_accept(old(self)@, final(self)@, tcp_peer, accepted),
            accepted matches Ok(thread) ==> thread.secret_key == secret_key,
    {
        let peer = match tcp_peer {
            SocketPeer::V4(peer) => peer,
            SocketPeer::V6 => {
                return Err(AcceptError::Ipv6Rejected);
            },
        };
        if !self.has_room() {
            return Err(AcceptError::Exhausted);
        }
        let thread = UnauthorizedThread::with_secret_key(self.next_id, peer, secret_key);
        self.file_thread(&thread);
        Ok(thread)
    }

    /// Whether the server can number and hold one more session.
    fn has_room(&self) -> (room: bool)
        ensures
            room == (self@.next_id < u64::MAX && self@.unclaimed.len() + self@.bound.len() < u32::MAX),
    {
        self.next_id < u64::MAX && self.unclaimed_threads.len() < 0xffff_ffff
            && self.bound_threads.len() < 0xffff_ffff - self.unclaimed_threads.len()
    }

    /// Files the record of a new session at the end of the unclaimed holding.
    fn file_thread(&mut self, thread: &UnauthorizedThread)
        requires
            old(self).wf(),
            old(self)@.next_id < u64::MAX,
            old(self)@.unclaimed.len() + old(self)@.bound.len() < u32::MAX,
            thread.id == old(self)@.next_id,
        ensures
            final(self).wf(),
            final(self)@ == old(self)@.accepted(
                thread.socket.tcp_peer,
                thread.secret_key,
                final(self)@.unclaimed.last().account_data,
            ),
            final(self)@.unclaimed.last().account_data@ == PlayerAccountData::empty_view(),
    {
        let record = GameServerThread {
            id: thread.id,
            tcp_peer: thread.socket.tcp_peer,
            udp_peer: None,
            claim_secret_key: thread.secret_key,
            claimed: false,
            account_id: 0,
            level_id: 0,
            room_id: 0,
            account_data: PlayerAccountData::new(),
        };
        proof {
            assert(record == fresh_thread(thread.id, thread.socket.tcp_peer, thread.secret_key, record.account_data));
        }
        self.unclaimed_threads.push(record);
        self.next_id = self.next_id + 1;
        proof {
            assert(final(self)@ == old(self)@.accepted(
                thread.socket.tcp_peer,
                thread.secret_key,
                record.account_data,
            ));
            accept_keeps_invariant(old(self)@, thread.socket.tcp_peer, thread.secret_key, record.account_data);
        }
    }

    /// Handles a claim: the first session of the holding whose claim key is
    /// `secret_key` leaves the holding, is bound to `udp_addr` and enters the
    /// active table under that peer. Returns the session's id, for its claim
    /// signal. Where no session answers the claim nothing changes.
    pub fn claim_thread(&mut self, udp_addr: PeerAddr, secret_key: u32) -> (claimed: Option<u64>)
        requires
            old(self).wf(),
        ensures
            final(self).wf(),
            final(self)@ == old(self)@.after_claim(udp_addr, secret_key),
            claimed == old(self)@.claim_result(secret_key),
    {
        let mut i: usize = 0;
        while i < self.unclaimed_threads.len()
            invariant
                i <= self.unclaimed_threads.len(),
                *self == *old(self),
                forall|j: int| 0 <= j < i ==> !self@.claimable(j, secret_key),
            ensures
                i < self.unclaimed_threads.len() ==> self@.claimable(i as int, secret_key),
            decreases self.unclaimed_threads.len() - i,
        {
            if self.unclaimed_threads[i].claim_secret_key == secret_key && !self.unclaimed_threads[i].claimed {
                break ;
            }
            i += 1;
        }
        if i >= self.unclaimed_threads.len() {
            proof {
                assert(!self@.some_claimable(secret_key));
            }
            return None;
        }
        proof {
            let s = old(self)@;
            assert(s.claimable(i as int, secret_key));
            let k = s.first_claimable(secret_key);
            assert(s.claimable(k, secret_key) && forall|j: int| 0 <= j < k ==> !s.claimable(j, secret_key));
            assert(k == i);
        }
        let mut thread = self.unclaimed_threads.remove(i);
        let id = thread.id;
        thread.udp_peer = Some(udp_addr);
        thread.claimed = true;
        self.bound_threads.push(thread);
        let _ = table_insert(&mut self.threads, udp_addr.key(), id);
        proof {
            let pre = old(self)@;
            let post = final(self)@;
            assert(post == pre.claimed_at(i as int, udp_addr));
            binding_keeps_invariant(pre, i as int, udp_addr);
        }
        Some(id)
    }

    /// Whether the bound record at `j` is in the active table.
    fn is_active_at(&self, j: usize) -> (yes: bool)
        requires
            j < self@.bound.len(),
        ensures
            yes == self@.is_active(self@.bound[j as int]),
    {
        match self.bound_threads[j].udp_peer {
            Some(peer) => table_get(&self.threads, peer.key()) == Some(self.bound_threads[j].id),
            None => false,
        }
    }

    /// The number of players that have logged in, as the server counts them.
    pub fn player_count(&self) -> (count: u32)
        ensures
            count == self@.player_count,
    {
        self.player_count
    }

    /// Whether the server trusts the names that clients give.
    pub fn standalone(&self) -> (yes: bool)
        ensures
            yes == self@.standalone,
    {
        self.standalone
    }

    /// The configuration that the server holds.
    pub fn central_conf(&self) -> (conf: &GameServerBootData)
        ensures
            *conf == self@.central_conf,
    {
        &self.central_conf
    }

    /// The account data of every session of the active table whose account
    /// id is in `ids`, in the order of the claims.
    pub fn for_each_player(&self, ids: &[i32]) -> (players: Vec<PlayerAccountData>)
        ensures
            is_account_data_of(players@, self@.bound.filter(self@.one_of(ids@))),
    {
        let ghost test = self@.one_of(ids@);
        let mut players: Vec<PlayerAccountData> = Vec::new();
        let mut j: usize = 0;
        proof {
            reveal(Seq::filter);
            assert(self@.bound.subrange(0, 0).filter(test).len() == 0);
        }
        while j < self.bound_threads.len()
            invariant
                j <= self@.bound.len(),
                self@.bound == self.bound_threads@,
                test == self@.one_of(ids@),
                is_account_data_of(players@, self@.bound.subrange(0, j as int).filter(test)),
            decreases self.bound_threads.len() - j,
        {
            proof {
                lemma_filter_step(self@.bound, j as int, test);
            }
            if self.is_active_at(j) && contains_id(ids, self.bound_threads[j].account_id) {
                players.push(self.bound_threads[j].account_data.duplicate());
            }
            j += 1;
        }
        proof {
            assert(self@.bound.subrange(0, j as int) =~= self@.bound);
        }
        players
    }

    /// The preview of every session of the active table that has logged in,
    /// in the order of the claims.
    pub fn for_every_player_preview(&self) -> (list: Vec<PlayerPreviewAccountData>)
        ensures
            list@ == previews(self@.bound.filter(self@.any_player())),
    {
        let ghost test = self@.any_player();
        let mut list: Vec<PlayerPreviewAccountData> = Vec::new();
        let mut j: usize = 0;
        proof {
            reveal(Seq::filter);
            assert(previews(self@.bound.subrange(0, 0).filter(test)) =~= list@);
        }
        while j < self.bound_threads.len()
            invariant
                j <= self@.bound.len(),
                self@.bound == self.bound_threads@,
                test == self@.any_player(),
                list@ == previews(self@.bound.subrange(0, j as int).filter(test)),
            decreases self.bound_threads.len() - j,
        {
            let ghost before = self@.bound.subrange(0, j as int).filter(test);
            proof {
                lemma_filter_step(self@.bound, j as int, test);
            }
            if self.is_active_at(j) && self.bound_threads[j].authenticated() {
                list.push(self.bound_threads[j].account_data.make_preview());
                proof {
                    assert(previews(before.push(self@.bound[j as int])) =~= previews(before).push(
                        self@.bound[j as int].account_data.preview(),
                    ));
                }
            }
            j += 1;
        }
        proof {
            assert(self@.bound.subrange(0, j as int) =~= self@.bound);
        }
        list
    }

    /// The room preview of every session of the active table that has
    /// logged in and is in the room, in the order of the claims.
    pub fn for_every_room_player_preview(&self, room_id: u32) -> (list: Vec<
        PlayerRoomPreviewAccountData,
    >)
        ensures
            list@ == room_previews(self@.bound.filter(self@.in_room(room_id))),
    {
        let ghost test = self@.in_room(room_id);
        let mut list: Vec<PlayerRoomPreviewAccountData> = Vec::new();
        let mut j: usize = 0;
        proof {
            reveal(Seq::filter);
            assert(room_previews(self@.bound.subrange(0, 0).filter(test)) =~= list@);
        }
        while j < self.bound_threads.len()
            invariant
                j <= self@.bound.len(),
                self@.bound == self.bound_threads@,
                test == self@.in_room(room_id),
                list@ == room_previews(self@.bound.subrange(0, j as int).filter(test)),
            decreases self.bound_threads.len() - j,
        {
            let ghost before = self@.bound.subrange(0, j as int).filter(test);
            proof {
                lemma_filter_step(self@.bound, j as int, test);
            }
            if self.is_active_at(j) && self.bound_threads[j].authenticated()
                && self.bound_threads[j].room_id == room_id {
                let level_id = self.bound_threads[j].level_id;
                list.push(self.bound_threads[j].account_data.make_room_preview(level_id));
                proof {
                    let t = self@.bound[j as int];
                    assert(room_previews(before.push(t)) =~= room_previews(before).push(
                        t.account_data.room_preview(t.level_id),
                    ));
                }
            }
            j += 1;
        }
        proof {
            assert(self@.bound.subrange(0, j as int) =~= self@.bound);
        }
        list
    }

    /// The place of the first session of the active table with the account id.
    fn find_account(&self, account_id: i32) -> (found: Option<usize>)
        ensures
            match found {
                Some(j) => j < self@.bound.len() && self@.first_thread(self@.with_account(account_id))
                    == Some(self@.bound[j as int]),
                None => self@.first_thread(self@.with_account(account_id)) is None,
            },
    {
        let ghost test = self@.with_account(account_id);
        let mut j: usize = 0;
        proof {
            reveal(Seq::filter);
            assert(self@.bound.subrange(0, 0).filter(test).len() == 0);
        }
        while j < self.bound_threads.len()
            invariant
                j <= self@.bound.len(),
                self@.bound == self.bound_threads@,
                test == self@.with_account(account_id),
                self@.bound.subrange(0, j as int).filter(test).len() == 0,
            decreases self.bound_threads.len() - j,
        {
            if self.is_active_at(j) && self.bound_threads[j].account_id == account_id {
                proof {
                    lemma_filter_first(self@.bound, j as int, test);
                }
                return Some(j);
            }
            proof {
                lemma_filter_step(self@.bound, j as int, test);
            }
            j += 1;
        }
        proof {
            assert(self@.bound.subrange(0, j as int) =~= self@.bound);
        }
        None
    }

    /// The place of the first session of the active table whose player goes by the name.
    fn find_name(&self, name: &str) -> (found: Option<usize>)
        ensures
            match found {
                Some(j) => j < self@.bound.len() && self@.first_thread(self@.with_name(name@)) == Some(
                    self@.bound[j as int],
                ),
                None => self@.first_thread(self@.with_name(name@)) is None,
            },
    {
        let ghost test = self@.with_name(name@);
        let mut j: usize = 0;
        proof {
            reveal(Seq::filter);
            assert(self@.bound.subrange(0, 0).filter(test).len() == 0);
        }
        while j < self.bound_threads.len()
            invariant
                j <= self@.bound.len(),
                self@.bound == self.bound_threads@,
                test == self@.with_name(name@),
                self@.bound.subrange(0, j as int).filter(test).len() == 0,
            decreases self.bound_threads.len() - j,
        {
            if self.is_active_at(j) && eq_ignore_ascii_case(
                self.bound_threads[j].account_data.name.as_str(),
                name,
            ) {
                proof {
                    lemma_filter_first(self@.bound, j as int, test);
                }
                return Some(j);
            }
            proof {
                lemma_filter_step(self@.bound, j as int, test);
            }
            j += 1;
        }
        proof {
            assert(self@.bound.subrange(0, j as int) =~= self@.bound);
        }
        None
    }

    /// The account data of the first session of the active table with the account id.
    pub fn get_player_account_data(&self, account_id: i32) -> (data: Option<PlayerAccountData>)
        ensures
            match self@.first_thread(self@.with_account(account_id)) {
                Some(t) => data matches Some(d) && d@ == t.account_data@,
                None => data is None,
            },
    {
        match self.find_account(account_id) {
            Some(j) => Some(self.bound_threads[j].account_data.duplicate()),
            None => None,
        }
    }

    /// Whether the user may not chat.
    pub fn chat_blocked(&self, user_id: i32) -> (blocked: bool)
        ensures
            blocked == self@.central_conf.no_chat@.contains(user_id),
    {
        self.central_conf.no_chat_contains(user_id)
    }

    /// The session of the active table that is logged in under the account,
    /// if there is one: the session that a new login under the same account
    /// has to send away, and whose cleanup it has to wait for.
    pub fn check_already_logged_in(&self, account_id: i32) -> (evict: Option<u64>)
        ensures
            evict == self@.first_id(self@.with_account(account_id)),
    {
        match self.find_account(account_id) {
            Some(j) => Some(self.bound_threads[j].id),
            None => None,
        }
    }

    /// The session of the active table that the text names: by account id
    /// where the text spells a number, by player name where it does not.
    pub fn get_user_by_name_or_id(&self, name: &str) -> (found: Option<u64>)
        ensures
            found == self@.first_id(self@.named_or_numbered(name@)),
    {
        let place = match parse_i32(name) {
            Some(account_id) => self.find_account(account_id),
            None => self.find_name(name),
        };
        match place {
            Some(j) => Some(self.bound_threads[j].id),
            None => None,
        }
    }

    /// The ids of the bound sessions of the active table that meet the test
    /// `listener(origin_id, players)`: who gets a broadcast of `origin_id`.
    /// `players` is the level's player list as the room manager has it;
    /// without a level nobody listens.
    pub fn broadcast_user_message(&self, origin_id: i32, players: Option<&Vec<i32>>) -> (listeners: Vec<
        u64,
    >)
        ensures
            listeners@ == (match players {
                Some(p) => self@.ids_where(self@.listener(origin_id, p@)),
                None => Seq::<u64>::empty(),
            }),
    {
        let mut listeners: Vec<u64> = Vec::new();
        let players = match players {
            Some(p) => p,
            None => {
                return listeners;
            },
        };
        let ghost test = self@.listener(origin_id, players@);
        let ghost id_of = |t: GameServerThread| t.id;
        let mut j: usize = 0;
        proof {
            reveal(Seq::filter);
            assert(self@.bound.subrange(0, 0).filter(test).map_values(id_of) =~= listeners@);
        }
        while j < self.bound_threads.len()
            invariant
                j <= self@.bound.len(),
                self@.bound == self.bound_threads@,
                test == self@.listener(origin_id, players@),
                id_of == |t: GameServerThread| t.id,
                listeners@ == self@.bound.subrange(0, j as int).filter(test).map_values(id_of),
            decreases self.bound_threads.len() - j,
        {
            let ghost before = self@.bound.subrange(0, j as int).filter(test);
            proof {
                lemma_filter_step(self@.bound, j as int, test);
            }
            let account_id = self.bound_threads[j].account_id;
            if self.is_active_at(j) && account_id != origin_id && contains_id(
                players.as_slice(),
                account_id,
            ) {
                listeners.push(self.bound_threads[j].id);
                proof {
                    let t = self@.bound[j as int];
                    assert(before.push(t).map_values(id_of) =~= before.map_values(id_of).push(t.id));
                }
            }
            j += 1;
        }
        proof {
            assert(self@.bound.subrange(0, j as int) =~= self@.bound);
        }
        listeners
    }

    /// Who gets a voice frame: every other player of the level.
    pub fn broadcast_voice_packet(&self, vpkt: &VoiceBroadcastPacket, players: Option<&Vec<i32>>) -> (listeners: Vec<
        u64,
    >)
        ensures
            listeners@ == (match players {
                Some(p) => self@.ids_where(self@.listener(vpkt.player_id, p@)),
                None => Seq::<u64>::empty(),
            }),
    {
        self.broadcast_user_message(vpkt.player_id, players)
    }

    /// Who gets a chat message: every other player of the level.
    pub fn broadcast_chat_packet(&self, tpkt: &ChatMessageBroadcastPacket, players: Option<
        &Vec<i32>,
    >) -> (listeners: Vec<u64>)
        ensures
            listeners@ == (match players {
                Some(p) => self@.ids_where(self@.listener(tpkt.player_id, p@)),
                None => Seq::<u64>::empty(),
            }),
    {
        self.broadcast_user_message(tpkt.player_id, players)
    }

    /// Handles a datagram that is addressed to the server and not to a
    /// session: answers a ping with the ping's id and the player count, and
    /// handles a claim. Returns nothing for any other packet id.
    pub fn try_udp_handle(&mut self, data: &[u8], peer: PeerAddr) -> (outcome: Result<
        Option<DatagramAction>,
        DatagramError,
    >)
        requires
            old(self).wf(),
        ensures
            final(self).wf(),
            final(self)@ == old(self)@.after_datagram(data@, peer),
            old(self)@.is_global_outcome(data@, outcome),
    {
        let header = match read_packet_header(data) {
            Some(h) => h,
            None => {
                return Err(DatagramError::MalformedMessage);
            },
        };
        if header.packet_id == PING_PACKET_ID {
            let pkt = match PingPacket::decode(data) {
                Some(p) => p,
                None => {
                    return Err(DatagramError::MalformedMessage);
                },
            };
            let response = PingResponsePacket { id: pkt.id, player_count: self.player_count };
            Ok(Some(DatagramAction::Reply(response.encode())))
        } else if header.packet_id == CLAIM_THREAD_PACKET_ID {
            let pkt = match ClaimThreadPacket::decode(data) {
                Some(p) => p,
                None => {
                    return Err(DatagramError::MalformedMessage);
                },
            };
            let bound = self.claim_thread(peer, pkt.secret_key);
            Ok(Some(DatagramAction::Claimed(bound)))
        } else {
            Ok(None)
        }
    }

    /// Handles one datagram: rejects a sender that is no IPv4 host, lets
    /// `try_udp_handle` answer what is addressed to the server, and wraps
    /// anything else for the session bound to the sender.
    pub fn recv_and_handle_udp(&mut self, data: &[u8], peer: SocketPeer) -> (outcome: Result<
        DatagramAction,
        DatagramError,
    >)
        requires
            old(self).wf(),
        ensures
            final(self).wf(),
            match peer {
                SocketPeer::V6 => outcome == Err::<DatagramAction, DatagramError>(
                    DatagramError::Ipv6Rejected,
                ) && final(self)@ == old(self)@,
                SocketPeer::V4(p) => final(self)@ == old(self)@.after_datagram(data@, p)
                    && old(self)@.is_datagram_outcome(data@, p, outcome),
            },
    {
        let peer = match peer {
            SocketPeer::V4(p) => p,
            SocketPeer::V6 => {
                return Err(DatagramError::Ipv6Rejected);
            },
        };
        match self.try_udp_handle(data, peer) {
            Err(e) => Err(e),
            Ok(Some(action)) => Ok(action),
            Ok(None) => match table_get(&self.threads, peer.key()) {
                Some(thread_id) => Ok(
                    DatagramAction::Forward { thread_id, message: packet_message(data) },
                ),
                None => Ok(DatagramAction::Dropped),
            },
        }
    }

    /// Takes a new configuration from the central service. Returns the
    /// sessions that are to be told that the server is now under maintenance.
    pub fn refresh_bootdata(&mut self, boot_data: GameServerBootData) -> (notify: Vec<u64>)
        requires
            old(self).wf(),
        ensures
            final(self).wf(),
            final(self)@ == (ServerState { central_conf: boot_data, ..old(self)@ }),
            notify@ == old(self)@.maintenance_notices(boot_data.maintenance),
    {
        let is_now_under_maintenance = !self.central_conf.maintenance && boot_data.maintenance;
        self.central_conf = boot_data;
        let mut notify: Vec<u64> = Vec::new();
        if !is_now_under_maintenance {
            return notify;
        }
        let ghost test = self@.any_active();
        let ghost id_of = |t: GameServerThread| t.id;
        let mut j: usize = 0;
        proof {
            reveal(Seq::filter);
            assert(self@.bound.subrange(0, 0).filter(test).map_values(id_of) =~= notify@);
            assert(test == old(self)@.any_active());
        }
        while j < self.bound_threads.len()
            invariant
                j <= self@.bound.len(),
                self@.bound == self.bound_threads@,
                test == self@.any_active(),
                id_of == |t: GameServerThread| t.id,
                notify@ == self@.bound.subrange(0, j as int).filter(test).map_values(id_of),
            decreases self.bound_threads.len() - j,
        {
            let ghost before = self@.bound.subrange(0, j as int).filter(test);
            proof {
                lemma_filter_step(self@.bound, j as int, test);
            }
            if self.is_active_at(j) {
                notify.push(self.bound_threads[j].id);
                proof {
                    let t = self@.bound[j as int];
                    assert(before.push(t).map_values(id_of) =~= before.map_values(id_of).push(t.id));
                }
            }
            j += 1;
        }
        proof {
            assert(self@.bound.subrange(0, j as int) =~= self@.bound);
        }
        notify
    }

    /// Cleans up after a session that has ended: the session leaves the
    /// table it was in, and the player count goes down by one if the session
    /// had logged in. Returns what is left to do, in order, the cleanup
    /// notification last; nothing where the server does not know the session.
    pub fn post_disconnect_cleanup(&mut self, id: u64) -> (steps: Vec<CleanupStep>)
        requires
            old(self).wf(),
        ensures
            final(self).wf(),
            final(self)@ == old(self)@.after_cleanup(id),
            steps@ == old(self)@.cleanup_report(id),
    {
        match position_of(&self.unclaimed_threads, id) {
            Some(i) => {
                proof {
                    lemma_index_in(self.unclaimed_threads@, i as int);
                }
                let thread = self.unclaimed_threads.remove(i);
                self.player_count = count_less(self.player_count, thread.account_id);
                proof {
                    cleanup_keeps_invariant(old(self)@, id);
                }
                steps_for(&thread)
            },
            None => match position_of(&self.bound_threads, id) {
                Some(j) => {
                    proof {
                        lemma_index_in(self.bound_threads@, j as int);
                    }
                    let thread = self.bound_threads.remove(j);
                    if let Some(peer) = thread.udp_peer {
                        let key = peer.key();
                        if table_get(&self.threads, key) == Some(id) {
                            let _ = table_remove(&mut self.threads, key);
                        }
                    }
                    self.player_count = count_less(self.player_count, thread.account_id);
                    proof {
                        cleanup_keeps_invariant(old(self)@, id);
                    }
                    steps_for(&thread)
                },
                None => Vec::new(),
            },
        }
    }

    /// Records the login of a session: the record holds the account, and
    /// the player count goes up by one. Returns whether the server knows the
    /// session; where it does not, nothing changes.
    pub fn login_thread(&mut self, id: u64, data: PlayerAccountData) -> (known: bool)
        requires
            old(self).wf(),
        ensures
            final(self).wf(),
            final(self)@ == old(self)@.after_login(id, data),
            known == old(self)@.has_thread(id),
    {
        match position_of(&self.unclaimed_threads, id) {
            Some(i) => {
                proof {
                    lemma_index_in(self.unclaimed_threads@, i as int);
                }
                self.unclaimed_threads[i].account_id = data.account_id;
                self.unclaimed_threads[i].account_data = data;
                self.player_count = self.player_count.wrapping_add(1);
                proof {
                    assert(final(self)@.unclaimed =~= old(self)@.unclaimed.update(
                        i as int,
                        old(self)@.unclaimed[i as int].logged_in(data),
                    ));
                    login_keeps_invariant(old(self)@, id, data);
                }
                true
            },
            None => match position_of(&self.bound_threads, id) {
                Some(j) => {
                    proof {
                        lemma_index_in(self.bound_threads@, j as int);
                    }
                    self.bound_threads[j].account_id = data.account_id;
                    self.bound_threads[j].account_data = data;
                    self.player_count = self.player_count.wrapping_add(1);
                    proof {
                        assert(final(self)@.bound =~= old(self)@.bound.update(
                            j as int,
                            old(self)@.bound[j as int].logged_in(data),
                        ));
                        login_keeps_invariant(old(self)@, id, data);
                    }
                    true
                },
                None => false,
            },
        }
    }
}

/// What is left to do after the record has left the registry.
fn steps_for(thread: &GameServerThread) -> (steps: Vec<CleanupStep>)
    ensures
        steps@ == cleanup_steps(*thread),
{
    let mut steps: Vec<CleanupStep> = Vec::new();
    if thread.account_id != 0 {
        steps.push(CleanupStep::RemovePlayer { room_id: thread.room_id, account_id: thread.account_id });
        if thread.level_id != 0 {
            steps.push(
                CleanupStep::RemoveFromLevel {
                    room_id: thread.room_id,
                    level_id: thread.level_id,
                    account_id: thread.account_id,
                },
            );
        }
        if thread.room_id != 0 {
            steps.push(CleanupStep::MaybeRemoveRoom { room_id: thread.room_id });
        }
    }
    steps.push(CleanupStep::NotifyCleanup);
    proof {
        assert(steps@ =~= cleanup_steps(*thread));
    }
    steps
}

/// The player count after the cleanup of a session with the account id.
fn count_less(count: u32, account_id: i32) -> (out: u32)
    ensures
        out == (if account_id == 0 {
            count
        } else if count == 0 {
            u32::MAX
        } else {
            (count - 1) as u32
        }),
{
    if account_id == 0 {
        count
    } else {
        count.wrapping_sub(1)
    }
}

} // verus!
