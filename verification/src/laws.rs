//! What holds of the registry in every state, and of its transitions: the
//! invariant that every transition keeps, what the invariant says of the two
//! tables, when the account ids of the active table stay distinct and the
//! player count stays exact, and what claims and cleanups do when they are
//! repeated.

use crate::address::peer_key;
use crate::address::PeerAddr;
use crate::data::PlayerAccountData;
use crate::registry::cleanup_steps;
use crate::registry::CleanupStep;
use crate::registry::GameServerThread;
use crate::registry::has_id;
use crate::registry::index_in;
use crate::registry::lemma_count_bound;
use crate::registry::lemma_count_push;
use crate::registry::lemma_count_remove;
use crate::registry::lemma_count_update;
use crate::registry::lemma_first_claimable;
use crate::registry::lemma_index_in;
use crate::registry::ServerState;
use crate::state::UnauthorizedThreadOutcome;
use crate::unauthorized::ThreadEvent;
use crate::unauthorized::UnauthorizedThread;
use vstd::prelude::*;

verus! {

/// A cleanup keeps the registry's invariant.
pub proof fn cleanup_keeps_invariant(pre: ServerState, id: u64)
    requires
        pre.wf(),
    ensures
        pre.after_cleanup(id).wf(),
{
    let post = pre.after_cleanup(id);
    if has_id(pre.unclaimed, id) {
        let i = index_in(pre.unclaimed, id);
        assert forall|a: int| 0 <= a < post.unclaimed.len() implies (#[trigger] post.unclaimed[a])
            == pre.unclaimed[if a < i { a } else { a + 1 }] by {}
        assert forall|a: int, b: int| 0 <= a < b < post.unclaimed.len() implies (
        #[trigger] post.unclaimed[a]).id != (#[trigger] post.unclaimed[b]).id by {
            let a0 = if a < i { a } else { a + 1 };
            let b0 = if b < i { b } else { b + 1 };
            assert(pre.unclaimed[a0].id != pre.unclaimed[b0].id);
        }
        assert forall|a: int, b: int| 0 <= a < post.unclaimed.len() && 0 <= b < post.bound.len() implies (
        #[trigger] post.unclaimed[a]).id != (#[trigger] post.bound[b]).id by {
            let a0 = if a < i { a } else { a + 1 };
            assert(pre.unclaimed[a0].id != pre.bound[b].id);
        }
        assert forall|a: int| 0 <= a < post.unclaimed.len() implies {
            &&& (#[trigger] post.unclaimed[a]).id < post.next_id
            &&& !post.unclaimed[a].claimed
            &&& post.unclaimed[a].udp_peer is None
        } by {
            let a0 = if a < i { a } else { a + 1 };
            assert(pre.unclaimed[a0].id < pre.next_id);
        }
    } else if has_id(pre.bound, id) {
        let j = index_in(pre.bound, id);
        let t = pre.bound[j];
        assert forall|b: int| 0 <= b < post.bound.len() implies (#[trigger] post.bound[b]) == pre.bound[if b
            < j { b } else { b + 1 }] by {}
        assert forall|a: int, b: int| 0 <= a < b < post.bound.len() implies (#[trigger] post.bound[a]).id
            != (#[trigger] post.bound[b]).id by {
            let a0 = if a < j { a } else { a + 1 };
            let b0 = if b < j { b } else { b + 1 };
            assert(pre.bound[a0].id != pre.bound[b0].id);
        }
        assert forall|a: int, b: int| 0 <= a < post.unclaimed.len() && 0 <= b < post.bound.len() implies (
        #[trigger] post.unclaimed[a]).id != (#[trigger] post.bound[b]).id by {
            let b0 = if b < j { b } else { b + 1 };
            assert(pre.unclaimed[a].id != pre.bound[b0].id);
        }
        assert forall|b: int| 0 <= b < post.bound.len() implies {
            &&& (#[trigger] post.bound[b]).id < post.next_id
            &&& post.bound[b].claimed
            &&& post.bound[b].udp_peer is Some
        } by {
            let b0 = if b < j { b } else { b + 1 };
            assert(pre.bound[b0].id < pre.next_id);
        }
        assert forall|key: u64| #[trigger] post.active.contains_key(key) implies exists|b: int|
            0 <= b < post.bound.len() && (#[trigger] post.bound[b]).id == post.active[key] && peer_key(
                post.bound[b].udp_peer->0,
            ) == key by {
            assert(pre.active.contains_key(key));
            let b0 = choose|b0: int|
                0 <= b0 < pre.bound.len() && (#[trigger] pre.bound[b0]).id == pre.active[key] && peer_key(
                    pre.bound[b0].udp_peer->0,
                ) == key;
            if b0 == j {
                assert(pre.is_active(t));
                assert(false);
            }
            let b = if b0 < j { b0 } else { b0 - 1 };
            assert(post.bound[b] == pre.bound[b0]);
        }
    }
}

/// A login keeps the registry's invariant.
pub proof fn login_keeps_invariant(pre: ServerState, id: u64, data: PlayerAccountData)
    requires
        pre.wf(),
    ensures
        pre.after_login(id, data).wf(),
{
    let post = pre.after_login(id, data);
    if has_id(pre.unclaimed, id) {
        let i = index_in(pre.unclaimed, id);
        assert forall|a: int| 0 <= a < post.unclaimed.len() implies (#[trigger] post.unclaimed[a]).id
            == pre.unclaimed[a].id && post.unclaimed[a].claimed == pre.unclaimed[a].claimed
            && post.unclaimed[a].udp_peer == pre.unclaimed[a].udp_peer by {}
        assert forall|a: int, b: int| 0 <= a < b < post.unclaimed.len() implies (
        #[trigger] post.unclaimed[a]).id != (#[trigger] post.unclaimed[b]).id by {
            assert(pre.unclaimed[a].id != pre.unclaimed[b].id);
        }
        assert forall|a: int, b: int| 0 <= a < post.unclaimed.len() && 0 <= b < post.bound.len() implies (
        #[trigger] post.unclaimed[a]).id != (#[trigger] post.bound[b]).id by {
            assert(pre.unclaimed[a].id != pre.bound[b].id);
        }
        assert forall|a: int| 0 <= a < post.unclaimed.len() implies {
            &&& (#[trigger] post.unclaimed[a]).id < post.next_id
            &&& !post.unclaimed[a].claimed
            &&& post.unclaimed[a].udp_peer is None
        } by {
            assert(pre.unclaimed[a].id < pre.next_id);
        }
    } else if has_id(pre.bound, id) {
        let j = index_in(pre.bound, id);
        assert forall|b: int| 0 <= b < post.bound.len() implies (#[trigger] post.bound[b]).id
            == pre.bound[b].id && post.bound[b].claimed == pre.bound[b].claimed && post.bound[b].udp_peer
            == pre.bound[b].udp_peer by {}
        assert forall|a: int, b: int| 0 <= a < b < post.bound.len() implies (#[trigger] post.bound[a]).id
            != (#[trigger] post.bound[b]).id by {
            assert(pre.bound[a].id != pre.bound[b].id);
        }
        assert forall|a: int, b: int| 0 <= a < post.unclaimed.len() && 0 <= b < post.bound.len() implies (
        #[trigger] post.unclaimed[a]).id != (#[trigger] post.bound[b]).id by {
            assert(pre.unclaimed[a].id != pre.bound[b].id);
        }
        assert forall|b: int| 0 <= b < post.bound.len() implies {
            &&& (#[trigger] post.bound[b]).id < post.next_id
            &&& post.bound[b].claimed
            &&& post.bound[b].udp_peer is Some
        } by {
            assert(pre.bound[b].id < pre.next_id);
        }
        assert forall|key: u64| #[trigger] post.active.contains_key(key) implies exists|b: int|
            0 <= b < post.bound.len() && (#[trigger] post.bound[b]).id == post.active[key] && peer_key(
                post.bound[b].udp_peer->0,
            ) == key by {
            let b0 = choose|b0: int|
                0 <= b0 < pre.bound.len() && (#[trigger] pre.bound[b0]).id == pre.active[key] && peer_key(
                    pre.bound[b0].udp_peer->0,
                ) == key;
            assert(post.bound[b0].id == pre.bound[b0].id);
        }
    }
}

/// Accepting a session keeps the registry's invariant.
pub proof fn accept_keeps_invariant(pre: ServerState, tcp_peer: PeerAddr, secret_key: u32, data: PlayerAccountData)
    requires
        pre.wf(),
        pre.next_id < u64::MAX,
        pre.unclaimed.len() + pre.bound.len() < u32::MAX,
    ensures
        pre.accepted(tcp_peer, secret_key, data).wf(),
{
    let post = pre.accepted(tcp_peer, secret_key, data);
    let n = pre.unclaimed.len() as int;
    assert forall|a: int| 0 <= a < n implies (#[trigger] post.unclaimed[a]) == pre.unclaimed[a] by {}
    assert(post.unclaimed[n].id == pre.next_id);
    assert forall|a: int, b: int| 0 <= a < b < post.unclaimed.len() implies (#[trigger] post.unclaimed[a]).id
        != (#[trigger] post.unclaimed[b]).id by {
        assert(pre.unclaimed[a].id < pre.next_id);
        if b < n {
            assert(pre.unclaimed[a].id != pre.unclaimed[b].id);
        }
    }
    assert forall|a: int, b: int| 0 <= a < post.unclaimed.len() && 0 <= b < post.bound.len() implies (
    #[trigger] post.unclaimed[a]).id != (#[trigger] post.bound[b]).id by {
        assert(pre.bound[b].id < pre.next_id);
        if a < n {
            assert(pre.unclaimed[a].id != pre.bound[b].id);
        }
    }
    assert forall|a: int| 0 <= a < post.unclaimed.len() implies {
        &&& (#[trigger] post.unclaimed[a]).id < post.next_id
        &&& !post.unclaimed[a].claimed
        &&& post.unclaimed[a].udp_peer is None
    } by {
        if a < n {
            assert(pre.unclaimed[a].id < pre.next_id);
        }
    }
    assert forall|b: int| 0 <= b < post.bound.len() implies {
        &&& (#[trigger] post.bound[b]).id < post.next_id
        &&& post.bound[b].claimed
        &&& post.bound[b].udp_peer is Some
    } by {
        assert(pre.bound[b].id < pre.next_id);
    }
}

/// Binding an entry of the holding keeps the registry's invariant.
pub proof fn binding_keeps_invariant(pre: ServerState, i: int, udp_addr: PeerAddr)
    requires
        pre.wf(),
        0 <= i < pre.unclaimed.len(),
    ensures
        pre.claimed_at(i, udp_addr).wf(),
{
    let post = pre.claimed_at(i, udp_addr);
    let t = pre.unclaimed[i].bind(udp_addr);
    assert forall|a: int, b: int| 0 <= a < b < post.unclaimed.len() implies (#[trigger] post.unclaimed[a]).id
        != (#[trigger] post.unclaimed[b]).id by {
        let a0 = if a < i { a } else { a + 1 };
        let b0 = if b < i { b } else { b + 1 };
        assert(post.unclaimed[a] == pre.unclaimed[a0]);
        assert(post.unclaimed[b] == pre.unclaimed[b0]);
    }
    assert forall|a: int, b: int| 0 <= a < b < post.bound.len() implies (#[trigger] post.bound[a]).id
        != (#[trigger] post.bound[b]).id by {
        if b == pre.bound.len() {
            assert(post.bound[a] == pre.bound[a]);
            assert(pre.unclaimed[i].id != pre.bound[a].id);
        } else {
            assert(post.bound[a] == pre.bound[a]);
            assert(post.bound[b] == pre.bound[b]);
        }
    }
    assert forall|a: int, b: int| 0 <= a < post.unclaimed.len() && 0 <= b < post.bound.len() implies (
    #[trigger] post.unclaimed[a]).id != (#[trigger] post.bound[b]).id by {
        let a0 = if a < i { a } else { a + 1 };
        assert(post.unclaimed[a] == pre.unclaimed[a0]);
        if b == pre.bound.len() {
            assert(pre.unclaimed[a0].id != pre.unclaimed[i].id);
        } else {
            assert(post.bound[b] == pre.bound[b]);
        }
    }
    assert forall|a: int| 0 <= a < post.unclaimed.len() implies {
        &&& (#[trigger] post.unclaimed[a]).id < post.next_id
        &&& !post.unclaimed[a].claimed
        &&& post.unclaimed[a].udp_peer is None
    } by {
        let a0 = if a < i { a } else { a + 1 };
        assert(post.unclaimed[a] == pre.unclaimed[a0]);
    }
    assert forall|b: int| 0 <= b < post.bound.len() implies {
        &&& (#[trigger] post.bound[b]).id < post.next_id
        &&& post.bound[b].claimed
        &&& post.bound[b].udp_peer is Some
    } by {
        if b < pre.bound.len() {
            assert(post.bound[b] == pre.bound[b]);
        }
    }
    assert forall|key: u64| #[trigger] post.active.contains_key(key) implies exists|j: int|
        0 <= j < post.bound.len() && (#[trigger] post.bound[j]).id == post.active[key] && peer_key(
            post.bound[j].udp_peer->0,
        ) == key by {
        if key == peer_key(udp_addr) {
            let j = pre.bound.len() as int;
            assert(post.bound[j] == t);
        } else {
            assert(pre.active.contains_key(key));
            let j = choose|j: int|
                0 <= j < pre.bound.len() && (#[trigger] pre.bound[j]).id == pre.active[key] && peer_key(
                    pre.bound[j].udp_peer->0,
                ) == key;
            assert(post.bound[j] == pre.bound[j]);
        }
    }
}

/// A move keeps the registry's invariant.
pub proof fn move_keeps_invariant(pre: ServerState, id: u64, room_id: u32, level_id: i32)
    requires
        pre.wf(),
    ensures
        pre.after_move(id, room_id, level_id).wf(),
{
    let post = pre.after_move(id, room_id, level_id);
    if has_id(pre.unclaimed, id) {
        let i = index_in(pre.unclaimed, id);
        assert forall|a: int| 0 <= a < post.unclaimed.len() implies (#[trigger] post.unclaimed[a]).id
            == pre.unclaimed[a].id && post.unclaimed[a].claimed == pre.unclaimed[a].claimed
            && post.unclaimed[a].udp_peer == pre.unclaimed[a].udp_peer by {}
        assert forall|a: int, b: int| 0 <= a < b < post.unclaimed.len() implies (
        #[trigger] post.unclaimed[a]).id != (#[trigger] post.unclaimed[b]).id by {
            assert(pre.unclaimed[a].id != pre.unclaimed[b].id);
        }
        assert forall|a: int, b: int| 0 <= a < post.unclaimed.len() && 0 <= b < post.bound.len() implies (
        #[trigger] post.unclaimed[a]).id != (#[trigger] post.bound[b]).id by {
            assert(pre.unclaimed[a].id != pre.bound[b].id);
        }
        assert forall|a: int| 0 <= a < post.unclaimed.len() implies {
            &&& (#[trigger] post.unclaimed[a]).id < post.next_id
            &&& !post.unclaimed[a].claimed
            &&& post.unclaimed[a].udp_peer is None
        } by {
            assert(pre.unclaimed[a].id < pre.next_id);
        }
    } else if has_id(pre.bound, id) {
        let j = index_in(pre.bound, id);
        assert forall|b: int| 0 <= b < post.bound.len() implies (#[trigger] post.bound[b]).id
            == pre.bound[b].id && post.bound[b].claimed == pre.bound[b].claimed && post.bound[b].udp_peer
            == pre.bound[b].udp_peer by {}
        assert forall|a: int, b: int| 0 <= a < b < post.bound.len() implies (#[trigger] post.bound[a]).id
            != (#[trigger] post.bound[b]).id by {
            assert(pre.bound[a].id != pre.bound[b].id);
        }
        assert forall|a: int, b: int| 0 <= a < post.unclaimed.len() && 0 <= b < post.bound.len() implies (
        #[trigger] post.unclaimed[a]).id != (#[trigger] post.bound[b]).id by {
            assert(pre.unclaimed[a].id != pre.bound[b].id);
        }
        assert forall|b: int| 0 <= b < post.bound.len() implies {
            &&& (#[trigger] post.bound[b]).id < post.next_id
            &&& post.bound[b].claimed
            &&& post.bound[b].udp_peer is Some
        } by {
            assert(pre.bound[b].id < pre.next_id);
        }
        assert forall|key: u64| #[trigger] post.active.contains_key(key) implies exists|b: int|
            0 <= b < post.bound.len() && (#[trigger] post.bound[b]).id == post.active[key] && peer_key(
                post.bound[b].udp_peer->0,
            ) == key by {
            let b0 = choose|b0: int|
                0 <= b0 < pre.bound.len() && (#[trigger] pre.bound[b0]).id == pre.active[key] && peer_key(
                    pre.bound[b0].udp_peer->0,
                ) == key;
            assert(post.bound[b0].id == pre.bound[b0].id);
        }
    }
}

/// The key of an entry of the active table is the key of the datagram peer
/// that the entry's session is bound to.
pub proof fn active_key_is_bound_peer(s: ServerState, key: u64)
    requires
        s.wf(),
        s.active.contains_key(key),
    ensures
        has_id(s.bound, s.active[key]),
        s.thread(s.active[key]).claimed,
        s.thread(s.active[key]).udp_peer matches Some(peer) && peer_key(peer) == key,
{
    let j = choose|j: int|
        0 <= j < s.bound.len() && (#[trigger] s.bound[j]).id == s.active[key] && peer_key(
            s.bound[j].udp_peer->0,
        ) == key;
    lemma_index_in(s.bound, j);
    if has_id(s.unclaimed, s.active[key]) {
        let i = index_in(s.unclaimed, s.active[key]);
        assert(s.unclaimed[i].id != s.bound[j].id);
    }
}

/// No session is in the unclaimed holding and in the active table at once.
pub proof fn holding_and_active_table_disjoint(s: ServerState, id: u64)
    requires
        s.wf(),
    ensures
        !(s.in_holding(id) && s.in_active_table(id)),
{
    if s.in_holding(id) && s.in_active_table(id) {
        let key = choose|key: u64| #[trigger] s.active.contains_key(key) && s.active[key] == id;
        let j = choose|j: int|
            0 <= j < s.bound.len() && (#[trigger] s.bound[j]).id == s.active[key] && peer_key(
                s.bound[j].udp_peer->0,
            ) == key;
        let i = index_in(s.unclaimed, id);
        assert(s.unclaimed[i].id != s.bound[j].id);
    }
}

/// A session of the active table is one that was claimed: it is among the
/// bound sessions, and the table holds it under its own datagram peer.
pub proof fn active_table_holds_bound_threads(s: ServerState, id: u64)
    requires
        s.wf(),
        s.in_active_table(id),
    ensures
        has_id(s.bound, id),
        s.is_active(s.thread(id)),
{
    let key = choose|key: u64| #[trigger] s.active.contains_key(key) && s.active[key] == id;
    active_key_is_bound_peer(s, key);
}

/// A claim keeps the account ids of the active table distinct, where no
/// session of the table has the account id of the session that is claimed.
pub proof fn claim_keeps_accounts_distinct(pre: ServerState, udp_addr: PeerAddr, secret_key: u32)
    requires
        pre.wf(),
        pre.accounts_distinct(),
        pre.claim_result(secret_key) matches Some(id) ==> !pre.account_active(pre.thread(id).account_id),
    ensures
        pre.after_claim(udp_addr, secret_key).accounts_distinct(),
{
    if pre.some_claimable(secret_key) {
        lemma_first_claimable(pre, secret_key);
        let i = pre.first_claimable(secret_key);
        let post = pre.claimed_at(i, udp_addr);
        let n = pre.bound.len() as int;
        lemma_index_in(pre.unclaimed, i);
        assert(pre.thread(pre.unclaimed[i].id) == pre.unclaimed[i]);
        assert forall|a: int, b: int|
            0 <= a < b < post.bound.len() && post.is_active(#[trigger] post.bound[a]) && post.is_active(
                #[trigger] post.bound[b],
            ) implies post.bound[a].account_id != post.bound[b].account_id by {
            assert(post.bound[a] == pre.bound[a]);
            let ka = peer_key(pre.bound[a].udp_peer->0);
            if ka == peer_key(udp_addr) {
                assert(post.active[ka] == pre.unclaimed[i].id);
                assert(pre.unclaimed[i].id != pre.bound[a].id);
            }
            assert(pre.is_active(pre.bound[a]));
            if b == n {
                assert(post.bound[b].account_id == pre.unclaimed[i].account_id);
            } else {
                assert(post.bound[b] == pre.bound[b]);
                let kb = peer_key(pre.bound[b].udp_peer->0);
                if kb == peer_key(udp_addr) {
                    assert(post.active[kb] == pre.unclaimed[i].id);
                    assert(pre.unclaimed[i].id != pre.bound[b].id);
                }
                assert(pre.is_active(pre.bound[b]));
            }
        }
    }
}

/// Accepting a session keeps the account ids of the active table distinct.
pub proof fn accept_keeps_accounts_distinct(
    pre: ServerState,
    tcp_peer: PeerAddr,
    secret_key: u32,
    data: PlayerAccountData,
)
    requires
        pre.accounts_distinct(),
    ensures
        pre.accepted(tcp_peer, secret_key, data).accounts_distinct(),
{
    let post = pre.accepted(tcp_peer, secret_key, data);
    assert forall|a: int, b: int|
        0 <= a < b < post.bound.len() && post.is_active(#[trigger] post.bound[a]) && post.is_active(
            #[trigger] post.bound[b],
        ) implies post.bound[a].account_id != post.bound[b].account_id by {
        assert(pre.is_active(pre.bound[a]) && pre.is_active(pre.bound[b]));
    }
}

/// A move to another room or level keeps the account ids of the active table distinct.
pub proof fn move_keeps_accounts_distinct(pre: ServerState, id: u64, room_id: u32, level_id: i32)
    requires
        pre.accounts_distinct(),
    ensures
        pre.after_move(id, room_id, level_id).accounts_distinct(),
{
    let post = pre.after_move(id, room_id, level_id);
    if has_id(pre.unclaimed, id) {
    } else if has_id(pre.bound, id) {
        assert forall|a: int, b: int|
            0 <= a < b < post.bound.len() && post.is_active(#[trigger] post.bound[a]) && post.is_active(
                #[trigger] post.bound[b],
            ) implies post.bound[a].account_id != post.bound[b].account_id by {
            assert(post.is_active(post.bound[a]) == pre.is_active(pre.bound[a]));
            assert(post.is_active(post.bound[b]) == pre.is_active(pre.bound[b]));
        }
    }
}

/// A cleanup keeps the account ids of the active table distinct.
pub proof fn cleanup_keeps_accounts_distinct(pre: ServerState, id: u64)
    requires
        pre.wf(),
        pre.accounts_distinct(),
    ensures
        pre.after_cleanup(id).accounts_distinct(),
{
    let post = pre.after_cleanup(id);
    if has_id(pre.unclaimed, id) {
    } else if has_id(pre.bound, id) {
        let j = index_in(pre.bound, id);
        assert forall|a: int, b: int|
            0 <= a < b < post.bound.len() && post.is_active(#[trigger] post.bound[a]) && post.is_active(
                #[trigger] post.bound[b],
            ) implies post.bound[a].account_id != post.bound[b].account_id by {
            let a0 = if a < j { a } else { a + 1 };
            let b0 = if b < j { b } else { b + 1 };
            assert(post.bound[a] == pre.bound[a0]);
            assert(post.bound[b] == pre.bound[b0]);
            assert(pre.is_active(pre.bound[a0]));
            assert(pre.is_active(pre.bound[b0]));
        }
    }
}

/// A login keeps the account ids of the active table distinct, where no
/// session of the table has the account id of the login.
pub proof fn login_keeps_accounts_distinct(pre: ServerState, id: u64, data: PlayerAccountData)
    requires
        pre.wf(),
        pre.accounts_distinct(),
        !pre.account_active(data.account_id),
    ensures
        pre.after_login(id, data).accounts_distinct(),
{
    let post = pre.after_login(id, data);
    if has_id(pre.unclaimed, id) {
    } else if has_id(pre.bound, id) {
        let j = index_in(pre.bound, id);
        assert forall|a: int, b: int|
            0 <= a < b < post.bound.len() && post.is_active(#[trigger] post.bound[a]) && post.is_active(
                #[trigger] post.bound[b],
            ) implies post.bound[a].account_id != post.bound[b].account_id by {
            assert(post.is_active(post.bound[a]) == pre.is_active(pre.bound[a]));
            assert(post.is_active(post.bound[b]) == pre.is_active(pre.bound[b]));
            if a != j {
                assert(post.bound[a] == pre.bound[a]);
            }
            if b != j {
                assert(post.bound[b] == pre.bound[b]);
            }
        }
    }
}

/// Once the session that `check_already_logged_in` names is cleaned up, no
/// session of the active table has the account id: the login that follows
/// keeps the account ids distinct.
pub proof fn eviction_frees_account(pre: ServerState, account_id: i32)
    requires
        pre.wf(),
        pre.accounts_distinct(),
    ensures
        match pre.first_id(pre.with_account(account_id)) {
            Some(id) => !pre.after_cleanup(id).account_active(account_id),
            None => !pre.account_active(account_id),
        },
{
    let test = pre.with_account(account_id);
    let found = pre.bound.filter(test);
    match pre.first_id(test) {
        Some(id) => {
            pre.bound.lemma_filter_contains_rev(test, found[0]);
            assert(found.contains(found[0]));
            let j0 = choose|j0: int| 0 <= j0 < pre.bound.len() && pre.bound[j0] == found[0];
            pre.bound.lemma_filter_pred(test, 0);
            assert(test(pre.bound[j0]));
            lemma_index_in(pre.bound, j0);
            if has_id(pre.unclaimed, id) {
                let i = index_in(pre.unclaimed, id);
                assert(pre.unclaimed[i].id != pre.bound[j0].id);
            }
            let post = pre.after_cleanup(id);
            if post.account_active(account_id) {
                let b = choose|b: int|
                    0 <= b < post.bound.len() && post.is_active(#[trigger] post.bound[b])
                        && post.bound[b].account_id == account_id;
                let b0 = if b < j0 { b } else { b + 1 };
                assert(post.bound[b] == pre.bound[b0]);
                assert(pre.is_active(pre.bound[b0]));
                assert(pre.is_active(pre.bound[j0]));
                if b0 < j0 {
                    assert(pre.bound[b0].account_id != pre.bound[j0].account_id);
                } else {
                    assert(pre.bound[j0].account_id != pre.bound[b0].account_id);
                }
            }
        },
        None => {
            if pre.account_active(account_id) {
                let b = choose|b: int|
                    0 <= b < pre.bound.len() && pre.is_active(#[trigger] pre.bound[b])
                        && pre.bound[b].account_id == account_id;
                assert(test(pre.bound[b]));
                pre.bound.lemma_filter_contains(test, b);
            }
        },
    }
}

/// Accepting a session keeps the player count exact.
pub proof fn accept_keeps_count(pre: ServerState, tcp_peer: PeerAddr, secret_key: u32, data: PlayerAccountData)
    requires
        pre.count_exact(),
    ensures
        pre.accepted(tcp_peer, secret_key, data).count_exact(),
{
    lemma_count_push(pre.unclaimed, crate::registry::fresh_thread(pre.next_id, tcp_peer, secret_key, data));
}

/// A move to another room or level keeps the player count exact.
pub proof fn move_keeps_count(pre: ServerState, id: u64, room_id: u32, level_id: i32)
    requires
        pre.count_exact(),
    ensures
        pre.after_move(id, room_id, level_id).count_exact(),
{
    if has_id(pre.unclaimed, id) {
        let i = index_in(pre.unclaimed, id);
        lemma_count_update(pre.unclaimed, i, GameServerThread { room_id, level_id, ..pre.unclaimed[i] });
    } else if has_id(pre.bound, id) {
        let j = index_in(pre.bound, id);
        lemma_count_update(pre.bound, j, GameServerThread { room_id, level_id, ..pre.bound[j] });
    }
}

/// A claim keeps the player count exact.
pub proof fn claim_keeps_count(pre: ServerState, udp_addr: PeerAddr, secret_key: u32)
    requires
        pre.count_exact(),
    ensures
        pre.after_claim(udp_addr, secret_key).count_exact(),
{
    if pre.some_claimable(secret_key) {
        lemma_first_claimable(pre, secret_key);
        let i = pre.first_claimable(secret_key);
        lemma_count_remove(pre.unclaimed, i);
        lemma_count_push(pre.bound, pre.unclaimed[i].bind(udp_addr));
    }
}

/// A cleanup keeps the player count exact.
pub proof fn cleanup_keeps_count(pre: ServerState, id: u64)
    requires
        pre.count_exact(),
    ensures
        pre.after_cleanup(id).count_exact(),
{
    if has_id(pre.unclaimed, id) {
        lemma_count_remove(pre.unclaimed, index_in(pre.unclaimed, id));
    } else if has_id(pre.bound, id) {
        lemma_count_remove(pre.bound, index_in(pre.bound, id));
    }
}

/// The first login of a session keeps the player count exact: the count
/// goes up by one as the session gets its account id.
pub proof fn login_keeps_count(pre: ServerState, id: u64, data: PlayerAccountData)
    requires
        pre.wf(),
        pre.count_exact(),
        pre.has_thread(id) ==> pre.thread(id).account_id == 0,
        data.account_id != 0,
    ensures
        pre.after_login(id, data).count_exact(),
{
    let post = pre.after_login(id, data);
    lemma_count_bound(post.unclaimed);
    lemma_count_bound(post.bound);
    if has_id(pre.unclaimed, id) {
        let i = index_in(pre.unclaimed, id);
        lemma_count_update(pre.unclaimed, i, pre.unclaimed[i].logged_in(data));
    } else if has_id(pre.bound, id) {
        let j = index_in(pre.bound, id);
        lemma_count_update(pre.bound, j, pre.bound[j].logged_in(data));
    }
}

/// What is left to do after a cleanup holds the notification once, and last.
pub proof fn cleanup_notifies_last(thread: GameServerThread)
    ensures
        cleanup_steps(thread).len() >= 1,
        cleanup_steps(thread).last() == CleanupStep::NotifyCleanup,
        forall|k: int|
            0 <= k < cleanup_steps(thread).len() - 1 ==> cleanup_steps(thread)[k]
                != CleanupStep::NotifyCleanup,
{
}

/// After its cleanup the server does not know a session any more, so a
/// second cleanup of the session changes nothing and notifies nobody.
pub proof fn cleanup_happens_once(pre: ServerState, id: u64)
    requires
        pre.wf(),
    ensures
        !pre.after_cleanup(id).has_thread(id),
        !pre.after_cleanup(id).in_active_table(id),
        pre.after_cleanup(id).after_cleanup(id) == pre.after_cleanup(id),
        pre.after_cleanup(id).cleanup_report(id) == Seq::<CleanupStep>::empty(),
{
    let post = pre.after_cleanup(id);
    cleanup_keeps_invariant(pre, id);
    if has_id(pre.unclaimed, id) {
        let i = index_in(pre.unclaimed, id);
        if has_id(post.unclaimed, id) {
            let a = index_in(post.unclaimed, id);
            let a0 = if a < i { a } else { a + 1 };
            assert(post.unclaimed[a] == pre.unclaimed[a0]);
            if a0 < i {
                assert(pre.unclaimed[a0].id != pre.unclaimed[i].id);
            } else {
                assert(pre.unclaimed[i].id != pre.unclaimed[a0].id);
            }
        }
        if has_id(post.bound, id) {
            let b = index_in(post.bound, id);
            assert(pre.unclaimed[i].id != pre.bound[b].id);
        }
    } else if has_id(pre.bound, id) {
        let j = index_in(pre.bound, id);
        if has_id(post.bound, id) {
            let b = index_in(post.bound, id);
            let b0 = if b < j { b } else { b + 1 };
            assert(post.bound[b] == pre.bound[b0]);
            if b0 < j {
                assert(pre.bound[b0].id != pre.bound[j].id);
            } else {
                assert(pre.bound[j].id != pre.bound[b0].id);
            }
        }
    }
    if post.in_active_table(id) {
        active_table_holds_bound_threads(post, id);
    }
}

/// A claim keeps the registry's invariant.
pub proof fn claim_keeps_invariant(pre: ServerState, udp_addr: PeerAddr, secret_key: u32)
    requires
        pre.wf(),
    ensures
        pre.after_claim(udp_addr, secret_key).wf(),
{
    if pre.some_claimable(secret_key) {
        lemma_first_claimable(pre, secret_key);
        binding_keeps_invariant(pre, pre.first_claimable(secret_key), udp_addr);
    }
}

/// A claim with a key that no session of the holding has changes nothing.
pub proof fn claim_with_unknown_key_is_noop(s: ServerState, udp_addr: PeerAddr, secret_key: u32)
    requires
        forall|i: int| 0 <= i < s.unclaimed.len() ==> (#[trigger] s.unclaimed[i]).claim_secret_key != secret_key,
    ensures
        s.after_claim(udp_addr, secret_key) == s,
        s.claim_result(secret_key) is None,
{
    if s.some_claimable(secret_key) {
        let i = choose|i: int| s.claimable(i, secret_key);
        assert(s.unclaimed[i].claim_secret_key != secret_key);
    }
}

/// A session is bound once: the session that a claim has bound is not bound
/// again by a second claim with the same key, and stays bound to the peer of
/// the first.
pub proof fn second_claim_spares_bound_thread(
    s: ServerState,
    first_addr: PeerAddr,
    second_addr: PeerAddr,
    secret_key: u32,
)
    requires
        s.wf(),
    ensures
        s.claim_result(secret_key) matches Some(id) ==> {
            let once = s.after_claim(first_addr, secret_key);
            let twice = once.after_claim(second_addr, secret_key);
            &&& once.claim_result(secret_key) != Some(id)
            &&& has_id(twice.bound, id)
            &&& twice.thread(id) == once.thread(id)
            &&& twice.thread(id).udp_peer == Some(first_addr)
        },
{
    if s.some_claimable(secret_key) {
        lemma_first_claimable(s, secret_key);
        let i = s.first_claimable(secret_key);
        let id = s.unclaimed[i].id;
        let once = s.claimed_at(i, first_addr);
        binding_keeps_invariant(s, i, first_addr);
        let n = s.bound.len() as int;
        assert(once.bound[n] == s.unclaimed[i].bind(first_addr));
        lemma_index_in(once.bound, n);
        assert forall|a: int| 0 <= a < once.unclaimed.len() implies (#[trigger] once.unclaimed[a]).id
            != id by {
            assert(once.unclaimed[a].id != once.bound[n].id);
        }
        assert(!has_id(once.unclaimed, id));
        assert(once.thread(id) == once.bound[n]);
        let twice = once.after_claim(second_addr, secret_key);
        if once.some_claimable(secret_key) {
            lemma_first_claimable(once, secret_key);
            let k = once.first_claimable(secret_key);
            assert(once.unclaimed[k].id != id);
            binding_keeps_invariant(once, k, second_addr);
            assert(twice.bound[n] == once.bound[n]);
            lemma_index_in(twice.bound, n);
            assert forall|a: int| 0 <= a < twice.unclaimed.len() implies (#[trigger] twice.unclaimed[a]).id
                != id by {
                assert(twice.unclaimed[a].id != twice.bound[n].id);
            }
            assert(!has_id(twice.unclaimed, id));
        }
    }
}

/// Where at most one session of the holding has the key, a second claim
/// with the key finds no session and changes nothing.
pub proof fn second_claim_is_noop(s: ServerState, first_addr: PeerAddr, second_addr: PeerAddr, secret_key: u32)
    requires
        s.wf(),
        forall|i: int, j: int|
            #![trigger s.unclaimed[i], s.unclaimed[j]]
            s.claimable(i, secret_key) && s.claimable(j, secret_key) ==> i == j,
    ensures
        s.after_claim(first_addr, secret_key).after_claim(second_addr, secret_key) == s.after_claim(
            first_addr,
            secret_key,
        ),
        s.after_claim(first_addr, secret_key).claim_result(secret_key) is None,
{
    if s.some_claimable(secret_key) {
        lemma_first_claimable(s, secret_key);
        let i = s.first_claimable(secret_key);
        let once = s.claimed_at(i, first_addr);
        if once.some_claimable(secret_key) {
            let k = choose|k: int| once.claimable(k, secret_key);
            let k0 = if k < i { k } else { k + 1 };
            assert(once.unclaimed[k] == s.unclaimed[k0]);
            assert(s.claimable(k0, secret_key) && s.claimable(i, secret_key));
            assert(k0 == i);
        }
    }
}

/// A session that waits and gets no frame for 90 seconds or more terminates.
pub proof fn idle_session_terminates(thread: UnauthorizedThread, seconds: u64)
    requires
        thread.spec_outcome() is None,
        seconds >= 90,
    ensures
        thread.after_event(ThreadEvent::Idle { seconds }).spec_outcome() == Some(
            UnauthorizedThreadOutcome::Terminate,
        ),
{
}

/// A session that waits and has had a frame within the last 90 seconds goes on.
pub proof fn busy_session_goes_on(thread: UnauthorizedThread, seconds: u64)
    requires
        thread.spec_outcome() is None,
        seconds < 90,
    ensures
        thread.after_event(ThreadEvent::Idle { seconds }) == thread,
{
}

} // verus!
