use globed_game_server::address::PeerAddr;
use globed_game_server::address::SocketPeer;
use globed_game_server::data::GameServerBootData;
use globed_game_server::data::PlayerIconData;
use globed_game_server::data::SpecialUserData;
use globed_game_server::packet::ChatMessageBroadcastPacket;
use globed_game_server::packet::LoginPacket;
use globed_game_server::packet::ServerThreadMessage;
use globed_game_server::packet::VoiceBroadcastPacket;
use globed_game_server::registry::BackgroundTasks;
use globed_game_server::registry::CleanupStep;
use globed_game_server::registry::DatagramAction;
use globed_game_server::registry::DatagramError;
use globed_game_server::server::AcceptError;
use globed_game_server::server::GameServer;
use globed_game_server::unauthorized::UnauthorizedThread;

fn conf() -> GameServerBootData {
    GameServerBootData { maintenance: false, whitelist: false, tps: 30, no_chat: vec![7, 9], status_print_interval: 3600, secret_key2: String::new(), token_expiry: 0 }
}

fn server() -> GameServer {
    GameServer::new(conf(), true)
}

fn peer(n: u32) -> PeerAddr {
    PeerAddr::new(0x0a00_0000 + n, 4000 + n as u16)
}

fn login(account_id: i32, name: &str) -> LoginPacket {
    let mut icons = PlayerIconData::new();
    icons.cube = account_id as i16;
    icons.color1 = 11;
    icons.color2 = 12;
    icons.glow_color = 13;
    LoginPacket {
        account_id,
        user_id: account_id + 1000,
        name: name.to_string(),
        token: "T".to_string(),
        icons,
        fragmentation_limit: 1400,
        platform: "mac".to_string(),
    }
}

/// Accepts a session, logs it in where `account_id` is not zero, and binds
/// it to `udp` where that is given.
fn join(server: &mut GameServer, n: u32, account_id: i32, name: &str, udp: Option<PeerAddr>) -> UnauthorizedThread {
    let mut thread = server.accept_with_key(SocketPeer::V4(peer(n)), 1000 + n).unwrap();
    if account_id != 0 {
        thread.commit_login(server, &login(account_id, name), name.to_string(), None, vec![]).unwrap();
    }
    if let Some(udp) = udp {
        assert_eq!(server.claim_thread(udp, 1000 + n), Some(thread.id));
    }
    thread
}

fn frame(packet_id: u16, body: &[u8]) -> Vec<u8> {
    let mut out = vec![(packet_id >> 8) as u8, (packet_id & 0xff) as u8, 0];
    out.extend_from_slice(body);
    out
}

#[test]
fn new_server_is_empty() {
    let s = server();
    assert_eq!(s.player_count(), 0);
    assert_eq!(s.unclaimed_count(), 0);
    assert_eq!(s.thread_count(), 0);
    assert!(s.standalone());
    assert_eq!(s.central_conf().tps, 30);
    assert!(s.thread(0).is_none());
    assert_eq!(s.thread_at(peer(1)), None);
    assert!(!GameServer::new(conf(), false).standalone());
}

#[test]
fn server_key_pair_matches() {
    let secret: [u8; 32] = [
        0x77, 0x07, 0x6d, 0x0a, 0x73, 0x18, 0xa5, 0x7d, 0x3c, 0x16, 0xc1, 0x72, 0x51, 0xb2, 0x66, 0x45, 0xdf,
        0x4c, 0x2f, 0x87, 0xeb, 0xc0, 0x99, 0x2a, 0xb1, 0x77, 0xfb, 0xa5, 0x1d, 0xb9, 0x2c, 0x2a,
    ];
    let public: [u8; 32] = [
        0x85, 0x20, 0xf0, 0x09, 0x89, 0x30, 0xa7, 0x54, 0x74, 0x8b, 0x7d, 0xdc, 0xb4, 0x3e, 0xf7, 0x5a, 0x0d,
        0xbf, 0x3a, 0x0d, 0x26, 0x38, 0x1a, 0xf4, 0xeb, 0xa4, 0xa9, 0x8e, 0xaa, 0x9b, 0x4e, 0x6a,
    ];
    let s = GameServer::with_secret_key(conf(), false, secret);
    assert_eq!(s.secret_key(), secret);
    assert_eq!(s.public_key(), public);
}

#[test]
fn new_servers_draw_their_keys() {
    let a = GameServer::new(conf(), false);
    let b = GameServer::new(conf(), false);
    assert_ne!(a.secret_key(), b.secret_key());
    assert_ne!(a.public_key(), b.public_key());
    let again = GameServer::with_secret_key(conf(), false, a.secret_key());
    assert_eq!(again.public_key(), a.public_key());
}

#[test]
fn background_tasks_follow_configuration() {
    assert_eq!(
        GameServer::new(conf(), false).background_tasks(),
        BackgroundTasks { refresh_interval: Some(300), status_interval: Some(3600) }
    );
    let mut quiet = conf();
    quiet.status_print_interval = 0;
    assert_eq!(
        GameServer::new(quiet, true).background_tasks(),
        BackgroundTasks { refresh_interval: None, status_interval: None }
    );
}

#[test]
fn accept_files_sessions_in_order() {
    let mut s = server();
    let a = s.accept_connection(SocketPeer::V4(peer(1))).unwrap();
    let b = s.accept_connection(SocketPeer::V4(peer(2))).unwrap();
    assert_eq!(a.id, 0);
    assert_eq!(b.id, 1);
    assert_eq!(s.unclaimed_count(), 2);
    assert_eq!(s.thread_count(), 0);
    let record = s.thread(a.id).unwrap();
    assert_eq!(record.id, a.id);
    assert_eq!(record.tcp_peer, peer(1));
    assert_eq!(record.udp_peer, None);
    assert_eq!(record.claim_secret_key, a.secret_key);
    assert!(!record.claimed);
    assert!(!record.authenticated());
    assert_eq!(record.account_id, 0);
    assert_eq!(record.level_id, 0);
    assert_eq!(record.room_id, 0);
    assert_eq!(record.account_data.name, "");
    assert_eq!(s.thread(b.id).unwrap().claim_secret_key, b.secret_key);
    assert_eq!(s.player_count(), 0);
}

#[test]
fn accept_rejects_ipv6() {
    let mut s = server();
    assert_eq!(s.accept_connection(SocketPeer::V6).unwrap_err(), AcceptError::Ipv6Rejected);
    assert_eq!(s.accept_with_key(SocketPeer::V6, 1).unwrap_err(), AcceptError::Ipv6Rejected);
    assert_eq!(s.unclaimed_count(), 0);
    assert_eq!(s.accept_connection(SocketPeer::V4(peer(1))).unwrap().id, 0);
}

#[test]
fn claim_with_unknown_key_changes_nothing() {
    let mut s = server();
    let t = join(&mut s, 1, 42, "alice", None);
    assert_eq!(s.claim_thread(peer(9), 555), None);
    assert_eq!(s.unclaimed_count(), 1);
    assert_eq!(s.thread_count(), 0);
    assert_eq!(s.thread_at(peer(9)), None);
    let record = s.thread(t.id).unwrap();
    assert!(!record.claimed);
    assert_eq!(record.udp_peer, None);
    assert_eq!(s.player_count(), 1);
}

#[test]
fn second_claim_with_same_key_binds_nobody() {
    let mut s = server();
    let t = join(&mut s, 1, 42, "alice", None);
    assert_eq!(s.claim_thread(peer(8), 1001), Some(t.id));
    assert_eq!(s.claim_thread(peer(9), 1001), None);
    assert_eq!(s.thread_at(peer(8)), Some(t.id));
    assert_eq!(s.thread_at(peer(9)), None);
    assert_eq!(s.thread(t.id).unwrap().udp_peer, Some(peer(8)));
    assert_eq!(s.thread_count(), 1);
}

#[test]
fn active_table_key_is_bound_peer() {
    let mut s = server();
    let a = join(&mut s, 1, 41, "a", Some(peer(11)));
    let b = join(&mut s, 2, 42, "b", Some(peer(12)));
    let c = join(&mut s, 3, 43, "c", None);
    for (thread, udp) in [(&a, peer(11)), (&b, peer(12))] {
        assert_eq!(s.thread_at(udp), Some(thread.id));
        assert_eq!(s.thread(thread.id).unwrap().udp_peer, Some(udp));
    }
    assert_eq!(s.thread(c.id).unwrap().udp_peer, None);
    assert_eq!(s.unclaimed_count(), 1);
    assert_eq!(s.thread_count(), 2);
    assert_ne!(s.thread(a.id).unwrap().account_id, s.thread(b.id).unwrap().account_id);
}

#[test]
fn claim_on_taken_peer_displaces_older_session() {
    let mut s = server();
    let a = join(&mut s, 1, 41, "a", Some(peer(11)));
    let b = join(&mut s, 2, 42, "b", Some(peer(11)));
    assert_eq!(s.thread_at(peer(11)), Some(b.id));
    assert_eq!(s.thread_count(), 1);
    assert_eq!(s.player_count(), 2);
    assert_eq!(s.check_already_logged_in(41), None);
    assert_eq!(s.check_already_logged_in(42), Some(b.id));
    let steps = s.post_disconnect_cleanup(a.id);
    assert_eq!(steps, vec![CleanupStep::RemovePlayer { room_id: 0, account_id: 41 }, CleanupStep::NotifyCleanup]);
    assert_eq!(s.thread_at(peer(11)), Some(b.id));
    assert_eq!(s.player_count(), 1);
}

#[test]
fn player_count_follows_logins_and_cleanups() {
    let mut s = server();
    let a = join(&mut s, 1, 41, "a", Some(peer(11)));
    let b = join(&mut s, 2, 0, "", Some(peer(12)));
    let c = join(&mut s, 3, 43, "c", None);
    let d = join(&mut s, 4, 0, "", None);
    assert_eq!(s.player_count(), 2);
    s.post_disconnect_cleanup(b.id);
    assert_eq!(s.player_count(), 2);
    s.post_disconnect_cleanup(d.id);
    assert_eq!(s.player_count(), 2);
    s.post_disconnect_cleanup(a.id);
    assert_eq!(s.player_count(), 1);
    s.post_disconnect_cleanup(c.id);
    assert_eq!(s.player_count(), 0);
    assert_eq!(s.unclaimed_count(), 0);
    assert_eq!(s.thread_count(), 0);
}

#[test]
fn cleanup_names_room_and_level() {
    let mut s = server();
    let a = join(&mut s, 1, 41, "a", Some(peer(11)));
    let b = join(&mut s, 2, 42, "b", None);
    let c = join(&mut s, 3, 43, "c", Some(peer(13)));
    assert!(s.move_thread(a.id, 5, 900));
    assert!(s.move_thread(b.id, 0, 901));
    assert!(s.move_thread(c.id, 6, 0));
    assert!(!s.move_thread(77, 1, 1));
    assert_eq!(s.thread(a.id).unwrap().room_id, 5);
    assert_eq!(s.thread(a.id).unwrap().level_id, 900);
    assert_eq!(
        s.post_disconnect_cleanup(a.id),
        vec![
            CleanupStep::RemovePlayer { room_id: 5, account_id: 41 },
            CleanupStep::RemoveFromLevel { room_id: 5, level_id: 900, account_id: 41 },
            CleanupStep::MaybeRemoveRoom { room_id: 5 },
            CleanupStep::NotifyCleanup,
        ]
    );
    assert_eq!(
        s.post_disconnect_cleanup(b.id),
        vec![
            CleanupStep::RemovePlayer { room_id: 0, account_id: 42 },
            CleanupStep::RemoveFromLevel { room_id: 0, level_id: 901, account_id: 42 },
            CleanupStep::NotifyCleanup,
        ]
    );
    assert_eq!(
        s.post_disconnect_cleanup(c.id),
        vec![
            CleanupStep::RemovePlayer { room_id: 6, account_id: 43 },
            CleanupStep::MaybeRemoveRoom { room_id: 6 },
            CleanupStep::NotifyCleanup,
        ]
    );
    assert_eq!(s.player_count(), 0);
}

#[test]
fn cleanup_notifies_once() {
    let mut s = server();
    let a = join(&mut s, 1, 41, "a", Some(peer(11)));
    let steps = s.post_disconnect_cleanup(a.id);
    assert_eq!(steps.iter().filter(|x| **x == CleanupStep::NotifyCleanup).count(), 1);
    assert_eq!(steps.last(), Some(&CleanupStep::NotifyCleanup));
    assert_eq!(s.thread_at(peer(11)), None);
    assert!(s.thread(a.id).is_none());
    assert_eq!(s.player_count(), 0);
    assert_eq!(s.post_disconnect_cleanup(a.id), Vec::<CleanupStep>::new());
    assert_eq!(s.player_count(), 0);
    assert_eq!(s.post_disconnect_cleanup(12345), Vec::<CleanupStep>::new());
}

#[test]
fn ping_is_answered_with_player_count() {
    let mut s = server();
    join(&mut s, 1, 41, "a", None);
    let ping = frame(10000, &[1, 2, 3, 4]);
    match s.recv_and_handle_udp(&ping, SocketPeer::V4(peer(50))) {
        Ok(DatagramAction::Reply(bytes)) => {
            assert_eq!(bytes, vec![0x4e, 0x20, 0, 1, 2, 3, 4, 0, 0, 0, 1])
        },
        other => panic!("unexpected outcome: {:?}", other),
    }
    match s.try_udp_handle(&frame(10000, &[0xff, 0xfe, 0xfd, 0xfc, 9, 9]), peer(50)) {
        Ok(Some(DatagramAction::Reply(bytes))) => {
            assert_eq!(bytes, vec![0x4e, 0x20, 0, 0xff, 0xfe, 0xfd, 0xfc, 0, 0, 0, 1])
        },
        other => panic!("unexpected outcome: {:?}", other),
    }
    assert_eq!(s.unclaimed_count(), 1);
}

#[test]
fn malformed_datagrams_are_errors() {
    let mut s = server();
    assert_eq!(s.recv_and_handle_udp(&[], SocketPeer::V4(peer(1))).unwrap_err(), DatagramError::MalformedMessage);
    assert_eq!(
        s.recv_and_handle_udp(&[0x27, 0x10], SocketPeer::V4(peer(1))).unwrap_err(),
        DatagramError::MalformedMessage
    );
    assert_eq!(
        s.recv_and_handle_udp(&frame(10000, &[1, 2, 3]), SocketPeer::V4(peer(1))).unwrap_err(),
        DatagramError::MalformedMessage
    );
    assert_eq!(
        s.recv_and_handle_udp(&frame(10005, &[]), SocketPeer::V4(peer(1))).unwrap_err(),
        DatagramError::MalformedMessage
    );
    assert_eq!(
        s.recv_and_handle_udp(&frame(10000, &[1, 2, 3, 4]), SocketPeer::V6).unwrap_err(),
        DatagramError::Ipv6Rejected
    );
    assert_eq!(s.try_udp_handle(&[1], peer(1)).unwrap_err(), DatagramError::MalformedMessage);
}

#[test]
fn claim_datagram_binds_session() {
    let mut s = server();
    let t = join(&mut s, 1, 41, "a", None);
    match s.try_udp_handle(&frame(10005, &[0, 0, 0x03, 0xe9]), peer(60)) {
        Ok(Some(DatagramAction::Claimed(bound))) => assert_eq!(bound, Some(t.id)),
        other => panic!("unexpected outcome: {:?}", other),
    }
    assert_eq!(s.thread_at(peer(60)), Some(t.id));
    match s.try_udp_handle(&frame(10005, &[0, 0, 0x03, 0xe9]), peer(61)) {
        Ok(Some(DatagramAction::Claimed(bound))) => assert_eq!(bound, None),
        other => panic!("unexpected outcome: {:?}", other),
    }
    assert_eq!(s.thread_at(peer(61)), None);
}

#[test]
fn other_datagrams_go_to_bound_session() {
    let mut s = server();
    let t = join(&mut s, 1, 41, "a", Some(peer(11)));
    assert!(matches!(s.try_udp_handle(&frame(12000, &[5]), peer(11)), Ok(None)));

    let small = frame(12000, &[5, 6]);
    match s.recv_and_handle_udp(&small, SocketPeer::V4(peer(11))) {
        Ok(DatagramAction::Forward { thread_id, message: ServerThreadMessage::SmallPacket(buffer, len) }) => {
            assert_eq!(thread_id, t.id);
            assert_eq!(len, 5);
            assert_eq!(&buffer[..5], &small[..]);
            assert!(buffer[5..].iter().all(|b| *b == 0));
        },
        other => panic!("unexpected outcome: {:?}", other),
    }
    let fits = frame(12000, &[1u8; 161]);
    assert_eq!(fits.len(), 164);
    match s.recv_and_handle_udp(&fits, SocketPeer::V4(peer(11))) {
        Ok(DatagramAction::Forward { message: ServerThreadMessage::SmallPacket(buffer, len), .. }) => {
            assert_eq!(len, 164);
            assert_eq!(buffer.to_vec(), fits);
        },
        other => panic!("unexpected outcome: {:?}", other),
    }
    let large = frame(12000, &[2u8; 162]);
    assert_eq!(large.len(), 165);
    match s.recv_and_handle_udp(&large, SocketPeer::V4(peer(11))) {
        Ok(DatagramAction::Forward { thread_id, message: ServerThreadMessage::Packet(bytes) }) => {
            assert_eq!(thread_id, t.id);
            assert_eq!(bytes, large);
        },
        other => panic!("unexpected outcome: {:?}", other),
    }
    assert!(matches!(s.recv_and_handle_udp(&small, SocketPeer::V4(peer(12))), Ok(DatagramAction::Dropped)));
}

#[test]
fn player_lists_cover_active_table() {
    let mut s = server();
    let a = join(&mut s, 1, 41, "Alice", Some(peer(11)));
    join(&mut s, 2, 42, "Bob", Some(peer(12)));
    join(&mut s, 3, 43, "Carol", None);
    join(&mut s, 4, 0, "", Some(peer(14)));
    let e = join(&mut s, 5, 45, "Eve", Some(peer(15)));
    s.move_thread(a.id, 3, 700);
    s.move_thread(e.id, 3, 0);

    let picked = s.for_each_player(&[45, 43, 41, 99]);
    assert_eq!(picked.len(), 2);
    assert_eq!(picked[0].account_id, 41);
    assert_eq!(picked[0].name, "Alice");
    assert_eq!(picked[0].user_id, 1041);
    assert_eq!(picked[1].account_id, 45);
    assert!(s.for_each_player(&[]).is_empty());
    assert_eq!(s.for_each_player(&[0]).len(), 1);

    let previews = s.for_every_player_preview();
    assert_eq!(previews.len(), 3);
    assert_eq!(previews[0].account_id, 41);
    assert_eq!(previews[0].name, "Alice");
    assert_eq!(previews[0].cube, 41);
    assert_eq!(previews[0].color1, 11);
    assert_eq!(previews[0].color2, 12);
    assert_eq!(previews[0].glow_color, 13);
    assert_eq!(previews[1].account_id, 42);
    assert_eq!(previews[2].account_id, 45);

    let room = s.for_every_room_player_preview(3);
    assert_eq!(room.len(), 2);
    assert_eq!(room[0].account_id, 41);
    assert_eq!(room[0].level_id, 700);
    assert_eq!(room[0].name, "Alice");
    assert_eq!(room[0].cube, 41);
    assert_eq!(room[1].account_id, 45);
    assert_eq!(room[1].level_id, 0);
    assert_eq!(s.for_every_room_player_preview(0).len(), 1);
    assert!(s.for_every_room_player_preview(9).is_empty());
}

#[test]
fn account_data_lookup() {
    let mut s = server();
    let mut t = s.accept_with_key(SocketPeer::V4(peer(1)), 5).unwrap();
    let special = Some(SpecialUserData { roles: vec![1, 3] });
    t.commit_login(&mut s, &login(41, "Alice"), "Alice".to_string(), special, vec![]).unwrap();
    assert!(s.get_player_account_data(41).is_none());
    s.claim_thread(peer(11), 5);
    let data = s.get_player_account_data(41).unwrap();
    assert_eq!(data.account_id, 41);
    assert_eq!(data.user_id, 1041);
    assert_eq!(data.name, "Alice");
    assert_eq!(data.icons.cube, 41);
    assert_eq!(data.special_user_data.unwrap().roles, vec![1, 3]);
    assert!(s.get_player_account_data(40).is_none());
    let preview = data.icons;
    assert_eq!(preview.glow_color, 13);
}

#[test]
fn chat_block_list() {
    let s = server();
    assert!(s.chat_blocked(7));
    assert!(s.chat_blocked(9));
    assert!(!s.chat_blocked(8));
    assert!(!s.chat_blocked(0));
}

#[test]
fn already_logged_in_looks_at_active_table_only() {
    let mut s = server();
    join(&mut s, 1, 41, "a", None);
    let b = join(&mut s, 2, 42, "b", Some(peer(12)));
    assert_eq!(s.check_already_logged_in(41), None);
    assert_eq!(s.check_already_logged_in(42), Some(b.id));
    assert_eq!(s.check_already_logged_in(0), None);
}

#[test]
fn user_by_name_or_id() {
    let mut s = server();
    let a = join(&mut s, 1, 41, "Alice", Some(peer(11)));
    let b = join(&mut s, 2, 42, "42", Some(peer(12)));
    let c = join(&mut s, 3, 7, "Zoë", Some(peer(13)));
    join(&mut s, 4, 44, "Dave", None);
    assert_eq!(s.get_user_by_name_or_id("41"), Some(a.id));
    assert_eq!(s.get_user_by_name_or_id("+41"), Some(a.id));
    assert_eq!(s.get_user_by_name_or_id("0041"), Some(a.id));
    assert_eq!(s.get_user_by_name_or_id("42"), Some(b.id));
    assert_eq!(s.get_user_by_name_or_id("-41"), None);
    assert_eq!(s.get_user_by_name_or_id("alice"), Some(a.id));
    assert_eq!(s.get_user_by_name_or_id("ALICE"), Some(a.id));
    assert_eq!(s.get_user_by_name_or_id("Alic"), None);
    assert_eq!(s.get_user_by_name_or_id("Alice "), None);
    assert_eq!(s.get_user_by_name_or_id("zoë"), Some(c.id));
    assert_eq!(s.get_user_by_name_or_id("ZOË"), None);
    assert_eq!(s.get_user_by_name_or_id("7"), Some(c.id));
    assert_eq!(s.get_user_by_name_or_id("Dave"), None);
    assert_eq!(s.get_user_by_name_or_id("44"), None);
    assert_eq!(s.get_user_by_name_or_id(""), None);
    assert_eq!(s.get_user_by_name_or_id("+"), None);
    assert_eq!(s.get_user_by_name_or_id("4 1"), None);
    assert_eq!(s.get_user_by_name_or_id("99999999999"), None);
    assert_eq!(s.get_user_by_name_or_id("2147483648"), None);
}

#[test]
fn number_at_the_limits_names_an_account() {
    let mut s = server();
    let a = join(&mut s, 1, i32::MAX, "Max", Some(peer(11)));
    assert_eq!(s.get_user_by_name_or_id("2147483647"), Some(a.id));
    assert_eq!(s.get_user_by_name_or_id("-2147483648"), None);
    assert_eq!(s.get_user_by_name_or_id("-2147483649"), None);
}

#[test]
fn broadcasts_reach_level_members_but_origin() {
    let mut s = server();
    let a = join(&mut s, 1, 41, "a", Some(peer(11)));
    let b = join(&mut s, 2, 42, "b", Some(peer(12)));
    join(&mut s, 3, 43, "c", None);
    let d = join(&mut s, 4, 44, "d", Some(peer(14)));
    let level = vec![44, 43, 42, 41];
    assert_eq!(s.broadcast_user_message(41, Some(&level)), vec![b.id, d.id]);
    assert_eq!(s.broadcast_user_message(99, Some(&level)), vec![a.id, b.id, d.id]);
    assert_eq!(s.broadcast_user_message(41, Some(&vec![41])), Vec::<u64>::new());
    assert_eq!(s.broadcast_user_message(41, None), Vec::<u64>::new());
    let voice = VoiceBroadcastPacket { player_id: 42, data: vec![1, 2] };
    assert_eq!(s.broadcast_voice_packet(&voice, Some(&level)), vec![a.id, d.id]);
    assert_eq!(s.broadcast_voice_packet(&voice, None), Vec::<u64>::new());
    let chat = ChatMessageBroadcastPacket { player_id: 44, message: "gg".to_string() };
    assert_eq!(s.broadcast_chat_packet(&chat, Some(&vec![41, 44])), vec![a.id]);
}

#[test]
fn refresh_replaces_configuration() {
    let mut s = server();
    let mut next = conf();
    next.tps = 60;
    next.no_chat = vec![1];
    assert!(s.refresh_bootdata(next).is_empty());
    assert_eq!(s.central_conf().tps, 60);
    assert!(s.chat_blocked(1));
    assert!(!s.chat_blocked(7));
}
