use globed_game_server::address::PeerAddr;
use globed_game_server::address::SocketPeer;
use globed_game_server::client::ClientAction;
use globed_game_server::data::ComputedRole;
use globed_game_server::data::GameServerBootData;
use globed_game_server::data::PlayerIconData;
use globed_game_server::data::UserEntry;
use globed_game_server::packet::CryptoHandshakeStartPacket;
use globed_game_server::packet::duplicate_login_notice;
use globed_game_server::packet::LoginPacket;
use globed_game_server::packet::maintenance_notice;
use globed_game_server::packet::PacketHandlingError;
use globed_game_server::packet::PacketKind;
use globed_game_server::packet::PROTOCOL_VERSION;
use globed_game_server::packet::ServerPacket;
use globed_game_server::registry::CleanupStep;
use globed_game_server::registry::DatagramAction;
use globed_game_server::server::GameServer;
use globed_game_server::state::ClientThreadState;
use globed_game_server::state::UnauthorizedThreadOutcome;
use globed_game_server::unauthorized::LoginProgress;
use globed_game_server::unauthorized::ThreadEvent;
use globed_game_server::unauthorized::UnauthorizedThread;

fn conf(maintenance: bool) -> GameServerBootData {
    GameServerBootData { maintenance, whitelist: false, tps: 30, no_chat: vec![7, 9], status_print_interval: 3600, secret_key2: String::new(), token_expiry: 0 }
}

fn login(account_id: i32, user_id: i32, name: &str, fragmentation_limit: u16) -> LoginPacket {
    LoginPacket {
        account_id,
        user_id,
        name: name.to_string(),
        token: "T".to_string(),
        icons: PlayerIconData::new(),
        fragmentation_limit,
        platform: "android".to_string(),
    }
}

fn frame(packet_id: u16, encrypted: bool, body: &[u8]) -> Vec<u8> {
    let mut out = vec![(packet_id >> 8) as u8, (packet_id & 0xff) as u8, encrypted as u8];
    out.extend_from_slice(body);
    out
}

fn claim_datagram(secret_key: u32) -> Vec<u8> {
    frame(10005, false, &secret_key.to_be_bytes())
}

fn user(banned: bool) -> UserEntry {
    UserEntry {
        account_id: 42,
        is_banned: banned,
        is_whitelisted: false,
        violation_reason: Some("cheating".to_string()),
        violation_expiry: Some(1_700_000_000),
        user_roles: vec!["mod".to_string()],
    }
}

fn role() -> ComputedRole {
    ComputedRole { priority: 0, can_moderate: false }
}

/// Drives a session through handshake and login on a server that is not
/// standalone, up to the point where the claim key is known to the client.
fn log_in(server: &mut GameServer, thread: &mut UnauthorizedThread, account_id: i32, name: &str) {
    let hello = CryptoHandshakeStartPacket { protocol: PROTOCOL_VERSION, key: [3u8; 32] };
    thread.handle_crypto_handshake(&hello, server.public_key()).unwrap();
    let packet = login(account_id, 100, name, 1400);
    assert!(matches!(thread.handle_login(&packet, server), LoginProgress::ValidateToken));
    let authenticated = UnauthorizedThread::token_validated(Ok(name.to_string()));
    let name = match authenticated {
        LoginProgress::Authenticated(n) => n,
        _ => panic!("the token was valid"),
    };
    assert!(thread.user_fetched(Ok((user(false), role())), server).is_none());
    let commit = thread.commit_login(server, &packet, name, None, vec![]).unwrap();
    assert_eq!(commit.create_player, account_id);
}

#[test]
fn happy_path_binds_session_under_datagram_peer() {
    let mut server = GameServer::new(conf(false), true);
    let tcp = PeerAddr::new(0x7f00_0001, 5000);
    let udp = PeerAddr::new(0x7f00_0001, 6000);
    let mut thread = server.accept_with_key(SocketPeer::V4(tcp), 0xdead_beef).unwrap();
    assert_eq!(thread.connection_state, ClientThreadState::Unauthorized);
    assert_eq!(server.unclaimed_count(), 1);

    let hello_frame = frame(10001, false, &[0u8; 34]);
    let header = thread.check_packet(&hello_frame).unwrap();
    assert_eq!(UnauthorizedThread::packet_handler(header.packet_id), Ok(PacketKind::CryptoHandshakeStart));
    let hello = CryptoHandshakeStartPacket { protocol: PROTOCOL_VERSION, key: [9u8; 32] };
    match thread.handle_crypto_handshake(&hello, server.public_key()) {
        Ok(ServerPacket::CryptoHandshakeResponse { key }) => assert_eq!(key, server.public_key()),
        other => panic!("unexpected handshake answer: {:?}", other),
    }
    assert_eq!(thread.connection_state, ClientThreadState::Unauthorized);
    assert_eq!(thread.socket.client_key, Some([9u8; 32]));

    let login_frame = frame(10003, true, &[1, 2, 3]);
    let header = thread.check_packet(&login_frame).unwrap();
    assert_eq!(UnauthorizedThread::packet_handler(header.packet_id), Ok(PacketKind::Login));
    let packet = login(42, 100, "alice", 1400);
    let name = match thread.handle_login(&packet, &server) {
        LoginProgress::Authenticated(name) => name,
        other => panic!("unexpected login progress: {:?}", other),
    };
    assert_eq!(name, "alice");
    assert_eq!(thread.connection_state, ClientThreadState::Terminating);
    assert_eq!(server.check_already_logged_in(42), None);
    let commit = thread.commit_login(&mut server, &packet, name, None, vec![9, 9]).unwrap();
    assert_eq!(commit.create_player, 42);
    match commit.reply {
        ServerPacket::LoggedIn { tps, special_user_data, all_roles, secret_key } => {
            assert_eq!(tps, 30);
            assert!(special_user_data.is_none());
            assert_eq!(all_roles, vec![9, 9]);
            assert_eq!(secret_key, 0xdead_beef);
        },
        other => panic!("unexpected login answer: {:?}", other),
    }
    assert_eq!(thread.connection_state, ClientThreadState::Unclaimed);
    assert_eq!(thread.fragmentation_limit, 1400);
    assert_eq!(thread.run(ThreadEvent::FrameHandled), None);

    match server.recv_and_handle_udp(&claim_datagram(0xdead_beef), SocketPeer::V4(udp)) {
        Ok(DatagramAction::Claimed(Some(id))) => assert_eq!(id, thread.id),
        other => panic!("unexpected datagram outcome: {:?}", other),
    }
    assert_eq!(server.thread_at(udp), Some(thread.id));
    assert_eq!(server.unclaimed_count(), 0);
    assert_eq!(server.thread_count(), 1);
    let record = server.thread(thread.id).unwrap();
    assert_eq!(record.account_id, 42);
    assert_eq!(record.udp_peer, Some(udp));
    assert!(record.claimed);
    assert_eq!(record.account_data.name, "alice");
    assert_eq!(record.account_data.user_id, 100);
    assert_eq!(server.player_count(), 1);

    thread.claim(udp);
    assert_eq!(thread.run(ThreadEvent::Claimed), Some(UnauthorizedThreadOutcome::Upgrade));
    assert_eq!(thread.socket.udp_peer, Some(udp));
    assert_eq!(thread.connection_state, ClientThreadState::Established);
}

#[test]
fn duplicate_login_evicts_first_session() {
    let mut server = GameServer::new(conf(false), false);
    let udp = PeerAddr::new(0x0a00_0001, 6000);
    let mut first = server.accept_with_key(SocketPeer::V4(PeerAddr::new(0x0a00_0001, 5000)), 11).unwrap();
    log_in(&mut server, &mut first, 42, "alice");
    assert_eq!(server.claim_thread(udp, 11), Some(first.id));
    first.claim(udp);
    assert_eq!(first.run(ThreadEvent::Claimed), Some(UnauthorizedThreadOutcome::Upgrade));
    let first_id = first.id;
    let mut first = first.upgrade().unwrap();
    assert_eq!(first.connection_state, ClientThreadState::Active);
    assert_eq!(server.player_count(), 1);

    let mut second = server.accept_with_key(SocketPeer::V4(PeerAddr::new(0x0a00_0002, 5000)), 12).unwrap();
    let hello = CryptoHandshakeStartPacket { protocol: PROTOCOL_VERSION, key: [4u8; 32] };
    second.handle_crypto_handshake(&hello, server.public_key()).unwrap();
    let packet = login(42, 100, "alice", 1400);
    assert!(matches!(second.handle_login(&packet, &server), LoginProgress::ValidateToken));
    assert_eq!(server.check_already_logged_in(42), Some(first_id));

    match first.handle_message(duplicate_login_notice()) {
        ClientAction::Disconnect(ServerPacket::ServerDisconnect { message }) => {
            assert_eq!(message, "Someone logged into the same account from a different place.")
        },
        other => panic!("unexpected action: {:?}", other),
    }
    assert!(first.terminating());
    let steps = server.post_disconnect_cleanup(first_id);
    assert_eq!(
        steps,
        vec![CleanupStep::RemovePlayer { room_id: 0, account_id: 42 }, CleanupStep::NotifyCleanup]
    );
    assert_eq!(server.thread_at(udp), None);
    assert!(server.thread(first_id).is_none());
    assert_eq!(server.player_count(), 0);
    assert_eq!(server.check_already_logged_in(42), None);

    assert!(second.user_fetched(Ok((user(false), role())), &server).is_none());
    let commit = second.commit_login(&mut server, &packet, "alice".to_string(), None, vec![]).unwrap();
    assert!(matches!(commit.reply, ServerPacket::LoggedIn { secret_key: 12, .. }));
    assert_eq!(server.player_count(), 1);
}

#[test]
fn maintenance_during_session_sends_everyone_away() {
    let mut server = GameServer::new(conf(false), false);
    let udp = PeerAddr::new(0x0a00_0001, 6000);
    let mut thread = server.accept_with_key(SocketPeer::V4(PeerAddr::new(0x0a00_0001, 5000)), 21).unwrap();
    log_in(&mut server, &mut thread, 42, "alice");
    assert_eq!(server.claim_thread(udp, 21), Some(thread.id));
    thread.claim(udp);
    thread.run(ThreadEvent::Claimed);
    let id = thread.id;
    let mut client = thread.upgrade().unwrap();
    let waiting = server.accept_with_key(SocketPeer::V4(PeerAddr::new(0x0a00_0003, 5000)), 22).unwrap();

    assert_eq!(server.refresh_bootdata(conf(false)), Vec::<u64>::new());
    let notify = server.refresh_bootdata(conf(true));
    assert_eq!(notify, vec![id]);
    assert!(!notify.contains(&waiting.id));
    assert!(server.central_conf().maintenance);
    match client.handle_message(maintenance_notice()) {
        ClientAction::Disconnect(ServerPacket::ServerDisconnect { message }) => {
            assert_eq!(message, "The server is now under maintenance, please try connecting again later")
        },
        other => panic!("unexpected action: {:?}", other),
    }
    assert_eq!(client.connection_state, ClientThreadState::Terminating);
    assert_eq!(server.refresh_bootdata(conf(true)), Vec::<u64>::new());
}

#[test]
fn claim_collision_binds_first_session_only() {
    let mut server = GameServer::new(conf(false), true);
    let first = server.accept_with_key(SocketPeer::V4(PeerAddr::new(1, 1)), 77).unwrap();
    let second = server.accept_with_key(SocketPeer::V4(PeerAddr::new(2, 2)), 77).unwrap();
    let udp = PeerAddr::new(3, 3);
    match server.recv_and_handle_udp(&claim_datagram(77), SocketPeer::V4(udp)) {
        Ok(DatagramAction::Claimed(bound)) => assert_eq!(bound, Some(first.id)),
        other => panic!("unexpected datagram outcome: {:?}", other),
    }
    assert_eq!(server.thread_at(udp), Some(first.id));
    assert_eq!(server.thread_count(), 1);
    assert_eq!(server.unclaimed_count(), 1);
    let left = server.thread(second.id).unwrap();
    assert!(!left.claimed);
    assert_eq!(left.udp_peer, None);
}

#[test]
fn cleartext_login_terminates_session() {
    let mut server = GameServer::new(conf(false), true);
    let mut thread = server.accept_connection(SocketPeer::V4(PeerAddr::new(1, 1))).unwrap();
    let login_frame = frame(10003, false, &[0u8; 40]);
    let error = thread.check_packet(&login_frame).unwrap_err();
    assert_eq!(error, PacketHandlingError::MalformedLoginAttempt);
    assert_eq!(thread.run(ThreadEvent::FrameFailed(error)), Some(UnauthorizedThreadOutcome::Terminate));
    assert_eq!(thread.connection_state, ClientThreadState::Terminating);
    assert_eq!(server.player_count(), 0);
    assert_eq!(server.post_disconnect_cleanup(thread.id), vec![CleanupStep::NotifyCleanup]);
    assert_eq!(server.player_count(), 0);
}

#[test]
fn banned_user_is_told_and_not_counted() {
    let mut server = GameServer::new(conf(false), false);
    let mut thread = server.accept_connection(SocketPeer::V4(PeerAddr::new(1, 1))).unwrap();
    let hello = CryptoHandshakeStartPacket { protocol: PROTOCOL_VERSION, key: [3u8; 32] };
    thread.handle_crypto_handshake(&hello, server.public_key()).unwrap();
    let packet = login(42, 100, "alice", 1400);
    assert!(matches!(thread.handle_login(&packet, &server), LoginProgress::ValidateToken));
    assert!(matches!(
        UnauthorizedThread::token_validated(Ok("alice".to_string())),
        LoginProgress::Authenticated(_)
    ));
    match thread.user_fetched(Ok((user(true), role())), &server) {
        Some(ServerPacket::ServerBanned { message, timestamp }) => {
            assert_eq!(message, "cheating");
            assert_eq!(timestamp, 1_700_000_000);
        },
        other => panic!("unexpected answer: {:?}", other),
    }
    assert!(thread.user_entry.is_none());
    assert_eq!(thread.account_id, 0);
    assert_eq!(server.player_count(), 0);
    assert_eq!(server.thread(thread.id).unwrap().account_id, 0);
    assert_eq!(thread.outcome(), Some(UnauthorizedThreadOutcome::Terminate));
    assert_eq!(server.post_disconnect_cleanup(thread.id), vec![CleanupStep::NotifyCleanup]);
}
