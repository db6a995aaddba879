use globed_game_server::address::PeerAddr;
use globed_game_server::address::SocketPeer;
use globed_game_server::crypto::KEY_SIZE;
use globed_game_server::crypto::NONCE_SIZE;
use globed_game_server::data::GameServerBootData;
use globed_game_server::data::PlayerIconData;
use globed_game_server::data::SpecialUserData;
use globed_game_server::data::UserEntry;
use globed_game_server::packet::CryptoHandshakeStartPacket;
use globed_game_server::packet::InboundPacket;
use globed_game_server::packet::LoginPacket;
use globed_game_server::packet::PacketHandlingError;
use globed_game_server::packet::PROTOCOL_VERSION;
use globed_game_server::packet::ServerPacket;
use globed_game_server::server::GameServer;
use globed_game_server::socket::ClientSocket;
use globed_game_server::unauthorized::UnauthorizedThread;
use globed_game_server::wire::encode_frame;
use globed_game_server::wire::FRAME_PREFIX_SIZE;
use globed_game_server::wire::ICONS_SIZE;
use globed_game_server::wire::poll_for_frame;
use globed_game_server::wire::SERVER_MAGIC_LEN;
use globed_game_server::wire::take_frame;

const ALICE_SECRET: [u8; 32] = [
    0x77, 0x07, 0x6d, 0x0a, 0x73, 0x18, 0xa5, 0x7d, 0x3c, 0x16, 0xc1, 0x72, 0x51, 0xb2, 0x66, 0x45, 0xdf, 0x4c,
    0x2f, 0x87, 0xeb, 0xc0, 0x99, 0x2a, 0xb1, 0x77, 0xfb, 0xa5, 0x1d, 0xb9, 0x2c, 0x2a,
];

const BOB_SECRET: [u8; 32] = [
    0x5d, 0xab, 0x08, 0x7e, 0x62, 0x4a, 0x8a, 0x4b, 0x79, 0xe1, 0x7f, 0x8b, 0x83, 0x80, 0x0e, 0xe6, 0x6f, 0x3b,
    0xb1, 0x29, 0x26, 0x18, 0xb6, 0xfd, 0x1c, 0x2f, 0x8b, 0x27, 0xff, 0x88, 0xe0, 0xeb,
];

fn conf() -> GameServerBootData {
    GameServerBootData { maintenance: false, whitelist: false, tps: 30, no_chat: vec![], status_print_interval: 0, secret_key2: String::new(), token_expiry: 0 }
}

fn text(s: &str) -> Vec<u8> {
    let mut out = (s.len() as u32).to_be_bytes().to_vec();
    out.extend_from_slice(s.as_bytes());
    out
}

fn icon_bytes() -> Vec<u8> {
    let fields: [i16; 9] = [1, 2, 3, 4, 5, 6, 7, 8, 9];
    let mut out = Vec::new();
    for f in fields {
        out.extend_from_slice(&f.to_be_bytes());
    }
    out.push(200);
    for f in [-1i16, 258, i16::MIN] {
        out.extend_from_slice(&f.to_be_bytes());
    }
    out
}

fn login_body(name: &[u8]) -> Vec<u8> {
    let mut out = Vec::new();
    out.extend_from_slice(&42i32.to_be_bytes());
    out.extend_from_slice(&(-7i32).to_be_bytes());
    out.extend_from_slice(&(name.len() as u32).to_be_bytes());
    out.extend_from_slice(name);
    out.extend(text("tok€n"));
    out.extend(icon_bytes());
    out.extend_from_slice(&1400u16.to_be_bytes());
    out.extend(text("android"));
    out
}

/// A server and a session of it whose client holds Bob's secret key, with
/// the session as the client's side would see the server.
fn pair() -> (GameServer, UnauthorizedThread, GameServer, UnauthorizedThread) {
    let mut server = GameServer::with_secret_key(conf(), true, ALICE_SECRET);
    let mut client_side = GameServer::with_secret_key(conf(), true, BOB_SECRET);
    let mut thread = server.accept_with_key(SocketPeer::V4(PeerAddr::new(1, 1)), 5).unwrap();
    let mut mirror = client_side.accept_with_key(SocketPeer::V4(PeerAddr::new(1, 1)), 5).unwrap();
    thread.socket.client_key = Some(client_side.public_key());
    mirror.socket.client_key = Some(server.public_key());
    (server, thread, client_side, mirror)
}

#[test]
fn wire_sizes() {
    assert_eq!(KEY_SIZE, 32);
    assert_eq!(NONCE_SIZE, 24);
    assert_eq!(FRAME_PREFIX_SIZE, 4);
    assert_eq!(ICONS_SIZE, 25);
}

#[test]
fn frames_carry_their_length() {
    assert_eq!(encode_frame(&[7, 8, 9]), Some(vec![0, 0, 0, 3, 7, 8, 9]));
    assert_eq!(encode_frame(&[]), Some(vec![0, 0, 0, 0]));
    let long = vec![1u8; 0x0102];
    let frame = encode_frame(&long).unwrap();
    assert_eq!(&frame[..4], &[0, 0, 1, 2]);
    assert_eq!(&frame[4..], &long[..]);
}

#[test]
fn frame_is_polled_when_complete() {
    assert_eq!(poll_for_frame(&[]), None);
    assert_eq!(poll_for_frame(&[0, 0, 0]), None);
    assert_eq!(poll_for_frame(&[0, 0, 0, 0]), Some(0));
    assert_eq!(poll_for_frame(&[0, 0, 0, 3, 1, 2]), None);
    assert_eq!(poll_for_frame(&[0, 0, 0, 3, 1, 2, 3]), Some(3));
    assert_eq!(poll_for_frame(&[0, 0, 0, 3, 1, 2, 3, 4, 5]), Some(3));
    assert_eq!(poll_for_frame(&[0, 0, 1, 0, 1, 2, 3]), None);
    assert_eq!(poll_for_frame(&[0xff, 0xff, 0xff, 0xff, 1]), None);
}

#[test]
fn handshake_is_read_from_body() {
    let mut body = vec![0x12, 0x34];
    body.extend((0u8..32).collect::<Vec<u8>>());
    let packet = CryptoHandshakeStartPacket::decode(&body).unwrap();
    assert_eq!(packet.protocol, 0x1234);
    assert_eq!(packet.key.to_vec(), (0u8..32).collect::<Vec<u8>>());
    body.push(99);
    assert_eq!(CryptoHandshakeStartPacket::decode(&body).unwrap().protocol, 0x1234);
    assert!(CryptoHandshakeStartPacket::decode(&body[..33]).is_none());
    assert!(CryptoHandshakeStartPacket::decode(&[]).is_none());
}

#[test]
fn login_is_read_from_body() {
    let body = login_body("Zoë".as_bytes());
    let packet = LoginPacket::decode(&body).unwrap();
    assert_eq!(packet.account_id, 42);
    assert_eq!(packet.user_id, -7);
    assert_eq!(packet.name, "Zoë");
    assert_eq!(packet.token, "tok€n");
    assert_eq!(
        packet.icons,
        PlayerIconData {
            cube: 1,
            ship: 2,
            ball: 3,
            ufo: 4,
            wave: 5,
            robot: 6,
            spider: 7,
            swing: 8,
            jetpack: 9,
            death_effect: 200,
            color1: -1,
            color2: 258,
            glow_color: i16::MIN,
        }
    );
    assert_eq!(packet.fragmentation_limit, 1400);
    assert_eq!(packet.platform, "android");

    let mut longer = body.clone();
    longer.push(0);
    assert_eq!(LoginPacket::decode(&longer).unwrap().platform, "android");
    for cut in 0..body.len() {
        assert!(LoginPacket::decode(&body[..cut]).is_none(), "a body cut at {} is no login", cut);
    }
    assert!(LoginPacket::decode(&login_body(&[0xff, 0xfe])).is_none());
    assert!(LoginPacket::decode(&login_body(&[0xc0, 0x80])).is_none());
    assert!(LoginPacket::decode(&login_body(&[0xed, 0xa0, 0x80])).is_none());
    assert_eq!(LoginPacket::decode(&login_body(&[])).unwrap().name, "");
}

#[test]
fn login_with_extreme_ids() {
    let mut body = login_body(b"x");
    body[..4].copy_from_slice(&i32::MIN.to_be_bytes());
    body[4..8].copy_from_slice(&i32::MAX.to_be_bytes());
    let packet = LoginPacket::decode(&body).unwrap();
    assert_eq!(packet.account_id, i32::MIN);
    assert_eq!(packet.user_id, i32::MAX);
}

#[test]
fn server_packets_are_written() {
    let key = [7u8; 32];
    let mut expected = vec![0x4e, 0x21, 0];
    expected.extend_from_slice(&key);
    assert_eq!(ServerPacket::CryptoHandshakeResponse { key }.encode(), Some(expected));
    assert_eq!(ServerPacket::ProtocolMismatch { protocol: 0x0a0b }.encode(), Some(vec![0x4e, 0x26, 0, 0x0a, 0x0b]));
    assert_eq!(
        ServerPacket::LoginFailed { message: "né".to_string() }.encode(),
        Some(vec![0x4e, 0x25, 0, 0, 0, 0, 3, b'n', 0xc3, 0xa9])
    );
    assert_eq!(
        ServerPacket::ServerDisconnect { message: String::new() }.encode(),
        Some(vec![0x4e, 0x23, 0, 0, 0, 0, 0])
    );
    assert_eq!(
        ServerPacket::ServerBanned { message: "x".to_string(), timestamp: 0x0102_0304_0506_0708 }.encode(),
        Some(vec![0x4e, 0x28, 0, 0, 0, 0, 1, b'x', 1, 2, 3, 4, 5, 6, 7, 8])
    );
    assert_eq!(
        ServerPacket::ServerBanned { message: String::new(), timestamp: -2 }.encode(),
        Some(vec![0x4e, 0x28, 0, 0, 0, 0, 0, 0xff, 0xff, 0xff, 0xff, 0xff, 0xff, 0xff, 0xfe])
    );
    assert_eq!(
        ServerPacket::ServerBanned { message: String::new(), timestamp: i64::MIN }.encode(),
        Some(vec![0x4e, 0x28, 0, 0, 0, 0, 0, 0x80, 0, 0, 0, 0, 0, 0, 0])
    );
    assert_eq!(
        ServerPacket::LoggedIn { tps: 30, special_user_data: None, all_roles: vec![5, 6], secret_key: 0xdead_beef }
            .encode(),
        Some(vec![0x4e, 0x24, 0, 0, 0, 0, 30, 0, 0, 0, 0, 2, 5, 6, 0xde, 0xad, 0xbe, 0xef])
    );
    assert_eq!(
        ServerPacket::LoggedIn {
            tps: 0x0100,
            special_user_data: Some(SpecialUserData { roles: vec![9] }),
            all_roles: vec![],
            secret_key: 1
        }
        .encode(),
        Some(vec![0x4e, 0x24, 0, 0, 0, 1, 0, 1, 0, 0, 0, 1, 9, 0, 0, 0, 0, 0, 0, 0, 1])
    );
    assert_eq!(ServerPacket::ProtocolMismatch { protocol: 1 }.packet_id(), 20006);
    assert_eq!(ServerPacket::LoginFailed { message: String::new() }.packet_id(), 20005);
}

#[test]
fn sealed_packet_opens_again() {
    let (server, thread, client_side, mirror) = pair();
    let packet = ServerPacket::LoginFailed { message: "no".to_string() }.encode().unwrap();
    let nonce = [5u8; 24];
    let sealed = thread.socket.encrypt_with(&server, &nonce, &packet).unwrap();
    assert_eq!(&sealed[..3], &[0x4e, 0x25, 1]);
    assert_eq!(&sealed[3..27], &nonce);
    assert_eq!(sealed.len(), packet.len() + 24 + 16);
    assert_ne!(&sealed[27 + 16..], &packet[3..]);
    assert_eq!(mirror.socket.decrypt(&client_side, &sealed).unwrap(), packet[3..].to_vec());
    assert_eq!(thread.socket.encrypt_with(&server, &nonce, &packet).unwrap(), sealed);
    assert_ne!(thread.socket.encrypt_with(&server, &[6u8; 24], &packet).unwrap(), sealed);

    let back = mirror.socket.encrypt_with(&client_side, &nonce, &sealed[..3]).unwrap();
    assert_eq!(thread.socket.decrypt(&server, &back).unwrap(), Vec::<u8>::new());
}

#[test]
fn random_nonces_differ() {
    let (server, thread, client_side, mirror) = pair();
    let packet = [0x4e, 0x23, 0, 1, 2, 3];
    let a = thread.socket.encrypt(&server, &packet).unwrap();
    let b = thread.socket.encrypt(&server, &packet).unwrap();
    assert_ne!(a[3..27], b[3..27]);
    assert_eq!(mirror.socket.decrypt(&client_side, &a).unwrap(), vec![1, 2, 3]);
    assert_eq!(mirror.socket.decrypt(&client_side, &b).unwrap(), vec![1, 2, 3]);
}

#[test]
fn tampered_packet_does_not_open() {
    let (server, thread, client_side, mirror) = pair();
    let mut sealed = thread.socket.encrypt_with(&server, &[5u8; 24], &[0x4e, 0x23, 0, 1, 2, 3]).unwrap();
    let last = sealed.len() - 1;
    sealed[last] ^= 1;
    assert_eq!(mirror.socket.decrypt(&client_side, &sealed), Err(PacketHandlingError::BadCipher));
    sealed[last] ^= 1;
    sealed[5] ^= 1;
    assert_eq!(mirror.socket.decrypt(&client_side, &sealed), Err(PacketHandlingError::BadCipher));
    sealed[5] ^= 1;
    assert!(mirror.socket.decrypt(&client_side, &sealed).is_ok());
    assert_eq!(thread.socket.decrypt(&client_side, &sealed), Err(PacketHandlingError::BadCipher));
    assert_eq!(mirror.socket.decrypt(&client_side, &sealed[..26]), Err(PacketHandlingError::BadCipher));
    assert_eq!(mirror.socket.decrypt(&client_side, &sealed[..30]), Err(PacketHandlingError::BadCipher));
}

#[test]
fn cleartext_and_uninitialised_bodies() {
    let (server, mut thread, _, _) = pair();
    assert_eq!(thread.socket.decrypt(&server, &[0x27, 0x11, 0, 4, 5]), Ok(vec![4, 5]));
    assert_eq!(thread.socket.decrypt(&server, &[0x27, 0x11, 0]), Ok(vec![]));
    assert_eq!(thread.socket.decrypt(&server, &[0x27, 0x11]), Err(PacketHandlingError::MalformedMessage));
    assert_eq!(thread.socket.encrypt_with(&server, &[0u8; 24], &[1, 2]), Err(PacketHandlingError::MalformedMessage));
    thread.socket.client_key = None;
    assert_eq!(thread.socket.decrypt(&server, &[0x27, 0x11, 1, 4, 5]), Err(PacketHandlingError::CryptoNotInitialized));
    assert_eq!(
        thread.socket.encrypt_with(&server, &[0u8; 24], &[1, 2, 0, 9]),
        Err(PacketHandlingError::CryptoNotInitialized)
    );
    assert_eq!(thread.socket.encrypt(&server, &[1, 2, 0, 9]), Err(PacketHandlingError::CryptoNotInitialized));
    assert_eq!(thread.socket.decrypt(&server, &[0x27, 0x11, 0, 4]), Ok(vec![4]));
}

#[test]
fn frames_are_taken_whole() {
    let (server, thread, client_side, mirror) = pair();
    let mut fresh = UnauthorizedThread::with_secret_key(9, PeerAddr::new(2, 2), 1);

    let mut hello = vec![0x27, 0x11, 0];
    hello.extend_from_slice(&PROTOCOL_VERSION.to_be_bytes());
    hello.extend_from_slice(&[8u8; 32]);
    match fresh.handle_packet(&server, &hello) {
        Ok(InboundPacket::CryptoHandshakeStart(p)) => {
            assert_eq!(p.protocol, PROTOCOL_VERSION);
            assert_eq!(p.key, [8u8; 32]);
        },
        other => panic!("unexpected packet: {:?}", other),
    }
    assert!(matches!(fresh.handle_packet(&server, &hello[..36]), Err(PacketHandlingError::MalformedMessage)));
    assert!(matches!(fresh.handle_packet(&server, &hello[..2]), Err(PacketHandlingError::MalformedMessage)));
    assert!(matches!(
        fresh.handle_packet(&server, &[0x27, 0x10, 0, 1, 2, 3, 4]),
        Err(PacketHandlingError::NoHandler(10000))
    ));

    let mut login = vec![0x27, 0x13, 0];
    login.extend(login_body(b"alice"));
    assert!(matches!(fresh.handle_packet(&server, &login), Err(PacketHandlingError::MalformedLoginAttempt)));
    let sealed = mirror.socket.encrypt_with(&client_side, &[1u8; 24], &login).unwrap();
    assert!(matches!(fresh.handle_packet(&server, &sealed), Err(PacketHandlingError::CryptoNotInitialized)));
    match thread.handle_packet(&server, &sealed) {
        Ok(InboundPacket::Login(p)) => {
            assert_eq!(p.account_id, 42);
            assert_eq!(p.name, "alice");
            assert_eq!(p.fragmentation_limit, 1400);
        },
        other => panic!("unexpected packet: {:?}", other),
    }
    fresh.socket.client_key = Some([1u8; 32]);
    assert!(matches!(fresh.handle_packet(&server, &sealed), Err(PacketHandlingError::BadCipher)));

    let short = mirror.socket.encrypt_with(&client_side, &[1u8; 24], &login[..20]).unwrap();
    assert!(matches!(thread.handle_packet(&server, &short), Err(PacketHandlingError::MalformedMessage)));
    let unknown = mirror.socket.encrypt_with(&client_side, &[1u8; 24], &[0x30, 0x39, 0, 1]).unwrap();
    assert!(matches!(thread.handle_packet(&server, &unknown), Err(PacketHandlingError::NoHandler(12345))));
}

fn boot_answer(no_chat: &[i32], secret: &[u8]) -> Vec<u8> {
    let mut out = b"magicmagic".to_vec();
    out.push(1);
    out.push(0);
    out.extend_from_slice(&240u32.to_be_bytes());
    out.extend_from_slice(&(no_chat.len() as u32).to_be_bytes());
    for id in no_chat {
        out.extend_from_slice(&id.to_be_bytes());
    }
    out.extend_from_slice(&0x0102_0304_0506_0708u64.to_be_bytes());
    out.extend_from_slice(&(secret.len() as u32).to_be_bytes());
    out.extend_from_slice(secret);
    out.extend_from_slice(&u64::MAX.to_be_bytes());
    out
}

#[test]
fn boot_data_is_read_behind_magic() {
    assert_eq!(SERVER_MAGIC_LEN, 10);
    let answer = boot_answer(&[7, -9, i32::MIN], "s3cr€t".as_bytes());
    let data = GameServerBootData::decode(&answer).unwrap();
    assert!(data.maintenance);
    assert!(!data.whitelist);
    assert_eq!(data.tps, 240);
    assert_eq!(data.no_chat, vec![7, -9, i32::MIN]);
    assert_eq!(data.status_print_interval, 0x0102_0304_0506_0708);
    assert_eq!(data.secret_key2, "s3cr€t");
    assert_eq!(data.token_expiry, u64::MAX);
    for cut in 0..answer.len() {
        assert!(GameServerBootData::decode(&answer[..cut]).is_none(), "an answer cut at {} is no boot data", cut);
    }
    let empty = GameServerBootData::decode(&boot_answer(&[], b"")).unwrap();
    assert!(empty.no_chat.is_empty());
    assert_eq!(empty.secret_key2, "");
    assert!(GameServerBootData::decode(&boot_answer(&[1], &[0x80])).is_none());
    let mut huge = boot_answer(&[], b"");
    huge[16..20].copy_from_slice(&u32::MAX.to_be_bytes());
    assert!(GameServerBootData::decode(&huge).is_none());
}

fn user_body(reason: Option<&[u8]>, expiry: Option<i64>, roles: &[&[u8]]) -> Vec<u8> {
    let mut out = 42i32.to_be_bytes().to_vec();
    out.push(1);
    out.push(0);
    match reason {
        Some(r) => {
            out.push(1);
            out.extend_from_slice(&(r.len() as u32).to_be_bytes());
            out.extend_from_slice(r);
        },
        None => out.push(0),
    }
    match expiry {
        Some(e) => {
            out.push(1);
            out.extend_from_slice(&e.to_be_bytes());
        },
        None => out.push(0),
    }
    out.extend_from_slice(&(roles.len() as u32).to_be_bytes());
    for r in roles {
        out.extend_from_slice(&(r.len() as u32).to_be_bytes());
        out.extend_from_slice(r);
    }
    out
}

#[test]
fn user_entry_is_read_from_body() {
    let body = user_body(Some("spam".as_bytes()), Some(-5), &[b"mod", b"", "hélper".as_bytes()]);
    let entry = UserEntry::decode(&body).unwrap();
    assert_eq!(entry.account_id, 42);
    assert!(entry.is_banned);
    assert!(!entry.is_whitelisted);
    assert_eq!(entry.violation_reason.as_deref(), Some("spam"));
    assert_eq!(entry.violation_expiry, Some(-5));
    assert_eq!(entry.user_roles, vec!["mod".to_string(), String::new(), "hélper".to_string()]);
    for cut in 0..body.len() {
        assert!(UserEntry::decode(&body[..cut]).is_none(), "a body cut at {} is no user entry", cut);
    }

    let plain = UserEntry::decode(&user_body(None, None, &[])).unwrap();
    assert!(plain.violation_reason.is_none());
    assert!(plain.violation_expiry.is_none());
    assert!(plain.user_roles.is_empty());
    let limits = UserEntry::decode(&user_body(None, Some(i64::MIN), &[])).unwrap();
    assert_eq!(limits.violation_expiry, Some(i64::MIN));
    let limits = UserEntry::decode(&user_body(None, Some(i64::MAX), &[])).unwrap();
    assert_eq!(limits.violation_expiry, Some(i64::MAX));

    assert!(UserEntry::decode(&user_body(Some(&[0xff]), None, &[])).is_none());
    assert!(UserEntry::decode(&user_body(None, None, &[b"ok", &[0xff]])).is_none());
    assert!(UserEntry::decode(&user_body(None, None, &[&[0xff], b"ok"])).is_none());
    let mut many = user_body(None, None, &[]);
    let n = many.len();
    many[n - 4..].copy_from_slice(&3u32.to_be_bytes());
    assert!(UserEntry::decode(&many).is_none());
}

#[test]
fn socket_takes_one_key() {
    let mut socket = ClientSocket::new(PeerAddr::new(1, 2));
    assert_eq!(socket.tcp_peer, PeerAddr::new(1, 2));
    assert_eq!(socket.udp_peer, None);
    assert_eq!(socket.client_key, None);
    assert_eq!(socket.init_crypto_box([1u8; 32]), Ok(()));
    assert_eq!(socket.client_key, Some([1u8; 32]));
    assert_eq!(socket.init_crypto_box([2u8; 32]), Err(PacketHandlingError::CryptoAlreadyInitialized));
    assert_eq!(socket.client_key, Some([1u8; 32]));
}

#[test]
fn handshake_answers_travel_in_cleartext() {
    assert!(!ServerPacket::CryptoHandshakeResponse { key: [0u8; 32] }.sealed());
    assert!(!ServerPacket::ProtocolMismatch { protocol: 1 }.sealed());
    assert!(ServerPacket::LoginFailed { message: String::new() }.sealed());
    assert!(ServerPacket::ServerBanned { message: String::new(), timestamp: 0 }.sealed());
    assert!(ServerPacket::ServerDisconnect { message: String::new() }.sealed());
    assert!(
        ServerPacket::LoggedIn { tps: 1, special_user_data: None, all_roles: vec![], secret_key: 1 }.sealed()
    );
}

#[test]
fn packets_are_framed_for_sending() {
    let (server, thread, client_side, mirror) = pair();
    let nonce = [3u8; 24];
    let mismatch = ServerPacket::ProtocolMismatch { protocol: 0x0a0b };
    assert_eq!(
        thread.socket.send_packet_with(&server, &nonce, &mismatch),
        Ok(vec![0, 0, 0, 5, 0x4e, 0x26, 0, 0x0a, 0x0b])
    );
    assert_eq!(
        ClientSocket::new(PeerAddr::new(1, 1)).send_packet(&server, &mismatch),
        Ok(vec![0, 0, 0, 5, 0x4e, 0x26, 0, 0x0a, 0x0b])
    );

    let failed = ServerPacket::LoginFailed { message: "no".to_string() };
    let frame = thread.socket.send_packet_with(&server, &nonce, &failed).unwrap();
    let clear = failed.encode().unwrap();
    assert_eq!(poll_for_frame(&frame), Some(frame.len() - 4));
    assert_eq!(frame.len(), 4 + clear.len() + 24 + 16);
    assert_eq!(&frame[4..7], &[0x4e, 0x25, 1]);
    assert_eq!(&frame[7..31], &nonce);
    assert_eq!(mirror.socket.decrypt(&client_side, &frame[4..]).unwrap(), clear[3..].to_vec());

    let again = thread.socket.send_packet(&server, &failed).unwrap();
    assert_eq!(again.len(), frame.len());
    assert_eq!(mirror.socket.decrypt(&client_side, &again[4..]).unwrap(), clear[3..].to_vec());

    let unready = ClientSocket::new(PeerAddr::new(1, 1));
    assert_eq!(
        unready.send_packet_with(&server, &nonce, &failed),
        Err(PacketHandlingError::CryptoNotInitialized)
    );
    assert_eq!(unready.send_packet(&server, &failed), Err(PacketHandlingError::CryptoNotInitialized));
}

#[test]
fn frames_are_taken_off_in_order() {
    let mut buffered = vec![0, 0, 0, 2, 7, 8, 0, 0, 0, 0, 0, 0, 0, 3, 1];
    assert_eq!(take_frame(&mut buffered), Some(vec![7, 8]));
    assert_eq!(buffered, vec![0, 0, 0, 0, 0, 0, 0, 3, 1]);
    assert_eq!(take_frame(&mut buffered), Some(vec![]));
    assert_eq!(buffered, vec![0, 0, 0, 3, 1]);
    assert_eq!(take_frame(&mut buffered), None);
    assert_eq!(buffered, vec![0, 0, 0, 3, 1]);
    buffered.extend_from_slice(&[2, 3]);
    assert_eq!(take_frame(&mut buffered), Some(vec![1, 2, 3]));
    assert!(buffered.is_empty());
    assert_eq!(take_frame(&mut buffered), None);
    let mut partial = vec![0, 0];
    assert_eq!(take_frame(&mut partial), None);
    assert_eq!(partial, vec![0, 0]);
}
