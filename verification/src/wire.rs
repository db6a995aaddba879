//! The wire format of the reliable channel: frames with a length prefix,
//! the two packets that a session takes before it is active, and the
//! packets that it is answered with.
//!
//! Numbers are written with the highest byte first, signed numbers in two's
//! complement. A text is the number of its bytes in 32 bits, then its bytes
//! in UTF-8. A frame is the number of its bytes in 32 bits, then a packet:
//! the header and the body.

use crate::data::GameServerBootData;
use crate::data::PlayerIconData;
use crate::data::SpecialUserData;
use crate::data::UserEntry;
use crate::packet::be_u16;
use crate::packet::be_u32;
use crate::packet::CryptoHandshakeStartPacket;
use crate::packet::header_bytes;
use crate::packet::LoginPacket;
use crate::packet::PacketHeader;
use crate::packet::ServerPacket;
use crate::packet::u16_be_bytes;
use crate::packet::u32_be_bytes;
use vstd::prelude::*;
use vstd::string::StringSliceAdditionalSpecFns;
use vstd::utf8::decode_utf8;
use vstd::utf8::encode_utf8;
use vstd::utf8::valid_utf8;

verus! {

pub const CRYPTO_HANDSHAKE_RESPONSE_PACKET_ID: u16 = 20001;

pub const SERVER_DISCONNECT_PACKET_ID: u16 = 20003;

pub const LOGGED_IN_PACKET_ID: u16 = 20004;

pub const LOGIN_FAILED_PACKET_ID: u16 = 20005;

pub const PROTOCOL_MISMATCH_PACKET_ID: u16 = 20006;

pub const SERVER_BANNED_PACKET_ID: u16 = 20008;

/// The size of the length prefix of a frame.
pub const FRAME_PREFIX_SIZE: usize = 4;

/// The size of the icons on the wire.
pub const ICONS_SIZE: usize = 25;

/// The size of the magic that an answer of the central service starts with.
pub const SERVER_MAGIC_LEN: usize = 10;

/// The fields of a boot configuration as they lie in an answer of the
/// central service: the text as bytes.
pub struct BootLayout {
    pub maintenance: bool,
    pub whitelist: bool,
    pub tps: u32,
    pub no_chat: Seq<i32>,
    pub status_print_interval: u64,
    pub secret_key2: Seq<u8>,
    pub token_expiry: u64,
}

/// The fields of a user entry as they lie in an answer of the central
/// service: the texts as bytes.
pub struct UserLayout {
    pub account_id: i32,
    pub is_banned: bool,
    pub is_whitelisted: bool,
    pub violation_reason: Option<Seq<u8>>,
    pub violation_expiry: Option<i64>,
    pub user_roles: Seq<Seq<u8>>,
}

/// The fields of a login as they lie in its body: the texts as bytes.
pub struct LoginLayout {
    pub account_id: i32,
    pub user_id: i32,
    pub name: Seq<u8>,
    pub token: Seq<u8>,
    pub icons: PlayerIconData,
    pub fragmentation_limit: u16,
    pub platform: Seq<u8>,
}

/// The signed number that two bytes spell.
pub open spec fn be_i16(b0: u8, b1: u8) -> i16 {
    let v = be_u16(b0, b1) as int;
    if v >= 32768 {
        (v - 65536) as i16
    } else {
        v as i16
    }
}

/// The signed number that four bytes spell.
pub open spec fn be_i32(b0: u8, b1: u8, b2: u8, b3: u8) -> i32 {
    let v = be_u32(b0, b1, b2, b3) as int;
    if v >= 2147483648 {
        (v - 4294967296) as i32
    } else {
        v as i32
    }
}

/// The byte at a place of the body, if the body reaches that far.
pub open spec fn u8_at(s: Seq<u8>, at: int) -> Option<u8> {
    if 0 <= at && at + 1 <= s.len() {
        Some(s[at])
    } else {
        None
    }
}

/// The 16-bit number at a place of the body, if the body reaches that far.
pub open spec fn u16_at(s: Seq<u8>, at: int) -> Option<u16> {
    if 0 <= at && at + 2 <= s.len() {
        Some(be_u16(s[at], s[at + 1]))
    } else {
        None
    }
}

/// The 32-bit number at a place of the body, if the body reaches that far.
pub open spec fn u32_at(s: Seq<u8>, at: int) -> Option<u32> {
    if 0 <= at && at + 4 <= s.len() {
        Some(be_u32(s[at], s[at + 1], s[at + 2], s[at + 3]))
    } else {
        None
    }
}

/// The signed 32-bit number at a place of the body, if the body reaches that far.
pub open spec fn i32_at(s: Seq<u8>, at: int) -> Option<i32> {
    if 0 <= at && at + 4 <= s.len() {
        Some(be_i32(s[at], s[at + 1], s[at + 2], s[at + 3]))
    } else {
        None
    }
}

/// The bytes of the text at a place of the body, if the body holds all of it.
pub open spec fn text_at(s: Seq<u8>, at: int) -> Option<Seq<u8>> {
    match u32_at(s, at) {
        Some(n) => if at + 4 + n <= s.len() {
            Some(s.subrange(at + 4, at + 4 + n))
        } else {
            None
        },
        None => None,
    }
}

/// The icons at a place of the body, if the body reaches that far.
pub open spec fn icons_at(s: Seq<u8>, at: int) -> Option<PlayerIconData> {
    if 0 <= at && at + 25 <= s.len() {
        Some(
            PlayerIconData {
                cube: be_i16(s[at], s[at + 1]),
                ship: be_i16(s[at + 2], s[at + 3]),
                ball: be_i16(s[at + 4], s[at + 5]),
                ufo: be_i16(s[at + 6], s[at + 7]),
                wave: be_i16(s[at + 8], s[at + 9]),
                robot: be_i16(s[at + 10], s[at + 11]),
                spider: be_i16(s[at + 12], s[at + 13]),
                swing: be_i16(s[at + 14], s[at + 15]),
                jetpack: be_i16(s[at + 16], s[at + 17]),
                death_effect: s[at + 18],
                color1: be_i16(s[at + 19], s[at + 20]),
                color2: be_i16(s[at + 21], s[at + 22]),
                glow_color: be_i16(s[at + 23], s[at + 24]),
            },
        )
    } else {
        None
    }
}

/// The unsigned 64-bit number at a place of the body, if the body reaches that far.
pub open spec fn u64_at(s: Seq<u8>, at: int) -> Option<u64> {
    match (u32_at(s, at), u32_at(s, at + 4)) {
        (Some(high), Some(low)) => Some((high as int * 4294967296 + low as int) as u64),
        _ => None,
    }
}

/// The signed 64-bit number at a place of the body, if the body reaches that far.
pub open spec fn i64_at(s: Seq<u8>, at: int) -> Option<i64> {
    match u64_at(s, at) {
        Some(v) => if v >= 9223372036854775808 {
            Some((v - 18446744073709551616) as i64)
        } else {
            Some(v as i64)
        },
        None => None,
    }
}

/// The list of signed 32-bit numbers at a place of the body: its length in
/// 32 bits, then the numbers; nothing where the body ends before the list does.
pub open spec fn i32_list_at(s: Seq<u8>, at: int) -> Option<Seq<i32>> {
    match u32_at(s, at) {
        Some(n) => if at + 4 + 4 * n <= s.len() {
            Some(
                Seq::new(
                    n as nat,
                    |k: int|
                        be_i32(
                            s[at + 4 + 4 * k],
                            s[at + 5 + 4 * k],
                            s[at + 6 + 4 * k],
                            s[at + 7 + 4 * k],
                        ),
                ),
            )
        } else {
            None
        },
        None => None,
    }
}

/// The texts that lie one after the other from a place of the body on, as
/// many as `count` says; nothing where the body ends before the last does.
pub open spec fn texts_at(s: Seq<u8>, at: int, count: nat) -> Option<Seq<Seq<u8>>>
    decreases count,
{
    if count == 0 {
        Some(Seq::<Seq<u8>>::empty())
    } else {
        match text_at(s, at) {
            Some(first) => match texts_at(s, at + 4 + first.len(), (count - 1) as nat) {
                Some(rest) => Some(seq![first] + rest),
                None => None,
            },
            None => None,
        }
    }
}

/// The optional text at a place of the body: a zero byte for none, else a
/// one and the text. The second part is where the body goes on behind it.
pub open spec fn optional_text_at(s: Seq<u8>, at: int) -> Option<(Option<Seq<u8>>, int)> {
    match u8_at(s, at) {
        Some(flag) => if flag == 0 {
            Some((None, at + 1))
        } else {
            match text_at(s, at + 1) {
                Some(t) => Some((Some(t), at + 5 + t.len())),
                None => None,
            }
        },
        None => None,
    }
}

/// The optional signed 64-bit number at a place of the body: a zero byte
/// for none, else a one and the number. The second part is where the body
/// goes on behind it.
pub open spec fn optional_i64_at(s: Seq<u8>, at: int) -> Option<(Option<i64>, int)> {
    match u8_at(s, at) {
        Some(flag) => if flag == 0 {
            Some((None, at + 1))
        } else {
            match i64_at(s, at + 1) {
                Some(v) => Some((Some(v), at + 9)),
                None => None,
            }
        },
        None => None,
    }
}

/// The fields of the boot configuration that an answer of the central
/// service holds behind its magic: the two marks, the tick rate, the list
/// of users who may not chat, the interval of the status report, the token
/// secret and the life of a token.
pub open spec fn boot_layout(answer: Seq<u8>) -> Option<BootLayout> {
    match (u8_at(answer, 10), u8_at(answer, 11), u32_at(answer, 12), i32_list_at(answer, 16)) {
        (Some(maintenance), Some(whitelist), Some(tps), Some(no_chat)) => {
            let interval_at: int = 20 + 4 * no_chat.len() as int;
            match (u64_at(answer, interval_at), text_at(answer, interval_at + 8)) {
                (Some(status_print_interval), Some(secret_key2)) => match u64_at(
                    answer,
                    interval_at + 12 + secret_key2.len() as int,
                ) {
                    Some(token_expiry) => Some(
                        BootLayout {
                            maintenance: maintenance != 0,
                            whitelist: whitelist != 0,
                            tps,
                            no_chat,
                            status_print_interval,
                            secret_key2,
                            token_expiry,
                        },
                    ),
                    None => None,
                },
                _ => None,
            }
        },
        _ => None,
    }
}

/// Whether the configuration is the one that the answer holds.
pub open spec fn is_boot_data(answer: Seq<u8>, data: Option<GameServerBootData>) -> bool {
    match boot_layout(answer) {
        Some(l) => if valid_utf8(l.secret_key2) {
            &&& data matches Some(d)
            &&& d.maintenance == l.maintenance
            &&& d.whitelist == l.whitelist
            &&& d.tps == l.tps
            &&& d.no_chat@ == l.no_chat
            &&& d.status_print_interval == l.status_print_interval
            &&& d.secret_key2@ == decode_utf8(l.secret_key2)
            &&& d.token_expiry == l.token_expiry
        } else {
            data is None
        },
        None => data is None,
    }
}

/// The fields of the user entry that the body holds: the account id, the
/// two marks, the reason and the expiry of a violation where there is one,
/// and the names of the roles.
pub open spec fn user_layout(body: Seq<u8>) -> Option<UserLayout> {
    match (i32_at(body, 0), u8_at(body, 4), u8_at(body, 5), optional_text_at(body, 6)) {
        (Some(account_id), Some(banned), Some(whitelisted), Some((violation_reason, expiry_at))) => {
            match optional_i64_at(body, expiry_at) {
                Some((violation_expiry, roles_at)) => match u32_at(body, roles_at) {
                    Some(count) => match texts_at(body, roles_at + 4, count as nat) {
                        Some(user_roles) => Some(
                            UserLayout {
                                account_id,
                                is_banned: banned != 0,
                                is_whitelisted: whitelisted != 0,
                                violation_reason,
                                violation_expiry,
                                user_roles,
                            },
                        ),
                        None => None,
                    },
                    None => None,
                },
                None => None,
            }
        },
        _ => None,
    }
}

/// Whether every text of the list is UTF-8.
pub open spec fn all_valid_utf8(texts: Seq<Seq<u8>>) -> bool {
    forall|k: int| 0 <= k < texts.len() ==> valid_utf8(#[trigger] texts[k])
}

/// Whether the entry is the one that the body holds.
pub open spec fn is_user_entry(body: Seq<u8>, entry: Option<UserEntry>) -> bool {
    match user_layout(body) {
        Some(l) => if (l.violation_reason matches Some(r) ==> valid_utf8(r)) && all_valid_utf8(
            l.user_roles,
        ) {
            &&& entry matches Some(e)
            &&& e.account_id == l.account_id
            &&& e.is_banned == l.is_banned
            &&& e.is_whitelisted == l.is_whitelisted
            &&& match l.violation_reason {
                Some(r) => e.violation_reason matches Some(text) && text@ == decode_utf8(r),
                None => e.violation_reason is None,
            }
            &&& e.violation_expiry == l.violation_expiry
            &&& e.user_roles@.len() == l.user_roles.len()
            &&& forall|k: int|
                0 <= k < l.user_roles.len() ==> (#[trigger] e.user_roles@[k])@ == decode_utf8(
                    l.user_roles[k],
                )
        } else {
            entry is None
        },
        None => entry is None,
    }
}

/// The fields of the login that the body holds: the account id, the user
/// id, the name, the token, the icons, the fragmentation limit and the
/// platform, one after the other; nothing where the body ends before the
/// last of them does.
pub open spec fn login_layout(body: Seq<u8>) -> Option<LoginLayout> {
    match (i32_at(body, 0), i32_at(body, 4), text_at(body, 8)) {
        (Some(account_id), Some(user_id), Some(name)) => {
            let token_at: int = 12 + name.len() as int;
            match text_at(body, token_at) {
                Some(token) => {
                    let icons_start: int = token_at + 4 + token.len() as int;
                    match (
                        icons_at(body, icons_start),
                        u16_at(body, icons_start + 25),
                        text_at(body, icons_start + 27),
                    ) {
                        (Some(icons), Some(fragmentation_limit), Some(platform)) => Some(
                            LoginLayout {
                                account_id,
                                user_id,
                                name,
                                token,
                                icons,
                                fragmentation_limit,
                                platform,
                            },
                        ),
                        _ => None,
                    }
                },
                None => None,
            }
        },
        _ => None,
    }
}

/// Whether the packet is the login that the body holds.
pub open spec fn is_login(body: Seq<u8>, packet: Option<LoginPacket>) -> bool {
    match login_layout(body) {
        Some(l) => if valid_utf8(l.name) && valid_utf8(l.token) && valid_utf8(l.platform) {
            &&& packet matches Some(p)
            &&& p.account_id == l.account_id
            &&& p.user_id == l.user_id
            &&& p.name@ == decode_utf8(l.name)
            &&& p.token@ == decode_utf8(l.token)
            &&& p.icons == l.icons
            &&& p.fragmentation_limit == l.fragmentation_limit
            &&& p.platform@ == decode_utf8(l.platform)
        } else {
            packet is None
        },
        None => packet is None,
    }
}

/// Whether the packet is the handshake that the body holds: the protocol
/// version, then the 32 bytes of the client's key.
pub open spec fn is_handshake(body: Seq<u8>, packet: Option<CryptoHandshakeStartPacket>) -> bool {
    if body.len() < 34 {
        packet is None
    } else {
        &&& packet matches Some(p)
        &&& p.protocol == be_u16(body[0], body[1])
        &&& p.key@ == body.subrange(2, 34)
    }
}

/// The length of the first frame among the bytes that have arrived, if all
/// of the frame has arrived.
pub open spec fn complete_frame(buffered: Seq<u8>) -> Option<usize> {
    match u32_at(buffered, 0) {
        Some(n) => if buffered.len() - 4 >= n {
            Some(n as usize)
        } else {
            None
        },
        None => None,
    }
}

/// The eight bytes of a signed 64-bit number.
pub open spec fn i64_be_bytes(v: i64) -> Seq<u8> {
    let u = if v < 0 {
        v + 18446744073709551616
    } else {
        v as int
    };
    u32_be_bytes((u / 4294967296) as u32) + u32_be_bytes((u % 4294967296) as u32)
}

/// The bytes of a text.
pub open spec fn text_bytes(text: Seq<char>) -> Seq<u8> {
    u32_be_bytes(encode_utf8(text).len() as u32) + encode_utf8(text)
}

/// The bytes of a list of bytes: its length, then the list.
pub open spec fn list_bytes(list: Seq<u8>) -> Seq<u8> {
    u32_be_bytes(list.len() as u32) + list
}

/// The bytes of an optional special-user profile: a zero byte for none,
/// else a one and the roles.
pub open spec fn special_bytes(special: Option<SpecialUserData>) -> Seq<u8> {
    match special {
        Some(d) => seq![1u8] + list_bytes(d.roles@),
        None => seq![0u8],
    }
}

impl ServerPacket {
    /// The id of the packet on the wire.
    pub open spec fn spec_packet_id(&self) -> u16 {
        match self {
            ServerPacket::CryptoHandshakeResponse { .. } => CRYPTO_HANDSHAKE_RESPONSE_PACKET_ID,
            ServerPacket::ProtocolMismatch { .. } => PROTOCOL_MISMATCH_PACKET_ID,
            ServerPacket::LoginFailed { .. } => LOGIN_FAILED_PACKET_ID,
            ServerPacket::ServerBanned { .. } => SERVER_BANNED_PACKET_ID,
            ServerPacket::LoggedIn { .. } => LOGGED_IN_PACKET_ID,
            ServerPacket::ServerDisconnect { .. } => SERVER_DISCONNECT_PACKET_ID,
        }
    }

    /// The id of the packet on the wire.
    #[verifier::when_used_as_spec(spec_packet_id)]
    pub fn packet_id(&self) -> (id: u16)
        ensures
            id == self.spec_packet_id(),
    {
        match self {
            ServerPacket::CryptoHandshakeResponse { .. } => CRYPTO_HANDSHAKE_RESPONSE_PACKET_ID,
            ServerPacket::ProtocolMismatch { .. } => PROTOCOL_MISMATCH_PACKET_ID,
            ServerPacket::LoginFailed { .. } => LOGIN_FAILED_PACKET_ID,
            ServerPacket::ServerBanned { .. } => SERVER_BANNED_PACKET_ID,
            ServerPacket::LoggedIn { .. } => LOGGED_IN_PACKET_ID,
            ServerPacket::ServerDisconnect { .. } => SERVER_DISCONNECT_PACKET_ID,
        }
    }

    /// Whether the packet travels sealed: all do but the two answers to a handshake.
    pub open spec fn spec_sealed(&self) -> bool {
        match self {
            ServerPacket::CryptoHandshakeResponse { .. } => false,
            ServerPacket::ProtocolMismatch { .. } => false,
            _ => true,
        }
    }

    /// Whether the packet travels sealed.
    #[verifier::when_used_as_spec(spec_sealed)]
    pub fn sealed(&self) -> (sealed: bool)
        ensures
            sealed == self.spec_sealed(),
    {
        match self {
            ServerPacket::CryptoHandshakeResponse { .. } => false,
            ServerPacket::ProtocolMismatch { .. } => false,
            _ => true,
        }
    }

    /// The body of the packet on the wire.
    pub open spec fn body_bytes(&self) -> Seq<u8> {
        match self {
            ServerPacket::CryptoHandshakeResponse { key } => key@,
            ServerPacket::ProtocolMismatch { protocol } => u16_be_bytes(*protocol),
            ServerPacket::LoginFailed { message } => text_bytes(message@),
            ServerPacket::ServerBanned { message, timestamp } => text_bytes(message@) + i64_be_bytes(
                *timestamp,
            ),
            ServerPacket::LoggedIn { tps, special_user_data, all_roles, secret_key } => u32_be_bytes(*tps)
                + special_bytes(*special_user_data) + list_bytes(all_roles@) + u32_be_bytes(
                *secret_key,
            ),
            ServerPacket::ServerDisconnect { message } => text_bytes(message@),
        }
    }

    /// Whether the packet can be written: no text and no list of it is
    /// longer than 32 bits can count.
    pub open spec fn encodable(&self) -> bool {
        match self {
            ServerPacket::CryptoHandshakeResponse { .. } => true,
            ServerPacket::ProtocolMismatch { .. } => true,
            ServerPacket::LoginFailed { message } => encode_utf8(message@).len() <= u32::MAX,
            ServerPacket::ServerBanned { message, .. } => encode_utf8(message@).len() <= u32::MAX,
            ServerPacket::LoggedIn { special_user_data, all_roles, .. } => all_roles@.len() <= u32::MAX && (
            special_user_data matches Some(d) ==> d.roles@.len() <= u32::MAX),
            ServerPacket::ServerDisconnect { message } => encode_utf8(message@).len() <= u32::MAX,
        }
    }

    /// The packet on the wire: a header that says cleartext, then the body.
    pub open spec fn wire_bytes(&self) -> Seq<u8> {
        header_bytes(PacketHeader { packet_id: self.spec_packet_id(), encrypted: false })
            + self.body_bytes()
    }

    /// Writes the packet, where it can be written.
    pub fn encode(&self) -> (out: Option<Vec<u8>>)
        ensures
            match out {
                Some(bytes) => self.encodable() && bytes@ == self.wire_bytes(),
                None => !self.encodable(),
            },
    {
        let mut out: Vec<u8> = Vec::new();
        write_u16(&mut out, self.packet_id());
        out.push(0u8);
        proof {
            assert(out@ =~= header_bytes(
                PacketHeader { packet_id: self.spec_packet_id(), encrypted: false },
            ));
        }
        let ghost head = out@;
        match self {
            ServerPacket::CryptoHandshakeResponse { key } => {
                write_bytes(&mut out, key.as_slice());
            },
            ServerPacket::ProtocolMismatch { protocol } => {
                write_u16(&mut out, *protocol);
            },
            ServerPacket::LoginFailed { message } => {
                if !write_text(&mut out, message.as_str()) {
                    return None;
                }
            },
            ServerPacket::ServerBanned { message, timestamp } => {
                if !write_text(&mut out, message.as_str()) {
                    return None;
                }
                write_i64(&mut out, *timestamp);
                proof {
                    assert(out@ =~= head + (text_bytes(message@) + i64_be_bytes(*timestamp)));
                }
            },
            ServerPacket::LoggedIn { tps, special_user_data, all_roles, secret_key } => {
                write_u32(&mut out, *tps);
                match special_user_data {
                    Some(d) => {
                        out.push(1u8);
                        if !write_list(&mut out, d.roles.as_slice()) {
                            return None;
                        }
                        proof {
                            assert(out@ =~= head + u32_be_bytes(*tps) + special_bytes(*special_user_data));
                        }
                    },
                    None => {
                        out.push(0u8);
                        proof {
                            assert(out@ =~= head + u32_be_bytes(*tps) + special_bytes(*special_user_data));
                        }
                    },
                }
                if !write_list(&mut out, all_roles.as_slice()) {
                    return None;
                }
                write_u32(&mut out, *secret_key);
                proof {
                    assert(out@ =~= head + (u32_be_bytes(*tps) + special_bytes(*special_user_data)
                        + list_bytes(all_roles@) + u32_be_bytes(*secret_key)));
                }
            },
            ServerPacket::ServerDisconnect { message } => {
                if !write_text(&mut out, message.as_str()) {
                    return None;
                }
            },
        }
        Some(out)
    }
}

/// Appends the two bytes of the number.
fn write_u16(out: &mut Vec<u8>, v: u16)
    ensures
        final(out)@ == old(out)@ + u16_be_bytes(v),
{
    out.push((v / 256) as u8);
    out.push((v % 256) as u8);
    proof {
        assert(final(out)@ =~= old(out)@ + u16_be_bytes(v));
    }
}

/// Appends the four bytes of the number.
fn write_u32(out: &mut Vec<u8>, v: u32)
    ensures
        final(out)@ == old(out)@ + u32_be_bytes(v),
{
    out.push((v / 16777216) as u8);
    out.push((v / 65536 % 256) as u8);
    out.push((v / 256 % 256) as u8);
    out.push((v % 256) as u8);
    proof {
        assert(final(out)@ =~= old(out)@ + u32_be_bytes(v));
    }
}

/// Appends the eight bytes of the signed number.
fn write_i64(out: &mut Vec<u8>, v: i64)
    ensures
        final(out)@ == old(out)@ + i64_be_bytes(v),
{
    let u: u128 = if v < 0 {
        (v as i128 + 18446744073709551616) as u128
    } else {
        v as u128
    };
    write_u32(out, (u / 4294967296) as u32);
    write_u32(out, (u % 4294967296) as u32);
    proof {
        assert(final(out)@ =~= old(out)@ + i64_be_bytes(v));
    }
}

/// Appends the bytes.
fn write_bytes(out: &mut Vec<u8>, bytes: &[u8])
    ensures
        final(out)@ == old(out)@ + bytes@,
{
    let mut i: usize = 0;
    while i < bytes.len()
        invariant
            i <= bytes.len(),
            out@ == old(out)@ + bytes@.subrange(0, i as int),
        decreases bytes.len() - i,
    {
        out.push(bytes[i]);
        proof {
            assert(bytes@.subrange(0, i as int).push(bytes@[i as int]) =~= bytes@.subrange(0, i + 1));
        }
        i += 1;
    }
    proof {
        assert(bytes@.subrange(0, bytes@.len() as int) =~= bytes@);
    }
}

/// Appends the length of the list and the list, where 32 bits can count the length.
fn write_list(out: &mut Vec<u8>, list: &[u8]) -> (written: bool)
    ensures
        written == (list@.len() <= u32::MAX),
        final(out)@ == (if written {
            old(out)@ + list_bytes(list@)
        } else {
            old(out)@
        }),
{
    if list.len() > 0xffff_ffff {
        return false;
    }
    write_u32(out, list.len() as u32);
    write_bytes(out, list);
    proof {
        assert(final(out)@ =~= old(out)@ + list_bytes(list@));
    }
    true
}

/// Appends the text, where 32 bits can count its bytes.
fn write_text(out: &mut Vec<u8>, text: &str) -> (written: bool)
    ensures
        written == (encode_utf8(text@).len() <= u32::MAX),
        final(out)@ == (if written {
            old(out)@ + text_bytes(text@)
        } else {
            old(out)@
        }),
{
    write_list(out, text.as_bytes())
}

/// Puts the length prefix before a packet, where 32 bits can count its bytes.
pub fn encode_frame(packet: &[u8]) -> (frame: Option<Vec<u8>>)
    ensures
        match frame {
            Some(bytes) => packet@.len() <= u32::MAX && bytes@ == list_bytes(packet@),
            None => packet@.len() > u32::MAX,
        },
{
    let mut out: Vec<u8> = Vec::new();
    if write_list(&mut out, packet) {
        Some(out)
    } else {
        None
    }
}

/// Says how long the first frame is, where all of it has arrived.
pub fn poll_for_frame(buffered: &[u8]) -> (length: Option<usize>)
    ensures
        length == complete_frame(buffered@),
{
    match read_u32_at(buffered, 0) {
        Some(n) => if buffered.len() - 4 >= n as usize {
            Some(n as usize)
        } else {
            None
        },
        None => None,
    }
}

/// Takes the first frame off the bytes that have arrived, where all of it
/// has arrived: the frame's packet comes back, and what follows the frame
/// stays. Where no frame is complete nothing changes.
pub fn take_frame(buffered: &mut Vec<u8>) -> (packet: Option<Vec<u8>>)
    ensures
        match complete_frame(old(buffered)@) {
            Some(n) => packet matches Some(p) && p@ == old(buffered)@.subrange(4, 4 + n)
                && final(buffered)@ == old(buffered)@.subrange(4 + n, old(buffered)@.len() as int),
            None => packet is None && final(buffered)@ == old(buffered)@,
        },
{
    let n = match poll_for_frame(buffered.as_slice()) {
        Some(n) => n,
        None => {
            return None;
        },
    };
    proof {
        assert(4 + n <= buffered@.len());
        assert(buffered@.len() == buffered.len());
    }
    let rest = buffered.split_off(4 + n);
    let packet = copy_range(buffered.as_slice(), 4, 4 + n);
    *buffered = rest;
    Some(packet)
}

/// Reads the byte at the place.
fn read_u8_at(data: &[u8], at: usize) -> (value: Option<u8>)
    ensures
        value == u8_at(data@, at as int),
{
    if at < data.len() {
        Some(data[at])
    } else {
        None
    }
}

/// Reads the 16-bit number at the place.
fn read_u16_at(data: &[u8], at: usize) -> (value: Option<u16>)
    ensures
        value == u16_at(data@, at as int),
{
    if at <= data.len() && data.len() - at >= 2 {
        Some((data[at] as u16) * 256 + data[at + 1] as u16)
    } else {
        None
    }
}

/// The signed number with the same two bytes.
fn to_i16(v: u16) -> (out: i16)
    ensures
        out == (if v >= 32768 {
            (v - 65536) as i16
        } else {
            v as i16
        }),
{
    if v >= 32768 {
        (v as i32 - 65536) as i16
    } else {
        v as i16
    }
}

/// Reads the 32-bit number at the place.
fn read_u32_at(data: &[u8], at: usize) -> (value: Option<u32>)
    ensures
        value == u32_at(data@, at as int),
{
    if at <= data.len() && data.len() - at >= 4 {
        Some(
            (data[at] as u32) * 16777216 + (data[at + 1] as u32) * 65536 + (data[at + 2] as u32) * 256
                + data[at + 3] as u32,
        )
    } else {
        None
    }
}

/// Reads the signed 32-bit number at the place.
fn read_i32_at(data: &[u8], at: usize) -> (value: Option<i32>)
    ensures
        value == i32_at(data@, at as int),
{
    match read_u32_at(data, at) {
        Some(v) => if v >= 2147483648 {
            Some((v as i64 - 4294967296) as i32)
        } else {
            Some(v as i32)
        },
        None => None,
    }
}

/// Copies a part of the bytes.
pub(crate) fn copy_range(data: &[u8], from: usize, to: usize) -> (out: Vec<u8>)
    requires
        from <= to <= data@.len(),
    ensures
        out@ == data@.subrange(from as int, to as int),
{
    let mut out: Vec<u8> = Vec::new();
    let mut i: usize = from;
    while i < to
        invariant
            from <= i <= to <= data@.len(),
            out@ == data@.subrange(from as int, i as int),
        decreases to - i,
    {
        out.push(data[i]);
        proof {
            assert(data@.subrange(from as int, i as int).push(data@[i as int]) =~= data@.subrange(
                from as int,
                i + 1,
            ));
        }
        i += 1;
    }
    out
}

/// Reads the bytes of the text at the place.
fn read_text_at(data: &[u8], at: usize) -> (value: Option<Vec<u8>>)
    ensures
        match text_at(data@, at as int) {
            Some(bytes) => value matches Some(v) && v@ == bytes,
            None => value is None,
        },
{
    match read_u32_at(data, at) {
        Some(n) => {
            let n = n as usize;
            if data.len() - at - 4 >= n {
                Some(copy_range(data, at + 4, at + 4 + n))
            } else {
                None
            }
        },
        None => None,
    }
}

/// Reads the icons at the place.
fn read_icons_at(data: &[u8], at: usize) -> (value: Option<PlayerIconData>)
    ensures
        value == icons_at(data@, at as int),
{
    if at > data.len() || data.len() - at < 25 {
        return None;
    }
    let cube = to_i16((data[at] as u16) * 256 + data[at + 1] as u16);
    let ship = to_i16((data[at + 2] as u16) * 256 + data[at + 3] as u16);
    let ball = to_i16((data[at + 4] as u16) * 256 + data[at + 5] as u16);
    let ufo = to_i16((data[at + 6] as u16) * 256 + data[at + 7] as u16);
    let wave = to_i16((data[at + 8] as u16) * 256 + data[at + 9] as u16);
    let robot = to_i16((data[at + 10] as u16) * 256 + data[at + 11] as u16);
    let spider = to_i16((data[at + 12] as u16) * 256 + data[at + 13] as u16);
    let swing = to_i16((data[at + 14] as u16) * 256 + data[at + 15] as u16);
    let jetpack = to_i16((data[at + 16] as u16) * 256 + data[at + 17] as u16);
    let death_effect = data[at + 18];
    let color1 = to_i16((data[at + 19] as u16) * 256 + data[at + 20] as u16);
    let color2 = to_i16((data[at + 21] as u16) * 256 + data[at + 22] as u16);
    let glow_color = to_i16((data[at + 23] as u16) * 256 + data[at + 24] as u16);
    Some(
        PlayerIconData {
            cube,
            ship,
            ball,
            ufo,
            wave,
            robot,
            spider,
            swing,
            jetpack,
            death_effect,
            color1,
            color2,
            glow_color,
        },
    )
}

/// `String::from_utf8`: the text that the bytes spell in UTF-8; nothing
/// where they spell none.
#[verifier::external_body]
fn string_from_utf8(bytes: Vec<u8>) -> (text: Option<String>)
    ensures
        match text {
            Some(s) => valid_utf8(bytes@) && s@ == decode_utf8(bytes@),
            None => !valid_utf8(bytes@),
        },
{
    String::from_utf8(bytes).ok()
}

/// Reads the unsigned 64-bit number at the place.
fn read_u64_at(data: &[u8], at: usize) -> (value: Option<u64>)
    ensures
        value == u64_at(data@, at as int),
{
    let high = match read_u32_at(data, at) {
        Some(v) => v,
        None => {
            return None;
        },
    };
    proof {
        assert(data@.len() == data.len());
    }
    let low = match read_u32_at(data, at + 4) {
        Some(v) => v,
        None => {
            return None;
        },
    };
    Some((high as u64) * 4294967296 + low as u64)
}

/// Reads the signed 64-bit number at the place.
fn read_i64_at(data: &[u8], at: usize) -> (value: Option<i64>)
    ensures
        value == i64_at(data@, at as int),
{
    match read_u64_at(data, at) {
        Some(v) => if v >= 9223372036854775808 {
            Some((v as i128 - 18446744073709551616) as i64)
        } else {
            Some(v as i64)
        },
        None => None,
    }
}

/// Reads the list of signed 32-bit numbers at the place.
fn read_i32_list_at(data: &[u8], at: usize) -> (value: Option<Vec<i32>>)
    ensures
        match i32_list_at(data@, at as int) {
            Some(list) => value matches Some(v) && v@ == list,
            None => value is None,
        },
{
    let n = match read_u32_at(data, at) {
        Some(n) => n as usize,
        None => {
            return None;
        },
    };
    if (data.len() - at - 4) / 4 < n {
        return None;
    }
    proof {
        assert(data@.len() == data.len());
        assert(at + 4 + 4 * n <= data@.len());
    }
    let ghost list = i32_list_at(data@, at as int)->0;
    let mut out: Vec<i32> = Vec::new();
    let mut k: usize = 0;
    while k < n
        invariant
            k <= n,
            at + 4 + 4 * n <= data@.len() <= usize::MAX,
            i32_list_at(data@, at as int) == Some(list),
            list.len() == n,
            out@ == list.subrange(0, k as int),
        decreases n - k,
    {
        let v = read_i32_at(data, at + 4 + 4 * k);
        proof {
            assert(v == Some(list[k as int]));
            assert(list.subrange(0, k as int).push(list[k as int]) =~= list.subrange(0, k + 1));
        }
        match v {
            Some(x) => out.push(x),
            None => {},
        }
        k += 1;
    }
    proof {
        assert(list.subrange(0, n as int) =~= list);
    }
    Some(out)
}

/// Reads the optional text at the place; the second part is the place behind it.
fn read_optional_text_at(data: &[u8], at: usize) -> (value: Option<(Option<Vec<u8>>, usize)>)
    ensures
        match optional_text_at(data@, at as int) {
            Some((text, next)) => value matches Some((v, n)) && n == next && n <= data@.len() && match text {
                Some(t) => v matches Some(bytes) && bytes@ == t,
                None => v is None,
            },
            None => value is None,
        },
{
    let flag = match read_u8_at(data, at) {
        Some(f) => f,
        None => {
            return None;
        },
    };
    proof {
        assert(data@.len() == data.len());
    }
    if flag == 0 {
        return Some((None, at + 1));
    }
    match read_text_at(data, at + 1) {
        Some(t) => {
            proof {
                assert(text_at(data@, at + 1) is Some);
                assert(at + 5 + t@.len() <= data@.len());
            }
            let next = at + 5 + t.len();
            Some((Some(t), next))
        },
        None => None,
    }
}

/// Reads the optional signed 64-bit number at the place; the second part is the place behind it.
fn read_optional_i64_at(data: &[u8], at: usize) -> (value: Option<(Option<i64>, usize)>)
    ensures
        match optional_i64_at(data@, at as int) {
            Some((number, next)) => value == Some((number, next as usize)) && next <= data@.len(),
            None => value is None,
        },
{
    let flag = match read_u8_at(data, at) {
        Some(f) => f,
        None => {
            return None;
        },
    };
    proof {
        assert(data@.len() == data.len());
    }
    if flag == 0 {
        return Some((None, at + 1));
    }
    match read_i64_at(data, at + 1) {
        Some(v) => Some((Some(v), at + 9)),
        None => None,
    }
}

/// Texts that lie one after the other are the first of them and the rest.
proof fn lemma_texts_at_step(s: Seq<u8>, at: int, count: nat, k: nat, place: int, done: Seq<Seq<u8>>)
    requires
        k < count,
        0 <= at,
        texts_at(s, place, (count - k) as nat) matches Some(rest) ==> texts_at(s, at, count) == Some(
            done + rest,
        ),
        texts_at(s, place, (count - k) as nat) is None ==> texts_at(s, at, count) is None,
    ensures
        match text_at(s, place) {
            Some(t) => {
                &&& texts_at(s, place + 4 + t.len(), (count - k - 1) as nat) matches Some(rest) ==> texts_at(
                    s,
                    at,
                    count,
                ) == Some(done.push(t) + rest)
                &&& texts_at(s, place + 4 + t.len(), (count - k - 1) as nat) is None ==> texts_at(
                    s,
                    at,
                    count,
                ) is None
            },
            None => texts_at(s, at, count) is None,
        },
{
    match text_at(s, place) {
        Some(t) => {
            match texts_at(s, place + 4 + t.len(), (count - k - 1) as nat) {
                Some(rest) => {
                    assert(done + (seq![t] + rest) =~= done.push(t) + rest);
                },
                None => {},
            }
        },
        None => {},
    }
}

/// Reads the texts that lie one after the other from the place on.
fn read_texts_at(data: &[u8], at: usize, count: usize) -> (value: Option<Vec<String>>)
    ensures
        match texts_at(data@, at as int, count as nat) {
            Some(texts) => if all_valid_utf8(texts) {
                &&& value matches Some(v)
                &&& v@.len() == texts.len()
                &&& forall|k: int| 0 <= k < texts.len() ==> (#[trigger] v@[k])@ == decode_utf8(texts[k])
            } else {
                value is None
            },
            None => value is None,
        },
{
    let mut out: Vec<String> = Vec::new();
    let mut place: usize = at;
    let mut k: usize = 0;
    let ghost mut done: Seq<Seq<u8>> = Seq::empty();
    let mut valid = true;
    proof {
        assert(done + texts_at(data@, at as int, count as nat)->0 =~= texts_at(
            data@,
            at as int,
            count as nat,
        )->0);
    }
    while k < count
        invariant
            k <= count,
            done.len() == k,
            texts_at(data@, place as int, (count - k) as nat) matches Some(rest) ==> texts_at(
                data@,
                at as int,
                count as nat,
            ) == Some(done + rest),
            texts_at(data@, place as int, (count - k) as nat) is None ==> texts_at(
                data@,
                at as int,
                count as nat,
            ) is None,
            valid == all_valid_utf8(done),
            valid ==> out@.len() == k && forall|j: int|
                0 <= j < k ==> (#[trigger] out@[j])@ == decode_utf8(done[j]),
        decreases count - k,
    {
        proof {
            lemma_texts_at_step(data@, at as int, count as nat, k as nat, place as int, done);
        }
        let bytes = match read_text_at(data, place) {
            Some(b) => b,
            None => {
                return None;
            },
        };
        let ghost t = bytes@;
        proof {
            assert(text_at(data@, place as int) is Some);
            assert(place + 4 + t.len() <= data@.len());
            assert(data@.len() == data.len());
        }
        place = place + 4 + bytes.len();
        if valid {
            match string_from_utf8(bytes) {
                Some(s) => {
                    out.push(s);
                },
                None => {
                    valid = false;
                },
            }
        }
        proof {
            let before = done;
            done = done.push(t);
            assert forall|j: int| 0 <= j < before.len() implies before[j] == done[j] by {}
            if all_valid_utf8(before) && valid_utf8(t) {
                assert forall|j: int| 0 <= j < done.len() implies valid_utf8(#[trigger] done[j]) by {
                    if j < before.len() {
                        assert(valid_utf8(before[j]));
                    }
                }
            }
            if !valid_utf8(t) {
                assert(!valid_utf8(done[k as int]));
            }
            if !all_valid_utf8(before) {
                let j = choose|j: int| 0 <= j < before.len() && !valid_utf8(#[trigger] before[j]);
                assert(!valid_utf8(done[j]));
            }
        }
        k += 1;
    }
    proof {
        assert(texts_at(data@, place as int, 0) == Some(Seq::<Seq<u8>>::empty()));
        assert(done + Seq::<Seq<u8>>::empty() =~= done);
    }
    if valid {
        Some(out)
    } else {
        None
    }
}

impl GameServerBootData {
    /// Reads a boot configuration from an answer of the central service.
    /// The magic that the answer starts with is skipped. An answer that ends
    /// before the configuration does, and a text that is no UTF-8, give
    /// nothing.
    pub fn decode(answer: &[u8]) -> (data: Option<GameServerBootData>)
        ensures
            is_boot_data(answer@, data),
    {
        let maintenance = match read_u8_at(answer, 10) {
            Some(v) => v != 0,
            None => {
                return None;
            },
        };
        let whitelist = match read_u8_at(answer, 11) {
            Some(v) => v != 0,
            None => {
                return None;
            },
        };
        let tps = match read_u32_at(answer, 12) {
            Some(v) => v,
            None => {
                return None;
            },
        };
        let no_chat = match read_i32_list_at(answer, 16) {
            Some(v) => v,
            None => {
                return None;
            },
        };
        proof {
            assert(i32_list_at(answer@, 16) is Some);
            assert(20 + 4 * no_chat@.len() <= answer@.len());
            assert(answer@.len() == answer.len());
        }
        let interval_at = 20 + 4 * no_chat.len();
        let status_print_interval = match read_u64_at(answer, interval_at) {
            Some(v) => v,
            None => {
                return None;
            },
        };
        let secret = match read_text_at(answer, interval_at + 8) {
            Some(v) => v,
            None => {
                return None;
            },
        };
        proof {
            assert(text_at(answer@, interval_at + 8) is Some);
            assert(interval_at + 12 + secret@.len() <= answer@.len());
        }
        let token_expiry = match read_u64_at(answer, interval_at + 12 + secret.len()) {
            Some(v) => v,
            None => {
                return None;
            },
        };
        let secret_key2 = match string_from_utf8(secret) {
            Some(s) => s,
            None => {
                return None;
            },
        };
        Some(
            GameServerBootData {
                maintenance,
                whitelist,
                tps,
                no_chat,
                status_print_interval,
                secret_key2,
                token_expiry,
            },
        )
    }
}

impl UserEntry {
    /// Reads a user entry from the body of an answer of the central
    /// service. A body that ends before the entry does, and a text that is
    /// no UTF-8, give nothing.
    pub fn decode(body: &[u8]) -> (entry: Option<UserEntry>)
        ensures
            is_user_entry(body@, entry),
    {
        let account_id = match read_i32_at(body, 0) {
            Some(v) => v,
            None => {
                return None;
            },
        };
        let is_banned = match read_u8_at(body, 4) {
            Some(v) => v != 0,
            None => {
                return None;
            },
        };
        let is_whitelisted = match read_u8_at(body, 5) {
            Some(v) => v != 0,
            None => {
                return None;
            },
        };
        let (reason, expiry_at) = match read_optional_text_at(body, 6) {
            Some(v) => v,
            None => {
                return None;
            },
        };
        let (violation_expiry, roles_at) = match read_optional_i64_at(body, expiry_at) {
            Some(v) => v,
            None => {
                return None;
            },
        };
        let count = match read_u32_at(body, roles_at) {
            Some(v) => v as usize,
            None => {
                return None;
            },
        };
        proof {
            assert(body@.len() == body.len());
        }
        let user_roles = match read_texts_at(body, roles_at + 4, count) {
            Some(v) => v,
            None => {
                return None;
            },
        };
        let violation_reason = match reason {
            Some(bytes) => match string_from_utf8(bytes) {
                Some(s) => Some(s),
                None => {
                    return None;
                },
            },
            None => None,
        };
        Some(
            UserEntry {
                account_id,
                is_banned,
                is_whitelisted,
                violation_reason,
                violation_expiry,
                user_roles,
            },
        )
    }
}

impl CryptoHandshakeStartPacket {
    /// Reads a handshake from the body of a packet.
    pub fn decode(body: &[u8]) -> (packet: Option<CryptoHandshakeStartPacket>)
        ensures
            is_handshake(body@, packet),
    {
        if body.len() < 34 {
            return None;
        }
        let protocol: u16 = (body[0] as u16) * 256 + body[1] as u16;
        let mut key = [0u8; 32];
        let mut i: usize = 0;
        while i < 32
            invariant
                i <= 32,
                body@.len() >= 34,
                forall|j: int| 0 <= j < i ==> key@[j] == body@[j + 2],
            decreases 32 - i,
        {
            key[i] = body[i + 2];
            i += 1;
        }
        proof {
            assert(key@ =~= body@.subrange(2, 34));
        }
        Some(CryptoHandshakeStartPacket { protocol, key })
    }
}

impl LoginPacket {
    /// Reads a login from the body of a packet. A body that ends before
    /// the login does, and a text that is no UTF-8, give nothing.
    pub fn decode(body: &[u8]) -> (packet: Option<LoginPacket>)
        ensures
            is_login(body@, packet),
    {
        let account_id = match read_i32_at(body, 0) {
            Some(v) => v,
            None => {
                return None;
            },
        };
        let user_id = match read_i32_at(body, 4) {
            Some(v) => v,
            None => {
                return None;
            },
        };
        let name = match read_text_at(body, 8) {
            Some(v) => v,
            None => {
                return None;
            },
        };
        proof {
            assert(text_at(body@, 8) is Some);
            assert(12 + name@.len() <= body@.len());
            assert(body@.len() == body.len());
        }
        let token_at = 12 + name.len();
        let token = match read_text_at(body, token_at) {
            Some(v) => v,
            None => {
                return None;
            },
        };
        proof {
            assert(text_at(body@, token_at as int) is Some);
            assert(token_at + 4 + token@.len() <= body@.len());
            assert(body@.len() == body.len());
        }
        let icons_start = token_at + 4 + token.len();
        let icons = match read_icons_at(body, icons_start) {
            Some(v) => v,
            None => {
                return None;
            },
        };
        let fragmentation_limit = match read_u16_at(body, icons_start + 25) {
            Some(v) => v,
            None => {
                return None;
            },
        };
        let platform = match read_text_at(body, icons_start + 27) {
            Some(v) => v,
            None => {
                return None;
            },
        };
        let name = match string_from_utf8(name) {
            Some(s) => s,
            None => {
                return None;
            },
        };
        let token = match string_from_utf8(token) {
            Some(s) => s,
            None => {
                return None;
            },
        };
        let platform = match string_from_utf8(platform) {
            Some(s) => s,
            None => {
                return None;
            },
        };
        Some(LoginPacket { account_id, user_id, name, token, icons, fragmentation_limit, platform })
    }
}

} // verus!
