//! The wire format that the server itself reads and writes: the packet
//! header, the two packets that the datagram loop answers alone, and the
//! messages that it hands to a session.

use crate::data::PlayerIconData;
use crate::data::SpecialUserData;
use vstd::prelude::*;
use vstd::string::StringExecFns;

verus! {

/// The size of the buffer that a datagram is read into.
pub const MAX_UDP_PACKET_SIZE: usize = 2048;

/// The size of the inline buffer of a small packet.
pub const INLINE_BUFFER_SIZE: usize = 164;

/// The size of a packet header on the wire.
pub const PACKET_HEADER_SIZE: usize = 3;

pub const PING_PACKET_ID: u16 = 10000;

pub const CRYPTO_HANDSHAKE_START_PACKET_ID: u16 = 10001;

pub const LOGIN_PACKET_ID: u16 = 10003;

pub const CLAIM_THREAD_PACKET_ID: u16 = 10005;

pub const PING_RESPONSE_PACKET_ID: u16 = 20000;

/// The size of a ping response on the wire, header included.
pub const PING_RESPONSE_SIZE: usize = 11;

/// The version of the protocol that the server speaks.
pub const PROTOCOL_VERSION: u16 = 10;

/// The version that a client sends to probe a server; it is accepted like the server's own.
pub const PROTOCOL_PROBE: u16 = 0xffff;

/// The least fragmentation limit that a client may advertise.
pub const MIN_FRAGMENTATION_LIMIT: u16 = 1300;

/// The seconds without a frame after which a session that is not yet active ends.
pub const IDLE_TIMEOUT_SECS: u64 = 90;

/// Why a frame of the reliable channel was not handled.
#[derive(Clone, Copy, Debug, PartialEq, Eq, Structural)]
pub enum PacketHandlingError {
    /// The channel failed or the peer closed it.
    Transport,
    /// The frame is shorter than a header.
    MalformedMessage,
    /// A login came in cleartext.
    MalformedLoginAttempt,
    /// No handler takes the packet id.
    NoHandler(u16),
    /// The body failed its authentication.
    BadCipher,
    /// An encrypted frame came before the handshake.
    CryptoNotInitialized,
    /// A second handshake came.
    CryptoAlreadyInitialized,
    /// The body could not be sealed.
    EncryptionFailed,
    /// The packet is longer than a frame can say.
    PacketTooLong,
}

/// A packet that a session that is not yet active has taken.
#[derive(Clone, Debug)]
pub enum InboundPacket {
    CryptoHandshakeStart(CryptoHandshakeStartPacket),
    Login(LoginPacket),
}

/// The packets that a session that is not yet active takes from the reliable channel.
#[derive(Clone, Copy, Debug, PartialEq, Eq, Structural)]
pub enum PacketKind {
    CryptoHandshakeStart,
    Login,
}

/// The first packet of a session: the client's protocol version and public key.
#[derive(Clone, Copy, Debug)]
pub struct CryptoHandshakeStartPacket {
    pub protocol: u16,
    pub key: [u8; 32],
}

/// The login of a client.
#[derive(Clone, Debug)]
pub struct LoginPacket {
    pub account_id: i32,
    pub user_id: i32,
    pub name: String,
    pub token: String,
    pub icons: PlayerIconData,
    pub fragmentation_limit: u16,
    pub platform: String,
}

/// What the server sends on the reliable channel before a session is active.
#[derive(Clone, Debug)]
pub enum ServerPacket {
    CryptoHandshakeResponse { key: [u8; 32] },
    ProtocolMismatch { protocol: u16 },
    LoginFailed { message: String },
    ServerBanned { message: String, timestamp: i64 },
    LoggedIn { tps: u32, special_user_data: Option<SpecialUserData>, all_roles: Vec<u8>, secret_key: u32 },
    ServerDisconnect { message: String },
}

/// What every packet starts with: its id, and whether its body is encrypted.
#[derive(Clone, Copy, Debug, PartialEq, Eq, Structural)]
pub struct PacketHeader {
    pub packet_id: u16,
    pub encrypted: bool,
}

/// A ping of the datagram channel.
#[derive(Clone, Copy, Debug, PartialEq, Eq, Structural)]
pub struct PingPacket {
    pub id: u32,
}

/// The answer to a ping: its id and the number of players.
#[derive(Clone, Copy, Debug, PartialEq, Eq, Structural)]
pub struct PingResponsePacket {
    pub id: u32,
    pub player_count: u32,
}

/// The datagram that claims a session.
#[derive(Clone, Copy, Debug, PartialEq, Eq, Structural)]
pub struct ClaimThreadPacket {
    pub secret_key: u32,
}

/// A voice frame of one player for the others on the level.
#[derive(Clone, Debug)]
pub struct VoiceBroadcastPacket {
    pub player_id: i32,
    pub data: Vec<u8>,
}

/// A chat message of one player for the others on the level.
#[derive(Clone, Debug)]
pub struct ChatMessageBroadcastPacket {
    pub player_id: i32,
    pub message: String,
}

/// What the inbox of a session takes.
#[derive(Clone, Debug)]
pub enum ServerThreadMessage {
    /// A datagram that fits the inline buffer, and its length.
    SmallPacket([u8; 164], usize),
    /// A larger datagram.
    Packet(Vec<u8>),
    BroadcastVoice(VoiceBroadcastPacket),
    BroadcastText(ChatMessageBroadcastPacket),
    /// The session is to tell its client why, and to end.
    TerminationNotice(String),
}

/// The number that two bytes spell, the high byte first.
pub open spec fn be_u16(b0: u8, b1: u8) -> u16 {
    (b0 as int * 256 + b1 as int) as u16
}

/// The number that four bytes spell, the highest byte first.
pub open spec fn be_u32(b0: u8, b1: u8, b2: u8, b3: u8) -> u32 {
    (b0 as int * 16777216 + b1 as int * 65536 + b2 as int * 256 + b3 as int) as u32
}

/// The four bytes that spell the number, the highest first.
pub open spec fn u32_be_bytes(v: u32) -> Seq<u8> {
    seq![
        (v as int / 16777216) as u8,
        (v as int / 65536 % 256) as u8,
        (v as int / 256 % 256) as u8,
        (v as int % 256) as u8,
    ]
}

/// The two bytes that spell the number, the high byte first.
pub open spec fn u16_be_bytes(v: u16) -> Seq<u8> {
    seq![(v as int / 256) as u8, (v as int % 256) as u8]
}

/// The header that the bytes start with, if they hold one.
pub open spec fn header_of(data: Seq<u8>) -> Option<PacketHeader> {
    if data.len() < 3 {
        None
    } else {
        Some(PacketHeader { packet_id: be_u16(data[0], data[1]), encrypted: data[2] != 0 })
    }
}

/// The 32-bit number that follows the header, if the bytes hold one.
pub open spec fn body_u32(data: Seq<u8>) -> Option<u32> {
    if data.len() < 7 {
        None
    } else {
        Some(be_u32(data[3], data[4], data[5], data[6]))
    }
}

/// The bytes of a header.
pub open spec fn header_bytes(header: PacketHeader) -> Seq<u8> {
    u16_be_bytes(header.packet_id) + seq![if header.encrypted { 1u8 } else { 0u8 }]
}

/// The bytes of a ping response: a cleartext header, the id, the player count.
pub open spec fn ping_response_bytes(response: PingResponsePacket) -> Seq<u8> {
    header_bytes(PacketHeader { packet_id: PING_RESPONSE_PACKET_ID, encrypted: false }) + u32_be_bytes(
        response.id,
    ) + u32_be_bytes(response.player_count)
}

/// The inline buffer that holds the bytes: the bytes first, then zeros.
pub open spec fn inline_buffer(data: Seq<u8>) -> Seq<u8> {
    Seq::new(164, |i: int| if i < data.len() { data[i] } else { 0u8 })
}

/// The message that carries a datagram to a session: inline if the datagram
/// fits the inline buffer, on the heap if not.
pub open spec fn is_packet_message(message: ServerThreadMessage, data: Seq<u8>) -> bool {
    if data.len() <= 164 {
        message matches ServerThreadMessage::SmallPacket(buffer, len) && buffer@ == inline_buffer(data)
            && len == data.len()
    } else {
        message matches ServerThreadMessage::Packet(bytes) && bytes@ == data
    }
}

impl PacketHandlingError {
    /// Whether the error ends the session: a failed transport, a cleartext
    /// login, and a body that cannot be decrypted or sealed do; a frame that
    /// is too short, an id without a handler, a second handshake and a
    /// packet too long to send do not.
    pub open spec fn spec_is_terminal(&self) -> bool {
        match self {
            PacketHandlingError::Transport => true,
            PacketHandlingError::MalformedLoginAttempt => true,
            PacketHandlingError::BadCipher => true,
            PacketHandlingError::CryptoNotInitialized => true,
            PacketHandlingError::EncryptionFailed => true,
            PacketHandlingError::PacketTooLong => false,
            PacketHandlingError::MalformedMessage => false,
            PacketHandlingError::NoHandler(_) => false,
            PacketHandlingError::CryptoAlreadyInitialized => false,
        }
    }

    /// Whether the error ends the session.
    #[verifier::when_used_as_spec(spec_is_terminal)]
    pub fn is_terminal(&self) -> (terminal: bool)
        ensures
            terminal == self.spec_is_terminal(),
    {
        match self {
            PacketHandlingError::Transport => true,
            PacketHandlingError::MalformedLoginAttempt => true,
            PacketHandlingError::BadCipher => true,
            PacketHandlingError::CryptoNotInitialized => true,
            PacketHandlingError::EncryptionFailed => true,
            PacketHandlingError::PacketTooLong => false,
            PacketHandlingError::MalformedMessage => false,
            PacketHandlingError::NoHandler(_) => false,
            PacketHandlingError::CryptoAlreadyInitialized => false,
        }
    }
}

/// What the header check of a frame on a session that is not yet active
/// returns: an error for a frame shorter than a header and for a login in
/// cleartext, else the header.
pub open spec fn checked_header(message: Seq<u8>) -> Result<PacketHeader, PacketHandlingError> {
    match header_of(message) {
        None => Err(PacketHandlingError::MalformedMessage),
        Some(h) => if h.packet_id == LOGIN_PACKET_ID && !h.encrypted {
            Err(PacketHandlingError::MalformedLoginAttempt)
        } else {
            Ok(h)
        },
    }
}

/// The handler that takes a packet by its id: a handshake and a login have
/// one, no other id has.
pub open spec fn handler_of(packet_id: u16) -> Result<PacketKind, PacketHandlingError> {
    if packet_id == CRYPTO_HANDSHAKE_START_PACKET_ID {
        Ok(PacketKind::CryptoHandshakeStart)
    } else if packet_id == LOGIN_PACKET_ID {
        Ok(PacketKind::Login)
    } else {
        Err(PacketHandlingError::NoHandler(packet_id))
    }
}

/// The notice for a session whose account has logged in from another place.
pub fn duplicate_login_notice() -> (notice: ServerThreadMessage)
    ensures
        notice matches ServerThreadMessage::TerminationNotice(reason) && reason@
            == "Someone logged into the same account from a different place."@,
{
    ServerThreadMessage::TerminationNotice(
        String::from_str("Someone logged into the same account from a different place."),
    )
}

/// The notice for a session on a server that has gone under maintenance.
pub fn maintenance_notice() -> (notice: ServerThreadMessage)
    ensures
        notice matches ServerThreadMessage::TerminationNotice(reason) && reason@
            == "The server is now under maintenance, please try connecting again later"@,
{
    ServerThreadMessage::TerminationNotice(
        String::from_str("The server is now under maintenance, please try connecting again later"),
    )
}

/// Reads the header of a packet.
pub fn read_packet_header(data: &[u8]) -> (header: Option<PacketHeader>)
    ensures
        header == header_of(data@),
{
    if data.len() < 3 {
        return None;
    }
    let id: u16 = (data[0] as u16) * 256 + data[1] as u16;
    Some(PacketHeader { packet_id: id, encrypted: data[2] != 0 })
}

/// Reads the 32-bit number that follows the header.
pub fn read_body_u32(data: &[u8]) -> (value: Option<u32>)
    ensures
        value == body_u32(data@),
{
    if data.len() < 7 {
        return None;
    }
    let v: u32 = (data[3] as u32) * 16777216 + (data[4] as u32) * 65536 + (data[5] as u32) * 256
        + data[6] as u32;
    Some(v)
}

/// Appends the four bytes of the number, the highest first.
fn write_u32(out: &mut Vec<u8>, v: u32)
    ensures
        final(out)@ == old(out)@ + u32_be_bytes(v),
{
    out.push((v / 16777216) as u8);
    out.push((v / 65536 % 256) as u8);
    out.push((v / 256 % 256) as u8);
    out.push((v % 256) as u8);
    proof {
        assert(final(out)@ =~= old(out)@ + u32_be_bytes(v));
    }
}

impl PingPacket {
    /// Reads a ping from a datagram; the header is not looked at.
    pub fn decode(data: &[u8]) -> (packet: Option<PingPacket>)
        ensures
            packet == (match body_u32(data@) {
                Some(id) => Some(PingPacket { id }),
                None => None,
            }),
    {
        match read_body_u32(data) {
            Some(id) => Some(PingPacket { id }),
            None => None,
        }
    }
}

impl ClaimThreadPacket {
    /// Reads a claim from a datagram; the header is not looked at.
    pub fn decode(data: &[u8]) -> (packet: Option<ClaimThreadPacket>)
        ensures
            packet == (match body_u32(data@) {
                Some(secret_key) => Some(ClaimThreadPacket { secret_key }),
                None => None,
            }),
    {
        match read_body_u32(data) {
            Some(secret_key) => Some(ClaimThreadPacket { secret_key }),
            None => None,
        }
    }
}

impl PingResponsePacket {
    /// The datagram that carries this response.
    pub fn encode(&self) -> (out: Vec<u8>)
        ensures
            out@ == ping_response_bytes(*self),
            out@.len() == PING_RESPONSE_SIZE,
    {
        let mut out: Vec<u8> = Vec::new();
        out.push((PING_RESPONSE_PACKET_ID / 256) as u8);
        out.push((PING_RESPONSE_PACKET_ID % 256) as u8);
        out.push(0u8);
        write_u32(&mut out, self.id);
        write_u32(&mut out, self.player_count);
        proof {
            assert(out@ =~= ping_response_bytes(*self));
        }
        out
    }
}

/// Wraps a datagram for the inbox of a session.
pub fn packet_message(data: &[u8]) -> (message: ServerThreadMessage)
    ensures
        is_packet_message(message, data@),
{
    if data.len() <= INLINE_BUFFER_SIZE {
        let mut buffer = [0u8; 164];
        let mut i: usize = 0;
        while i < data.len()
            invariant
                i <= data.len() <= 164,
                forall|j: int| 0 <= j < i ==> buffer@[j] == data@[j],
                forall|j: int| i <= j < 164 ==> buffer@[j] == 0u8,
            decreases data.len() - i,
        {
            buffer[i] = data[i];
            i += 1;
        }
        proof {
            assert(buffer@ =~= inline_buffer(data@));
        }
        ServerThreadMessage::SmallPacket(buffer, data.len())
    } else {
        let mut bytes: Vec<u8> = Vec::new();
        let mut i: usize = 0;
        while i < data.len()
            invariant
                i <= data.len(),
                bytes@ == data@.subrange(0, i as int),
            decreases data.len() - i,
        {
            bytes.push(data[i]);
            proof {
                assert(data@.subrange(0, i as int).push(data@[i as int]) =~= data@.subrange(0, i + 1));
            }
            i += 1;
        }
        proof {
            assert(data@.subrange(0, data@.len() as int) =~= data@);
        }
        ServerThreadMessage::Packet(bytes)
    }
}

/// A ping response that was written can be read back.
pub proof fn ping_response_round_trip(response: PingResponsePacket)
    ensures
        ping_response_bytes(response).len() == 11,
        header_of(ping_response_bytes(response)) == Some(
            PacketHeader { packet_id: PING_RESPONSE_PACKET_ID, encrypted: false },
        ),
        body_u32(ping_response_bytes(response)) == Some(response.id),
        ({
            let b = ping_response_bytes(response);
            be_u32(b[7], b[8], b[9], b[10]) == response.player_count
        }),
{
}

} // verus!
