//! The session before it is active: from accept over handshake and login to
//! the datagram claim.

use crate::address::PeerAddr;
use crate::client::ClientThread;
use crate::data::ComputedRole;
use crate::data::PlayerAccountData;
use crate::data::special_roles;
use crate::data::SpecialUserData;
use crate::data::UserEntry;
use crate::packet::checked_header;
use crate::packet::CRYPTO_HANDSHAKE_START_PACKET_ID;
use crate::packet::CryptoHandshakeStartPacket;
use crate::packet::handler_of;
use crate::packet::IDLE_TIMEOUT_SECS;
use crate::packet::InboundPacket;
use crate::packet::LOGIN_PACKET_ID;
use crate::packet::LoginPacket;
use crate::packet::MIN_FRAGMENTATION_LIMIT;
use crate::packet::PacketHandlingError;
use crate::packet::PacketHeader;
use crate::packet::PacketKind;
use crate::packet::PROTOCOL_PROBE;
use crate::packet::PROTOCOL_VERSION;
use crate::packet::read_packet_header;
use crate::packet::ServerPacket;
use crate::server::GameServer;
use crate::socket::ClientSocket;
use crate::state::ClientThreadState;
use crate::state::UnauthorizedThreadOutcome;
use crate::text::decimal_text;
use crate::text::i64_to_string;
use crate::wire::is_handshake;
use crate::wire::is_login;
use rand::Rng;
use vstd::prelude::*;
use vstd::string::StringExecFns;

verus! {

/// A session that is not yet active. It is made when a client opens a
/// reliable channel, and it ends in an upgrade to a client thread or in a
/// termination.
#[derive(Debug)]
pub struct UnauthorizedThread {
    /// The handle under which the server knows the session.
    pub id: u64,
    pub socket: ClientSocket,
    pub connection_state: ClientThreadState,
    /// The claim key, told to the client at the end of a login.
    pub secret_key: u32,
    pub account_id: i32,
    pub fragmentation_limit: u16,
    pub user_entry: Option<UserEntry>,
    pub user_role: Option<ComputedRole>,
    /// The datagram peer of a claim that the session has not yet taken up.
    pub claim_udp_peer: Option<PeerAddr>,
}

/// What happened on a session while it waited.
#[derive(Clone, Copy, Debug, PartialEq, Eq, Structural)]
pub enum ThreadEvent {
    /// The claim signal fired.
    Claimed,
    /// A frame was read and handled.
    FrameHandled,
    /// A frame could not be read, or its handler failed.
    FrameFailed(PacketHandlingError),
    /// No frame came for this many seconds.
    Idle { seconds: u64 },
}

/// How far a login has come.
#[derive(Debug)]
pub enum LoginProgress {
    /// The login ends here: send the packet.
    Rejected(ServerPacket),
    /// The token issuer is to validate the client's token.
    ValidateToken,
    /// The player is known under this name.
    Authenticated(String),
}

/// A login that went through.
#[derive(Debug)]
pub struct LoginCommit {
    /// The account that is to be added to the global room.
    pub create_player: i32,
    /// The packet that tells the client its claim key.
    pub reply: ServerPacket,
}

/// Why a session was not promoted.
#[derive(Clone, Copy, Debug, PartialEq, Eq, Structural)]
pub enum UpgradeError {
    /// No datagram peer is bound.
    NoUdpPeer,
    /// The account id is zero.
    NotLoggedIn,
    /// No user entry is recorded.
    NoUserEntry,
    /// No role is recorded.
    NoUserRole,
    /// The session is in another state than `Established`.
    NotEstablished,
}

/// What a client is told that logs in while the server is under maintenance.
pub open spec fn maintenance_message() -> Seq<char> {
    "The server is currently under maintenance, please try connecting again later."@
}

/// What a client is told whose fragmentation limit is too low.
pub open spec fn fragmentation_message(limit: u16) -> Seq<char> {
    "The client fragmentation limit is too low ("@ + decimal_text(limit as int)
        + " bytes) to be accepted"@
}

/// What a client is told whose account id or user id is not positive.
pub open spec fn invalid_id_message(account_id: i32, user_id: i32) -> Seq<char> {
    "Invalid account/user ID was sent ("@ + decimal_text(account_id as int) + " and "@ + decimal_text(
        user_id as int,
    )
        + "). Please note that you must be signed into a Geometry Dash account before connecting."@
}

/// What a client is told whose token the token issuer refuses.
pub open spec fn authentication_failed_message(error: Seq<char>) -> Seq<char> {
    "authentication failed: "@ + error
}

/// The reason of a ban that has none.
pub open spec fn no_reason_message() -> Seq<char> {
    "No reason given"@
}

/// What a client is told that is not on the whitelist of a server that has one.
pub open spec fn whitelist_message() -> Seq<char> {
    "This server has whitelist enabled and your account has not been allowed."@
}

/// What a client is told whose user entry could not be fetched.
pub open spec fn fetch_failed_message(error: Seq<char>) -> Seq<char> {
    "failed to fetch user data: "@ + error
}

/// What the first step of a login answers: a disconnect under maintenance
/// or for a fragmentation limit under the least one, a failed login for an
/// account or user id that is not positive; else the client's own name on a
/// standalone server, and the request to validate the token on any other.
pub open spec fn is_login_start(
    packet: LoginPacket,
    maintenance: bool,
    standalone: bool,
    progress: LoginProgress,
) -> bool {
    if maintenance {
        progress matches LoginProgress::Rejected(ServerPacket::ServerDisconnect { message }) && message@
            == maintenance_message()
    } else if packet.fragmentation_limit < MIN_FRAGMENTATION_LIMIT {
        progress matches LoginProgress::Rejected(ServerPacket::ServerDisconnect { message }) && message@
            == fragmentation_message(packet.fragmentation_limit)
    } else if packet.account_id <= 0 || packet.user_id <= 0 {
        progress matches LoginProgress::Rejected(ServerPacket::LoginFailed { message }) && message@
            == invalid_id_message(packet.account_id, packet.user_id)
    } else if standalone {
        progress matches LoginProgress::Authenticated(name) && name@ == packet.name@
    } else {
        progress is ValidateToken
    }
}

/// What the token issuer's answer means for a login: the name it gave, or a
/// failed login with its message.
pub open spec fn is_token_result(validated: Result<String, String>, progress: LoginProgress) -> bool {
    match validated {
        Ok(name) => progress matches LoginProgress::Authenticated(n) && n@ == name@,
        Err(error) => progress matches LoginProgress::Rejected(ServerPacket::LoginFailed { message })
            && message@ == authentication_failed_message(error@),
    }
}

/// `rand::thread_rng().gen::<u32>()`: a number from the generator of the
/// calling thread. Nothing is known of the number.
#[verifier::external_body]
fn random_secret_key() -> (key: u32) {
    rand::thread_rng().gen()
}

impl UnauthorizedThread {
    /// A session in this type is never active and never disconnected.
    pub open spec fn wf(&self) -> bool {
        self.connection_state != ClientThreadState::Active && self.connection_state
            != ClientThreadState::Disconnected
    }

    /// The session as it is accepted.
    pub open spec fn fresh(id: u64, tcp_peer: PeerAddr, secret_key: u32) -> UnauthorizedThread {
        UnauthorizedThread {
            id,
            socket: ClientSocket { tcp_peer, udp_peer: None, client_key: None },
            connection_state: ClientThreadState::Unauthorized,
            secret_key,
            account_id: 0,
            fragmentation_limit: 0,
            user_entry: None,
            user_role: None,
            claim_udp_peer: None,
        }
    }

    /// A new session with a claim key drawn at random.
    pub fn new(id: u64, tcp_peer: PeerAddr) -> (thread: UnauthorizedThread)
        ensures
            thread == Self::fresh(id, tcp_peer, thread.secret_key),
    {
        Self::with_secret_key(id, tcp_peer, random_secret_key())
    }

    /// A new session with the given claim key.
    pub fn with_secret_key(id: u64, tcp_peer: PeerAddr, secret_key: u32) -> (thread: UnauthorizedThread)
        ensures
            thread == Self::fresh(id, tcp_peer, secret_key),
    {
        UnauthorizedThread {
            id,
            socket: ClientSocket { tcp_peer, udp_peer: None, client_key: None },
            connection_state: ClientThreadState::Unauthorized,
            secret_key,
            account_id: 0,
            fragmentation_limit: 0,
            user_entry: None,
            user_role: None,
            claim_udp_peer: None,
        }
    }

    /// How the session loop ends in the session's state, if it does.
    pub open spec fn spec_outcome(&self) -> Option<UnauthorizedThreadOutcome> {
        match self.connection_state {
            ClientThreadState::Established => Some(UnauthorizedThreadOutcome::Upgrade),
            ClientThreadState::Terminating => Some(UnauthorizedThreadOutcome::Terminate),
            _ => None,
        }
    }

    /// How the session loop ends in the session's state: with an upgrade
    /// where the session is established, with a termination where it is
    /// terminating; else it goes on.
    #[verifier::when_used_as_spec(spec_outcome)]
    pub fn outcome(&self) -> (outcome: Option<UnauthorizedThreadOutcome>)
        ensures
            outcome == self.spec_outcome(),
    {
        match self.connection_state {
            ClientThreadState::Established => Some(UnauthorizedThreadOutcome::Upgrade),
            ClientThreadState::Terminating => Some(UnauthorizedThreadOutcome::Terminate),
            _ => None,
        }
    }

    /// The session with the pending claim taken up, if there is one: the
    /// socket is bound to the claim's peer.
    pub open spec fn claim_taken(self) -> UnauthorizedThread {
        match self.claim_udp_peer {
            Some(peer) => UnauthorizedThread {
                socket: ClientSocket { udp_peer: Some(peer), ..self.socket },
                claim_udp_peer: None,
                ..self
            },
            None => self,
        }
    }

    /// The session in the state `Terminating`.
    pub open spec fn terminated(self) -> UnauthorizedThread {
        UnauthorizedThread { connection_state: ClientThreadState::Terminating, ..self }
    }

    /// The session after one turn of its loop. A session whose loop has
    /// ended stays as it is. Else a claim that has arrived binds the socket
    /// and establishes the session; an error that is terminal and an idle
    /// time of 90 seconds or more terminate it; nothing else changes it.
    pub open spec fn after_event(self, event: ThreadEvent) -> UnauthorizedThread {
        if self.spec_outcome() is Some {
            self
        } else {
            match event {
                ThreadEvent::Claimed => if self.claim_udp_peer is Some {
                    UnauthorizedThread {
                        connection_state: ClientThreadState::Established,
                        ..self.claim_taken()
                    }
                } else {
                    self
                },
                ThreadEvent::FrameHandled => self,
                ThreadEvent::FrameFailed(error) => if error.spec_is_terminal() {
                    self.terminated()
                } else {
                    self
                },
                ThreadEvent::Idle { seconds } => if seconds >= IDLE_TIMEOUT_SECS {
                    self.terminated()
                } else {
                    self
                },
            }
        }
    }

    /// One turn of the session loop: takes what happened while the session
    /// waited and says how the loop ends, if it ends now.
    pub fn run(&mut self, event: ThreadEvent) -> (outcome: Option<UnauthorizedThreadOutcome>)
        requires
            old(self).wf(),
        ensures
            final(self).wf(),
            *final(self) == old(self).after_event(event),
            outcome == final(self).spec_outcome(),
    {
        if self.outcome().is_some() {
            return self.outcome();
        }
        match event {
            ThreadEvent::Claimed => {
                if self.wait_for_claimed() {
                    self.connection_state = ClientThreadState::Established;
                }
            },
            ThreadEvent::FrameHandled => {},
            ThreadEvent::FrameFailed(error) => {
                if error.is_terminal() {
                    self.terminate();
                }
            },
            ThreadEvent::Idle { seconds } => {
                if seconds >= IDLE_TIMEOUT_SECS {
                    self.terminate();
                }
            },
        }
        self.outcome()
    }

    /// Tells the session that a datagram peer has claimed it.
    pub fn claim(&mut self, udp_peer: PeerAddr)
        ensures
            *final(self) == (UnauthorizedThread { claim_udp_peer: Some(udp_peer), ..*old(self) }),
    {
        self.claim_udp_peer = Some(udp_peer);
    }

    /// Takes up a claim that has arrived: binds the socket to its peer.
    /// Returns whether there was one.
    pub fn wait_for_claimed(&mut self) -> (claimed: bool)
        ensures
            *final(self) == old(self).claim_taken(),
            claimed == old(self).claim_udp_peer is Some,
    {
        match self.claim_udp_peer {
            Some(peer) => {
                self.socket.udp_peer = Some(peer);
                self.claim_udp_peer = None;
                true
            },
            None => false,
        }
    }

    /// What the check of a frame's header returns on this session: what
    /// `checked_header` says, and an error for an encrypted frame where no
    /// handshake was done.
    pub open spec fn frame_check(&self, message: Seq<u8>) -> Result<PacketHeader, PacketHandlingError> {
        match checked_header(message) {
            Ok(h) => if h.encrypted && self.socket.client_key is None {
                Err(PacketHandlingError::CryptoNotInitialized)
            } else {
                Ok(h)
            },
            Err(e) => Err(e),
        }
    }

    /// Checks the header of a frame: a frame shorter than a header, a login
    /// in cleartext and an encrypted frame before the handshake are errors.
    pub fn check_packet(&self, message: &[u8]) -> (header: Result<PacketHeader, PacketHandlingError>)
        ensures
            header == self.frame_check(message@),
    {
        let header = match read_packet_header(message) {
            Some(h) => h,
            None => {
                return Err(PacketHandlingError::MalformedMessage);
            },
        };
        if header.packet_id == LOGIN_PACKET_ID && !header.encrypted {
            return Err(PacketHandlingError::MalformedLoginAttempt);
        }
        if header.encrypted && self.socket.client_key.is_none() {
            return Err(PacketHandlingError::CryptoNotInitialized);
        }
        Ok(header)
    }

    /// The handler that takes a packet by its id.
    pub fn packet_handler(packet_id: u16) -> (kind: Result<PacketKind, PacketHandlingError>)
        ensures
            kind == handler_of(packet_id),
    {
        if packet_id == CRYPTO_HANDSHAKE_START_PACKET_ID {
            Ok(PacketKind::CryptoHandshakeStart)
        } else if packet_id == LOGIN_PACKET_ID {
            Ok(PacketKind::Login)
        } else {
            Err(PacketHandlingError::NoHandler(packet_id))
        }
    }

    /// Whether `packet` is what `handle_packet` returns for the frame: the
    /// error of the header check or of the decryption, if there is one; an
    /// error for a packet id that no handler takes; else the handshake or
    /// the login that the cleartext body holds, and an error where it holds
    /// none.
    pub open spec fn is_inbound(
        &self,
        secret_key: Seq<u8>,
        message: Seq<u8>,
        packet: Result<InboundPacket, PacketHandlingError>,
    ) -> bool {
        match self.frame_check(message) {
            Err(e) => packet == Err::<InboundPacket, PacketHandlingError>(e),
            Ok(h) => match self.socket.decrypted(secret_key, message) {
                Err(e) => packet == Err::<InboundPacket, PacketHandlingError>(e),
                Ok(body) => match handler_of(h.packet_id) {
                    Err(e) => packet == Err::<InboundPacket, PacketHandlingError>(e),
                    Ok(PacketKind::CryptoHandshakeStart) => if body.len() < 34 {
                        packet == Err::<InboundPacket, PacketHandlingError>(
                            PacketHandlingError::MalformedMessage,
                        )
                    } else {
                        packet matches Ok(InboundPacket::CryptoHandshakeStart(p)) && is_handshake(
                            body,
                            Some(p),
                        )
                    },
                    Ok(PacketKind::Login) => if is_login(body, None) {
                        packet == Err::<InboundPacket, PacketHandlingError>(
                            PacketHandlingError::MalformedMessage,
                        )
                    } else {
                        packet matches Ok(InboundPacket::Login(p)) && is_login(body, Some(p))
                    },
                },
            },
        }
    }

    /// Takes a frame of the reliable channel: checks its header, decrypts
    /// its body where the header says so, and reads the packet for the
    /// handler that takes the packet id.
    pub fn handle_packet(&self, server: &GameServer, message: &[u8]) -> (packet: Result<
        InboundPacket,
        PacketHandlingError,
    >)
        ensures
            self.is_inbound(server@.secret_key, message@, packet),
    {
        let header = match self.check_packet(message) {
            Ok(h) => h,
            Err(e) => {
                return Err(e);
            },
        };
        let body = match self.socket.decrypt(server, message) {
            Ok(b) => b,
            Err(e) => {
                return Err(e);
            },
        };
        match Self::packet_handler(header.packet_id) {
            Err(e) => Err(e),
            Ok(PacketKind::CryptoHandshakeStart) => match CryptoHandshakeStartPacket::decode(
                body.as_slice(),
            ) {
                Some(p) => Ok(InboundPacket::CryptoHandshakeStart(p)),
                None => Err(PacketHandlingError::MalformedMessage),
            },
            Ok(PacketKind::Login) => match LoginPacket::decode(body.as_slice()) {
                Some(p) => Ok(InboundPacket::Login(p)),
                None => Err(PacketHandlingError::MalformedMessage),
            },
        }
    }

    /// Whether the server takes a client of the protocol version.
    pub open spec fn protocol_accepted(protocol: u16) -> bool {
        protocol == PROTOCOL_VERSION || protocol == PROTOCOL_PROBE
    }

    /// Handles the handshake. A client of another protocol version is told
    /// the server's version, and the session terminates. A second handshake
    /// is an error. Else the client's key is kept and the server's key is
    /// the answer.
    pub fn handle_crypto_handshake(
        &mut self,
        packet: &CryptoHandshakeStartPacket,
        server_key: [u8; 32],
    ) -> (reply: Result<ServerPacket, PacketHandlingError>)
        ensures
            if !Self::protocol_accepted(packet.protocol) {
                &&& *final(self) == old(self).terminated()
                &&& reply matches Ok(ServerPacket::ProtocolMismatch { protocol })
                &&& protocol == PROTOCOL_VERSION
            } else if old(self).socket.client_key is Some {
                &&& *final(self) == *old(self)
                &&& reply == Err::<ServerPacket, PacketHandlingError>(
                    PacketHandlingError::CryptoAlreadyInitialized,
                )
            } else {
                &&& *final(self) == (UnauthorizedThread {
                    socket: ClientSocket { client_key: Some(packet.key), ..old(self).socket },
                    ..*old(self)
                })
                &&& reply matches Ok(ServerPacket::CryptoHandshakeResponse { key })
                &&& key == server_key
            },
    {
        if packet.protocol != PROTOCOL_VERSION && packet.protocol != PROTOCOL_PROBE {
            self.terminate();
            return Ok(ServerPacket::ProtocolMismatch { protocol: PROTOCOL_VERSION });
        }
        match self.socket.init_crypto_box(packet.key) {
            Ok(()) => Ok(ServerPacket::CryptoHandshakeResponse { key: server_key }),
            Err(e) => Err(e),
        }
    }

    /// The session after the first step of a login: terminating, with the
    /// client's fragmentation limit where the login came that far.
    pub open spec fn login_started(self, packet: LoginPacket, maintenance: bool) -> UnauthorizedThread {
        UnauthorizedThread {
            connection_state: ClientThreadState::Terminating,
            fragmentation_limit: if !maintenance && packet.fragmentation_limit
                >= MIN_FRAGMENTATION_LIMIT {
                packet.fragmentation_limit
            } else {
                self.fragmentation_limit
            },
            ..self
        }
    }

    /// The first step of a login. The session is marked as terminating, so
    /// that a login that ends early ends the session; only `commit_login`
    /// takes the mark back.
    pub fn handle_login(&mut self, packet: &LoginPacket, server: &GameServer) -> (progress: LoginProgress)
        ensures
            *final(self) == old(self).login_started(*packet, server@.central_conf.maintenance),
            is_login_start(*packet, server@.central_conf.maintenance, server@.standalone, progress),
    {
        self.terminate();
        if server.central_conf().maintenance {
            return LoginProgress::Rejected(
                self.kick(
                    String::from_str(
                        "The server is currently under maintenance, please try connecting again later.",
                    ),
                ),
            );
        }
        if packet.fragmentation_limit < MIN_FRAGMENTATION_LIMIT {
            let mut message = String::from_str("The client fragmentation limit is too low (");
            message.append(i64_to_string(packet.fragmentation_limit as i64).as_str());
            message.append(" bytes) to be accepted");
            return LoginProgress::Rejected(self.kick(message));
        }
        self.fragmentation_limit = packet.fragmentation_limit;
        if packet.account_id <= 0 || packet.user_id <= 0 {
            let mut message = String::from_str("Invalid account/user ID was sent (");
            message.append(i64_to_string(packet.account_id as i64).as_str());
            message.append(" and ");
            message.append(i64_to_string(packet.user_id as i64).as_str());
            message.append(
                "). Please note that you must be signed into a Geometry Dash account before connecting.",
            );
            return LoginProgress::Rejected(ServerPacket::LoginFailed { message });
        }
        if server.standalone() {
            LoginProgress::Authenticated(packet.name.clone())
        } else {
            LoginProgress::ValidateToken
        }
    }

    /// The second step of a login on a server that is not standalone: what
    /// the token issuer said of the client's token.
    pub fn token_validated(validated: Result<String, String>) -> (progress: LoginProgress)
        ensures
            is_token_result(validated, progress),
    {
        match validated {
            Ok(name) => LoginProgress::Authenticated(name),
            Err(error) => {
                let mut message = String::from_str("authentication failed: ");
                message.append(error.as_str());
                LoginProgress::Rejected(ServerPacket::LoginFailed { message })
            },
        }
    }

    /// What the central service's answer means for a login: a ban is told
    /// with its reason and its expiry, zero where it has none; a user who is
    /// not on the whitelist of a server that has one is refused; so is a
    /// failed fetch. Else nothing is sent.
    pub open spec fn is_user_result(
        fetched: Result<(UserEntry, ComputedRole), String>,
        whitelist: bool,
        rejection: Option<ServerPacket>,
    ) -> bool {
        match fetched {
            Ok((user, role)) => if user.is_banned {
                &&& rejection matches Some(ServerPacket::ServerBanned { message, timestamp })
                &&& message@ == (match user.violation_reason {
                    Some(reason) => reason@,
                    None => no_reason_message(),
                })
                &&& timestamp == (match user.violation_expiry {
                    Some(expiry) => expiry,
                    None => 0,
                })
            } else if whitelist && !user.is_whitelisted {
                rejection matches Some(ServerPacket::LoginFailed { message }) && message@
                    == whitelist_message()
            } else {
                rejection is None
            },
            Err(error) => rejection matches Some(ServerPacket::LoginFailed { message }) && message@
                == fetch_failed_message(error@),
        }
    }

    /// The session after the central service's answer: the user entry and
    /// the role are recorded where the login goes on.
    pub open spec fn user_recorded(
        self,
        fetched: Result<(UserEntry, ComputedRole), String>,
        whitelist: bool,
    ) -> UnauthorizedThread {
        match fetched {
            Ok((user, role)) => if user.is_banned || (whitelist && !user.is_whitelisted) {
                self
            } else {
                UnauthorizedThread { user_role: Some(role), user_entry: Some(user), ..self }
            },
            Err(_) => self,
        }
    }

    /// The step of a login that follows the fetch of the user from the
    /// central service, on a server that is not standalone. `fetched` holds
    /// the user entry and the role computed from its role list, or the
    /// error's text. Returns the packet that ends the login, if it ends here.
    pub fn user_fetched(
        &mut self,
        fetched: Result<(UserEntry, ComputedRole), String>,
        server: &GameServer,
    ) -> (rejection: Option<ServerPacket>)
        ensures
            *final(self) == old(self).user_recorded(fetched, server@.central_conf.whitelist),
            Self::is_user_result(fetched, server@.central_conf.whitelist, rejection),
    {
        match fetched {
            Ok((user, role)) => {
                if user.is_banned {
                    let message = match &user.violation_reason {
                        Some(reason) => reason.clone(),
                        None => String::from_str("No reason given"),
                    };
                    let timestamp = match user.violation_expiry {
                        Some(expiry) => expiry,
                        None => 0,
                    };
                    return Some(ServerPacket::ServerBanned { message, timestamp });
                }
                if server.central_conf().whitelist && !user.is_whitelisted {
                    return Some(
                        ServerPacket::LoginFailed {
                            message: String::from_str(
                                "This server has whitelist enabled and your account has not been allowed.",
                            ),
                        },
                    );
                }
                self.user_role = Some(role);
                self.user_entry = Some(user);
                None
            },
            Err(error) => {
                let mut message = String::from_str("failed to fetch user data: ");
                message.append(error.as_str());
                Some(ServerPacket::LoginFailed { message })
            },
        }
    }

    /// The account data that a login installs.
    pub open spec fn login_data(
        packet: LoginPacket,
        name: String,
        special_user_data: Option<SpecialUserData>,
    ) -> PlayerAccountData {
        PlayerAccountData {
            account_id: packet.account_id,
            user_id: packet.user_id,
            name,
            icons: packet.icons,
            special_user_data,
        }
    }

    /// The session after a login went through: it has the account id and waits for its claim.
    pub open spec fn logged_in(self, account_id: i32) -> UnauthorizedThread {
        UnauthorizedThread { account_id, connection_state: ClientThreadState::Unclaimed, ..self }
    }

    /// The last step of a login. The account is installed in the server's
    /// record of the session, the player count goes up by one, and the
    /// session waits for its claim. The answer tells the client the tick
    /// rate, its special-user profile, the role catalogue in its wire form
    /// as `all_roles` has it, and the claim key, and names the account that
    /// is to join the global room. Where the server does not know the session, nothing
    /// happens and nothing is returned.
    pub fn commit_login(
        &mut self,
        server: &mut GameServer,
        packet: &LoginPacket,
        name: String,
        special_user_data: Option<SpecialUserData>,
        all_roles: Vec<u8>,
    ) -> (commit: Option<LoginCommit>)
        requires
            old(server).wf(),
        ensures
            final(server).wf(),
            final(server)@ == old(server)@.after_login(
                old(self).id,
                Self::login_data(*packet, name, special_user_data),
            ),
            if old(server)@.has_thread(old(self).id) {
                &&& *final(self) == old(self).logged_in(packet.account_id)
                &&& commit matches Some(c)
                &&& c.create_player == packet.account_id
                &&& c.reply matches ServerPacket::LoggedIn {
                    tps,
                    special_user_data: special,
                    all_roles: roles,
                    secret_key,
                }
                &&& tps == old(server)@.central_conf.tps
                &&& roles == all_roles
                &&& special_roles(special) == special_roles(special_user_data)
                &&& secret_key == old(self).secret_key
            } else {
                &&& *final(self) == *old(self)
                &&& commit is None
            },
    {
        let special = match &special_user_data {
            Some(d) => Some(d.duplicate()),
            None => None,
        };
        let data = PlayerAccountData {
            account_id: packet.account_id,
            user_id: packet.user_id,
            name,
            icons: packet.icons,
            special_user_data,
        };
        if !server.login_thread(self.id, data) {
            return None;
        }
        self.account_id = packet.account_id;
        self.connection_state = ClientThreadState::Unclaimed;
        Some(
            LoginCommit {
                create_player: packet.account_id,
                reply: ServerPacket::LoggedIn {
                    tps: server.central_conf().tps,
                    special_user_data: special,
                    all_roles,
                    secret_key: self.secret_key,
                },
            },
        )
    }

    /// Asks the session to shut down.
    pub fn terminate(&mut self)
        ensures
            *final(self) == old(self).terminated(),
    {
        self.connection_state = ClientThreadState::Terminating;
    }

    /// The peer of the reliable channel.
    pub fn get_tcp_peer(&self) -> (peer: PeerAddr)
        ensures
            peer == self.socket.tcp_peer,
    {
        self.socket.tcp_peer
    }

    /// Terminates the session; the packet tells the client why.
    pub fn kick(&mut self, message: String) -> (packet: ServerPacket)
        ensures
            *final(self) == old(self).terminated(),
            packet matches ServerPacket::ServerDisconnect { message: m } && m == message,
    {
        self.terminate();
        ServerPacket::ServerDisconnect { message }
    }

    /// Why the session cannot be promoted, if it cannot: the first of the
    /// promotion's conditions that does not hold.
    pub open spec fn upgrade_error(&self) -> Option<UpgradeError> {
        if self.socket.udp_peer is None {
            Some(UpgradeError::NoUdpPeer)
        } else if self.account_id == 0 {
            Some(UpgradeError::NotLoggedIn)
        } else if self.user_entry is None {
            Some(UpgradeError::NoUserEntry)
        } else if self.user_role is None {
            Some(UpgradeError::NoUserRole)
        } else if self.connection_state != ClientThreadState::Established {
            Some(UpgradeError::NotEstablished)
        } else {
            None
        }
    }

    /// Promotes the session to a client thread. The session must have a
    /// datagram peer, an account id, a user entry and a role, and must be
    /// established; else it is not promoted.
    pub fn upgrade(self) -> (client: Result<ClientThread, UpgradeError>)
        ensures
            match self.upgrade_error() {
                Some(e) => client == Err::<ClientThread, UpgradeError>(e),
                None => client == Ok::<ClientThread, UpgradeError>(ClientThread::promoted(self)),
            },
    {
        if self.socket.udp_peer.is_none() {
            return Err(UpgradeError::NoUdpPeer);
        }
        if self.account_id == 0 {
            return Err(UpgradeError::NotLoggedIn);
        }
        let user_entry = match self.user_entry {
            Some(u) => u,
            None => {
                return Err(UpgradeError::NoUserEntry);
            },
        };
        let user_role = match self.user_role {
            Some(r) => r,
            None => {
                return Err(UpgradeError::NoUserRole);
            },
        };
        if self.connection_state != ClientThreadState::Established {
            return Err(UpgradeError::NotEstablished);
        }
        Ok(
            ClientThread {
                id: self.id,
                socket: self.socket,
                connection_state: ClientThreadState::Active,
                account_id: self.account_id,
                fragmentation_limit: self.fragmentation_limit,
                user_entry,
                user_role,
            },
        )
    }
}

} // verus!
