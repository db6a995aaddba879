//! The session once it is active.

use crate::data::ComputedRole;
use crate::data::UserEntry;
use crate::packet::ChatMessageBroadcastPacket;
use crate::packet::INLINE_BUFFER_SIZE;
use crate::packet::PacketHandlingError;
use crate::packet::ServerPacket;
use crate::packet::ServerThreadMessage;
use crate::packet::VoiceBroadcastPacket;
use crate::socket::ClientSocket;
use crate::state::ClientThreadState;
use crate::unauthorized::UnauthorizedThread;
use vstd::prelude::*;

verus! {

/// An active session: bound to a datagram peer and logged in.
#[derive(Debug)]
pub struct ClientThread {
    /// The handle under which the server knows the session.
    pub id: u64,
    /// The socket; it is bound to a datagram peer.
    pub socket: ClientSocket,
    pub connection_state: ClientThreadState,
    pub account_id: i32,
    pub fragmentation_limit: u16,
    pub user_entry: UserEntry,
    pub user_role: ComputedRole,
}

/// What a client thread does with a message from its inbox.
#[derive(Debug)]
pub enum ClientAction {
    /// Handle the datagram of the client.
    Datagram(Vec<u8>),
    /// Send the voice frame to the client.
    Voice(VoiceBroadcastPacket),
    /// Send the chat message to the client.
    Text(ChatMessageBroadcastPacket),
    /// Send the packet to the client; the session ends.
    Disconnect(ServerPacket),
}

/// The datagram that a small packet holds: the first `len` bytes of its
/// buffer, all of it where `len` is more than the buffer holds.
pub open spec fn small_packet_bytes(buffer: Seq<u8>, len: usize) -> Seq<u8> {
    if len <= buffer.len() {
        buffer.subrange(0, len as int)
    } else {
        buffer
    }
}

/// What a client thread does with the message: it handles a datagram, sends
/// a broadcast on, and answers a termination notice with a disconnect that
/// carries the notice's reason.
pub open spec fn is_action_for(message: ServerThreadMessage, action: ClientAction) -> bool {
    match message {
        ServerThreadMessage::SmallPacket(buffer, len) => action matches ClientAction::Datagram(bytes)
            && bytes@ == small_packet_bytes(buffer@, len),
        ServerThreadMessage::Packet(data) => action matches ClientAction::Datagram(bytes) && bytes
            == data,
        ServerThreadMessage::BroadcastVoice(packet) => action matches ClientAction::Voice(p) && p
            == packet,
        ServerThreadMessage::BroadcastText(packet) => action matches ClientAction::Text(p) && p
            == packet,
        ServerThreadMessage::TerminationNotice(reason) => action matches ClientAction::Disconnect(
            ServerPacket::ServerDisconnect { message: m },
        ) && m == reason,
    }
}

impl ClientThread {
    /// The client thread that a session becomes when it is promoted.
    pub open spec fn promoted(thread: UnauthorizedThread) -> ClientThread {
        ClientThread {
            id: thread.id,
            socket: thread.socket,
            connection_state: ClientThreadState::Active,
            account_id: thread.account_id,
            fragmentation_limit: thread.fragmentation_limit,
            user_entry: thread.user_entry->0,
            user_role: thread.user_role->0,
        }
    }

    /// The session in the state `Terminating`.
    pub open spec fn terminated(self) -> ClientThread {
        ClientThread { connection_state: ClientThreadState::Terminating, ..self }
    }

    /// Whether the session has logged in.
    pub fn authenticated(&self) -> (yes: bool)
        ensures
            yes == (self.account_id != 0),
    {
        self.account_id != 0
    }

    /// Whether the session's loop is to end.
    pub fn terminating(&self) -> (yes: bool)
        ensures
            yes == (self.connection_state == ClientThreadState::Terminating),
    {
        self.connection_state == ClientThreadState::Terminating
    }

    /// Asks the session to shut down.
    pub fn terminate(&mut self)
        ensures
            *final(self) == old(self).terminated(),
    {
        self.connection_state = ClientThreadState::Terminating;
    }

    /// Takes a message from the inbox. A termination notice terminates the
    /// session; no other message changes it.
    pub fn handle_message(&mut self, message: ServerThreadMessage) -> (action: ClientAction)
        ensures
            is_action_for(message, action),
            *final(self) == (if message is TerminationNotice {
                old(self).terminated()
            } else {
                *old(self)
            }),
    {
        match message {
            ServerThreadMessage::SmallPacket(buffer, len) => {
                let n = if len <= INLINE_BUFFER_SIZE {
                    len
                } else {
                    INLINE_BUFFER_SIZE
                };
                let mut bytes: Vec<u8> = Vec::new();
                let mut i: usize = 0;
                while i < n
                    invariant
                        i <= n <= 164,
                        bytes@ == buffer@.subrange(0, i as int),
                    decreases n - i,
                {
                    bytes.push(buffer[i]);
                    proof {
                        assert(buffer@.subrange(0, i as int).push(buffer@[i as int])
                            =~= buffer@.subrange(0, i + 1));
                    }
                    i += 1;
                }
                proof {
                    assert(buffer@.subrange(0, 164) =~= buffer@);
                }
                ClientAction::Datagram(bytes)
            },
            ServerThreadMessage::Packet(data) => ClientAction::Datagram(data),
            ServerThreadMessage::BroadcastVoice(packet) => ClientAction::Voice(packet),
            ServerThreadMessage::BroadcastText(packet) => ClientAction::Text(packet),
            ServerThreadMessage::TerminationNotice(reason) => {
                self.terminate();
                ClientAction::Disconnect(ServerPacket::ServerDisconnect { message: reason })
            },
        }
    }

    /// Takes an error of the transport or of a handler: an error that ends
    /// a session terminates this one.
    pub fn handle_error(&mut self, error: PacketHandlingError)
        ensures
            *final(self) == (if error.spec_is_terminal() {
                old(self).terminated()
            } else {
                *old(self)
            }),
    {
        if error.is_terminal() {
            self.terminate();
        }
    }
}

} // verus!
