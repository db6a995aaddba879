//! The socket of a session: the peers of its two channels, and the box
//! that seals what the session and its client say to each other.

use crate::address::PeerAddr;
use crate::crypto::box_opened;
use crate::crypto::box_sealed;
use crate::crypto::generate_nonce;
use crate::crypto::open_box;
use crate::crypto::seal_box;
use crate::packet::header_of;
use crate::packet::PacketHandlingError;
use crate::packet::read_packet_header;
use crate::packet::ServerPacket;
use crate::server::GameServer;
use crate::wire::copy_range;
use crate::wire::encode_frame;
use crate::wire::list_bytes;
use vstd::prelude::*;

verus! {

/// The socket of a session.
#[derive(Clone, Copy, Debug)]
pub struct ClientSocket {
    /// The peer of the reliable channel, fixed when the session is accepted.
    pub tcp_peer: PeerAddr,
    /// The peer of the datagram channel, once the session has taken up its claim.
    pub udp_peer: Option<PeerAddr>,
    /// The client's public key, once the handshake is done.
    pub client_key: Option<[u8; 32]>,
}

/// The nonce of an encrypted packet: the 24 bytes behind the header.
fn nonce_of(message: &[u8]) -> (nonce: [u8; 24])
    requires
        message@.len() >= 27,
    ensures
        nonce@ == message@.subrange(3, 27),
{
    let mut nonce = [0u8; 24];
    let mut i: usize = 0;
    while i < 24
        invariant
            i <= 24,
            message@.len() >= 27,
            forall|j: int| 0 <= j < i ==> nonce@[j] == message@[j + 3],
        decreases 24 - i,
    {
        nonce[i] = message[i + 3];
        i += 1;
    }
    proof {
        assert(nonce@ =~= message@.subrange(3, 27));
    }
    nonce
}

impl ClientSocket {
    /// The socket of a session that was just accepted.
    pub fn new(tcp_peer: PeerAddr) -> (socket: ClientSocket)
        ensures
            socket == (ClientSocket { tcp_peer, udp_peer: None, client_key: None }),
    {
        ClientSocket { tcp_peer, udp_peer: None, client_key: None }
    }

    /// Takes the client's public key for the box. This is done once: a
    /// second key is refused, and the first stays.
    pub fn init_crypto_box(&mut self, key: [u8; 32]) -> (done: Result<(), PacketHandlingError>)
        ensures
            match old(self).client_key {
                Some(_) => *final(self) == *old(self) && done == Err::<(), PacketHandlingError>(
                    PacketHandlingError::CryptoAlreadyInitialized,
                ),
                None => *final(self) == (ClientSocket { client_key: Some(key), ..*old(self) }) && done
                    is Ok,
            },
    {
        if self.client_key.is_some() {
            return Err(PacketHandlingError::CryptoAlreadyInitialized);
        }
        self.client_key = Some(key);
        Ok(())
    }

    /// The cleartext body of a packet, as `decrypt` returns it: the body
    /// itself where the packet is not encrypted; else what the box of the
    /// client's key and the server's secret key finds behind the nonce, and
    /// an error where no handshake was done, where the body is shorter than
    /// a nonce or where it does not authenticate.
    pub open spec fn decrypted(&self, secret_key: Seq<u8>, message: Seq<u8>) -> Result<
        Seq<u8>,
        PacketHandlingError,
    > {
        match header_of(message) {
            None => Err(PacketHandlingError::MalformedMessage),
            Some(h) => if !h.encrypted {
                Ok(message.subrange(3, message.len() as int))
            } else if self.client_key is None {
                Err(PacketHandlingError::CryptoNotInitialized)
            } else if message.len() < 27 {
                Err(PacketHandlingError::BadCipher)
            } else {
                match box_opened(
                    self.client_key->0@,
                    secret_key,
                    message.subrange(3, 27),
                    message.subrange(27, message.len() as int),
                ) {
                    Some(plain) => Ok(plain),
                    None => Err(PacketHandlingError::BadCipher),
                }
            },
        }
    }

    /// The cleartext body of a packet.
    pub fn decrypt(&self, server: &GameServer, message: &[u8]) -> (body: Result<
        Vec<u8>,
        PacketHandlingError,
    >)
        ensures
            match self.decrypted(server@.secret_key, message@) {
                Ok(plain) => body matches Ok(v) && v@ == plain,
                Err(e) => body == Err::<Vec<u8>, PacketHandlingError>(e),
            },
    {
        let header = match read_packet_header(message) {
            Some(h) => h,
            None => {
                return Err(PacketHandlingError::MalformedMessage);
            },
        };
        if !header.encrypted {
            return Ok(copy_range(message, 3, message.len()));
        }
        let client_key = match &self.client_key {
            Some(k) => k,
            None => {
                return Err(PacketHandlingError::CryptoNotInitialized);
            },
        };
        if message.len() < 27 {
            return Err(PacketHandlingError::BadCipher);
        }
        let nonce = nonce_of(message);
        let sealed = copy_range(message, 27, message.len());
        match open_box(client_key, &server.secret_key(), &nonce, sealed.as_slice()) {
            Some(plain) => Ok(plain),
            None => Err(PacketHandlingError::BadCipher),
        }
    }

    /// The sealed form of a cleartext packet under a nonce, as `encrypt_with`
    /// returns it: the header with the encrypted mark, the nonce, and what
    /// the box of the client's key and the server's secret key makes of the
    /// body.
    pub open spec fn encrypted(&self, secret_key: Seq<u8>, nonce: Seq<u8>, packet: Seq<u8>) -> Result<
        Seq<u8>,
        PacketHandlingError,
    > {
        if packet.len() < 3 {
            Err(PacketHandlingError::MalformedMessage)
        } else if self.client_key is None {
            Err(PacketHandlingError::CryptoNotInitialized)
        } else {
            match box_sealed(
                self.client_key->0@,
                secret_key,
                nonce,
                packet.subrange(3, packet.len() as int),
            ) {
                Some(sealed) => Ok(seq![packet[0], packet[1], 1u8] + nonce + sealed),
                None => Err(PacketHandlingError::EncryptionFailed),
            }
        }
    }

    /// Seals a cleartext packet for the client under the given nonce.
    pub fn encrypt_with(&self, server: &GameServer, nonce: &[u8; 24], packet: &[u8]) -> (out: Result<
        Vec<u8>,
        PacketHandlingError,
    >)
        ensures
            match self.encrypted(server@.secret_key, nonce@, packet@) {
                Ok(bytes) => out matches Ok(v) && v@ == bytes,
                Err(e) => out == Err::<Vec<u8>, PacketHandlingError>(e),
            },
    {
        if packet.len() < 3 {
            return Err(PacketHandlingError::MalformedMessage);
        }
        let client_key = match &self.client_key {
            Some(k) => k,
            None => {
                return Err(PacketHandlingError::CryptoNotInitialized);
            },
        };
        let body = copy_range(packet, 3, packet.len());
        let sealed = match seal_box(client_key, &server.secret_key(), nonce, body.as_slice()) {
            Some(s) => s,
            None => {
                return Err(PacketHandlingError::EncryptionFailed);
            },
        };
        let mut out: Vec<u8> = Vec::new();
        out.push(packet[0]);
        out.push(packet[1]);
        out.push(1u8);
        let mut i: usize = 0;
        while i < 24
            invariant
                i <= 24,
                out@ == seq![packet@[0], packet@[1], 1u8] + nonce@.subrange(0, i as int),
            decreases 24 - i,
        {
            out.push(nonce[i]);
            proof {
                assert(nonce@.subrange(0, i as int).push(nonce@[i as int]) =~= nonce@.subrange(0, i + 1));
            }
            i += 1;
        }
        proof {
            assert(nonce@.subrange(0, 24) =~= nonce@);
        }
        let mut j: usize = 0;
        while j < sealed.len()
            invariant
                j <= sealed.len(),
                out@ == seq![packet@[0], packet@[1], 1u8] + nonce@ + sealed@.subrange(0, j as int),
            decreases sealed.len() - j,
        {
            out.push(sealed[j]);
            proof {
                assert(sealed@.subrange(0, j as int).push(sealed@[j as int]) =~= sealed@.subrange(0, j + 1));
            }
            j += 1;
        }
        proof {
            assert(sealed@.subrange(0, sealed@.len() as int) =~= sealed@);
        }
        Ok(out)
    }

    /// Seals a cleartext packet for the client under a nonce drawn at
    /// random. Of the outcome only this is known: it is what `encrypt_with`
    /// returns under some nonce.
    pub fn encrypt(&self, server: &GameServer, packet: &[u8]) -> (out: Result<Vec<u8>, PacketHandlingError>)
        ensures
            exists|nonce: Seq<u8>|
                nonce.len() == 24 && match #[trigger] self.encrypted(server@.secret_key, nonce, packet@) {
                    Ok(bytes) => out matches Ok(v) && v@ == bytes,
                    Err(e) => out == Err::<Vec<u8>, PacketHandlingError>(e),
                },
    {
        let nonce = generate_nonce();
        self.encrypt_with(server, &nonce, packet)
    }

    /// The frame that carries a packet to the client under a nonce, as
    /// `send_packet_with` returns it: the packet on the wire, sealed where
    /// the packet is one that travels sealed, behind its length.
    pub open spec fn outbound(&self, secret_key: Seq<u8>, nonce: Seq<u8>, packet: ServerPacket) -> Result<
        Seq<u8>,
        PacketHandlingError,
    > {
        if !packet.encodable() {
            Err(PacketHandlingError::PacketTooLong)
        } else {
            let ready = if packet.spec_sealed() {
                self.encrypted(secret_key, nonce, packet.wire_bytes())
            } else {
                Ok(packet.wire_bytes())
            };
            match ready {
                Err(e) => Err(e),
                Ok(bytes) => if bytes.len() <= u32::MAX {
                    Ok(list_bytes(bytes))
                } else {
                    Err(PacketHandlingError::PacketTooLong)
                },
            }
        }
    }

    /// Makes the frame that carries a packet to the client, sealing it
    /// under the given nonce where the packet is one that travels sealed.
    pub fn send_packet_with(&self, server: &GameServer, nonce: &[u8; 24], packet: &ServerPacket) -> (frame: Result<
        Vec<u8>,
        PacketHandlingError,
    >)
        ensures
            match self.outbound(server@.secret_key, nonce@, *packet) {
                Ok(bytes) => frame matches Ok(v) && v@ == bytes,
                Err(e) => frame == Err::<Vec<u8>, PacketHandlingError>(e),
            },
    {
        let bytes = match packet.encode() {
            Some(b) => b,
            None => {
                return Err(PacketHandlingError::PacketTooLong);
            },
        };
        let ready = if packet.sealed() {
            match self.encrypt_with(server, nonce, bytes.as_slice()) {
                Ok(b) => b,
                Err(e) => {
                    return Err(e);
                },
            }
        } else {
            bytes
        };
        match encode_frame(ready.as_slice()) {
            Some(frame) => Ok(frame),
            None => Err(PacketHandlingError::PacketTooLong),
        }
    }

    /// Makes the frame that carries a packet to the client, sealing it
    /// under a nonce drawn at random where the packet is one that travels
    /// sealed. Of the outcome only this is known: it is what
    /// `send_packet_with` returns under some nonce.
    pub fn send_packet(&self, server: &GameServer, packet: &ServerPacket) -> (frame: Result<
        Vec<u8>,
        PacketHandlingError,
    >)
        ensures
            exists|nonce: Seq<u8>|
                nonce.len() == 24 && match #[trigger] self.outbound(server@.secret_key, nonce, *packet) {
                    Ok(bytes) => frame matches Ok(v) && v@ == bytes,
                    Err(e) => frame == Err::<Vec<u8>, PacketHandlingError>(e),
                },
    {
        let nonce = generate_nonce();
        self.send_packet_with(server, &nonce, packet)
    }
}

} // verus!
