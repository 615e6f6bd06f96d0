//! Admission of incoming packets: which connection a packet belongs to, and
//! what the server does with a packet from a client it does not know yet.
use vstd::prelude::*;

use crate::address::{IpAddress, SocketAddress};
use crate::buf::copy_bytes;
use crate::conn_id::MAX_CONN_ID_LEN;
use crate::token::{
    lemma_token_accepted_only_if_minted, lemma_token_round_trip, mint_token, spec_mint_token,
    spec_validate_token, validate_token,
};

verus! {

/// QUIC version 1.
pub const PROTOCOL_VERSION_V1: u32 = 0x0000_0001;

/// QUIC draft 27.
pub const PROTOCOL_VERSION_DRAFT27: u32 = 0xff00_001b;

/// QUIC draft 28.
pub const PROTOCOL_VERSION_DRAFT28: u32 = 0xff00_001c;

/// QUIC draft 29.
pub const PROTOCOL_VERSION_DRAFT29: u32 = 0xff00_001d;

/// The kind of a QUIC packet, as its long or short header announces it.
#[derive(Clone, Copy, Debug, PartialEq, Eq)]
pub enum PacketType {
    Initial,
    Retry,
    Handshake,
    ZeroRTT,
    VersionNegotiation,
    Short,
}

/// The fields of a QUIC packet header that the server reads.
pub struct PacketHeader {
    pub ty: PacketType,
    pub version: u32,
    /// Destination connection ID.
    pub dcid: Vec<u8>,
    /// Source connection ID.
    pub scid: Vec<u8>,
    /// Address validation token; present in Initial packets only.
    pub token: Option<Vec<u8>>,
}

/// The QUIC versions that the protocol implementation speaks.
pub open spec fn spec_version_is_supported(version: u32) -> bool {
    version == PROTOCOL_VERSION_V1 || version == PROTOCOL_VERSION_DRAFT27 || version
        == PROTOCOL_VERSION_DRAFT28 || version == PROTOCOL_VERSION_DRAFT29
}

/// Whether `version` is one of the QUIC versions that can be spoken.
pub fn version_is_supported(version: u32) -> (res: bool)
    ensures
        res == spec_version_is_supported(version),
{
    version == PROTOCOL_VERSION_V1 || version == PROTOCOL_VERSION_DRAFT27 || version
        == PROTOCOL_VERSION_DRAFT28 || version == PROTOCOL_VERSION_DRAFT29
}

/// What the server does with an incoming packet.
pub enum PacketAction {
    /// The packet belongs to a known client, stored under this connection ID.
    Known(Vec<u8>),
    /// The client speaks a version that is not supported: answer with a
    /// version negotiation packet.
    NegotiateVersion,
    /// The client sent no token: answer with a retry packet that carries
    /// the new source connection ID `scid` and the token `token`.
    Retry { scid: Vec<u8>, token: Vec<u8> },
    /// The token is not one that was minted for this client: drop the packet.
    InvalidToken,
    /// The destination connection ID has the wrong length: drop the packet.
    InvalidDcid,
    /// Accept a new connection with source ID `scid`, whose original
    /// destination ID (carried in the token) is `odcid`.
    Accept { scid: Vec<u8>, odcid: Vec<u8> },
}

/// The mathematical value of a `PacketAction`.
pub enum PacketDecision {
    Known(Seq<u8>),
    NegotiateVersion,
    Retry { scid: Seq<u8>, token: Seq<u8> },
    InvalidToken,
    InvalidDcid,
    Accept { scid: Seq<u8>, odcid: Seq<u8> },
}

impl View for PacketAction {
    type V = PacketDecision;

    open spec fn view(&self) -> PacketDecision {
        match self {
            PacketAction::Known(id) => PacketDecision::Known(id@),
            PacketAction::NegotiateVersion => PacketDecision::NegotiateVersion,
            PacketAction::Retry { scid, token } => PacketDecision::Retry { scid: scid@, token: token@ },
            PacketAction::InvalidToken => PacketDecision::InvalidToken,
            PacketAction::InvalidDcid => PacketDecision::InvalidDcid,
            PacketAction::Accept { scid, odcid } => PacketDecision::Accept { scid: scid@, odcid: odcid@ },
        }
    }
}

/// The token of a header, as bytes; empty when there is none.
pub open spec fn spec_token(hdr: PacketHeader) -> Seq<u8> {
    match hdr.token {
        Some(t) => t@,
        None => Seq::empty(),
    }
}

/// Whether admitting `hdr` reaches the point where the server reads the
/// token and builds a source ID from `conn_id`: the client is unknown and
/// speaks a supported version.
pub open spec fn spec_reads_token(hdr: PacketHeader, known_dcid: bool, known_conn_id: bool) -> bool {
    !known_dcid && !known_conn_id && spec_version_is_supported(hdr.version)
}

/// What the server does with a packet whose header is `hdr`, from a client at
/// `peer`. `conn_id` is the ID derived from the packet's destination ID;
/// `known_dcid` and `known_conn_id` tell whether a client is stored under the
/// destination ID, and under the derived ID.
pub open spec fn spec_classify_packet(
    hdr: PacketHeader,
    conn_id: Seq<u8>,
    known_dcid: bool,
    known_conn_id: bool,
    peer: IpAddress,
) -> PacketDecision {
    if known_dcid {
        PacketDecision::Known(hdr.dcid@)
    } else if known_conn_id {
        PacketDecision::Known(conn_id)
    } else if !spec_version_is_supported(hdr.version) {
        PacketDecision::NegotiateVersion
    } else if spec_token(hdr).len() == 0 {
        PacketDecision::Retry { scid: conn_id, token: spec_mint_token(hdr.dcid@, peer) }
    } else {
        match spec_validate_token(peer, spec_token(hdr)) {
            None => PacketDecision::InvalidToken,
            Some(odcid) => if hdr.dcid@.len() != MAX_CONN_ID_LEN {
                PacketDecision::InvalidDcid
            } else {
                PacketDecision::Accept { scid: hdr.dcid@, odcid }
            },
        }
    }
}

/// Decides what to do with a packet whose header is `hdr`, from the client at
/// `peer`. `conn_id` is the ID derived from the packet's destination ID;
/// `known_dcid` and `known_conn_id` tell whether a client is stored under the
/// destination ID, and under the derived ID. Where the client is new and
/// speaks a supported version, the packet must carry a token (Initial packets
/// always do) and `conn_id` must be a full-length ID.
pub fn classify_packet(
    hdr: &PacketHeader,
    conn_id: &[u8],
    known_dcid: bool,
    known_conn_id: bool,
    peer: &SocketAddress,
) -> (action: PacketAction)
    requires
        spec_reads_token(*hdr, known_dcid, known_conn_id) ==> {
            &&& hdr.token is Some
            &&& conn_id@.len() == MAX_CONN_ID_LEN
        },
    ensures
        action@ == spec_classify_packet(*hdr, conn_id@, known_dcid, known_conn_id, peer.ip),
        !known_dcid && !known_conn_id && !is_quic_version_spoken(hdr.version) ==> action
            is NegotiateVersion,
        action is Retry ==> is_quic_version_spoken(hdr.version) && spec_token(*hdr).len() == 0,
{
    if known_dcid {
        return PacketAction::Known(copy_bytes(hdr.dcid.as_slice()));
    }
    if known_conn_id {
        return PacketAction::Known(copy_bytes(conn_id));
    }
    if !version_is_supported(hdr.version) {
        return PacketAction::NegotiateVersion;
    }
    let token = match &hdr.token {
        Some(t) => t,
        None => vstd::pervasive::unreached(),
    };
    if token.len() == 0 {
        let new_token = mint_token(hdr, peer);
        return PacketAction::Retry { scid: copy_bytes(conn_id), token: new_token };
    }
    match validate_token(peer, token.as_slice()) {
        None => PacketAction::InvalidToken,
        Some(odcid) => {
            if conn_id.len() != hdr.dcid.len() {
                PacketAction::InvalidDcid
            } else {
                PacketAction::Accept { scid: copy_bytes(hdr.dcid.as_slice()), odcid }
            }
        },
    }
}

/// The QUIC versions spoken, by number: version 1 and drafts 27 to 29.
pub open spec fn is_quic_version_spoken(version: u32) -> bool {
    version == 0x0000_0001 || version == 0xff00_001b || version == 0xff00_001c || version
        == 0xff00_001d
}

/// The supported versions are exactly QUIC version 1 and drafts 27, 28 and 29.
pub proof fn lemma_supported_versions(version: u32)
    ensures
        spec_version_is_supported(version) <==> is_quic_version_spoken(version),
{
}

/// The order of admission. A packet goes to the client stored under its
/// destination ID, else to the client stored under the derived ID. A packet
/// of an unknown client in a version that is not spoken is answered with
/// version negotiation, whatever token it carries. A packet of an unknown
/// client in a spoken version without a token gets a retry under the derived
/// ID, with the token `quiche`, address octets, destination ID. Only a packet
/// of an unknown client in a spoken version, whose non-empty token is that
/// same layout for the sender's address, and whose destination ID is 20
/// bytes long, is accepted: under its destination ID, with the ID the token
/// carries.
pub proof fn lemma_admission_order(
    hdr: PacketHeader,
    conn_id: Seq<u8>,
    known_dcid: bool,
    known_conn_id: bool,
    peer: IpAddress,
)
    ensures
        ({
            let d = spec_classify_packet(hdr, conn_id, known_dcid, known_conn_id, peer);
            let layout = seq![0x71u8, 0x75u8, 0x69u8, 0x63u8, 0x68u8, 0x65u8] + peer.spec_octets();
            &&& known_dcid ==> d == PacketDecision::Known(hdr.dcid@)
            &&& !known_dcid && known_conn_id ==> d == PacketDecision::Known(conn_id)
            &&& !known_dcid && !known_conn_id && !is_quic_version_spoken(hdr.version) ==> d
                == PacketDecision::NegotiateVersion
            &&& !known_dcid && !known_conn_id && is_quic_version_spoken(hdr.version) && spec_token(
                hdr,
            ).len() == 0 ==> d == (PacketDecision::Retry {
                scid: conn_id,
                token: layout + hdr.dcid@,
            })
            &&& d matches PacketDecision::Accept { scid, odcid } ==> {
                &&& !known_dcid && !known_conn_id
                &&& is_quic_version_spoken(hdr.version)
                &&& spec_token(hdr).len() > 0
                &&& spec_token(hdr) == layout + odcid
                &&& scid == hdr.dcid@
                &&& hdr.dcid@.len() == 20
            }
        }),
{
    let d = spec_classify_packet(hdr, conn_id, known_dcid, known_conn_id, peer);
    assert(token_prefix_literal() == crate::token::token_prefix());
    lemma_token_accepted_only_if_minted(peer, spec_token(hdr));
}

spec fn token_prefix_literal() -> Seq<u8> {
    seq![0x71u8, 0x75u8, 0x69u8, 0x63u8, 0x68u8, 0x65u8]
}

/// Stateless retry works: a new client that sends no token is told to retry
/// with a token and a fresh source ID; when it comes back from the same
/// address, addressed to that ID and carrying that token, its connection is
/// accepted, and the original destination ID it first chose is recovered.
pub proof fn lemma_retry_then_accept(
    first: PacketHeader,
    second: PacketHeader,
    first_conn_id: Seq<u8>,
    second_conn_id: Seq<u8>,
    peer: IpAddress,
)
    requires
        spec_version_is_supported(first.version),
        spec_token(first).len() == 0,
        first_conn_id.len() == MAX_CONN_ID_LEN,
        spec_version_is_supported(second.version),
        second.dcid@ == first_conn_id,
        spec_token(second) == spec_mint_token(first.dcid@, peer),
    ensures
        spec_classify_packet(first, first_conn_id, false, false, peer) == (PacketDecision::Retry {
            scid: first_conn_id,
            token: spec_mint_token(first.dcid@, peer),
        }),
        spec_classify_packet(second, second_conn_id, false, false, peer) == (PacketDecision::Accept {
            scid: first_conn_id,
            odcid: first.dcid@,
        }),
{
    lemma_token_round_trip(first.dcid@, peer);
    assert(spec_mint_token(first.dcid@, peer).len() > 0);
}

/// A new connection is accepted only from a client that presents the very
/// token minted for its address, and only with the original destination ID
/// that this token carries.
pub proof fn lemma_accept_requires_minted_token(
    hdr: PacketHeader,
    conn_id: Seq<u8>,
    known_dcid: bool,
    known_conn_id: bool,
    peer: IpAddress,
)
    ensures
        spec_classify_packet(hdr, conn_id, known_dcid, known_conn_id, peer) matches PacketDecision::Accept { scid, odcid }
            ==> {
            &&& spec_token(hdr) == spec_mint_token(odcid, peer)
            &&& scid == hdr.dcid@
            &&& !known_dcid && !known_conn_id
        },
{
    lemma_token_accepted_only_if_minted(peer, spec_token(hdr));
}

} // verus!
