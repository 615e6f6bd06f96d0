//! The client's side: it asks the server for a file over one stream and
//! stores the answer.
use vstd::prelude::*;

use crate::address::SocketAddress;
use crate::buf::{append_bytes, zero_bytes};
use crate::conn_id::MAX_CONN_ID_LEN;
use crate::random::{random_bytes, RandomError};
use crate::request::{
    get_prefix, is_normal_component, lemma_last_slash_is, lemma_newline_index_is, spec_file_name,
    spec_first_line, spec_is_get_request, spec_requested_file, CR, LF, SLASH,
};
use crate::server::{PacketOutcome, SendOutcome};

verus! {

/// The size of the buffers the client reads and writes datagrams with; the
/// request is padded with this many zero bytes.
pub const MAX_DATAGRAM_SIZE: usize = 65527;

/// The stream on which the client sends its request.
pub const HTTP_REQ_STREAM_ID: u64 = 128;

/// A message that asks a running client to stop.
pub enum ClientMessage {
    Shutdown,
}

/// `/LONG_README.md`, the path the client asks for after the server address.
pub open spec fn readme_path() -> Seq<u8> {
    seq![
        0x2fu8, 0x4cu8, 0x4fu8, 0x4eu8, 0x47u8, 0x5fu8, 0x52u8, 0x45u8,
        0x41u8, 0x44u8, 0x4du8, 0x45u8, 0x2eu8, 0x6du8, 0x64u8,
    ]
}

/// The request the client sends once its connection is established, given
/// the text of the address it received from: `GET <from>/LONG_README.md`,
/// a CR LF line break, then `MAX_DATAGRAM_SIZE` zero bytes.
pub open spec fn spec_http_request(from: Seq<u8>) -> Seq<u8> {
    get_prefix() + from + readme_path() + seq![CR, LF] + Seq::new(
        MAX_DATAGRAM_SIZE as nat,
        |i: int| 0u8,
    )
}

/// Builds the request for `LONG_README.md`, given the text of the address
/// the client received from.
pub fn http_request(from: &[u8]) -> (req: Vec<u8>)
    ensures
        req@ == spec_http_request(from@),
{
    let mut req: Vec<u8> = Vec::new();
    req.push(0x47u8);
    req.push(0x45u8);
    req.push(0x54u8);
    req.push(0x20u8);
    append_bytes(&mut req, from);
    let mut path: Vec<u8> = Vec::new();
    path.push(0x2fu8);
    path.push(0x4cu8);
    path.push(0x4fu8);
    path.push(0x4eu8);
    path.push(0x47u8);
    path.push(0x5fu8);
    path.push(0x52u8);
    path.push(0x45u8);
    path.push(0x41u8);
    path.push(0x44u8);
    path.push(0x4du8);
    path.push(0x45u8);
    path.push(0x2eu8);
    path.push(0x6du8);
    path.push(0x64u8);
    assert(path@ =~= readme_path());
    append_bytes(&mut req, path.as_slice());
    req.push(CR);
    req.push(LF);
    let padding = zero_bytes(MAX_DATAGRAM_SIZE);
    append_bytes(&mut req, padding.as_slice());
    assert(req@ =~= spec_http_request(from@));
    req
}

/// Whether the data read from `stream_id`, with the end-of-stream flag
/// `fin`, completes the response: the client then closes its connection.
pub fn response_finished(stream_id: u64, fin: bool) -> (res: bool)
    ensures
        res == (stream_id == HTTP_REQ_STREAM_ID && fin),
{
    stream_id == HTTP_REQ_STREAM_ID && fin
}

/// An event in the client's main loop.
#[derive(Clone, Copy, Debug, PartialEq, Eq)]
pub enum ClientEvent {
    /// A datagram of this many bytes arrived from the socket.
    Datagram(usize),
    /// Reading from the socket failed.
    ReceiveFailed,
    /// The timer ticked, and the connection was asked for a packet.
    Tick(PacketOutcome),
    /// A shutdown message arrived.
    Shutdown,
}

/// What the client does next in its main loop.
#[derive(Clone, Copy, Debug, PartialEq, Eq)]
pub enum ClientStep {
    /// Feed the datagram of this many bytes to the connection.
    HandleDatagram(usize),
    /// Send this many bytes of the packet buffer to the packet's destination.
    Transmit(usize),
    /// Wait for the next event.
    Continue,
    /// Close the connection with an error and leave the loop.
    CloseAndStop,
    /// Leave the loop.
    Stop,
}

/// The client's loop rule: datagrams are handed to the connection, produced
/// packets are sent, a failed read or an idle connection changes nothing; the
/// loop ends on a shutdown message, or on a failure to produce a packet, which
/// closes the connection.
pub open spec fn spec_client_step(event: ClientEvent) -> ClientStep {
    match event {
        ClientEvent::Datagram(n) => ClientStep::HandleDatagram(n),
        ClientEvent::ReceiveFailed => ClientStep::Continue,
        ClientEvent::Tick(PacketOutcome::Packet(n)) => ClientStep::Transmit(n),
        ClientEvent::Tick(PacketOutcome::Done) => ClientStep::Continue,
        ClientEvent::Tick(PacketOutcome::Failed) => ClientStep::CloseAndStop,
        ClientEvent::Shutdown => ClientStep::Stop,
    }
}

/// The next step of the client's main loop after `event`.
pub fn client_step(event: ClientEvent) -> (step: ClientStep)
    ensures
        step == spec_client_step(event),
        event matches ClientEvent::Datagram(n) ==> step == ClientStep::HandleDatagram(n),
        event matches ClientEvent::Tick(PacketOutcome::Packet(n)) ==> step == ClientStep::Transmit(n),
{
    match event {
        ClientEvent::Datagram(n) => ClientStep::HandleDatagram(n),
        ClientEvent::ReceiveFailed => ClientStep::Continue,
        ClientEvent::Tick(PacketOutcome::Packet(n)) => ClientStep::Transmit(n),
        ClientEvent::Tick(PacketOutcome::Done) => ClientStep::Continue,
        ClientEvent::Tick(PacketOutcome::Failed) => ClientStep::CloseAndStop,
        ClientEvent::Shutdown => ClientStep::Stop,
    }
}

/// Every datagram that arrives is handed to the connection whole, and every
/// packet the connection produces is sent whole; a failed read and an idle
/// connection leave the loop running.
pub proof fn lemma_client_passes_everything_on(n: usize)
    ensures
        spec_client_step(ClientEvent::Datagram(n)) == ClientStep::HandleDatagram(n),
        spec_client_step(ClientEvent::Tick(PacketOutcome::Packet(n))) == ClientStep::Transmit(n),
        spec_client_step(ClientEvent::ReceiveFailed) == ClientStep::Continue,
        spec_client_step(ClientEvent::Tick(PacketOutcome::Done)) == ClientStep::Continue,
{
}

/// The client's loop ends exactly on a shutdown message or a failure to
/// produce a packet, and closes the connection only on that failure.
pub proof fn lemma_client_loop_ends(event: ClientEvent)
    ensures
        (spec_client_step(event) is Stop || spec_client_step(event) is CloseAndStop) <==> (event
            == ClientEvent::Shutdown || event == ClientEvent::Tick(PacketOutcome::Failed)),
        spec_client_step(event) is CloseAndStop <==> event == ClientEvent::Tick(
            PacketOutcome::Failed,
        ),
{
}

/// A fresh random source connection ID for a new client connection.
pub fn new_source_id() -> (res: Result<Vec<u8>, RandomError>)
    ensures
        res matches Ok(id) ==> id@.len() == MAX_CONN_ID_LEN,
{
    random_bytes(MAX_CONN_ID_LEN)
}

/// A client of the file server: its socket, its connection, the server's
/// address, whether the request was sent, and where a shutdown message arrives.
pub struct Client<S, C, R> {
    pub socket: S,
    pub connection: C,
    pub peer_address: SocketAddress,
    pub req_sent: bool,
    pub rx: R,
}

impl<S, C, R> Client<S, C, R> {
    /// A client that has not sent its request yet.
    pub fn new(connection: C, peer_address: SocketAddress, udp_socket: S, rx: R) -> (client: Self)
        ensures
            client.connection == connection,
            client.peer_address == peer_address,
            client.socket == udp_socket,
            client.rx == rx,
            !client.req_sent,
    {
        Client { socket: udp_socket, connection, peer_address, req_sent: false, rx }
    }

    /// Whether the client sends its request now: once the connection is
    /// established, and only while no request has gone out.
    pub fn should_send_request(&self, established: bool) -> (res: bool)
        ensures
            res == (established && !self.req_sent),
    {
        established && !self.req_sent
    }

    /// Records the outcome of handing the request to the connection: the
    /// request counts as sent when the connection took it.
    pub fn record_request(&mut self, outcome: SendOutcome)
        ensures
            final(self).req_sent == (old(self).req_sent || outcome is Written),
            final(self).peer_address == old(self).peer_address,
            final(self).connection == old(self).connection,
            final(self).socket == old(self).socket,
            final(self).rx == old(self).rx,
    {
        if let SendOutcome::Written(_) = outcome {
            self.req_sent = true;
        }
    }
}

/// The server understands the client: the request the client builds, from
/// the text of any address without a line break, asks for `LONG_README.md`.
pub proof fn lemma_server_reads_client_request(from: Seq<u8>)
    requires
        forall|j: int| 0 <= j < from.len() ==> from[j] != LF,
    ensures
        spec_requested_file(spec_http_request(from)) == Some(readme_path().skip(1)),
{
    let req = spec_http_request(from);
    let zeros = Seq::new(MAX_DATAGRAM_SIZE as nat, |i: int| 0u8);
    let rest = from + readme_path() + seq![CR, LF] + zeros;
    assert(req.take(4) =~= get_prefix());
    assert(req.skip(4) =~= rest);
    assert(spec_is_get_request(req));
    let k: int = from.len() as int + 16;
    assert forall|j: int| 0 <= j < k implies rest[j] != LF by {
        if j >= from.len() {
            assert(rest[j] == (readme_path() + seq![CR])[j - from.len()]);
        }
    }
    assert(rest[k] == LF);
    lemma_newline_index_is(rest, k);
    let line = from + readme_path();
    assert(rest[k - 1] == CR);
    assert(spec_first_line(rest) =~= line);
    let s = from.len() as int;
    assert forall|j: int| s < j < line.len() implies line[j] != SLASH by {
        assert(line[j] == readme_path()[j - s]);
    }
    assert(line[s] == SLASH);
    lemma_last_slash_is(line, s);
    let name = line.skip(s + 1);
    assert(name =~= readme_path().skip(1));
    assert(name.len() == 14);
    assert(is_normal_component(name));
}

} // verus!
