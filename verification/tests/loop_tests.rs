use quic_actor::client::{client_step, ClientEvent, ClientStep};
use quic_actor::server::{flush_step, FlushEvent, FlushStep, PacketOutcome};

#[test]
fn flush_steps() {
    assert_eq!(flush_step(FlushEvent::Produced(PacketOutcome::Packet(1200))), FlushStep::Transmit(1200));
    assert_eq!(flush_step(FlushEvent::Produced(PacketOutcome::Done)), FlushStep::Stop);
    assert_eq!(flush_step(FlushEvent::Produced(PacketOutcome::Failed)), FlushStep::CloseAndStop);
    assert_eq!(flush_step(FlushEvent::Handed(true)), FlushStep::Continue);
    assert_eq!(flush_step(FlushEvent::Handed(false)), FlushStep::Stop);
}

#[test]
fn client_steps() {
    assert_eq!(client_step(ClientEvent::Datagram(57)), ClientStep::HandleDatagram(57));
    assert_eq!(client_step(ClientEvent::ReceiveFailed), ClientStep::Continue);
    assert_eq!(client_step(ClientEvent::Tick(PacketOutcome::Packet(9))), ClientStep::Transmit(9));
    assert_eq!(client_step(ClientEvent::Tick(PacketOutcome::Done)), ClientStep::Continue);
    assert_eq!(client_step(ClientEvent::Tick(PacketOutcome::Failed)), ClientStep::CloseAndStop);
    assert_eq!(client_step(ClientEvent::Shutdown), ClientStep::Stop);
}
