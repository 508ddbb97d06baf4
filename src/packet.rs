use vstd::prelude::*;
use icmp_socket::packet::{IcmpPacketBuildError, WithEchoRequest};
use icmp_socket::Icmpv4Packet;

verus! {

/// icmp-socket's `Icmpv4Packet`, carried opaquely from the packet builder to
/// the send.
#[verifier::external_type_specification]
#[verifier::external_body]
pub struct ExIcmpv4Packet(Icmpv4Packet);

/// icmp-socket's `IcmpPacketBuildError`, the error type of its packet builders.
#[verifier::external_type_specification]
#[verifier::external_body]
pub struct ExIcmpPacketBuildError(IcmpPacketBuildError);

/// The echo-request packet that icmp-socket frames from an identifier, a
/// sequence number and a payload.
pub uninterp spec fn echo_request_packet(identifier: u16, sequence: u16, payload: Seq<u8>) -> Icmpv4Packet;

/// Relies on `Icmpv4Packet::with_echo_request` of icmp-socket: it frames an
/// echo request (type 8, code 0) from its three arguments alone and never
/// returns an error.
#[verifier::external_body]
pub(crate) fn build_echo_request(identifier: u16, sequence: u16, payload: Vec<u8>) -> (r: Result<Icmpv4Packet, IcmpPacketBuildError>)
    ensures
        r is Ok,
        r matches Ok(p) ==> p == echo_request_packet(identifier, sequence, payload@),
{
    Icmpv4Packet::with_echo_request(identifier, sequence, payload)
}

/// What the session needs to know of a received ICMP message.
#[derive(Clone, Debug, PartialEq, Eq)]
pub enum Inbound {
    /// An echo reply (type 0).
    EchoReply { identifier: u16, sequence: u16, payload: Vec<u8> },
    /// Any other ICMP message.
    Other,
}

/// The identifier, sequence number and payload of an echo reply; `None` for
/// any other message.
pub fn is_echo_reply(msg: &Inbound) -> (r: Option<(u16, u16, &Vec<u8>)>)
    ensures
        match msg {
            Inbound::EchoReply { identifier, sequence, payload } => r == Some((*identifier, *sequence, payload)),
            Inbound::Other => r is None,
        },
{
    match msg {
        Inbound::EchoReply { identifier, sequence, payload } => Some((*identifier, *sequence, payload)),
        Inbound::Other => None,
    }
}

} // verus!
