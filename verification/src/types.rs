//! Protocol-level enums shared by the server and client.

use vstd::prelude::*;
use vstd::string::*;

use crate::text::{self, number};

verus! {

/// Transport that carries the encrypted tunnel between client and server.
#[derive(Debug, Clone, Copy, PartialEq, Eq, Hash, Structural)]
pub enum TransportKind {
    Tcp,
    Quic,
    Wss,
}

impl TransportKind {
    /// The name of the transport in configurations and messages.
    pub open spec fn name(self) -> Seq<char> {
        match self {
            TransportKind::Tcp => "tcp"@,
            TransportKind::Quic => "quic"@,
            TransportKind::Wss => "wss"@,
        }
    }

    /// The name of the transport in configurations and messages.
    pub fn as_str(&self) -> (s: &'static str)
        ensures
            s@ == self.name(),
            s@ == match *self {
                TransportKind::Tcp => "tcp"@,
                TransportKind::Quic => "quic"@,
                TransportKind::Wss => "wss"@,
            },
    {
        match self {
            TransportKind::Tcp => "tcp",
            TransportKind::Quic => "quic",
            TransportKind::Wss => "wss",
        }
    }
}

/// L4 protocol of a forwarded service.
#[derive(Debug, Clone, Copy, PartialEq, Eq, Hash, Structural)]
pub enum ProxyKind {
    Tcp,
    Udp,
}

impl ProxyKind {
    /// The name of the protocol in configurations and messages.
    pub open spec fn name(self) -> Seq<char> {
        match self {
            ProxyKind::Tcp => "tcp"@,
            ProxyKind::Udp => "udp"@,
        }
    }

    /// The name of the protocol in configurations and messages.
    pub fn as_str(&self) -> (s: &'static str)
        ensures
            s@ == self.name(),
            s@ == match *self {
                ProxyKind::Tcp => "tcp"@,
                ProxyKind::Udp => "udp"@,
            },
    {
        match self {
            ProxyKind::Tcp => "tcp",
            ProxyKind::Udp => "udp",
        }
    }
}

/// A socket address: the IP address as it is written in front of a port (IPv6
/// addresses in brackets), and the port.
#[derive(Debug, Clone)]
pub struct Endpoint {
    pub host: String,
    pub port: u16,
}

/// A host and a port as they are written together.
pub open spec fn host_port_text(host: Seq<char>, port: u16) -> Seq<char> {
    host + ":"@ + text::decimal(port as nat)
}

/// A host and a port as they are written together.
pub fn host_port(host: &str, port: u16) -> (s: String)
    ensures
        s@ == host_port_text(host@, port),
        s@ == host@ + ":"@ + text::decimal(port as nat),
{
    let mut s = host.to_owned();
    s.append(":");
    s.append(number(port as u64).as_str());
    s
}

impl Endpoint {
    /// The address as it is written.
    pub open spec fn text(self) -> Seq<char> {
        host_port_text(self.host@, self.port)
    }

    /// The address as it is written.
    pub fn to_text(&self) -> (s: String)
        ensures
            s@ == self.text(),
            s@ == self.host@ + ":"@ + text::decimal(self.port as nat),
    {
        host_port(self.host.as_str(), self.port)
    }
}

} // verus!
