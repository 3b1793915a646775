//! The addresses of a connection as text.

use crate::text::decimal;
use vstd::prelude::*;

verus! {

/// The kind of transport that carries SIP.
#[derive(Clone, Copy, Debug, PartialEq, Eq, Structural, Hash)]
pub enum Transport {
    Udp,
    Tcp,
    Tls,
    Ws,
    Wss,
}

/// The name of a transport in upper case.
pub open spec fn transport_name(t: Transport) -> Seq<char> {
    match t {
        Transport::Udp => "UDP"@,
        Transport::Tcp => "TCP"@,
        Transport::Tls => "TLS"@,
        Transport::Ws => "WS"@,
        Transport::Wss => "WSS"@,
    }
}

impl Transport {
    /// The name of the transport in upper case.
    pub fn name(self) -> (s: &'static str)
        ensures
            s@ == transport_name(self),
    {
        match self {
            Transport::Udp => "UDP",
            Transport::Tcp => "TCP",
            Transport::Tls => "TLS",
            Transport::Ws => "WS",
            Transport::Wss => "WSS",
        }
    }

    /// Whether the transport is a reliable byte stream, on which messages
    /// have to be framed.
    pub fn is_stream(self) -> (b: bool)
        ensures
            b == (self != Transport::Udp),
    {
        match self {
            Transport::Udp => false,
            _ => true,
        }
    }
}

/// The address of one end of a connection: the kind of transport, where
/// it is known, and the socket address as host and port.
#[derive(Clone, Debug, PartialEq, Eq, Hash)]
pub struct SipAddr {
    pub kind: Option<Transport>,
    pub host: String,
    pub port: u16,
}

/// What a [`SipAddr`] is in contracts.
pub struct SipAddrView {
    pub kind: Option<Transport>,
    pub host: Seq<char>,
    pub port: u16,
}

impl View for SipAddr {
    type V = SipAddrView;

    open spec fn view(&self) -> SipAddrView {
        SipAddrView { kind: self.kind, host: self.host@, port: self.port }
    }
}

/// An address as text: the transport and a space, where the transport is
/// known, then host, colon and port.
pub open spec fn addr_text(a: SipAddrView) -> Seq<char> {
    (match a.kind {
        Some(t) => transport_name(t) + " "@,
        None => Seq::empty(),
    }) + a.host + ":"@ + crate::text::decimal_of(a.port as nat)
}

/// A stream connection as text: `TCP`, the local address and, after an
/// arrow, the remote address where there is one.
pub open spec fn connection_text(local: SipAddrView, remote: Option<SipAddrView>) -> Seq<char> {
    match remote {
        Some(r) => "TCP "@ + addr_text(local) + " -> "@ + addr_text(r),
        None => "TCP "@ + addr_text(local),
    }
}

impl SipAddr {
    /// The address of a TCP end point.
    pub fn tcp(host: &str, port: u16) -> (a: SipAddr)
        ensures
            a@ == (SipAddrView { kind: Some(Transport::Tcp), host: host@, port }),
    {
        SipAddr { kind: Some(Transport::Tcp), host: host.to_owned(), port }
    }

    /// The address as text.
    pub fn text(&self) -> (s: String)
        ensures
            s@ == addr_text(self@),
    {
        let mut s = String::new();
        match self.kind {
            Some(t) => {
                s.append(t.name());
                s.append(" ");
            },
            None => {},
        }
        let ghost head = s@;
        s.append(self.host.as_str());
        s.append(":");
        s.append(decimal(self.port as u64).as_str());
        assert(s@ =~= addr_text(self@));
        s
    }
}

/// Describes a stream connection by its two ends.
pub fn describe_connection(local: &SipAddr, remote: &Option<SipAddr>) -> (s: String)
    ensures
        s@ == connection_text(
            local@,
            match *remote {
                Some(r) => Some(r@),
                None => None,
            },
        ),
{
    let mut s = String::from_str("TCP ");
    s.append(local.text().as_str());
    match remote {
        Some(r) => {
            s.append(" -> ");
            s.append(r.text().as_str());
        },
        None => {},
    }
    s
}

} // verus!
