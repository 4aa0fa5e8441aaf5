//! The host's side of a client session: where the tunnelled traffic goes on
//! the host's machine, and what the session does when something fails.

use vstd::prelude::*;

verus! {

/// The local TCP endpoint to which the game streams of clients are spliced:
/// the port on which the local game accepts players.
#[derive(Debug, Clone, Copy, PartialEq, Eq)]
pub struct TcpPortClient {
    port: u16,
}

impl TcpPortClient {
    /// The port on this machine that streams are spliced to.
    pub closed spec fn spec_port(&self) -> u16 {
        self.port
    }

    /// A splice target on `port`.
    pub fn new(port: u16) -> (r: TcpPortClient)
        ensures
            r.spec_port() == port,
    {
        TcpPortClient { port }
    }

    /// The port on this machine that streams are spliced to.
    #[verifier::when_used_as_spec(spec_port)]
    pub fn port(&self) -> (port: u16)
        ensures
            port == self.spec_port(),
    {
        self.port
    }
}

/// The local UDP endpoint with which discovery packets are exchanged: the
/// port on which the local game listens for queries.
#[derive(Debug, Clone, Copy, PartialEq, Eq)]
pub struct UdpPortClient {
    port: u16,
}

impl UdpPortClient {
    /// The port on this machine that discovery packets go to.
    pub closed spec fn spec_port(&self) -> u16 {
        self.port
    }

    /// A discovery target on `port`.
    pub fn new(port: u16) -> (r: UdpPortClient)
        ensures
            r.spec_port() == port,
    {
        UdpPortClient { port }
    }

    /// The port on this machine that discovery packets go to.
    #[verifier::when_used_as_spec(spec_port)]
    pub fn port(&self) -> (port: u16)
        ensures
            port == self.spec_port(),
    {
        self.port
    }
}

/// What can go wrong while the tunnel runs.
#[derive(Debug, Clone, Copy, PartialEq, Eq, Structural)]
pub enum Fault {
    /// The overlay endpoint could not be bound, or the host not be reached.
    OverlayBindOrConnect,
    /// The address that the user gave names no peer.
    InvalidPeerAddress,
    /// The local UDP socket could not be bound or connected.
    LocalUdpSocket,
    /// A discovery query could not be sent to the local game.
    DiscoverySendFailed,
    /// A datagram was no discovery packet, or was cut short.
    UnknownOrTruncatedPacket,
    /// A packet could not be serialised.
    SerializationFailed,
    /// The overlay stream was closed or stopped, or its connection lost.
    StreamClosed,
    /// Writing to the overlay stream failed in another way.
    StreamWriteFailed,
    /// Copying between an overlay stream and a local TCP connection failed.
    SpliceFailed,
    /// The local game did not accept a TCP connection.
    LocalTcpConnectFailed,
    /// The event feed ran ahead of a client, which missed events.
    BroadcastLag,
}

/// Whether a fault is told to the user.
#[derive(Debug, Clone, Copy, PartialEq, Eq, Structural)]
pub enum Logging {
    /// Never.
    Silent,
    /// Only when it starts or stops happening.
    OnChange,
    /// Each time.
    Always,
}

/// What ends with a fault.
#[derive(Debug, Clone, Copy, PartialEq, Eq, Structural)]
pub enum Scope {
    /// Nothing: the frame or event is skipped and the task goes on.
    Nothing,
    /// The task in which it happened; the session and the other clients go
    /// on.
    Task,
    /// The component that was starting.
    Component,
    /// The process.
    Process,
}

/// How a fault is handled.
#[derive(Debug, Clone, Copy, PartialEq, Eq, Structural)]
pub struct Disposition {
    /// Whether the user is told.
    pub logging: Logging,
    /// What ends.
    pub ends: Scope,
}

/// How each fault is handled.
pub open spec fn disposition_of(fault: Fault) -> Disposition {
    match fault {
        Fault::OverlayBindOrConnect => Disposition {
            logging: Logging::Always,
            ends: Scope::Process,
        },
        Fault::InvalidPeerAddress => Disposition { logging: Logging::Always, ends: Scope::Process },
        Fault::LocalUdpSocket => Disposition { logging: Logging::Always, ends: Scope::Component },
        Fault::DiscoverySendFailed => Disposition {
            logging: Logging::OnChange,
            ends: Scope::Nothing,
        },
        Fault::UnknownOrTruncatedPacket => Disposition {
            logging: Logging::Silent,
            ends: Scope::Nothing,
        },
        Fault::SerializationFailed => Disposition {
            logging: Logging::Always,
            ends: Scope::Nothing,
        },
        Fault::StreamClosed => Disposition { logging: Logging::Silent, ends: Scope::Task },
        Fault::StreamWriteFailed => Disposition { logging: Logging::Always, ends: Scope::Nothing },
        Fault::SpliceFailed => Disposition { logging: Logging::Always, ends: Scope::Task },
        Fault::LocalTcpConnectFailed => Disposition { logging: Logging::Always, ends: Scope::Task },
        Fault::BroadcastLag => Disposition { logging: Logging::Silent, ends: Scope::Nothing },
    }
}

/// Says how `fault` is handled.
pub fn disposition(fault: Fault) -> (d: Disposition)
    ensures
        d == disposition_of(fault),
{
    let (logging, ends) = match fault {
        Fault::OverlayBindOrConnect | Fault::InvalidPeerAddress => (
            Logging::Always,
            Scope::Process,
        ),
        Fault::LocalUdpSocket => (Logging::Always, Scope::Component),
        Fault::DiscoverySendFailed => (Logging::OnChange, Scope::Nothing),
        Fault::UnknownOrTruncatedPacket | Fault::BroadcastLag => (
            Logging::Silent,
            Scope::Nothing,
        ),
        Fault::SerializationFailed | Fault::StreamWriteFailed => (
            Logging::Always,
            Scope::Nothing,
        ),
        Fault::StreamClosed => (Logging::Silent, Scope::Task),
        Fault::SpliceFailed | Fault::LocalTcpConnectFailed => (Logging::Always, Scope::Task),
    };
    Disposition { logging, ends }
}

/// Only a fault at startup ends more than the task in which it happens:
/// whatever a client does while the tunnel runs, the scanner and the other
/// clients go on.
pub proof fn lemma_only_startup_faults_escalate(fault: Fault)
    ensures
        (disposition_of(fault).ends is Process || disposition_of(fault).ends is Component) <==> (
        fault is OverlayBindOrConnect || fault is InvalidPeerAddress || fault is LocalUdpSocket),
{
}

/// What the loop that accepts game streams does after an accept failed.
#[derive(Debug, Clone, Copy, PartialEq, Eq, Structural)]
pub enum AcceptStep {
    /// Leave the loop without a word: the connection is closed.
    Exit,
    /// Log the error and accept the next stream.
    LogAndContinue,
}

/// Decides what follows a failed accept: the loop ends where the connection
/// has a reason for having closed, and goes on otherwise.
pub fn after_accept_error(connection_closed: bool) -> (step: AcceptStep)
    ensures
        step == if connection_closed {
            AcceptStep::Exit
        } else {
            AcceptStep::LogAndContinue
        },
{
    if connection_closed {
        AcceptStep::Exit
    } else {
        AcceptStep::LogAndContinue
    }
}

} // verus!
