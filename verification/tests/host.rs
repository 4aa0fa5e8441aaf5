use simple_wc3::host::{
    after_accept_error, disposition, AcceptStep, Disposition, Fault, Logging, Scope,
    TcpPortClient, UdpPortClient,
};
use simple_wc3::utils::{alpn, MAX_DATAGRAM_SIZE, WC3_DEFAULT_PORT};

#[test]
fn port_clients_keep_their_port() {
    assert_eq!(TcpPortClient::new(WC3_DEFAULT_PORT).port(), 6112);
    assert_eq!(UdpPortClient::new(WC3_DEFAULT_PORT).port(), 6112);
    assert_eq!(TcpPortClient::new(0).port(), 0);
    assert_eq!(UdpPortClient::new(65535).port(), 65535);
}

#[test]
fn constants() {
    assert_eq!(WC3_DEFAULT_PORT, 6112);
    assert_eq!(MAX_DATAGRAM_SIZE, 1024);
}

#[test]
fn alpn_names_the_version() {
    assert_eq!(alpn("1.2.3"), b"simple-wc3-1.2.3".to_vec());
    assert_eq!(alpn(""), b"simple-wc3-".to_vec());
    assert_ne!(alpn("1.2.3"), alpn("1.2.4"));
}

#[test]
fn startup_faults_are_fatal() {
    let fatal = Disposition { logging: Logging::Always, ends: Scope::Process };
    assert_eq!(disposition(Fault::OverlayBindOrConnect), fatal);
    assert_eq!(disposition(Fault::InvalidPeerAddress), fatal);
    assert_eq!(
        disposition(Fault::LocalUdpSocket),
        Disposition { logging: Logging::Always, ends: Scope::Component }
    );
}

#[test]
fn faults_while_running_end_at_most_a_task() {
    assert_eq!(
        disposition(Fault::DiscoverySendFailed),
        Disposition { logging: Logging::OnChange, ends: Scope::Nothing }
    );
    assert_eq!(
        disposition(Fault::UnknownOrTruncatedPacket),
        Disposition { logging: Logging::Silent, ends: Scope::Nothing }
    );
    assert_eq!(
        disposition(Fault::SerializationFailed),
        Disposition { logging: Logging::Always, ends: Scope::Nothing }
    );
    assert_eq!(
        disposition(Fault::StreamClosed),
        Disposition { logging: Logging::Silent, ends: Scope::Task }
    );
    assert_eq!(
        disposition(Fault::StreamWriteFailed),
        Disposition { logging: Logging::Always, ends: Scope::Nothing }
    );
    assert_eq!(
        disposition(Fault::SpliceFailed),
        Disposition { logging: Logging::Always, ends: Scope::Task }
    );
    assert_eq!(
        disposition(Fault::LocalTcpConnectFailed),
        Disposition { logging: Logging::Always, ends: Scope::Task }
    );
    assert_eq!(
        disposition(Fault::BroadcastLag),
        Disposition { logging: Logging::Silent, ends: Scope::Nothing }
    );
}

#[test]
fn accept_loop_ends_with_the_connection() {
    assert_eq!(after_accept_error(true), AcceptStep::Exit);
    assert_eq!(after_accept_error(false), AcceptStep::LogAndContinue);
}
