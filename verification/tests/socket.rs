use sidecar::socket::Endpoint;

#[test]
fn unix() {
    let endpoint = Endpoint::parse("unix:///tmp/sidecar.sock").unwrap();
    assert_eq!(endpoint, Endpoint::Unix("/tmp/sidecar.sock".to_string()));
    assert_eq!(endpoint.to_string(), "unix:///tmp/sidecar.sock");
}

#[test]
fn bare() {
    let error = Endpoint::parse("127.0.0.1:3901").unwrap_err();
    assert!(error.to_string().contains("unix:///path.sock"));
}

#[test]
fn socket_errors() {
    assert_eq!(
        Endpoint::parse("   ").unwrap_err().to_string(),
        "socket endpoint must not be empty"
    );
    assert_eq!(
        Endpoint::parse("unix://").unwrap_err().to_string(),
        "unix socket endpoint must include a path"
    );
    assert_eq!(
        Endpoint::parse("unix://relative.sock").unwrap_err().to_string(),
        "unix socket endpoint must use unix:///absolute/path.sock form"
    );
    assert_eq!(
        Endpoint::parse("tcp://  ").unwrap_err().to_string(),
        "tcp socket endpoint must include host:port"
    );
    assert_eq!(
        Endpoint::parse("tcp://localhost").unwrap_err().to_string(),
        "tcp socket endpoint must include a port"
    );
}

#[test]
fn tcp_trimmed() {
    let endpoint = Endpoint::parse("  tcp://127.0.0.1:4100\n").unwrap();
    assert_eq!(endpoint, Endpoint::Tcp("127.0.0.1:4100".to_string()));
    assert_eq!(endpoint.to_string(), "tcp://127.0.0.1:4100");
}
