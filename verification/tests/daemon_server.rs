use cterm::daemon::server::{
    is_socket_stale, socket_in_use_message, socket_startup, stops_after_cleanup,
    validate_windows_named_pipe_endpoint, ServerConfig, SocketStartup,
};

#[test]
fn test_server_config_default() {
    let config = ServerConfig::default();
    assert!(!config.use_tcp);
    assert_eq!(config.bind_addr, "127.0.0.1");
    assert_eq!(config.port, 50051);
    assert!(config.socket_path.contains("ctermd"));
    assert_eq!(config.identity, "cterm");
    assert_eq!(config.scrollback_lines, 10000);
    assert!(!config.foreground);
}

#[test]
fn managed_windows_endpoint_validation_is_fail_closed() {
    assert!(validate_windows_named_pipe_endpoint(r"\\.\pipe\product-user").is_ok());
    assert!(validate_windows_named_pipe_endpoint(r"\\.\pipe\").is_err());
    assert!(validate_windows_named_pipe_endpoint("127.0.0.1:50051").is_err());
    assert!(validate_windows_named_pipe_endpoint("relative-pipe").is_err());
}

#[test]
fn a_refused_endpoint_is_named() {
    assert_eq!(
        validate_windows_named_pipe_endpoint("relative-pipe"),
        Err("relative-pipe".to_string())
    );
}

#[test]
fn tcp_endpoint_joins_address_and_port() {
    assert_eq!(ServerConfig::default().tcp_endpoint(), "127.0.0.1:50051");
}

#[test]
fn only_a_silent_socket_is_stale() {
    assert!(is_socket_stale(false));
    assert!(!is_socket_stale(true));
    assert_eq!(socket_startup(false, false), SocketStartup::Bind);
    assert_eq!(socket_startup(true, false), SocketStartup::RemoveStale);
    assert_eq!(socket_startup(true, true), SocketStartup::Refuse);
    assert_eq!(
        socket_in_use_message("/run/ctermd.sock"),
        "Socket /run/ctermd.sock already exists and daemon appears to be running"
    );
}

#[test]
fn daemon_stops_only_after_its_last_session_was_cleaned_up() {
    assert!(stops_after_cleanup(1, 0, true));
    assert!(!stops_after_cleanup(0, 0, true));
    assert!(!stops_after_cleanup(1, 1, true));
    assert!(!stops_after_cleanup(1, 0, false));
}
