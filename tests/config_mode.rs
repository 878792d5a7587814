use zperf::config::{parse_mode, same_text, Mode};
use zperf::probe::{ErrorKind, ProbeError};

#[test]
fn known_modes() {
    assert_eq!(parse_mode("peer"), Ok(Mode::Peer));
    assert_eq!(parse_mode("client"), Ok(Mode::Client));
}

#[test]
fn unknown_mode_is_a_configuration_error() {
    for name in ["router", "", "Peer", "peers", "clien"] {
        assert_eq!(parse_mode(name), Err(ProbeError::UnsupportedMode));
    }
    assert_eq!(ProbeError::UnsupportedMode.kind(), ErrorKind::ConfigError);
    assert_eq!(ProbeError::Transport.kind(), ErrorKind::TransportFailure);
}

#[test]
fn text_comparison() {
    assert!(same_text("", ""));
    assert!(same_text("héllo", "héllo"));
    assert!(!same_text("abc", "abd"));
    assert!(!same_text("abc", "ab"));
}
