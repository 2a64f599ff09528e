use kimmy_api::error::ErrorCode;
use kimmy_api::local_login::{LocalLogin, PeerAddr};

fn v4(a: u8, b: u8, c: u8, d: u8) -> Option<PeerAddr> {
    Some(PeerAddr::V4([a, b, c, d]))
}

fn loopback_v6() -> Option<PeerAddr> {
    Some(PeerAddr::V6([0, 0, 0, 0, 0, 0, 0, 1]))
}

#[test]
fn local_login_modes_parse_and_round_trip() {
    for name in ["always", "loopback_only", "disabled"] {
        let mode = LocalLogin::parse(name).unwrap();
        assert_eq!(mode.name(), name);
    }
    assert_eq!(LocalLogin::default(), LocalLogin::Always, "the default is what shipped");
}

#[test]
fn local_login_an_unknown_mode_lists_the_valid_ones() {
    let err = LocalLogin::parse("localhost").unwrap_err();
    assert!(err.contains("localhost"), "{err}");
    assert!(err.contains("loopback_only"), "the error should say what is valid: {err}");
}

#[test]
fn always_admits_everyone_including_an_unattributed_connection() {
    for peer in [v4(127, 0, 0, 1), v4(203, 0, 113, 9), None] {
        LocalLogin::Always.admits(peer).unwrap();
    }
}

#[test]
fn loopback_only_admits_both_loopback_families_and_nothing_else() {
    LocalLogin::LoopbackOnly.admits(v4(127, 0, 0, 1)).unwrap();
    LocalLogin::LoopbackOnly.admits(v4(127, 8, 8, 8)).unwrap();
    LocalLogin::LoopbackOnly.admits(loopback_v6()).unwrap();

    for outside in [
        v4(10, 0, 0, 5),
        v4(192, 168, 0, 10),
        v4(203, 0, 113, 9),
        Some(PeerAddr::V6([0xfe80, 0, 0, 0, 0, 0, 0, 1])),
    ] {
        let err = LocalLogin::LoopbackOnly.admits(outside).unwrap_err();
        assert_eq!(err.status, 403, "{outside:?}");
        assert_eq!(err.code, ErrorCode::Forbidden, "{outside:?}");
        assert!(err.message.contains("auth.local.login"), "name the setting: {}", err.message);
    }
}

#[test]
fn loopback_only_fails_closed_when_the_peer_is_unknown() {
    let err = LocalLogin::LoopbackOnly.admits(None).unwrap_err();
    assert_eq!(err.status, 403);
}

#[test]
fn disabled_answers_not_found_to_everyone_including_loopback() {
    for peer in [v4(127, 0, 0, 1), loopback_v6(), v4(203, 0, 113, 9), None] {
        let err = LocalLogin::Disabled.admits(peer).unwrap_err();
        assert_eq!(err.status, 404);
        assert_eq!(err.code, ErrorCode::NotFound);
        assert!(err.message.contains("disabled"), "{}", err.message);
    }
}

#[test]
fn loopback_is_the_whole_of_127_and_exactly_one_v6_address() {
    assert!(PeerAddr::V4([127, 255, 255, 255]).is_loopback());
    assert!(!PeerAddr::V4([128, 0, 0, 1]).is_loopback());
    assert!(PeerAddr::V6([0, 0, 0, 0, 0, 0, 0, 1]).is_loopback());
    assert!(!PeerAddr::V6([0, 0, 0, 0, 0, 0, 0, 2]).is_loopback());
    assert!(
        !PeerAddr::V6([0, 0, 0, 0, 0, 0xffff, 0x7f00, 1]).is_loopback(),
        "an address mapped into v6 is not the v6 loopback"
    );
}
