//! The live-server tests of the client need a running IRC daemon and are not
//! part of this suite; these placeholders keep their markers.

#[test]
fn channel_test_integration_tests_require_feature_flag() {
    // Live-server channel tests need an IRC daemon.
}

#[test]
fn connect_test_integration_tests_require_feature_flag() {
    // Live-server connection tests need an IRC daemon.
}

#[test]
fn user_test_integration_tests_require_feature_flag() {
    // Live-server user tests need an IRC daemon.
}
