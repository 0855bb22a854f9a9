use portredirect::protocol::utils::{
    generate_random_bytes, minutes_from_unix_seconds, ElapsedMinutes, SystemTimeProvider,
    TimeProvider,
};
use std::time::{Duration, UNIX_EPOCH};

#[test]
fn random_bytes_have_the_requested_length() {
    assert_eq!(generate_random_bytes(0).unwrap().len(), 0);
    assert_eq!(generate_random_bytes(32).unwrap().len(), 32);
}

#[test]
fn minutes_from_seconds() {
    assert_eq!(minutes_from_unix_seconds(Some(0)), 0);
    assert_eq!(minutes_from_unix_seconds(Some(59)), 0);
    assert_eq!(minutes_from_unix_seconds(Some(125)), 2);
    assert_eq!(minutes_from_unix_seconds(None), 0);
}

#[test]
fn elapsed_minutes_of_system_times() {
    assert_eq!((UNIX_EPOCH + Duration::from_secs(3600)).elapsed_minutes(), 60);
    assert_eq!((UNIX_EPOCH - Duration::from_secs(3600)).elapsed_minutes(), 0);
    // Some time after 2020-01-01.
    assert!(SystemTimeProvider.now().elapsed_minutes() > 26_000_000);
}
