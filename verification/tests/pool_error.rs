//! Pool errors.

use pgdog::net::BackendKeyData;
use pgdog::pool::error::Error;

#[test]
fn retryable() {
    assert!(Error::CheckoutTimeout.is_retryable());
    assert!(Error::ConnectTimeout.is_retryable());
    assert!(Error::ReplicaCheckoutTimeout.is_retryable());
    assert!(Error::NoPrimary.is_retryable());
    assert!(Error::AllReplicasDown.is_retryable());
    assert!(Error::Banned.is_retryable());
    assert!(Error::NoReplicas.is_retryable());
    assert!(Error::ServerError.is_retryable());
    assert!(Error::HealthcheckTimeout.is_retryable());
    assert!(Error::HealthcheckError.is_retryable());
    assert!(Error::PrimaryLsnQueryFailed.is_retryable());
    assert!(Error::ReplicaLsnQueryFailed.is_retryable());
    assert!(Error::Offline.is_retryable());
    assert!(Error::ReplicaLag.is_retryable());
    assert!(Error::PoolUnhealthy.is_retryable());
}

#[test]
fn not_retryable() {
    assert!(!Error::ManualBan.is_retryable());
    assert!(!Error::NullBytes.is_retryable());
    assert!(!Error::NoDatabases.is_retryable());
    assert!(!Error::PubSubDisabled.is_retryable());
    assert!(!Error::FastShutdown.is_retryable());
    assert!(!Error::NoShard(0).is_retryable());
    assert!(!Error::MappingMissing(0).is_retryable());
}

#[test]
fn errors_say_what_is_wrong() {
    assert_eq!(Error::PubSubDisabled.to_string(), "pub/sub disabled");
    assert!(Error::NoShard(3).to_string().contains('3'));
    let id = BackendKeyData { pid: -7, secret: 12 };
    assert_eq!(id.to_string(), "pid=-7, secret=12");
    assert!(Error::UntrackedConnCheckin(id).to_string().contains("pid=-7, secret=12"));
}
