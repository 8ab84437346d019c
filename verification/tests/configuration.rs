use matrix_service::auth::ApiKey;
use matrix_service::bootstrap::Role;
use matrix_service::config::{
    monitor_store_directory, sender_store_directory, Config, Environment,
};
use matrix_service::error::{ApiError, Status};

fn environment() -> Environment {
    Environment {
        homeserver_url: Some("https://example.org".into()),
        user_id: Some("@sender:example.org".into()),
        password: Some("p".into()),
        monitor_user_id: Some("@monitor:example.org".into()),
        monitor_password: Some("q".into()),
        default_room_id: Some("!room:example.org".into()),
        service_api_key: Some("key".into()),
        store_encryption_key: Some("store-key".into()),
        store_dir: None,
        database_url: Some("postgres://db".into()),
        idempotency_retention_days: None,
    }
}

#[test]
fn monitor_store_is_stable_and_identity_scoped() {
    let root = "/matrix-store";
    assert_eq!(
        monitor_store_directory(root, "@one:example.org"),
        monitor_store_directory(root, "@one:example.org")
    );
    assert_ne!(
        monitor_store_directory(root, "@one:example.org"),
        monitor_store_directory(root, "@two:example.org")
    );
}

#[test]
fn stores_have_their_directories() {
    assert_eq!(
        monitor_store_directory("/matrix-store", "@one:example.org"),
        vec!["/matrix-store", "monitor", "240a704e911da9dd"]
    );
    assert_eq!(
        sender_store_directory("/matrix-store"),
        vec!["/matrix-store", "sender"]
    );
}

#[test]
fn configuration_has_defaults() {
    let config = Config::from_env(environment()).unwrap();
    assert_eq!(config.homeserver_url, "https://example.org");
    assert_eq!(config.store_dir, "/matrix-store");
    assert_eq!(config.idempotency_retention_days, 30);
    let config = Config::from_env(Environment {
        password: Some(String::new()),
        store_dir: Some("/data".into()),
        ..environment()
    })
    .unwrap();
    assert_eq!(config.password, "");
    assert_eq!(config.store_dir, "/data");
}

#[test]
fn retention_is_read_as_a_number() {
    for (value, days) in [
        ("7", 7),
        ("+7", 7),
        ("-1", -1),
        ("007", 7),
        ("9223372036854775807", i64::MAX),
        ("9223372036854775808", 30),
        ("", 30),
        ("-", 30),
        (" 7", 30),
        ("7 days", 30),
    ] {
        let config = Config::from_env(Environment {
            idempotency_retention_days: Some(value.into()),
            ..environment()
        })
        .unwrap();
        assert_eq!(config.idempotency_retention_days, days);
    }
}

#[test]
fn the_first_missing_variable_is_named() {
    let missing = Config::from_env(Environment {
        default_room_id: None,
        database_url: None,
        ..environment()
    })
    .unwrap_err();
    assert_eq!(missing.name, "MATRIX_DEFAULT_ROOM_ID");
    assert_eq!(missing.message(), "MATRIX_DEFAULT_ROOM_ID must be configured");
    let missing = Config::from_env(Environment {
        database_url: None,
        ..environment()
    })
    .unwrap_err();
    assert_eq!(missing.name, "MATRIX_DATABASE_URL");
    let missing = Config::from_env(Environment {
        password: None,
        monitor_user_id: None,
        ..environment()
    })
    .unwrap_err();
    assert_eq!(missing.name, "MATRIX_PASSWORD");
}

#[test]
fn monitor_store_key_changes_with_key_and_user() {
    let key = |environment: Environment| {
        let config = Config::from_env(environment).unwrap();
        let key = config.monitor_store_encryption_key();
        assert_ne!(key, config.store_encryption_key);
        assert_eq!(key, config.monitor_store_encryption_key());
        assert_eq!(key.len(), 64);
        assert!(key.chars().all(|c| c.is_ascii_digit() || ('a'..='f').contains(&c)));
        key
    };
    let usual = key(environment());
    assert_ne!(
        usual,
        key(Environment {
            store_encryption_key: Some("another".into()),
            ..environment()
        })
    );
    assert_ne!(
        usual,
        key(Environment {
            monitor_user_id: Some("@another:example.org".into()),
            ..environment()
        })
    );
    assert_eq!(
        usual,
        key(Environment {
            store_dir: Some("/elsewhere".into()),
            password: Some("another".into()),
            ..environment()
        })
    );
}

#[test]
fn monitor_store_key_of_a_known_configuration() {
    let config = Config::from_env(environment()).unwrap();
    assert_eq!(
        config.monitor_store_encryption_key(),
        "8f8611cd62bfa75c1dd13ecdf1f3f3547f11001ff0b6e72a25553de5dc383db1"
    );
}

#[test]
fn accounts_are_separate() {
    let config = Config::from_env(environment()).unwrap();
    let sender = config.account(Role::Sender);
    assert_eq!(sender.user_id, "@sender:example.org");
    assert_eq!(sender.password, "p");
    assert_eq!(sender.store_key, "store-key");
    assert_eq!(sender.store_directory, sender_store_directory("/matrix-store"));
    assert_eq!(sender.display_name, "n8n Matrix Service");
    let monitor = config.account(Role::Monitor);
    assert_eq!(monitor.user_id, "@monitor:example.org");
    assert_eq!(monitor.password, "q");
    assert_eq!(monitor.store_key, config.monitor_store_encryption_key());
    assert_eq!(
        monitor.store_directory,
        monitor_store_directory("/matrix-store", "@monitor:example.org")
    );
    assert_eq!(monitor.display_name, "n8n Matrix Delivery Monitor");
}

#[test]
fn requests_need_the_api_key() {
    assert!(ApiKey::from_request(Some("key"), Some("Bearer key")).is_ok());
    for header in [
        None,
        Some("Bearer "),
        Some("Bearer keys"),
        Some("Bearer ke"),
        Some("Bearer kex"),
        Some("bearer key"),
        Some("Bearer  key"),
        Some("key"),
    ] {
        let (status, error) = ApiKey::from_request(Some("key"), header).unwrap_err();
        assert_eq!(status, Status::Unauthorized);
        assert_eq!(error.code, "UNAUTHORIZED");
        assert_eq!(error.message, "Missing or invalid API key");
    }
}

#[test]
fn requests_need_the_state_of_the_service() {
    let (status, error) = ApiKey::from_request(None, Some("Bearer key")).unwrap_err();
    assert_eq!(status, Status::InternalServerError);
    assert_eq!(error.status, Status::ServiceUnavailable);
    assert_eq!(error.code, "SETUP_REQUIRED");
    assert_eq!(error.message, "Service state is unavailable");
}

#[test]
fn errors_have_their_status_and_code() {
    for (error, number, code) in [
        (ApiError::bad_request("m"), 400, "INVALID_REQUEST"),
        (ApiError::unauthorized(), 401, "UNAUTHORIZED"),
        (ApiError::conflict("CODE", "m"), 409, "CODE"),
        (ApiError::internal(), 500, "MATRIX_DELIVERY_FAILED"),
        (ApiError::service_unavailable("m"), 503, "SETUP_REQUIRED"),
    ] {
        assert_eq!(error.status.code(), number);
        assert_eq!(error.code, code);
    }
    assert_eq!(ApiError::internal().message, "Matrix delivery failed");
}
