use matrix_service::bootstrap::{
    Bootstrap, BootstrapAction, BootstrapError, BootstrapEvent, Role,
};
use matrix_service::config::{Config, Environment};
use matrix_service::error::Status;
use matrix_service::message::{Field, FieldValue};
use matrix_service::monitor::{
    is_receipt, wait_step, ReceiptWait, RECEIPT_POLL_MILLISECONDS, RECEIPT_TIMEOUT_MILLISECONDS,
};
use matrix_service::room_setup::{RoomAction, RoomChange, RoomEvent, RoomSetup};
use matrix_service::setup::{healthz, ready_client, ready_monitor_client, SetupStatus};
use matrix_service::verification::{
    verification_targets, Verification, VerificationAction, VerificationEvent,
};

fn config(password: &str, room: &str) -> Config {
    Config::from_env(Environment {
        homeserver_url: Some("https://example.org".into()),
        user_id: Some("@sender:example.org".into()),
        password: Some(password.into()),
        monitor_user_id: Some("@monitor:example.org".into()),
        monitor_password: Some("q".into()),
        default_room_id: Some(room.into()),
        service_api_key: Some("key".into()),
        store_encryption_key: Some("store-key".into()),
        store_dir: None,
        database_url: Some("postgres://db".into()),
        idempotency_retention_days: None,
    })
    .unwrap()
}

fn drive(
    mut setup: Bootstrap,
    events: Vec<BootstrapEvent>,
) -> (Vec<BootstrapAction>, Option<Result<(), BootstrapError>>) {
    let mut actions = Vec::new();
    for event in events {
        actions.push(setup.action());
        assert!(setup.accepts(&event));
        setup = setup.step(event);
    }
    (actions, setup.outcome())
}

fn device(id: &str) -> BootstrapEvent {
    BootstrapEvent::Device(Some(id.to_string()))
}

fn sender_events() -> Vec<BootstrapEvent> {
    vec![
        BootstrapEvent::Done,
        BootstrapEvent::Opened { logged_in: true },
        device("SENDER"),
        BootstrapEvent::Done,
        BootstrapEvent::Done,
        BootstrapEvent::Done,
    ]
}

fn monitor_events() -> Vec<BootstrapEvent> {
    vec![
        BootstrapEvent::Done,
        BootstrapEvent::Opened { logged_in: true },
        device("MONITOR"),
        BootstrapEvent::Done,
        BootstrapEvent::Done,
        BootstrapEvent::Done,
        BootstrapEvent::Done,
        BootstrapEvent::Done,
    ]
}

#[test]
fn setup_brings_up_both_clients() {
    let config = config("p", "!room:example.org");
    let mut events = sender_events();
    events.extend(monitor_events());
    let (actions, outcome) = drive(Bootstrap::begin(&config, false, false), events);
    let text = format!("{actions:?}");
    assert_eq!(
        text,
        "[CreateDirectory { role: Sender }, OpenStore { role: Sender }, ReadDeviceId { role: Sender }, \
         RecordDeviceId { role: Sender, device_id: \"SENDER\" }, SyncOnce { role: Sender }, \
         Publish { role: Sender }, CreateDirectory { role: Monitor }, \
         OpenStore { role: Monitor }, ReadDeviceId { role: Monitor }, \
         RecordDeviceId { role: Monitor, device_id: \"MONITOR\" }, WatchMessages, \
         SyncOnce { role: Monitor }, FindDefaultRoom { room_id: \"!room:example.org\" }, \
         Publish { role: Monitor }]"
    );
    assert_eq!(outcome, Some(Ok(())));
}

#[test]
fn an_expired_session_keeps_its_device() {
    let config = config("p", "!room:example.org");
    for known in [Some("KNOWN"), None] {
        let setup = Bootstrap::begin(&config, false, false)
            .step(BootstrapEvent::Done)
            .step(BootstrapEvent::Opened { logged_in: false });
        match setup.action() {
            BootstrapAction::LoadDeviceId { role } => assert_eq!(role, Role::Sender),
            other => panic!("unexpected action {other:?}"),
        }
        let setup = setup.step(BootstrapEvent::Device(known.map(|id| id.to_string())));
        match setup.action() {
            BootstrapAction::Login { role, known_device } => {
                assert_eq!(role, Role::Sender);
                assert_eq!(known_device.as_deref(), known);
            }
            other => panic!("unexpected action {other:?}"),
        }
        let setup = setup.step(BootstrapEvent::Done);
        assert!(matches!(
            setup.action(),
            BootstrapAction::ReadDeviceId { role: Role::Sender }
        ));
    }
}

#[test]
fn setup_takes_up_where_it_failed() {
    let with_password = config("p", "!room:example.org");
    let setup = Bootstrap::begin(&with_password, true, true);
    assert_eq!(setup.outcome(), Some(Ok(())));
    let without = config("", "!room:example.org");
    let (actions, outcome) = drive(Bootstrap::begin(&without, true, false), monitor_events());
    assert!(matches!(
        actions[0],
        BootstrapAction::CreateDirectory { role: Role::Monitor }
    ));
    assert_eq!(outcome, Some(Ok(())));
}

#[test]
fn setup_needs_the_password() {
    let without = config("", "!room:example.org");
    for monitor_available in [false, true] {
        let setup = Bootstrap::begin(&without, false, monitor_available);
        assert!(matches!(setup.action(), BootstrapAction::Finish));
        assert!(!setup.accepts(&BootstrapEvent::Done));
        assert_eq!(setup.outcome(), Some(Err(BootstrapError::PasswordMissing)));
    }
}

#[test]
fn setup_names_what_failed() {
    let usual = config("p", "!room:example.org");
    let expired = |rest: Vec<BootstrapEvent>| {
        let mut events = vec![BootstrapEvent::Done, BootstrapEvent::Opened { logged_in: false }];
        events.extend(rest);
        events
    };
    let fails = |events: Vec<BootstrapEvent>, error: BootstrapError| {
        let setup = Bootstrap::begin(&usual, false, false);
        assert_eq!(drive(setup, events).1, Some(Err(error)));
    };
    fails(
        vec![BootstrapEvent::Failed],
        BootstrapError::DirectoryUnavailable(Role::Sender),
    );
    fails(
        vec![BootstrapEvent::Done, BootstrapEvent::Failed],
        BootstrapError::StoreUnavailable(Role::Sender),
    );
    fails(
        expired(vec![BootstrapEvent::Failed]),
        BootstrapError::DeviceIdUnreadable(Role::Sender),
    );
    fails(
        expired(vec![BootstrapEvent::Device(None), BootstrapEvent::Failed]),
        BootstrapError::LoginFailed(Role::Sender),
    );
    fails(
        vec![
            BootstrapEvent::Done,
            BootstrapEvent::Opened { logged_in: true },
            BootstrapEvent::Device(None),
        ],
        BootstrapError::DeviceIdMissing(Role::Sender),
    );
    fails(
        vec![
            BootstrapEvent::Done,
            BootstrapEvent::Opened { logged_in: true },
            device("SENDER"),
            BootstrapEvent::Failed,
        ],
        BootstrapError::DeviceIdUnrecorded(Role::Sender),
    );
    fails(
        vec![
            BootstrapEvent::Done,
            BootstrapEvent::Opened { logged_in: true },
            device("SENDER"),
            BootstrapEvent::Done,
            BootstrapEvent::Failed,
        ],
        BootstrapError::SyncFailed(Role::Sender),
    );
    let mut events = sender_events();
    events.extend(monitor_events());
    events.truncate(12);
    events.push(BootstrapEvent::Failed);
    fails(events, BootstrapError::DefaultRoomNotJoined);
}

#[test]
fn setup_errors_have_their_messages() {
    let config = config("p", "!room:example.org");
    for (error, message) in [
        (
            BootstrapError::PasswordMissing,
            "MATRIX_PASSWORD is required before Matrix setup can run",
        ),
        (
            BootstrapError::DirectoryUnavailable(Role::Sender),
            "creating Matrix sender SQLite store directory",
        ),
        (
            BootstrapError::DirectoryUnavailable(Role::Monitor),
            "creating Matrix delivery-monitor SQLite store directory",
        ),
        (BootstrapError::StoreUnavailable(Role::Sender), "creating Matrix client"),
        (
            BootstrapError::StoreUnavailable(Role::Monitor),
            "creating Matrix delivery-monitor client",
        ),
        (
            BootstrapError::DeviceIdUnreadable(Role::Sender),
            "loading persisted Matrix sender device ID",
        ),
        (
            BootstrapError::DeviceIdUnreadable(Role::Monitor),
            "loading persisted Matrix delivery-monitor device ID",
        ),
        (BootstrapError::LoginFailed(Role::Sender), "logging into Matrix"),
        (
            BootstrapError::LoginFailed(Role::Monitor),
            "logging in Matrix delivery monitor",
        ),
        (
            BootstrapError::DeviceIdMissing(Role::Sender),
            "Matrix sender login did not return a device ID",
        ),
        (
            BootstrapError::DeviceIdMissing(Role::Monitor),
            "Matrix delivery-monitor login did not return a device ID",
        ),
        (
            BootstrapError::DeviceIdUnrecorded(Role::Sender),
            "persisting Matrix device ID",
        ),
        (
            BootstrapError::DeviceIdUnrecorded(Role::Monitor),
            "persisting Matrix delivery-monitor device ID",
        ),
        (BootstrapError::SyncFailed(Role::Sender), "performing initial Matrix sync"),
        (
            BootstrapError::SyncFailed(Role::Monitor),
            "performing initial Matrix delivery-monitor sync",
        ),
        (
            BootstrapError::DefaultRoomInvalid,
            "parsing default Matrix room ID for delivery monitor",
        ),
        (
            BootstrapError::DefaultRoomNotJoined,
            "Matrix delivery-monitor account has not joined the default room; \
             invite @monitor:example.org and accept the invitation",
        ),
    ] {
        assert_eq!(error.message(&config), message);
    }
}

#[test]
fn the_monitor_needs_a_default_room() {
    let elsewhere = config("p", "#alias:example.org");
    let mut events = monitor_events();
    events.truncate(6);
    let (_, outcome) = drive(Bootstrap::begin(&elsewhere, true, false), events);
    assert_eq!(outcome, Some(Err(BootstrapError::DefaultRoomInvalid)));
}

#[test]
fn unfinished_setup_has_no_outcome() {
    let config = config("p", "!room:example.org");
    let setup = Bootstrap::begin(&config, false, false);
    assert_eq!(setup.outcome(), None);
    assert!(setup.accepts(&BootstrapEvent::Done));
    assert!(!setup.accepts(&BootstrapEvent::Opened { logged_in: true }));
    assert!(!setup.accepts(&device("X")));
}

#[test]
fn status_tells_of_available_clients() {
    let status = SetupStatus::report(
        true,
        Ok(Some("SENDER".into())),
        false,
        Ok(Some("MONITOR".into())),
        "!room:example.org",
    );
    assert!(status.initialized);
    assert_eq!(status.device_id.as_deref(), Some("SENDER"));
    assert!(!status.monitor_initialized);
    assert_eq!(status.monitor_device_id, None);
    assert_eq!(status.default_room_id, "!room:example.org");
    let status = SetupStatus::report(true, Err(()), true, Ok(None), "!room:example.org");
    assert_eq!(status.device_id, None);
    assert!(status.monitor_initialized);
    assert_eq!(status.monitor_device_id, None);
}

#[test]
fn requests_wait_for_setup() {
    assert!(ready_client(true).is_ok());
    assert!(ready_monitor_client(true).is_ok());
    let error = ready_client(false).unwrap_err();
    assert_eq!(error.status, Status::ServiceUnavailable);
    assert_eq!(error.message, "Matrix setup has not completed");
    let error = ready_monitor_client(false).unwrap_err();
    assert_eq!(error.code, "SETUP_REQUIRED");
    assert_eq!(error.message, "Matrix delivery monitor has not completed setup");
}

#[test]
fn the_health_check_says_ok() {
    assert_eq!(healthz().status, "ok");
}

#[test]
fn other_devices_are_asked_to_verify() {
    let setup = Verification::begin(true, "@monitor:example.org").unwrap();
    assert!(matches!(setup.action(), VerificationAction::LoadOwnDevice));
    let setup = setup.step(VerificationEvent::OwnDevice(Some("B".into())));
    assert!(matches!(setup.action(), VerificationAction::ListDevices));
    let mut setup = setup.step(VerificationEvent::Devices(vec![
        "A".into(),
        "B".into(),
        "C".into(),
    ]));
    for id in ["A", "C"] {
        match setup.action() {
            VerificationAction::Ask { device_id } => assert_eq!(device_id, id),
            other => panic!("unexpected action {other:?}"),
        }
        assert!(setup.accepts(&VerificationEvent::Done));
        setup = setup.step(VerificationEvent::Done);
    }
    assert!(matches!(setup.action(), VerificationAction::Respond));
    let response = setup.into_answer().unwrap().unwrap();
    assert_eq!(response.requested_device_ids, vec!["A", "C"]);
}

#[test]
fn verification_can_be_refused() {
    let error = Verification::begin(false, "no user").unwrap_err();
    assert_eq!(error.message, "Matrix delivery monitor has not completed setup");
    for user in ["monitor", "!room:example.org", "@monitor", ""] {
        let error = Verification::begin(true, user).unwrap_err();
        assert_eq!(error.status, Status::BadRequest);
        assert_eq!(
            error.message,
            "MATRIX_MONITOR_USER_ID is not a canonical Matrix user ID"
        );
    }
    assert!(Verification::begin_for(true, true).is_ok());
    assert!(Verification::begin_for(true, false).is_err());
}

#[test]
fn verification_needs_another_device() {
    let setup = Verification::begin(true, "@monitor:example.org")
        .unwrap()
        .step(VerificationEvent::OwnDevice(Some("B".into())))
        .step(VerificationEvent::Devices(vec!["B".into()]));
    let error = setup.into_answer().unwrap().unwrap_err();
    assert_eq!(error.status, Status::BadRequest);
    assert_eq!(
        error.message,
        "No other Matrix devices are available for verification"
    );
}

#[test]
fn verification_stops_at_a_failure() {
    let begin = || Verification::begin(true, "@monitor:example.org").unwrap();
    let listed = || begin().step(VerificationEvent::OwnDevice(None));
    let asking = || listed().step(VerificationEvent::Devices(vec!["A".into(), "C".into()]));
    for setup in [
        begin().step(VerificationEvent::Failed),
        listed().step(VerificationEvent::Failed),
        asking().step(VerificationEvent::Done).step(VerificationEvent::Failed),
    ] {
        assert!(!setup.accepts(&VerificationEvent::Done));
        let error = setup.into_answer().unwrap().unwrap_err();
        assert_eq!(error.code, "MATRIX_DELIVERY_FAILED");
    }
    assert!(asking().into_answer().is_none());
}

#[test]
fn a_device_without_record_asks_all() {
    let devices = vec!["A".to_string(), "B".to_string()];
    assert_eq!(verification_targets(None, devices.clone()), devices);
    assert_eq!(verification_targets(Some("A"), devices), vec!["B"]);
    assert!(verification_targets(Some("A"), Vec::new()).is_empty());
}

fn members(fields: Vec<Field>) -> Vec<(&'static str, String)> {
    fields
        .into_iter()
        .map(|field| {
            let value = match field.value {
                FieldValue::Text(text) => text,
                FieldValue::Flag(flag) => flag.to_string(),
                FieldValue::Count(count) => count.to_string(),
            };
            (field.name, value)
        })
        .collect()
}

#[test]
fn encryption_is_enabled_on_confirmation() {
    let mut setup = RoomSetup::begin(RoomChange::EnableEncryption, true, "!room:example.org").unwrap();
    for expected in ["FindClient", "FindRoom", "EnableEncryption"] {
        assert!(format!("{:?}", setup.action()).starts_with(expected));
        assert!(setup.accepts(RoomEvent::Done));
        setup = setup.step(RoomEvent::Done);
    }
    assert!(matches!(setup.action(), RoomAction::Respond));
    let changed = setup.into_answer().unwrap().unwrap();
    assert_eq!(changed.room_id, "!room:example.org");
    assert_eq!(
        members(changed.fields()),
        vec![
            ("room_id", "!room:example.org".to_string()),
            ("encrypted", "true".to_string()),
        ]
    );
}

#[test]
fn sessions_are_rotated_in_encrypted_rooms() {
    let begin = || {
        RoomSetup::begin(RoomChange::RotateSession, true, "!room:example.org")
            .unwrap()
            .step(RoomEvent::Done)
            .step(RoomEvent::Done)
    };
    let setup = begin();
    assert!(matches!(setup.action(), RoomAction::ReadEncryption { .. }));
    let setup = setup.step(RoomEvent::Encryption(true));
    assert!(matches!(setup.action(), RoomAction::DiscardRoomKey { .. }));
    let changed = setup.step(RoomEvent::Done).into_answer().unwrap().unwrap();
    assert_eq!(
        members(changed.fields())[2..],
        [
            ("invalidated", "true".to_string()),
            ("restart_required", "false".to_string()),
        ]
    );

    let error = begin().step(RoomEvent::Encryption(false)).into_answer();
    let error = error.unwrap().unwrap_err();
    assert_eq!(error.status, Status::Conflict);
    assert_eq!(error.code, "ROOM_ENCRYPTION_REQUIRED");
    assert_eq!(
        error.message,
        "The room is not configured for end-to-end encryption"
    );
    for setup in [
        begin().step(RoomEvent::Failed),
        begin().step(RoomEvent::Encryption(true)).step(RoomEvent::Failed),
    ] {
        let error = setup.into_answer().unwrap().unwrap_err();
        assert_eq!(error.code, "MATRIX_DELIVERY_FAILED");
    }
}

#[test]
fn room_changes_can_be_refused() {
    let error = RoomSetup::begin(RoomChange::EnableEncryption, false, "no room").unwrap_err();
    assert_eq!(error.message, "Set confirm to true to enable room encryption");
    let error = RoomSetup::begin(RoomChange::RotateSession, false, "no room").unwrap_err();
    assert_eq!(
        error.message,
        "Set confirm to true to rotate the room encryption session"
    );
    let error = RoomSetup::begin(RoomChange::RotateSession, true, "no room").unwrap_err();
    assert_eq!(error.message, "room_id must be a canonical Matrix room ID");

    let begin = || RoomSetup::begin(RoomChange::EnableEncryption, true, "!room:example.org").unwrap();
    let error = begin().step(RoomEvent::Failed).into_answer();
    assert_eq!(error.unwrap().unwrap_err().message, "Matrix setup has not completed");
    let error = begin().step(RoomEvent::Done).step(RoomEvent::Failed).into_answer();
    assert_eq!(
        error.unwrap().unwrap_err().message,
        "The Matrix account has not joined this room"
    );
    let setup = begin().step(RoomEvent::Done).step(RoomEvent::Done);
    assert!(!setup.accepts(RoomEvent::Encryption(true)));
    let error = setup.step(RoomEvent::Failed).into_answer().unwrap().unwrap_err();
    assert_eq!(error.status, Status::InternalServerError);
    assert_eq!(error.code, "MATRIX_ENCRYPTION_ENABLE_FAILED");
    assert_eq!(
        error.message,
        "Matrix could not enable room encryption; check Matrix Service logs"
    );
    assert!(begin().into_answer().is_none());
}

#[test]
fn receipts_are_of_encrypted_messages_of_the_sender() {
    assert!(is_receipt(true, "@sender:example.org", "@sender:example.org"));
    assert!(!is_receipt(false, "@sender:example.org", "@sender:example.org"));
    assert!(!is_receipt(true, "@other:example.org", "@sender:example.org"));
}

#[test]
fn receipts_are_looked_for_again() {
    assert_eq!(wait_step(Ok(true), 0), ReceiptWait::Received);
    assert_eq!(
        wait_step(Ok(false), 0),
        ReceiptWait::LookAgain { after_milliseconds: 500 }
    );
    assert_eq!(wait_step(Err(()), 0), ReceiptWait::Failed);
    assert_eq!(
        (RECEIPT_TIMEOUT_MILLISECONDS, RECEIPT_POLL_MILLISECONDS),
        (45_000, 500)
    );
}

#[test]
fn receipts_are_waited_for_no_longer_than_the_time_allows() {
    assert_eq!(wait_step(Ok(true), 45_000), ReceiptWait::Received);
    assert_eq!(
        wait_step(Ok(false), 45_000),
        ReceiptWait::TimedOut { after_milliseconds: 0 }
    );
    assert_eq!(
        wait_step(Ok(true), 45_001),
        ReceiptWait::TimedOut { after_milliseconds: 0 }
    );
    assert_eq!(
        wait_step(Err(()), 45_001),
        ReceiptWait::TimedOut { after_milliseconds: 0 }
    );
    assert_eq!(
        wait_step(Ok(false), 44_499),
        ReceiptWait::LookAgain { after_milliseconds: 500 }
    );
    assert_eq!(
        wait_step(Ok(false), 44_500),
        ReceiptWait::TimedOut { after_milliseconds: 500 }
    );
    let mut elapsed = 0;
    let mut looks = 0;
    while let ReceiptWait::LookAgain { after_milliseconds } = wait_step(Ok(false), elapsed) {
        elapsed += after_milliseconds;
        looks += 1;
    }
    assert_eq!((looks, elapsed), (89, 44_500));
}
