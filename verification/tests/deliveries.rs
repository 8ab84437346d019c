use matrix_service::delivery::{Delivery, DeliveryAction, DeliveryEvent, DeliveryPlan};
use matrix_service::error::{ApiError, Status};
use matrix_service::idempotency::{idempotency_key, request_hash, IdempotencyRecord};
use matrix_service::message::{MessageFormat, SendMessageRequest, SendMessageResponse};

const ROOM: &str = "!room:example.org";
const KEY: &str = "1ddb6a9839d465adf6b631f903cc9cb4c463300e9c19d544cc5f411eb644fb2b";

fn request() -> SendMessageRequest {
    SendMessageRequest {
        message: "hello".into(),
        room_id: None,
        format: None,
        encrypted: None,
        request_id: None,
        image_url: None,
        image_alt: None,
    }
}

fn record(hash: String, event_id: Option<&str>) -> IdempotencyRecord {
    IdempotencyRecord {
        request_hash: hash,
        room_id: ROOM.into(),
        encrypted: true,
        event_id: event_id.map(|id| id.to_string()),
        image_event_id: Some("$image".into()),
        monitor_verified: Some(true),
    }
}

fn name(action: &DeliveryAction) -> String {
    let text = format!("{action:?}");
    text.split(' ').next().unwrap().to_string()
}

/// Feeds the events to the delivery and gives the names of the actions in between.
fn drive(
    mut delivery: Delivery,
    events: Vec<DeliveryEvent>,
) -> (Vec<String>, Option<Result<SendMessageResponse, ApiError>>) {
    let mut actions = Vec::new();
    for event in events {
        actions.push(name(&delivery.action()));
        assert!(delivery.accepts(&event));
        delivery = delivery.step(event);
    }
    (actions, delivery.into_answer())
}

fn begin(request: SendMessageRequest) -> Delivery {
    Delivery::begin(request, ROOM).unwrap()
}

fn sent(id: &str) -> DeliveryEvent {
    DeliveryEvent::Sent(id.to_string())
}

fn refused(request: SendMessageRequest, events: Vec<DeliveryEvent>) -> ApiError {
    drive(begin(request), events).1.unwrap().unwrap_err()
}

#[test]
fn defaults_are_filled_in() {
    let plan = DeliveryPlan::from_request(request(), ROOM).unwrap();
    assert_eq!(plan.message, "hello");
    assert_eq!(plan.room_id, ROOM);
    assert_eq!(plan.format, MessageFormat::Markdown);
    assert!(plan.encrypted);
    assert_eq!(plan.request_key, None);
    assert_eq!(plan.image_url, None);
    assert_eq!(plan.image_alt, "Image attachment");
    assert_eq!(
        plan.request_hash,
        request_hash("hello", ROOM, MessageFormat::Markdown, true, None, None)
    );
}

#[test]
fn options_are_kept() {
    let plan = DeliveryPlan::from_request(
        SendMessageRequest {
            message: "hello".into(),
            room_id: Some("!one:example.org".into()),
            format: Some(MessageFormat::Text),
            encrypted: Some(false),
            request_id: Some("request-1".into()),
            image_url: Some("https://cdn.shopify.com/one.jpg".into()),
            image_alt: Some("First image".into()),
        },
        ROOM,
    )
    .unwrap();
    assert_eq!(plan.room_id, "!one:example.org");
    assert_eq!(plan.format, MessageFormat::Text);
    assert!(!plan.encrypted);
    assert_eq!(
        plan.request_key.as_deref(),
        Some(idempotency_key("request-1", "!one:example.org").as_str())
    );
    assert_eq!(plan.image_alt, "First image");
    assert_eq!(
        plan.image_transaction_id,
        "n8n-image-3f7b12672d1b628c92660480c7db"
    );
    assert_eq!(
        plan.message_transaction_id,
        "n8n-message-3f7b12672d1b628c92660480c7db"
    );
}

#[test]
fn invalid_requests_are_refused() {
    let blank = SendMessageRequest {
        message: " \n\t".into(),
        room_id: Some("no room".into()),
        ..request()
    };
    let error = Delivery::begin(blank, ROOM).unwrap_err();
    assert_eq!(error.status, Status::BadRequest);
    assert_eq!(error.code, "INVALID_REQUEST");
    assert_eq!(error.message, "message must not be empty");

    for room in ["", "#alias:example.org", "room", "!a\0b"] {
        let elsewhere = SendMessageRequest {
            room_id: Some(room.into()),
            ..request()
        };
        let error = Delivery::begin(elsewhere, ROOM).unwrap_err();
        assert_eq!(error.status, Status::BadRequest);
        assert_eq!(error.message, "room_id must be a canonical Matrix room ID");
    }
    assert!(Delivery::begin(request(), "#alias:example.org").is_err());
}

#[test]
fn an_encrypted_delivery_is_verified() {
    let (actions, answer) = drive(
        begin(SendMessageRequest {
            request_id: Some("request-1".into()),
            ..request()
        }),
        vec![
            DeliveryEvent::Done,
            DeliveryEvent::Done,
            DeliveryEvent::Encryption(true),
            DeliveryEvent::Record(None),
            DeliveryEvent::Done,
            sent("$event"),
            DeliveryEvent::Done,
            DeliveryEvent::Done,
            DeliveryEvent::Done,
        ],
    );
    assert_eq!(
        actions,
        vec![
            "FindClient",
            "FindRoom",
            "ReadEncryption",
            "LoadRecord",
            "SaveRecord",
            "SendMessage",
            "CompleteRecord",
            "AwaitReceipt",
            "NoteVerification",
        ]
    );
    let response = answer.unwrap().unwrap();
    assert_eq!(response.event_id, "$event");
    assert_eq!(response.image_event_id, None);
    assert_eq!(response.room_id, ROOM);
    assert!(response.encrypted);
    assert_eq!(response.monitor_verified, Some(true));
    assert!(!response.idempotent_replay);
    assert_eq!(response.excluded_device_count, 0);
}

#[test]
fn a_message_without_receipt_is_not_sent_again() {
    let (actions, answer) = drive(
        begin(request()),
        vec![
            DeliveryEvent::Done,
            DeliveryEvent::Done,
            DeliveryEvent::Encryption(true),
            sent("$event"),
            DeliveryEvent::Failed,
            DeliveryEvent::Failed,
            DeliveryEvent::Failed,
        ],
    );
    assert_eq!(
        actions,
        vec![
            "FindClient",
            "FindRoom",
            "ReadEncryption",
            "SendMessage",
            "AwaitReceipt",
            "NoteFailure",
            "DiscardRoomKey",
        ]
    );
    let response = answer.unwrap().unwrap();
    assert_eq!(response.event_id, "$event");
    assert_eq!(response.monitor_verified, Some(false));
}

#[test]
fn a_missing_receipt_is_noted_on_the_record() {
    let (actions, answer) = drive(
        begin(SendMessageRequest {
            request_id: Some("request-1".into()),
            ..request()
        }),
        vec![
            DeliveryEvent::Done,
            DeliveryEvent::Done,
            DeliveryEvent::Encryption(true),
            DeliveryEvent::Record(None),
            DeliveryEvent::Done,
            sent("$event"),
            DeliveryEvent::Done,
            DeliveryEvent::Failed,
            DeliveryEvent::Done,
            DeliveryEvent::Done,
            DeliveryEvent::Done,
        ],
    );
    assert_eq!(
        actions[7..],
        ["AwaitReceipt", "NoteFailure", "NoteVerification", "DiscardRoomKey"]
    );
    assert_eq!(answer.unwrap().unwrap().monitor_verified, Some(false));
}

#[test]
fn plaintext_is_sent_when_it_is_asked_for() {
    for encryption in [true, false] {
        let (actions, answer) = drive(
            begin(SendMessageRequest {
                encrypted: Some(false),
                ..request()
            }),
            vec![
                DeliveryEvent::Done,
                DeliveryEvent::Done,
                DeliveryEvent::Encryption(encryption),
                sent("$event"),
            ],
        );
        assert_eq!(
            actions,
            vec!["FindClient", "FindRoom", "ReadEncryption", "SendMessage"]
        );
        let response = answer.unwrap().unwrap();
        assert!(!response.encrypted);
        assert_eq!(response.monitor_verified, None);
    }
}

#[test]
fn encrypted_delivery_needs_an_encrypted_room() {
    let error = refused(
        request(),
        vec![
            DeliveryEvent::Done,
            DeliveryEvent::Done,
            DeliveryEvent::Encryption(false),
        ],
    );
    assert_eq!(error.status, Status::Conflict);
    assert_eq!(error.code, "ROOM_ENCRYPTION_REQUIRED");
    assert_eq!(
        error.message,
        "The room is not configured for end-to-end encryption."
    );
}

#[test]
fn delivery_needs_setup_and_a_joined_room() {
    let error = refused(request(), vec![DeliveryEvent::Failed]);
    assert_eq!(error.status, Status::ServiceUnavailable);
    assert_eq!(error.message, "Matrix setup has not completed");
    let error = refused(request(), vec![DeliveryEvent::Done, DeliveryEvent::Failed]);
    assert_eq!(error.status, Status::BadRequest);
    assert_eq!(error.message, "The Matrix account has not joined this room");
    let error = refused(
        request(),
        vec![DeliveryEvent::Done, DeliveryEvent::Done, DeliveryEvent::Failed],
    );
    assert_eq!(error.code, "MATRIX_DELIVERY_FAILED");
}

#[test]
fn an_image_goes_out_before_its_message() {
    let (actions, answer) = drive(
        begin(SendMessageRequest {
            image_url: Some("https://cdn.shopify.com/one.jpg".into()),
            encrypted: Some(false),
            ..request()
        }),
        vec![
            DeliveryEvent::Done,
            DeliveryEvent::Done,
            DeliveryEvent::Encryption(false),
            DeliveryEvent::Done,
            sent("$image"),
            sent("$event"),
        ],
    );
    assert_eq!(actions[3..], ["FetchImage", "SendImage", "SendMessage"]);
    let response = answer.unwrap().unwrap();
    assert_eq!(response.event_id, "$event");
    assert_eq!(response.image_event_id.as_deref(), Some("$image"));
}

#[test]
fn failures_take_the_record_back() {
    let with_image = || SendMessageRequest {
        request_id: Some("request-1".into()),
        image_url: Some("https://cdn.shopify.com/one.jpg".into()),
        ..request()
    };
    let start = || {
        vec![
            DeliveryEvent::Done,
            DeliveryEvent::Done,
            DeliveryEvent::Encryption(true),
            DeliveryEvent::Record(None),
            DeliveryEvent::Done,
        ]
    };
    for (steps, code) in [
        (vec![DeliveryEvent::Failed], "INVALID_REQUEST"),
        (
            vec![DeliveryEvent::Done, DeliveryEvent::Failed],
            "MATRIX_DELIVERY_FAILED",
        ),
        (
            vec![DeliveryEvent::Done, sent("$image"), DeliveryEvent::Failed],
            "MATRIX_DELIVERY_FAILED",
        ),
    ] {
        let mut events = start();
        events.extend(steps);
        events.push(DeliveryEvent::Done);
        let (actions, answer) = drive(begin(with_image()), events);
        assert_eq!(actions.last().unwrap(), "DeleteRecord");
        assert_eq!(answer.unwrap().unwrap_err().code, code);
    }

    let mut events = start();
    events.extend([
        DeliveryEvent::Done,
        sent("$image"),
        sent("$event"),
        DeliveryEvent::Failed,
    ]);
    let (actions, answer) = drive(begin(with_image()), events);
    assert_eq!(actions.last().unwrap(), "CompleteRecord");
    assert_eq!(answer.unwrap().unwrap_err().code, "MATRIX_DELIVERY_FAILED");
}

#[test]
fn an_unusable_image_is_explained() {
    let error = refused(
        SendMessageRequest {
            image_url: Some("https://example.org/one.jpg".into()),
            ..request()
        },
        vec![
            DeliveryEvent::Done,
            DeliveryEvent::Done,
            DeliveryEvent::Encryption(true),
            DeliveryEvent::Failed,
        ],
    );
    assert_eq!(error.status, Status::BadRequest);
    assert_eq!(
        error.message,
        "image_url must be a reachable HTTPS image hosted by an approved public CDN"
    );
}

#[test]
fn html_that_cannot_be_laid_out_is_sent() {
    let delivery = begin(SendMessageRequest {
        message: "<ol start=\"9223372036854775807\"><li>x</li></ol>".into(),
        format: Some(MessageFormat::Html),
        ..request()
    });
    let delivery = delivery
        .step(DeliveryEvent::Done)
        .step(DeliveryEvent::Done)
        .step(DeliveryEvent::Encryption(true));
    match delivery.action() {
        DeliveryAction::SendMessage { body, html, .. } => {
            assert_eq!(body, "x");
            assert_eq!(
                html.as_deref(),
                Some("<ol start=\"9223372036854775807\"><li>x</li></ol>")
            );
        }
        other => panic!("unexpected action {other:?}"),
    }
}

#[test]
fn a_retry_gives_the_first_answer() {
    let hash = request_hash("hello", ROOM, MessageFormat::Markdown, true, None, None);
    let (actions, answer) = drive(
        begin(SendMessageRequest {
            request_id: Some("request-1".into()),
            ..request()
        }),
        vec![
            DeliveryEvent::Done,
            DeliveryEvent::Done,
            DeliveryEvent::Encryption(true),
            DeliveryEvent::Record(Some(record(hash, Some("$first")))),
        ],
    );
    assert_eq!(actions.last().unwrap(), "LoadRecord");
    let response = answer.unwrap().unwrap();
    assert_eq!(response.event_id, "$first");
    assert_eq!(response.image_event_id.as_deref(), Some("$image"));
    assert_eq!(response.room_id, ROOM);
    assert!(response.encrypted);
    assert_eq!(response.monitor_verified, Some(true));
    assert!(response.idempotent_replay);
}

#[test]
fn a_changed_request_is_a_conflict() {
    let hash = request_hash("other", ROOM, MessageFormat::Markdown, true, None, None);
    for event_id in [None, Some("$first")] {
        let error = refused(
            SendMessageRequest {
                request_id: Some("request-1".into()),
                ..request()
            },
            vec![
                DeliveryEvent::Done,
                DeliveryEvent::Done,
                DeliveryEvent::Encryption(true),
                DeliveryEvent::Record(Some(record(hash.clone(), event_id))),
            ],
        );
        assert_eq!(error.status, Status::Conflict);
        assert_eq!(error.code, "IDEMPOTENCY_CONFLICT");
        assert_eq!(
            error.message,
            "request_id was already used with different delivery content or options"
        );
    }
}

#[test]
fn an_unfinished_record_is_taken_up_again() {
    let hash = request_hash("hello", ROOM, MessageFormat::Markdown, true, None, None);
    let mut delivery = begin(SendMessageRequest {
        request_id: Some("request-1".into()),
        ..request()
    });
    for event in [
        DeliveryEvent::Done,
        DeliveryEvent::Done,
        DeliveryEvent::Encryption(true),
        DeliveryEvent::Record(Some(record(hash.clone(), None))),
    ] {
        delivery = delivery.step(event);
    }
    match delivery.action() {
        DeliveryAction::SaveRecord {
            key,
            request_hash,
            room_id,
            encrypted,
        } => {
            assert_eq!(key, KEY);
            assert_eq!(request_hash, hash);
            assert_eq!(room_id, ROOM);
            assert!(encrypted);
        }
        other => panic!("unexpected action {other:?}"),
    }
    let delivery = delivery.step(DeliveryEvent::Done);
    match delivery.action() {
        DeliveryAction::SendMessage {
            transaction_id,
            encrypted,
            body,
            html,
        } => {
            assert_eq!(transaction_id, "n8n-message-1ddb6a9839d465adf6b631f903cc");
            assert!(encrypted);
            assert_eq!(body, "hello");
            assert_eq!(html.as_deref(), Some("<p>hello</p>\n"));
        }
        other => panic!("unexpected action {other:?}"),
    }
}

#[test]
fn events_must_fit_the_action() {
    let delivery = begin(request());
    assert!(!delivery.accepts(&DeliveryEvent::Encryption(true)));
    assert!(!delivery.accepts(&sent("$event")));
    assert!(!delivery.accepts(&DeliveryEvent::Record(None)));
    let delivery = delivery.step(DeliveryEvent::Failed);
    assert!(!delivery.accepts(&DeliveryEvent::Done));
    assert!(matches!(delivery.action(), DeliveryAction::Respond));
    let unfinished = begin(request());
    assert!(unfinished.into_answer().is_none());
}

#[test]
fn defaults_can_be_spelled_out() {
    let short = SendMessageRequest {
        request_id: Some("request-1".into()),
        ..request()
    };
    let long = SendMessageRequest {
        room_id: Some(ROOM.into()),
        format: Some(MessageFormat::Markdown),
        encrypted: Some(true),
        request_id: Some("request-1".into()),
        ..request()
    };
    let short = DeliveryPlan::from_request(short, ROOM).unwrap();
    let long = DeliveryPlan::from_request(long, ROOM).unwrap();
    assert_eq!(format!("{short:?}"), format!("{long:?}"));
    assert_eq!(short.request_key.as_deref(), Some(KEY));
}

#[test]
fn plaintext_html_that_looks_like_an_attribute_is_sent() {
    let delivery = begin(SendMessageRequest {
        message: "start=9223372036854775807".into(),
        format: Some(MessageFormat::Html),
        encrypted: Some(false),
        ..request()
    });
    let delivery = delivery
        .step(DeliveryEvent::Done)
        .step(DeliveryEvent::Done)
        .step(DeliveryEvent::Encryption(true));
    match delivery.action() {
        DeliveryAction::SendMessage { body, html, encrypted, .. } => {
            assert_eq!(body, "start=9223372036854775807");
            assert_eq!(html.as_deref(), Some("start=9223372036854775807"));
            assert!(!encrypted);
        }
        other => panic!("unexpected action {other:?}"),
    }
    let response = delivery.step(sent("$event")).into_answer().unwrap().unwrap();
    assert!(!response.encrypted);
    assert_eq!(response.monitor_verified, None);
}

#[test]
fn the_message_is_in_what_is_sent_only() {
    let mut delivery = begin(SendMessageRequest {
        message: "a secret message".into(),
        request_id: Some("request-1".into()),
        ..request()
    });
    for event in [
        DeliveryEvent::Done,
        DeliveryEvent::Done,
        DeliveryEvent::Encryption(true),
        DeliveryEvent::Record(None),
        DeliveryEvent::Done,
        sent("$event"),
        DeliveryEvent::Done,
        DeliveryEvent::Failed,
        DeliveryEvent::Done,
        DeliveryEvent::Done,
        DeliveryEvent::Done,
    ] {
        let action = delivery.action();
        let sends = matches!(action, DeliveryAction::SendMessage { .. });
        assert_eq!(format!("{action:?}").contains("secret"), sends);
        assert!(delivery.accepts(&event));
        delivery = delivery.step(event);
    }
    let response = delivery.into_answer().unwrap().unwrap();
    assert_eq!(response.event_id, "$event");
    assert_eq!(response.monitor_verified, Some(false));
}
