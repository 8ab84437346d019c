//! What callers and operators are told: who is let in, what errors look like, what is
//! configured, and what setup reports.

use vstd::prelude::*;

use crate::auth::ApiKey;
use crate::config::{Config, Environment, MissingVariable};
use crate::error::{ApiError, Status};
use crate::message::{
    self, Field, FieldValueView, MessageFormat, SendMessageResponse,
};
use crate::monitor::{is_receipt, wait_step, ReceiptWait};
use crate::setup::{healthz, ready_client, ready_monitor_client, HealthResponse, SetupStatus};
use crate::text;

verus! {

/// A request is let in exactly where its authorization is `Bearer`, a space and the API key
/// of the service. Any other is answered with the status 401, whatever is wrong with it, and
/// each is answered with 500 while the service has no state.
pub proof fn law_only_the_api_key_is_let_in(
    service_api_key: Option<&str>,
    authorization: Option<&str>,
    outcome: Result<ApiKey, (Status, ApiError)>,
)
    requires
        call_ensures(ApiKey::from_request, (service_api_key, authorization), outcome),
    ensures
        outcome is Ok <==> service_api_key is Some && authorization is Some && authorization->0@
            == "Bearer "@ + service_api_key->0@,
        outcome is Err && service_api_key is Some ==> {
            &&& outcome->Err_0.0 == Status::Unauthorized
            &&& outcome->Err_0.1.status == Status::Unauthorized
            &&& outcome->Err_0.1.code@ == "UNAUTHORIZED"@
            &&& outcome->Err_0.1.message@ == "Missing or invalid API key"@
        },
        service_api_key is None ==> {
            &&& outcome->Err_0.0 == Status::InternalServerError
            &&& outcome->Err_0.1.status == Status::ServiceUnavailable
            &&& outcome->Err_0.1.code@ == "SETUP_REQUIRED"@
            &&& outcome->Err_0.1.message@ == "Service state is unavailable"@
        },
{
}

/// Two keys are told apart: no authorization is let in by both.
pub proof fn law_keys_are_told_apart(
    key: &str,
    other_key: &str,
    authorization: &str,
    outcome: Result<ApiKey, (Status, ApiError)>,
    other_outcome: Result<ApiKey, (Status, ApiError)>,
)
    requires
        key@ != other_key@,
        call_ensures(ApiKey::from_request, (Some(key), Some(authorization)), outcome),
        call_ensures(ApiKey::from_request, (Some(other_key), Some(authorization)), other_outcome),
    ensures
        !(outcome is Ok && other_outcome is Ok),
{
    if outcome is Ok && other_outcome is Ok {
        let head = "Bearer "@;
        assert(key@ =~= (head + key@).skip(head.len() as int));
        assert(other_key@ =~= (head + other_key@).skip(head.len() as int));
    }
}

/// Each status has its number in HTTP.
pub proof fn law_status_numbers(status: Status, number: u16)
    requires
        call_ensures(Status::code, (status,), number),
    ensures
        number == 400 <==> status == Status::BadRequest,
        number == 401 <==> status == Status::Unauthorized,
        number == 409 <==> status == Status::Conflict,
        number == 500 <==> status == Status::InternalServerError,
        number == 503 <==> status == Status::ServiceUnavailable,
        number == 400 || number == 401 || number == 409 || number == 500 || number == 503,
{
}

/// The errors that carry a message of their own, with the codes that they are known by.
pub proof fn law_errors_with_a_message(
    text: &str,
    code: &'static str,
    invalid: ApiError,
    conflicting: ApiError,
    early: ApiError,
)
    requires
        call_ensures(ApiError::bad_request, (text,), invalid),
        call_ensures(ApiError::conflict, (code, text), conflicting),
        call_ensures(ApiError::service_unavailable, (text,), early),
    ensures
        invalid.status == Status::BadRequest,
        invalid.code@ == "INVALID_REQUEST"@,
        invalid.message@ == text@,
        conflicting.status == Status::Conflict,
        conflicting.code@ == code@,
        conflicting.message@ == text@,
        early.status == Status::ServiceUnavailable,
        early.code@ == "SETUP_REQUIRED"@,
        early.message@ == text@,
{
}

/// The errors that are always the same. A failure inside the service shows nothing of what
/// went wrong.
pub proof fn law_errors_without_details(refused: ApiError, failed: ApiError)
    requires
        call_ensures(ApiError::unauthorized, (), refused),
        call_ensures(ApiError::internal, (), failed),
    ensures
        refused.status == Status::Unauthorized,
        refused.code@ == "UNAUTHORIZED"@,
        refused.message@ == "Missing or invalid API key"@,
        failed.status == Status::InternalServerError,
        failed.code@ == "MATRIX_DELIVERY_FAILED"@,
        failed.message@ == "Matrix delivery failed"@,
{
}

/// The service comes up exactly where its nine required variables are set, and keeps their
/// values. The directory of the stores has a default.
pub proof fn law_configuration_keeps_the_environment(
    env: Environment,
    outcome: Result<Config, MissingVariable>,
)
    requires
        call_ensures(Config::from_env, (env,), outcome),
    ensures
        outcome is Ok <==> {
            &&& env.homeserver_url is Some
            &&& env.user_id is Some
            &&& env.password is Some
            &&& env.monitor_user_id is Some
            &&& env.monitor_password is Some
            &&& env.default_room_id is Some
            &&& env.service_api_key is Some
            &&& env.store_encryption_key is Some
            &&& env.database_url is Some
        },
        outcome is Ok ==> {
            let config = outcome->Ok_0;
            &&& config.homeserver_url == env.homeserver_url->0
            &&& config.user_id == env.user_id->0
            &&& config.password == env.password->0
            &&& config.monitor_user_id == env.monitor_user_id->0
            &&& config.monitor_password == env.monitor_password->0
            &&& config.default_room_id == env.default_room_id->0
            &&& config.service_api_key == env.service_api_key->0
            &&& config.store_encryption_key == env.store_encryption_key->0
            &&& config.database_url == env.database_url->0
            &&& env.store_dir is Some ==> config.store_dir@ == env.store_dir->0@
            &&& env.store_dir is None ==> config.store_dir@ == "/matrix-store"@
        },
{
    lemma_required(env);
    if let Err(missing) = outcome {
        let i = choose|i: int|
            0 <= i < env.required().len() && (#[trigger] env.required()[i]) == (
                missing.name@,
                None::<String>,
            );
        assert(env.required()[i].1 is None);
    }
}

proof fn lemma_required(env: Environment)
    ensures
        env.required().len() == 9,
        env.required()[0] == ("MATRIX_HOMESERVER_URL"@, env.homeserver_url),
        env.required()[1] == ("MATRIX_USER_ID"@, env.user_id),
        env.required()[2] == ("MATRIX_PASSWORD"@, env.password),
        env.required()[3] == ("MATRIX_MONITOR_USER_ID"@, env.monitor_user_id),
        env.required()[4] == ("MATRIX_MONITOR_PASSWORD"@, env.monitor_password),
        env.required()[5] == ("MATRIX_DEFAULT_ROOM_ID"@, env.default_room_id),
        env.required()[6] == ("MATRIX_SERVICE_API_KEY"@, env.service_api_key),
        env.required()[7] == ("MATRIX_STORE_ENCRYPTION_KEY"@, env.store_encryption_key),
        env.required()[8] == ("MATRIX_DATABASE_URL"@, env.database_url),
{
}

/// The operator is told the first of the variables that is missing, in the order in which
/// they are read.
pub proof fn law_first_missing_variable_is_named(
    env: Environment,
    missing: MissingVariable,
    message: String,
)
    requires
        call_ensures(Config::from_env, (env,), Err(missing)),
        call_ensures(MissingVariable::message, (&missing,), message),
    ensures
        message@ == missing.name@ + " must be configured"@,
        env.homeserver_url is None ==> missing.name@ == "MATRIX_HOMESERVER_URL"@,
        env.homeserver_url is Some && env.user_id is None ==> missing.name@ == "MATRIX_USER_ID"@,
        env.homeserver_url is Some && env.user_id is Some ==> {
            &&& env.password is None ==> missing.name@ == "MATRIX_PASSWORD"@
            &&& env.password is Some && env.monitor_user_id is None ==> missing.name@
                == "MATRIX_MONITOR_USER_ID"@
            &&& env.password is Some && env.monitor_user_id is Some ==> {
                &&& env.monitor_password is None ==> missing.name@ == "MATRIX_MONITOR_PASSWORD"@
                &&& env.monitor_password is Some && env.default_room_id is None ==> missing.name@
                    == "MATRIX_DEFAULT_ROOM_ID"@
                &&& env.monitor_password is Some && env.default_room_id is Some ==> {
                    &&& env.service_api_key is None ==> missing.name@ == "MATRIX_SERVICE_API_KEY"@
                    &&& env.service_api_key is Some && env.store_encryption_key is None
                        ==> missing.name@ == "MATRIX_STORE_ENCRYPTION_KEY"@
                    &&& env.service_api_key is Some && env.store_encryption_key is Some
                        ==> missing.name@ == "MATRIX_DATABASE_URL"@
                }
            }
        },
{
    lemma_required(env);
    let i = choose|i: int|
        0 <= i < env.required().len() && (#[trigger] env.required()[i]) == (
            missing.name@,
            None::<String>,
        ) && forall|j: int| 0 <= j < i ==> (#[trigger] env.required()[j]).1 is Some;
    assert(forall|j: int| 0 <= j < i ==> (#[trigger] env.required()[j]).1 is Some);
}

/// Completed records are kept for thirty days, unless the variable gives another number: a
/// text of decimal digits with or without a sign, whose value fits. Any other text counts for
/// nothing.
pub proof fn law_retention_is_thirty_days_unless_given(
    env: Environment,
    config: Config,
    digits: Seq<char>,
)
    requires
        call_ensures(Config::from_env, (env,), Ok(config)),
        text::is_decimal(digits),
        text::decimal_value(digits) <= i64::MAX,
    ensures
        ({
            let value = env.idempotency_retention_days;
            let days = config.idempotency_retention_days;
            &&& value is None ==> days == 30
            &&& value is Some && value->0@ == digits ==> days == text::decimal_value(digits)
            &&& value is Some && value->0@ == seq!['+'] + digits ==> days == text::decimal_value(
                digits,
            )
            &&& value is Some && value->0@ == seq!['-'] + digits ==> days == -text::decimal_value(
                digits,
            )
            &&& value is Some && (exists|i: int|
                0 <= i < value->0@.len() && !('0' <= #[trigger] value->0@[i] <= '9') && (i > 0 || (
                value->0@[i] != '+' && value->0@[i] != '-'))) ==> days == 30
            &&& value is Some && value->0@.len() == 0 ==> days == 30
        }),
{
    let value = env.idempotency_retention_days;
    assert(value.deep_view() == if value is Some {
        Some(value->0@)
    } else {
        None
    });
    lemma_decimal_is_not_negative(digits);
    assert(digits[0] != '+' && digits[0] != '-');
    assert((seq!['+'] + digits).drop_first() =~= digits);
    assert((seq!['-'] + digits).drop_first() =~= digits);
    if value is Some {
        let given = value->0@;
        if exists|i: int|
            0 <= i < given.len() && !('0' <= #[trigger] given[i] <= '9') && (i > 0 || (given[i]
                != '+' && given[i] != '-')) {
            let i = choose|i: int|
                0 <= i < given.len() && !('0' <= #[trigger] given[i] <= '9') && (i > 0 || (given[i]
                    != '+' && given[i] != '-'));
            if given[0] == '+' || given[0] == '-' {
                assert(given.drop_first()[i - 1] == given[i]);
            }
        }
    }
}

proof fn lemma_decimal_is_not_negative(digits: Seq<char>)
    requires
        forall|i: int| 0 <= i < digits.len() ==> text::is_decimal_digit(#[trigger] digits[i]),
    ensures
        text::decimal_value(digits) >= 0,
    decreases digits.len(),
{
    if digits.len() > 0 {
        assert(digits.last() == digits[digits.len() - 1]);
        assert forall|i: int| 0 <= i < digits.drop_last().len() implies text::is_decimal_digit(
            #[trigger] digits.drop_last()[i],
        ) by {
            assert(digits.drop_last()[i] == digits[i]);
        }
        lemma_decimal_is_not_negative(digits.drop_last());
    }
}

/// A number is read in the decimal system: another digit makes ten of the number so far and
/// adds its own value, from zero for `0` to nine for `9`.
pub proof fn law_decimal_digits_count(digits: Seq<char>, digit: char)
    ensures
        text::decimal_value(Seq::empty()) == 0,
        text::decimal_value(digits.push(digit)) == 10 * text::decimal_value(digits) + (
        digit as int - 48),
{
    assert(digits.push(digit).drop_last() =~= digits);
}

/// The health check says that all is well, and nothing else.
pub proof fn law_health(response: HealthResponse)
    requires
        call_ensures(healthz, (), response),
    ensures
        response.status@ == "ok"@,
{
}

/// Setup reports a client as initialized where it is available, and its device ID where in
/// addition one was found on record. It tells the default room either way.
pub proof fn law_setup_report(
    sender_available: bool,
    device: Result<Option<String>, ()>,
    monitor_available: bool,
    monitor_device: Result<Option<String>, ()>,
    default_room_id: &str,
    status: SetupStatus,
)
    requires
        call_ensures(
            SetupStatus::report,
            (sender_available, device, monitor_available, monitor_device, default_room_id),
            status,
        ),
    ensures
        status.initialized == sender_available,
        status.monitor_initialized == monitor_available,
        status.default_room_id@ == default_room_id@,
        status.device_id is Some <==> sender_available && device is Ok && device->Ok_0 is Some,
        status.device_id is Some ==> status.device_id->0@ == device->Ok_0->0@,
        status.monitor_device_id is Some <==> monitor_available && monitor_device is Ok
            && monitor_device->Ok_0 is Some,
        status.monitor_device_id is Some ==> status.monitor_device_id->0@
            == monitor_device->Ok_0->0@,
{
    assert(status@.device_id == status.device_id.deep_view());
    assert(status@.monitor_device_id == status.monitor_device_id.deep_view());
}

/// What needs a client is refused with the status 503 exactly while the client is missing.
pub proof fn law_clients_have_to_be_ready(
    sender_available: bool,
    monitor_available: bool,
    sender: Result<(), ApiError>,
    monitor: Result<(), ApiError>,
)
    requires
        call_ensures(ready_client, (sender_available,), sender),
        call_ensures(ready_monitor_client, (monitor_available,), monitor),
    ensures
        sender is Ok <==> sender_available,
        monitor is Ok <==> monitor_available,
        sender is Err ==> {
            &&& sender->Err_0.status == Status::ServiceUnavailable
            &&& sender->Err_0.code@ == "SETUP_REQUIRED"@
            &&& sender->Err_0.message@ == "Matrix setup has not completed"@
        },
        monitor is Err ==> {
            &&& monitor->Err_0.status == Status::ServiceUnavailable
            &&& monitor->Err_0.code@ == "SETUP_REQUIRED"@
            &&& monitor->Err_0.message@ == "Matrix delivery monitor has not completed setup"@
        },
{
}

/// The formats are known by their names.
pub proof fn law_format_names(format: MessageFormat, name: &'static str)
    requires
        call_ensures(MessageFormat::as_str, (format,), name),
    ensures
        format == MessageFormat::Text ==> name@ == "text"@,
        format == MessageFormat::Markdown ==> name@ == "markdown"@,
        format == MessageFormat::Html ==> name@ == "html"@,
{
}

/// The JSON object that a caller receives names each part of the response under its own
/// name. The image event and the monitor's verdict are members only where there are such.
pub proof fn law_response_members(response: &SendMessageResponse, fields: Vec<Field>)
    requires
        call_ensures(SendMessageResponse::fields, (response,), fields),
    ensures
        ({
            let members = message::field_views(fields@);
            let images: int = if response.image_event_id is Some {
                1
            } else {
                0
            };
            let verdicts: int = if response.monitor_verified is Some {
                1
            } else {
                0
            };
            &&& fields@.len() == 5 + images + verdicts
            &&& members[0] == ("event_id"@, FieldValueView::Text(response.event_id@))
            &&& response.image_event_id is Some ==> members[1] == (
                "image_event_id"@,
                FieldValueView::Text(response.image_event_id->0@),
            )
            &&& members[1 + images] == ("room_id"@, FieldValueView::Text(response.room_id@))
            &&& members[2 + images] == ("encrypted"@, FieldValueView::Flag(response.encrypted))
            &&& response.monitor_verified is Some ==> members[3 + images] == (
                "monitor_verified"@,
                FieldValueView::Flag(response.monitor_verified->0),
            )
            &&& members[3 + images + verdicts] == (
                "idempotent_replay"@,
                FieldValueView::Flag(response.idempotent_replay),
            )
            &&& members[4 + images + verdicts] == (
                "excluded_device_count"@,
                FieldValueView::Count(response.excluded_device_count),
            )
        }),
{
    assert(response@.image_event_id == response.image_event_id.deep_view());
    assert(message::field_views(fields@).len() == fields@.len());
}

/// A message is a receipt exactly where it came encrypted and from the sender.
pub proof fn law_receipts_are_encrypted_and_of_the_sender(
    encrypted: bool,
    sender: &str,
    sender_user_id: &str,
    receipt: bool,
)
    requires
        call_ensures(is_receipt, (encrypted, sender, sender_user_id), receipt),
    ensures
        receipt ==> encrypted,
        receipt ==> sender@ == sender_user_id@,
        encrypted && sender@ == sender_user_id@ ==> receipt,
{
}

/// A receipt counts where it is found within 45 seconds, and a look that fails within them
/// ends the wait. Where none is found the wait goes on in steps of half a second, as long as
/// another look fits in, and otherwise for the rest of the 45 seconds.
pub proof fn law_receipts_are_waited_for(look: Result<bool, ()>, elapsed: u64, wait: ReceiptWait)
    requires
        call_ensures(wait_step, (look, elapsed), wait),
    ensures
        elapsed <= 45_000 && look == Ok::<bool, ()>(true) <==> wait == ReceiptWait::Received,
        elapsed <= 45_000 && look is Err <==> wait == ReceiptWait::Failed,
        elapsed < 44_500 && look == Ok::<bool, ()>(false) <==> wait is LookAgain,
        wait matches ReceiptWait::LookAgain { after_milliseconds } ==> after_milliseconds == 500,
        wait matches ReceiptWait::TimedOut { after_milliseconds } ==> if elapsed <= 45_000 {
            elapsed + after_milliseconds == 45_000
        } else {
            after_milliseconds == 0
        },
{
}

} // verus!
