//! The contents that contracts speak of are those of the values themselves: nothing is left out
//! of them and nothing is put in their place.

use vstd::prelude::*;

use crate::bootstrap::{self, Account, BootstrapAction, BootstrapEvent};
use crate::content::MessageContent;
use crate::delivery::{self, DeliveryAction, DeliveryEvent, DeliveryPlan};
use crate::error::ApiError;
use crate::idempotency::IdempotencyRecord;
use crate::message::{
    Field, FieldValue, FieldValueView, SendMessageRequest, SendMessageResponse,
};
use crate::migration_run::{self, Migration, MigrationAction, MigrationError};
use crate::room_setup::{self, RoomAction, RoomChanged};
use crate::setup::SetupStatus;
use crate::verification::{self, VerificationAction, VerificationEvent};

verus! {

/// An optional text is there or not, and says what it says.
pub open spec fn is_same(text: Option<String>, contents: Option<Seq<char>>) -> bool {
    match text {
        Some(text) => contents == Some(text@),
        None => contents is None,
    }
}

/// The contents of a request are its parts.
pub proof fn law_request_contents(request: SendMessageRequest)
    ensures
        request@.message == request.message@,
        is_same(request.room_id, request@.room_id),
        request@.format == request.format,
        request@.encrypted == request.encrypted,
        is_same(request.request_id, request@.request_id),
        is_same(request.image_url, request@.image_url),
        is_same(request.image_alt, request@.image_alt),
{
}

/// The contents of a response are its parts.
pub proof fn law_response_contents(response: SendMessageResponse)
    ensures
        response@.event_id == response.event_id@,
        is_same(response.image_event_id, response@.image_event_id),
        response@.room_id == response.room_id@,
        response@.encrypted == response.encrypted,
        response@.monitor_verified == response.monitor_verified,
        response@.idempotent_replay == response.idempotent_replay,
        response@.excluded_device_count == response.excluded_device_count,
{
}

/// The contents of a member are its name and its value.
pub proof fn law_member_contents(field: Field)
    ensures
        field@.0 == field.name@,
        match field.value {
            FieldValue::Text(text) => field@.1 == FieldValueView::Text(text@),
            FieldValue::Flag(flag) => field@.1 == FieldValueView::Flag(flag),
            FieldValue::Count(count) => field@.1 == FieldValueView::Count(count),
        },
{
}

/// The contents of an error are its status, its code and its message.
pub proof fn law_error_contents(error: ApiError)
    ensures
        error@.status == error.status,
        error@.code == error.code@,
        error@.message == error.message@,
{
}

/// The contents of a message are its body and, if any, its HTML.
pub proof fn law_message_contents(content: MessageContent)
    ensures
        content@.body == content.body@,
        is_same(content.formatted_body, content@.formatted_body),
{
}

/// The contents of a plan are its parts.
pub proof fn law_plan_contents(plan: DeliveryPlan)
    ensures
        plan@.message == plan.message@,
        plan@.format == plan.format,
        plan@.encrypted == plan.encrypted,
        plan@.room_id == plan.room_id@,
        plan@.request_hash == plan.request_hash@,
        is_same(plan.request_key, plan@.request_key),
        is_same(plan.image_url, plan@.image_url),
        plan@.image_alt == plan.image_alt@,
        plan@.image_transaction_id == plan.image_transaction_id@,
        plan@.message_transaction_id == plan.message_transaction_id@,
{
}

/// The contents of a record are its parts.
pub proof fn law_record_contents(record: IdempotencyRecord)
    ensures
        record@.request_hash == record.request_hash@,
        record@.room_id == record.room_id@,
        record@.encrypted == record.encrypted,
        is_same(record.event_id, record@.event_id),
        is_same(record.image_event_id, record@.image_event_id),
        record@.monitor_verified == record.monitor_verified,
{
}

/// The contents of what came of an action of a delivery.
pub proof fn law_delivery_event_contents(event: DeliveryEvent)
    ensures
        match event {
            DeliveryEvent::Done => event@ is Done,
            DeliveryEvent::Failed => event@ is Failed,
            DeliveryEvent::Encryption(encrypted) => event@ == delivery::EventView::Encryption(
                encrypted,
            ),
            DeliveryEvent::Record(None) => event@ == delivery::EventView::Record(None),
            DeliveryEvent::Record(Some(record)) => event@ == delivery::EventView::Record(
                Some(record@),
            ),
            DeliveryEvent::Sent(event_id) => event@ == delivery::EventView::Sent(event_id@),
        },
{
}

/// The contents of an action of a delivery.
pub proof fn law_delivery_action_contents(action: DeliveryAction)
    ensures
        match (action, action@) {
            (DeliveryAction::FindClient, delivery::ActionView::FindClient) => true,
            (DeliveryAction::FindRoom { room_id }, delivery::ActionView::FindRoom { room_id: r }) =>
                room_id@ == r,
            (
                DeliveryAction::ReadEncryption { room_id },
                delivery::ActionView::ReadEncryption { room_id: r },
            ) => room_id@ == r,
            (DeliveryAction::LoadRecord { key }, delivery::ActionView::LoadRecord { key: k }) =>
                key@ == k,
            (
                DeliveryAction::SaveRecord { key, request_hash, room_id, encrypted },
                delivery::ActionView::SaveRecord {
                    key: k,
                    request_hash: h,
                    room_id: r,
                    encrypted: e,
                },
            ) => key@ == k && request_hash@ == h && room_id@ == r && encrypted == e,
            (
                DeliveryAction::FetchImage { url, alt },
                delivery::ActionView::FetchImage { url: u, alt: a },
            ) => url@ == u && alt@ == a,
            (
                DeliveryAction::SendImage { transaction_id, encrypted },
                delivery::ActionView::SendImage { transaction_id: t, encrypted: e },
            ) => transaction_id@ == t && encrypted == e,
            (
                DeliveryAction::SendMessage { transaction_id, encrypted, body, html },
                delivery::ActionView::SendMessage { transaction_id: t, encrypted: e, content },
            ) => transaction_id@ == t && encrypted == e && body@ == content.body && is_same(
                html,
                content.formatted_body,
            ),
            (
                DeliveryAction::CompleteRecord { key, event_id, image_event_id },
                delivery::ActionView::CompleteRecord { key: k, event_id: i, image_event_id: j },
            ) => key@ == k && event_id@ == i && is_same(image_event_id, j),
            (
                DeliveryAction::AwaitReceipt { event_id },
                delivery::ActionView::AwaitReceipt { event_id: i },
            ) => event_id@ == i,
            (
                DeliveryAction::NoteFailure { event_id, room_id, attempt },
                delivery::ActionView::NoteFailure { event_id: i, room_id: r, attempt: n },
            ) => event_id@ == i && room_id@ == r && attempt == n,
            (
                DeliveryAction::NoteVerification { key, verified },
                delivery::ActionView::NoteVerification { key: k, verified: v },
            ) => key@ == k && verified == v,
            (
                DeliveryAction::DiscardRoomKey { room_id },
                delivery::ActionView::DiscardRoomKey { room_id: r },
            ) => room_id@ == r,
            (DeliveryAction::DeleteRecord { key }, delivery::ActionView::DeleteRecord { key: k }) =>
                key@ == k,
            (DeliveryAction::Respond, delivery::ActionView::Respond) => true,
            _ => false,
        },
{
}

/// The contents of an account are its parts.
pub proof fn law_account_contents(account: Account)
    ensures
        account@.user_id == account.user_id@,
        account@.password == account.password@,
        account@.store_directory.len() == account.store_directory@.len(),
        forall|i: int|
            0 <= i < account.store_directory@.len() ==> (#[trigger] account@.store_directory[i])
                == account.store_directory@[i]@,
        account@.store_key == account.store_key@,
        account@.display_name == account.display_name@,
{
}

/// The contents of what came of an action of setup.
pub proof fn law_setup_event_contents(event: BootstrapEvent)
    ensures
        match event {
            BootstrapEvent::Done => event@ is Done,
            BootstrapEvent::Failed => event@ is Failed,
            BootstrapEvent::Opened { logged_in } => event@ == (bootstrap::EventView::Opened {
                logged_in,
            }),
            BootstrapEvent::Device(device_id) => event@ is Device && is_same(
                device_id,
                event@->Device_0,
            ),
        },
{
}

/// The contents of an action of setup.
pub proof fn law_setup_action_contents(action: BootstrapAction)
    ensures
        match (action, action@) {
            (
                BootstrapAction::CreateDirectory { role },
                bootstrap::ActionView::CreateDirectory { role: r },
            ) => role == r,
            (BootstrapAction::OpenStore { role }, bootstrap::ActionView::OpenStore { role: r }) =>
                role == r,
            (
                BootstrapAction::LoadDeviceId { role },
                bootstrap::ActionView::LoadDeviceId { role: r },
            ) => role == r,
            (
                BootstrapAction::Login { role, known_device },
                bootstrap::ActionView::Login { role: r, known_device: d },
            ) => role == r && is_same(known_device, d),
            (
                BootstrapAction::ReadDeviceId { role },
                bootstrap::ActionView::ReadDeviceId { role: r },
            ) => role == r,
            (
                BootstrapAction::RecordDeviceId { role, device_id },
                bootstrap::ActionView::RecordDeviceId { role: r, device_id: d },
            ) => role == r && device_id@ == d,
            (BootstrapAction::WatchMessages, bootstrap::ActionView::WatchMessages) => true,
            (BootstrapAction::SyncOnce { role }, bootstrap::ActionView::SyncOnce { role: r }) =>
                role == r,
            (
                BootstrapAction::FindDefaultRoom { room_id },
                bootstrap::ActionView::FindDefaultRoom { room_id: r },
            ) => room_id@ == r,
            (BootstrapAction::Publish { role }, bootstrap::ActionView::Publish { role: r }) => role
                == r,
            (BootstrapAction::Finish, bootstrap::ActionView::Finish) => true,
            _ => false,
        },
{
}

/// The contents of a migration are its version and its statements.
pub proof fn law_migration_contents(migration: Migration)
    ensures
        migration@.version == migration.version@,
        migration@.sql == migration.sql@,
{
}

/// The contents of an action of a run of the migrations.
pub proof fn law_migration_action_contents(action: MigrationAction)
    ensures
        match (action, action@) {
            (MigrationAction::Lock, migration_run::ActionView::Lock) => true,
            (MigrationAction::CreateSchema, migration_run::ActionView::CreateSchema) => true,
            (MigrationAction::CreateLedger, migration_run::ActionView::CreateLedger) => true,
            (
                MigrationAction::Check { version },
                migration_run::ActionView::Check { version: v },
            ) => version@ == v,
            (
                MigrationAction::Execute { statement },
                migration_run::ActionView::Execute { statement: s },
            ) => statement@ == s,
            (
                MigrationAction::Record { version },
                migration_run::ActionView::Record { version: v },
            ) => version@ == v,
            (MigrationAction::Unlock, migration_run::ActionView::Unlock) => true,
            (MigrationAction::Finish, migration_run::ActionView::Finish) => true,
            _ => false,
        },
{
}

/// The contents of an error of a run of the migrations.
pub proof fn law_migration_error_contents(error: MigrationError)
    ensures
        match (error, error@) {
            (MigrationError::LockFailed, migration_run::ErrorView::LockFailed) => true,
            (MigrationError::SchemaFailed, migration_run::ErrorView::SchemaFailed) => true,
            (MigrationError::LedgerFailed, migration_run::ErrorView::LedgerFailed) => true,
            (MigrationError::CheckFailed, migration_run::ErrorView::CheckFailed) => true,
            (
                MigrationError::ApplyFailed { version },
                migration_run::ErrorView::ApplyFailed { version: v },
            ) => version@ == v,
            (
                MigrationError::RecordFailed { version },
                migration_run::ErrorView::RecordFailed { version: v },
            ) => version@ == v,
            _ => false,
        },
{
}

/// The contents of a change and of an action of one.
pub proof fn law_room_change_contents(changed: RoomChanged, action: RoomAction)
    ensures
        changed@.room_id == changed.room_id@,
        changed@.change == changed.change,
        match (action, action@) {
            (RoomAction::FindClient, room_setup::ActionView::FindClient) => true,
            (RoomAction::FindRoom { room_id }, room_setup::ActionView::FindRoom { room_id: r }) =>
                room_id@ == r,
            (
                RoomAction::ReadEncryption { room_id },
                room_setup::ActionView::ReadEncryption { room_id: r },
            ) => room_id@ == r,
            (
                RoomAction::EnableEncryption { room_id },
                room_setup::ActionView::EnableEncryption { room_id: r },
            ) => room_id@ == r,
            (
                RoomAction::DiscardRoomKey { room_id },
                room_setup::ActionView::DiscardRoomKey { room_id: r },
            ) => room_id@ == r,
            (RoomAction::Respond, room_setup::ActionView::Respond) => true,
            _ => false,
        },
{
}

/// The contents of a report of setup are its parts.
pub proof fn law_setup_status_contents(status: SetupStatus)
    ensures
        status@.initialized == status.initialized,
        is_same(status.device_id, status@.device_id),
        status@.monitor_initialized == status.monitor_initialized,
        is_same(status.monitor_device_id, status@.monitor_device_id),
        status@.default_room_id == status.default_room_id@,
{
}

/// The contents of an action of a request for verification and of what came of one.
pub proof fn law_verification_contents(action: VerificationAction, event: VerificationEvent)
    ensures
        match (action, action@) {
            (VerificationAction::LoadOwnDevice, verification::ActionView::LoadOwnDevice) => true,
            (VerificationAction::ListDevices, verification::ActionView::ListDevices) => true,
            (
                VerificationAction::Ask { device_id },
                verification::ActionView::Ask { device_id: d },
            ) => device_id@ == d,
            (VerificationAction::Respond, verification::ActionView::Respond) => true,
            _ => false,
        },
        match event {
            VerificationEvent::Done => event@ is Done,
            VerificationEvent::Failed => event@ is Failed,
            VerificationEvent::OwnDevice(own) => event@ is OwnDevice && is_same(
                own,
                event@->OwnDevice_0,
            ),
            VerificationEvent::Devices(devices) => event@ is Devices
                && event@->Devices_0.len() == devices@.len() && forall|i: int|
                0 <= i < devices@.len() ==> (#[trigger] event@->Devices_0[i]) == devices@[i]@,
        },
{
}

} // verus!
