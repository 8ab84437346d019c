//! The course of setup, action by action: what is done next for a client, told from what
//! was done last and what came of it.

use vstd::prelude::*;
use vstd::utf8::*;

use crate::bootstrap::{
    Account, ActionView, Bootstrap, BootstrapAction, BootstrapError, BootstrapEvent, BootstrapView,
    EventView, ProgressView, Role,
};
use crate::bootstrap_laws;
use crate::config::{self, Config};
use crate::digest;

verus! {

/// Setup begins with the sender, unless it is available: then with the monitor, unless that
/// is available too. Where there is nothing to set up, setup has succeeded; where the sender
/// is to be set up and has no password, it has failed.
pub proof fn law_setup_begins_with_the_missing_client(
    config: &Config,
    sender_available: bool,
    monitor_available: bool,
    bootstrap: Bootstrap,
    action: BootstrapAction,
    outcome: Option<Result<(), BootstrapError>>,
)
    requires
        call_ensures(Bootstrap::begin, (config, sender_available, monitor_available), bootstrap),
        call_ensures(Bootstrap::action, (&bootstrap,), action),
        call_ensures(Bootstrap::outcome, (&bootstrap,), outcome),
    ensures
        bootstrap@ == bootstrap_laws::started(
            config.default_room_id@,
            config.password@,
            sender_available,
            monitor_available,
        ),
        sender_available && monitor_available ==> outcome == Some(Ok::<(), BootstrapError>(())),
        sender_available && !monitor_available ==> outcome is None && action@ == (
        ActionView::CreateDirectory { role: Role::Monitor }),
        !sender_available && config.password@.len() > 0 ==> outcome is None && action@ == (
        ActionView::CreateDirectory { role: Role::Sender }),
        !sender_available && config.password@.len() == 0 ==> outcome == Some(
            Err::<(), BootstrapError>(BootstrapError::PasswordMissing),
        ),
{
}

/// A setup that has gone through a run of events takes exactly those further events that the
/// run can go on with, and goes on with them. It is over exactly where there is nothing
/// further to do.
pub proof fn law_setup_follows_the_run(
    start: BootstrapView,
    events: Seq<EventView>,
    bootstrap: Bootstrap,
    event: BootstrapEvent,
    accepted: bool,
    next: Bootstrap,
    action: BootstrapAction,
    outcome: Option<Result<(), BootstrapError>>,
)
    requires
        bootstrap_laws::is_run(start, events),
        bootstrap@ == bootstrap_laws::after(start, events),
        call_ensures(Bootstrap::accepts, (&bootstrap, &event), accepted),
        accepted ==> call_ensures(Bootstrap::step, (bootstrap, event), next),
        call_ensures(Bootstrap::action, (&bootstrap,), action),
        call_ensures(Bootstrap::outcome, (&bootstrap,), outcome),
    ensures
        action@ == bootstrap_laws::after(start, events).action(),
        accepted <==> bootstrap_laws::is_run(start, events.push(event@)),
        accepted ==> next@ == bootstrap_laws::after(start, events.push(event@)),
        action is Finish <==> outcome is Some,
        outcome is Some ==> bootstrap@.progress == (ProgressView::Finished { outcome: outcome->0 }),
{
    assert(events.push(event@).drop_last() =~= events);
}

/// The answer to each action: whether the store that was opened holds a session, the device
/// ID that was looked up or read, or merely that it was done. Reading the device ID, watching
/// messages and publishing a client do not fail; everything else can. There is nothing to
/// come once setup is over.
pub proof fn law_setup_events_answer_their_actions(
    start: BootstrapView,
    events: Seq<EventView>,
    event: EventView,
)
    requires
        bootstrap_laws::is_run(start, events),
    ensures
        ({
            let action = bootstrap_laws::after(start, events).action();
            bootstrap_laws::is_run(start, events.push(event)) <==> {
                ||| event is Failed && !(action is ReadDeviceId || action is WatchMessages
                    || action is Publish || action is Finish)
                ||| event is Opened && action is OpenStore
                ||| event is Device && (action is LoadDeviceId || action is ReadDeviceId)
                ||| event is Done && !(action is OpenStore || action is LoadDeviceId
                    || action is ReadDeviceId || action is Finish)
            }
        }),
{
    assert(events.push(event).drop_last() =~= events);
}

/// Setup is in the state of one that has just begun.
pub open spec fn has_just_begun(start: BootstrapView) -> bool {
    start.progress matches ProgressView::Working { stage, .. } ==> stage is CreatingDirectory
}

proof fn lemma_one_more(start: BootstrapView, events: Seq<EventView>, event: EventView)
    requires
        has_just_begun(start),
        bootstrap_laws::is_run(start, events.push(event)),
    ensures
        bootstrap_laws::is_run(start, events),
        bootstrap_laws::after(start, events).expects(event),
        bootstrap_laws::after(start, events.push(event)) == bootstrap_laws::after(
            start,
            events,
        ).next(event),
        bootstrap_laws::is_sound(bootstrap_laws::after(start, events)),
        bootstrap_laws::after(start, events).default_room_id == start.default_room_id,
{
    assert(events.push(event).drop_last() =~= events);
    lemma_stays_sound(start, events);
}

proof fn lemma_stays_sound(start: BootstrapView, events: Seq<EventView>)
    requires
        has_just_begun(start),
        bootstrap_laws::is_run(start, events),
    ensures
        bootstrap_laws::is_sound(bootstrap_laws::after(start, events)),
        bootstrap_laws::after(start, events).default_room_id == start.default_room_id,
    decreases events.len(),
{
    if events.len() > 0 {
        lemma_stays_sound(start, events.drop_last());
    }
}

/// Either client logs in before its device ID is read, unless its store holds a session: the
/// device ID is read only right after the store was opened and found to hold a session, or
/// right after a login that succeeded.
pub proof fn law_device_is_read_from_a_session(
    start: BootstrapView,
    events: Seq<EventView>,
    role: Role,
)
    requires
        has_just_begun(start),
        bootstrap_laws::is_run(start, events),
        bootstrap_laws::after(start, events).action() == (ActionView::ReadDeviceId { role }),
    ensures
        events.len() > 0,
        ({
            let last = bootstrap_laws::after(start, events.drop_last()).action();
            ||| last == (ActionView::OpenStore { role }) && events.last() == (EventView::Opened {
                logged_in: true,
            })
            ||| last is Login && last->Login_role == role && events.last() is Done
        }),
{
    if events.len() > 0 {
        lemma_stays_sound(start, events.drop_last());
    }
}

/// A client whose store holds no session logs in, whichever it is: the device ID on record
/// is looked up and given to the login, and only then the client's device ID is read.
pub proof fn law_client_without_session_logs_in(
    start: BootstrapView,
    events: Seq<EventView>,
    role: Role,
    known_device: Option<Seq<char>>,
)
    requires
        has_just_begun(start),
        bootstrap_laws::is_run(start, events),
        bootstrap_laws::after(start, events).action() == (ActionView::OpenStore { role }),
    ensures
        ({
            let opened = events.push(EventView::Opened { logged_in: false });
            let looked_up = opened.push(EventView::Device(known_device));
            let logged_in = looked_up.push(EventView::Done);
            &&& bootstrap_laws::is_run(start, logged_in)
            &&& bootstrap_laws::after(start, opened).action() == (ActionView::LoadDeviceId { role })
            &&& bootstrap_laws::after(start, looked_up).action() == (ActionView::Login {
                role,
                known_device,
            })
            &&& bootstrap_laws::after(start, logged_in).action() == (ActionView::ReadDeviceId {
                role,
            })
        }),
{
    let opened = events.push(EventView::Opened { logged_in: false });
    let looked_up = opened.push(EventView::Device(known_device));
    let logged_in = looked_up.push(EventView::Done);
    assert(opened.drop_last() =~= events);
    assert(looked_up.drop_last() =~= opened);
    assert(logged_in.drop_last() =~= looked_up);
    let first = bootstrap_laws::after(start, events);
    assert(bootstrap_laws::after(start, opened) == first.next(opened.last()));
    assert(bootstrap_laws::is_run(start, opened));
    let second = bootstrap_laws::after(start, opened);
    assert(bootstrap_laws::after(start, looked_up) == second.next(looked_up.last()));
    assert(bootstrap_laws::is_run(start, looked_up));
    let third = bootstrap_laws::after(start, looked_up);
    assert(bootstrap_laws::after(start, logged_in) == third.next(logged_in.last()));
    assert(bootstrap_laws::is_run(start, logged_in));
}

/// What is done for either client: its directory is created, its store opened, and its
/// device ID read from the session and put on record.
pub proof fn law_clients_are_set_up_alike(
    start: BootstrapView,
    events: Seq<EventView>,
    event: EventView,
    role: Role,
)
    requires
        has_just_begun(start),
        bootstrap_laws::is_run(start, events.push(event)),
    ensures
        ({
            let last = bootstrap_laws::after(start, events).action();
            let now = bootstrap_laws::after(start, events.push(event)).action();
            &&& last == (ActionView::CreateDirectory { role }) && event is Done ==> now == (
            ActionView::OpenStore { role })
            &&& last == (ActionView::OpenStore { role }) && event == (EventView::Opened {
                logged_in: true,
            }) ==> now == (ActionView::ReadDeviceId { role })
            &&& last == (ActionView::OpenStore { role }) && event == (EventView::Opened {
                logged_in: false,
            }) ==> now == (ActionView::LoadDeviceId { role })
            &&& last == (ActionView::LoadDeviceId { role }) && event is Device ==> now == (
            ActionView::Login { role, known_device: event->Device_0 })
            &&& last is Login && last->Login_role == role && event is Done ==> now == (
            ActionView::ReadDeviceId { role })
            &&& last == (ActionView::ReadDeviceId { role }) && event is Device
                && event->Device_0 is Some ==> now == (ActionView::RecordDeviceId {
                role,
                device_id: event->Device_0->0,
            })
        }),
{
    lemma_one_more(start, events, event);
}

/// What is done for each client once its device ID is on record. The sender synchronizes and
/// is published, and the monitor is set up after it. The monitor watches messages before it
/// synchronizes, and has to have joined the default room before it is published; with that,
/// setup succeeds.
pub proof fn law_sender_then_monitor(
    start: BootstrapView,
    events: Seq<EventView>,
    event: EventView,
)
    requires
        has_just_begun(start),
        bootstrap_laws::is_run(start, events.push(event)),
        event is Done,
    ensures
        ({
            let last = bootstrap_laws::after(start, events).action();
            let now = bootstrap_laws::after(start, events.push(event));
            let room_id = start.default_room_id;
            let is_room = room_id.len() > 0 && room_id[0] == '!' && !room_id.contains('\0');
            &&& last is RecordDeviceId && last->RecordDeviceId_role == Role::Sender
                ==> now.action() == (ActionView::SyncOnce { role: Role::Sender })
            &&& last == (ActionView::SyncOnce { role: Role::Sender }) ==> now.action() == (
            ActionView::Publish { role: Role::Sender })
            &&& last == (ActionView::Publish { role: Role::Sender }) ==> now.action() == (
            ActionView::CreateDirectory { role: Role::Monitor })
            &&& last is RecordDeviceId && last->RecordDeviceId_role == Role::Monitor
                ==> now.action() == ActionView::WatchMessages
            &&& last == ActionView::WatchMessages ==> now.action() == (ActionView::SyncOnce {
                role: Role::Monitor,
            })
            &&& last == (ActionView::SyncOnce { role: Role::Monitor }) && is_room ==> now.action()
                == (ActionView::FindDefaultRoom { room_id })
            &&& last == (ActionView::SyncOnce { role: Role::Monitor }) && !is_room
                ==> now.progress == (ProgressView::Finished {
                outcome: Err(BootstrapError::DefaultRoomInvalid),
            })
            &&& last is FindDefaultRoom ==> now.action() == (ActionView::Publish {
                role: Role::Monitor,
            })
            &&& last == (ActionView::Publish { role: Role::Monitor }) ==> now.progress == (
            ProgressView::Finished { outcome: Ok(()) })
        }),
{
    lemma_one_more(start, events, event);
}

/// The error that setup ends with tells which action on which client failed.
pub proof fn law_setup_error_names_the_failed_action(
    start: BootstrapView,
    events: Seq<EventView>,
    event: EventView,
    role: Role,
)
    requires
        has_just_begun(start),
        bootstrap_laws::is_run(start, events.push(event)),
        event is Failed || event == EventView::Device(None),
    ensures
        ({
            let last = bootstrap_laws::after(start, events).action();
            let now = bootstrap_laws::after(start, events.push(event)).progress;
            &&& last == (ActionView::CreateDirectory { role }) ==> now == (ProgressView::Finished {
                outcome: Err(BootstrapError::DirectoryUnavailable(role)),
            })
            &&& last == (ActionView::OpenStore { role }) ==> now == (ProgressView::Finished {
                outcome: Err(BootstrapError::StoreUnavailable(role)),
            })
            &&& last == (ActionView::LoadDeviceId { role }) && event is Failed ==> now == (
            ProgressView::Finished { outcome: Err(BootstrapError::DeviceIdUnreadable(role)) })
            &&& last is Login && last->Login_role == role ==> now == (ProgressView::Finished {
                outcome: Err(BootstrapError::LoginFailed(role)),
            })
            &&& last == (ActionView::ReadDeviceId { role }) ==> now == (ProgressView::Finished {
                outcome: Err(BootstrapError::DeviceIdMissing(role)),
            })
            &&& last is RecordDeviceId && last->RecordDeviceId_role == role ==> now == (
            ProgressView::Finished { outcome: Err(BootstrapError::DeviceIdUnrecorded(role)) })
            &&& last == (ActionView::SyncOnce { role }) ==> now == (ProgressView::Finished {
                outcome: Err(BootstrapError::SyncFailed(role)),
            })
            &&& last is FindDefaultRoom ==> now == (ProgressView::Finished {
                outcome: Err(BootstrapError::DefaultRoomNotJoined),
            })
        }),
{
    lemma_one_more(start, events, event);
}

/// No action of the run failed, and every client that was asked for its device ID had one.
pub open spec fn goes_well(start: BootstrapView, events: Seq<EventView>) -> bool {
    forall|i: int|
        0 <= i < events.len() ==> !((#[trigger] events[i]) is Failed) && (
        bootstrap_laws::action_at(start, events, i) is ReadDeviceId ==> events[i]
            != EventView::Device(None))
}

/// Setup succeeds where nothing goes wrong: a run that has come to its end without a failure,
/// in which each client had a device ID, ends well, as long as the default room ID is one and
/// the sender has a password or is available.
pub proof fn law_setup_succeeds_where_nothing_fails(
    config: &Config,
    sender_available: bool,
    monitor_available: bool,
    bootstrap: Bootstrap,
    events: Seq<EventView>,
)
    requires
        call_ensures(Bootstrap::begin, (config, sender_available, monitor_available), bootstrap),
        sender_available || config.password@.len() > 0,
        config.default_room_id@.len() > 0,
        config.default_room_id@[0] == '!',
        !config.default_room_id@.contains('\0'),
        bootstrap_laws::is_run(bootstrap@, events),
        goes_well(bootstrap@, events),
    ensures
        bootstrap_laws::after(bootstrap@, events).action() is Finish ==> bootstrap_laws::after(
            bootstrap@,
            events,
        ).progress == (ProgressView::Finished { outcome: Ok(()) }),
    decreases events.len(),
{
    let start = bootstrap@;
    if events.len() > 0 {
        let earlier = events.drop_last();
        assert forall|i: int| 0 <= i < earlier.len() implies !((#[trigger] earlier[i]) is Failed)
            && (bootstrap_laws::action_at(start, earlier, i) is ReadDeviceId ==> earlier[i]
            != EventView::Device(None)) by {
            assert(earlier[i] == events[i]);
            assert(earlier.take(i) =~= events.take(i));
        }
        law_setup_succeeds_where_nothing_fails(
            config,
            sender_available,
            monitor_available,
            bootstrap,
            earlier,
        );
        let last = events.len() - 1;
        assert(events.take(last) =~= earlier);
        assert(events[last] == events.last());
        assert(!(events[last] is Failed));
        lemma_stays_sound(start, earlier);
    }
}

/// The sender logs in with its own user and password, and keeps its state under the
/// directory for the sender, encrypted with the key that is configured.
pub proof fn law_sender_account(config: &Config, account: Account)
    requires
        call_ensures(Config::account, (config, Role::Sender), account),
    ensures
        account.user_id@ == config.user_id@,
        account.password@ == config.password@,
        account.store_directory.deep_view() == seq![config.store_dir@, "sender"@],
        account.store_key@ == config.store_encryption_key@,
        account.display_name@ == "n8n Matrix Service"@,
{
    assert(account@.store_directory == account.store_directory.deep_view());
}

/// The monitor logs in with its own user and password, and keeps its state under the
/// directory for monitors, in a part named after the digest of its user. The key of its store
/// is the digest of the configured key, a label and the user, so it changes with either.
pub proof fn law_monitor_account(config: &Config, account: Account)
    requires
        call_ensures(Config::account, (config, Role::Monitor), account),
    ensures
        account.user_id@ == config.monitor_user_id@,
        account.password@ == config.monitor_password@,
        account.store_directory.deep_view() == seq![
            config.store_dir@,
            "monitor"@,
            digest::hex_sha256(encode_utf8(config.monitor_user_id@)).take(16),
        ],
        account.store_key@ == digest::hex_sha256(
            encode_utf8(config.store_encryption_key@) + encode_utf8(
                "\0matrix-delivery-monitor-store-v1"@,
            ) + encode_utf8(config.monitor_user_id@),
        ),
        account.display_name@ == "n8n Matrix Delivery Monitor"@,
{
    assert(account@.store_directory == account.store_directory.deep_view());
}

/// The paths and keys of the stores are the same wherever they are asked for.
pub proof fn law_stores_of_the_accounts(
    config: &Config,
    store_dir: &str,
    user_id: &str,
    sender: Account,
    monitor: Account,
    sender_path: Vec<String>,
    monitor_path: Vec<String>,
    key: String,
)
    requires
        store_dir@ == config.store_dir@,
        user_id@ == config.monitor_user_id@,
        call_ensures(Config::account, (config, Role::Sender), sender),
        call_ensures(Config::account, (config, Role::Monitor), monitor),
        call_ensures(config::sender_store_directory, (store_dir,), sender_path),
        call_ensures(config::monitor_store_directory, (store_dir, user_id), monitor_path),
        call_ensures(Config::monitor_store_encryption_key, (config,), key),
    ensures
        sender.store_directory.deep_view() == sender_path.deep_view(),
        monitor.store_directory.deep_view() == monitor_path.deep_view(),
        monitor.store_key@ == key@,
        sender.store_directory.deep_view() != monitor.store_directory.deep_view(),
{
    assert(sender@.store_directory == sender.store_directory.deep_view());
    assert(monitor@.store_directory == monitor.store_directory.deep_view());
    assert(sender_path.deep_view().len() != monitor_path.deep_view().len());
}

/// The message for the operator tells what was being done for which client. For the monitor
/// that has not joined the default room it tells whom to invite.
pub proof fn law_setup_messages(error: &BootstrapError, config: &Config, message: String)
    requires
        call_ensures(BootstrapError::message, (error, config), message),
    ensures
        *error == BootstrapError::PasswordMissing ==> message@
            == "MATRIX_PASSWORD is required before Matrix setup can run"@,
        *error == BootstrapError::DirectoryUnavailable(Role::Sender) ==> message@
            == "creating Matrix sender SQLite store directory"@,
        *error == BootstrapError::DirectoryUnavailable(Role::Monitor) ==> message@
            == "creating Matrix delivery-monitor SQLite store directory"@,
        *error == BootstrapError::StoreUnavailable(Role::Sender) ==> message@
            == "creating Matrix client"@,
        *error == BootstrapError::StoreUnavailable(Role::Monitor) ==> message@
            == "creating Matrix delivery-monitor client"@,
        *error == BootstrapError::DeviceIdUnreadable(Role::Sender) ==> message@
            == "loading persisted Matrix sender device ID"@,
        *error == BootstrapError::DeviceIdUnreadable(Role::Monitor) ==> message@
            == "loading persisted Matrix delivery-monitor device ID"@,
        *error == BootstrapError::LoginFailed(Role::Sender) ==> message@ == "logging into Matrix"@,
        *error == BootstrapError::LoginFailed(Role::Monitor) ==> message@
            == "logging in Matrix delivery monitor"@,
        *error == BootstrapError::DeviceIdMissing(Role::Sender) ==> message@
            == "Matrix sender login did not return a device ID"@,
        *error == BootstrapError::DeviceIdMissing(Role::Monitor) ==> message@
            == "Matrix delivery-monitor login did not return a device ID"@,
        *error == BootstrapError::DeviceIdUnrecorded(Role::Sender) ==> message@
            == "persisting Matrix device ID"@,
        *error == BootstrapError::DeviceIdUnrecorded(Role::Monitor) ==> message@
            == "persisting Matrix delivery-monitor device ID"@,
        *error == BootstrapError::SyncFailed(Role::Sender) ==> message@
            == "performing initial Matrix sync"@,
        *error == BootstrapError::SyncFailed(Role::Monitor) ==> message@
            == "performing initial Matrix delivery-monitor sync"@,
        *error == BootstrapError::DefaultRoomInvalid ==> message@
            == "parsing default Matrix room ID for delivery monitor"@,
        *error == BootstrapError::DefaultRoomNotJoined ==> message@
            == "Matrix delivery-monitor account has not joined the default room; invite "@
            + config.monitor_user_id@ + " and accept the invitation"@,
{
}

} // verus!
