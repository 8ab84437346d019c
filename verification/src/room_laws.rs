//! The course of a change of a room and of a request for verification, action by action, and
//! what their callers are told.

use vstd::prelude::*;

use crate::error::{ApiError, ErrorView, Status};
use crate::identifier;
use crate::message::{self, Field, FieldValueView};
use crate::room_setup::{
    self, ActionView, ChangedView, RoomAction, RoomChange, RoomChanged, RoomEvent, RoomSetup,
    StageView,
};
use crate::verification::{
    self, verification_targets, Verification, VerificationAction, VerificationEvent,
    VerificationRequestResponse, VerificationView,
};

verus! {

/// A change begins exactly where it is confirmed and names a room: a text that begins with an
/// exclamation mark and holds no NUL. Otherwise it is answered with the status 400 and what is
/// wrong, the confirmation first.
pub proof fn law_change_begins_where_confirmed(
    change: RoomChange,
    confirm: bool,
    room_id: &str,
    outcome: Result<RoomSetup, ApiError>,
    action: RoomAction,
)
    requires
        call_ensures(RoomSetup::begin, (change, confirm, room_id), outcome),
        outcome is Ok ==> call_ensures(RoomSetup::action, (&outcome->Ok_0,), action),
    ensures
        outcome is Ok <==> confirm && room_id@.len() > 0 && room_id@[0] == '!'
            && !room_id@.contains('\0'),
        outcome is Ok ==> action is FindClient && outcome->Ok_0@ == room_setup::after(
            change,
            room_id@,
            Seq::empty(),
        ) && room_setup::is_run(change, room_id@, Seq::empty()),
        outcome is Err ==> {
            let error = outcome->Err_0;
            &&& error.status == Status::BadRequest
            &&& error.code@ == "INVALID_REQUEST"@
            &&& confirm ==> error.message@ == "room_id must be a canonical Matrix room ID"@
            &&& !confirm && change == RoomChange::EnableEncryption ==> error.message@
                == "Set confirm to true to enable room encryption"@
            &&& !confirm && change == RoomChange::RotateSession ==> error.message@
                == "Set confirm to true to rotate the room encryption session"@
        },
{
}

/// A change that has gone through events takes exactly those further events that it can go on
/// with, and goes on with them. It is over exactly where the next thing to do is to respond,
/// and then it has the answer.
pub proof fn law_change_follows_its_events(
    change: RoomChange,
    room_id: Seq<char>,
    events: Seq<RoomEvent>,
    setup: RoomSetup,
    event: RoomEvent,
    accepted: bool,
    next: RoomSetup,
    action: RoomAction,
    answer: Option<Result<RoomChanged, ApiError>>,
)
    requires
        room_setup::is_run(change, room_id, events),
        setup@ == room_setup::after(change, room_id, events),
        call_ensures(RoomSetup::accepts, (&setup, event), accepted),
        accepted ==> call_ensures(RoomSetup::step, (setup, event), next),
        call_ensures(RoomSetup::action, (&setup,), action),
        call_ensures(RoomSetup::into_answer, (setup,), answer),
    ensures
        action@ == room_setup::after(change, room_id, events).action(),
        accepted <==> room_setup::is_run(change, room_id, events.push(event)),
        accepted ==> next@ == room_setup::after(change, room_id, events.push(event)),
        action is Respond <==> answer is Some,
        answer is Some ==> setup@.stage == (StageView::Answered {
            answer: match answer->0 {
                Ok(changed) => Ok(ChangedView { room_id: changed.room_id@, change: changed.change }),
                Err(error) => Err(error@),
            },
        }),
{
    assert(events.push(event).drop_last() =~= events);
}

proof fn lemma_one_more(
    change: RoomChange,
    room_id: Seq<char>,
    events: Seq<RoomEvent>,
    event: RoomEvent,
)
    requires
        room_setup::is_run(change, room_id, events.push(event)),
    ensures
        room_setup::is_run(change, room_id, events),
        room_setup::after(change, room_id, events).expects(event),
        room_setup::after(change, room_id, events.push(event)) == room_setup::after(
            change,
            room_id,
            events,
        ).next(event),
        room_setup::after(change, room_id, events).change == change,
        room_setup::after(change, room_id, events).room_id == room_id,
{
    assert(events.push(event).drop_last() =~= events);
    lemma_change_stays(change, room_id, events);
}

proof fn lemma_change_stays(change: RoomChange, room_id: Seq<char>, events: Seq<RoomEvent>)
    ensures
        room_setup::after(change, room_id, events).change == change,
        room_setup::after(change, room_id, events).room_id == room_id,
    decreases events.len(),
{
    if events.len() > 0 {
        lemma_change_stays(change, room_id, events.drop_last());
    }
}

/// A change looks for the client and for the room. A rotation asks in addition whether the
/// room is encrypted. Then the room is changed as was asked, and the answer says so.
pub proof fn law_change_takes_its_course(
    change: RoomChange,
    room_id: Seq<char>,
    events: Seq<RoomEvent>,
    event: RoomEvent,
)
    requires
        room_setup::is_run(change, room_id, events.push(event)),
        !(event is Failed),
    ensures
        ({
            let last = room_setup::after(change, room_id, events).action();
            let now = room_setup::after(change, room_id, events.push(event));
            let rotates = change == RoomChange::RotateSession;
            &&& last is FindClient ==> event is Done && now.action() == (ActionView::FindRoom {
                room_id,
            })
            &&& last is FindRoom && !rotates ==> event is Done && now.action() == (
            ActionView::EnableEncryption { room_id })
            &&& last is FindRoom && rotates ==> event is Done && now.action() == (
            ActionView::ReadEncryption { room_id })
            &&& last is ReadEncryption ==> event is Encryption
            &&& last is ReadEncryption && rotates && event == RoomEvent::Encryption(true)
                ==> now.action() == (ActionView::DiscardRoomKey { room_id })
            &&& last is ReadEncryption && event == RoomEvent::Encryption(false) ==> now.stage == (
            StageView::Answered {
                answer: Err(
                    ErrorView {
                        status: Status::Conflict,
                        code: "ROOM_ENCRYPTION_REQUIRED"@,
                        message: "The room is not configured for end-to-end encryption"@,
                    },
                ),
            })
            &&& last is EnableEncryption || last is DiscardRoomKey ==> event is Done && now.stage
                == (StageView::Answered { answer: Ok(ChangedView { room_id, change }) })
            &&& !(last is Respond)
        }),
{
    lemma_one_more(change, room_id, events, event);
}

/// How a change fails: with the status 503 without a client, 400 in a room that was not
/// joined, and 500 where Matrix does not say whether the room is encrypted or does not change
/// it. Encryption that could not be turned on has a code of its own.
pub proof fn law_change_fails_with_its_error(
    change: RoomChange,
    room_id: Seq<char>,
    events: Seq<RoomEvent>,
)
    requires
        room_setup::is_run(change, room_id, events),
        !(room_setup::after(change, room_id, events).action() is Respond),
    ensures
        room_setup::is_run(change, room_id, events.push(RoomEvent::Failed)),
        ({
            let last = room_setup::after(change, room_id, events).action();
            let now = room_setup::after(change, room_id, events.push(RoomEvent::Failed)).stage;
            &&& last is FindClient ==> now == (StageView::Answered {
                answer: Err(
                    ErrorView {
                        status: Status::ServiceUnavailable,
                        code: "SETUP_REQUIRED"@,
                        message: "Matrix setup has not completed"@,
                    },
                ),
            })
            &&& last is FindRoom ==> now == (StageView::Answered {
                answer: Err(
                    ErrorView {
                        status: Status::BadRequest,
                        code: "INVALID_REQUEST"@,
                        message: "The Matrix account has not joined this room"@,
                    },
                ),
            })
            &&& last is ReadEncryption || last is DiscardRoomKey ==> now == (StageView::Answered {
                answer: Err(
                    ErrorView {
                        status: Status::InternalServerError,
                        code: "MATRIX_DELIVERY_FAILED"@,
                        message: "Matrix delivery failed"@,
                    },
                ),
            })
            &&& last is EnableEncryption ==> now == (StageView::Answered {
                answer: Err(
                    ErrorView {
                        status: Status::InternalServerError,
                        code: "MATRIX_ENCRYPTION_ENABLE_FAILED"@,
                        message: "Matrix could not enable room encryption; check Matrix Service logs"@,
                    },
                ),
            })
        }),
{
    assert(events.push(RoomEvent::Failed).drop_last() =~= events);
    lemma_change_stays(change, room_id, events);
}

/// The JSON object that the caller of a change receives: the room, and that it is encrypted.
/// After a rotation it says in addition that the session was dropped and that no restart is
/// needed.
pub proof fn law_change_members(changed: &RoomChanged, fields: Vec<Field>)
    requires
        call_ensures(RoomChanged::fields, (changed,), fields),
    ensures
        ({
            let members = message::field_views(fields@);
            &&& members[0] == ("room_id"@, FieldValueView::Text(changed.room_id@))
            &&& members[1] == ("encrypted"@, FieldValueView::Flag(true))
            &&& changed.change == RoomChange::EnableEncryption ==> fields@.len() == 2
            &&& changed.change == RoomChange::RotateSession ==> {
                &&& fields@.len() == 4
                &&& members[2] == ("invalidated"@, FieldValueView::Flag(true))
                &&& members[3] == ("restart_required"@, FieldValueView::Flag(false))
            }
        }),
{
    assert(message::field_views(fields@).len() == fields@.len());
}

/// No device is asked where there is none.
pub proof fn law_no_devices_no_targets(
    own: Option<&str>,
    devices: Vec<String>,
    targets: Vec<String>,
)
    requires
        devices@.len() == 0,
        call_ensures(verification_targets, (own, devices), targets),
    ensures
        targets@.len() == 0,
{
    assert(devices.deep_view() =~= Seq::empty());
    reveal(Seq::filter);
    assert(targets.deep_view().len() == targets@.len());
}

/// One more device is one more to ask, after the others, unless it is the monitor's own:
/// then it makes no difference.
pub proof fn law_other_devices_are_targets(
    own: Option<&str>,
    devices: Vec<String>,
    device: String,
    more: Vec<String>,
    targets: Vec<String>,
    more_targets: Vec<String>,
)
    requires
        more.deep_view() == devices.deep_view().push(device@),
        call_ensures(verification_targets, (own, devices), targets),
        call_ensures(verification_targets, (own, more), more_targets),
    ensures
        own is Some && own->0@ == device@ ==> more_targets.deep_view() == targets.deep_view(),
        own is None || own->0@ != device@ ==> more_targets.deep_view() == targets.deep_view().push(
            device@,
        ),
{
    assert(more.deep_view().drop_last() =~= devices.deep_view());
    reveal(Seq::filter);
}

/// A request for verification begins exactly where the monitor is available and its user ID
/// is one. Otherwise it is answered with the status 503 or 400, the monitor first.
pub proof fn law_verification_begins_with_the_monitor(
    monitor_available: bool,
    monitor_user_id: &str,
    outcome: Result<Verification, ApiError>,
    is_user_id: bool,
    outcome_for: Result<Verification, ApiError>,
)
    requires
        call_ensures(Verification::begin, (monitor_available, monitor_user_id), outcome),
        is_user_id == identifier::is_user_id_text(monitor_user_id@),
        call_ensures(Verification::begin_for, (monitor_available, is_user_id), outcome_for),
    ensures
        outcome is Ok <==> monitor_available && is_user_id,
        outcome is Ok <==> outcome_for is Ok,
        outcome is Ok ==> outcome->Ok_0@ == verification::after(Seq::empty()) && outcome->Ok_0@
            == outcome_for->Ok_0@ && verification::is_run(Seq::empty()),
        outcome is Err ==> {
            let error = outcome->Err_0;
            &&& error@ == outcome_for->Err_0@
            &&& !monitor_available ==> error.status == Status::ServiceUnavailable && error.code@
                == "SETUP_REQUIRED"@ && error.message@
                == "Matrix delivery monitor has not completed setup"@
            &&& monitor_available ==> error.status == Status::BadRequest && error.code@
                == "INVALID_REQUEST"@ && error.message@
                == "MATRIX_MONITOR_USER_ID is not a canonical Matrix user ID"@
        },
{
}

/// A request for verification that has gone through events takes exactly those further events
/// that it can go on with, and goes on with them. It is over exactly where the next thing to do
/// is to respond, and then it has the answer.
pub proof fn law_verification_follows_its_events(
    events: Seq<verification::EventView>,
    request: Verification,
    event: VerificationEvent,
    accepted: bool,
    next: Verification,
    action: VerificationAction,
    answer: Option<Result<VerificationRequestResponse, ApiError>>,
)
    requires
        verification::is_run(events),
        request@ == verification::after(events),
        call_ensures(Verification::accepts, (&request, &event), accepted),
        accepted ==> call_ensures(Verification::step, (request, event), next),
        call_ensures(Verification::action, (&request,), action),
        call_ensures(Verification::into_answer, (request,), answer),
    ensures
        action@ == verification::after(events).action(),
        accepted <==> verification::is_run(events.push(event@)),
        accepted ==> next@ == verification::after(events.push(event@)),
        action is Respond <==> answer is Some,
        answer is Some ==> request@ == (VerificationView::Answered {
            answer: match answer->0 {
                Ok(response) => Ok(response.requested_device_ids.deep_view()),
                Err(error) => Err(error@),
            },
        }),
{
    assert(events.push(event@).drop_last() =~= events);
}

/// A request for verification looks up the monitor's own device, lists the devices of the
/// account, and asks those that are not the monitor's own, one by one. It fails with the
/// status 500 where any of this fails, and with 400 where there is no device to ask.
pub proof fn law_verification_takes_its_course(
    events: Seq<verification::EventView>,
    event: verification::EventView,
    own: Option<&str>,
    devices: Vec<String>,
    targets: Vec<String>,
)
    requires
        verification::is_run(events.push(event)),
        call_ensures(verification_targets, (own, devices), targets),
        events.len() == 1 ==> events[0] == verification::EventView::OwnDevice(own.deep_view())
            && (event is Failed || event == verification::EventView::Devices(devices.deep_view())),
        events.len() > 1 ==> events[0] == verification::EventView::OwnDevice(own.deep_view())
            && events[1] == verification::EventView::Devices(devices.deep_view()),
    ensures
        ({
            let last = verification::after(events).action();
            let now = verification::after(events.push(event));
            let n = events.len() - 1;
            &&& events.len() == 0 ==> last is LoadOwnDevice && (event is OwnDevice || event
                is Failed)
            &&& events.len() == 1 ==> last is ListDevices
            &&& event is Failed ==> now == (VerificationView::Answered {
                answer: Err(
                    ErrorView {
                        status: Status::InternalServerError,
                        code: "MATRIX_DELIVERY_FAILED"@,
                        message: "Matrix delivery failed"@,
                    },
                ),
            })
            &&& events.len() == 0 && !(event is Failed) ==> now.action() is ListDevices
            &&& events.len() >= 1 && !(event is Failed) && targets@.len() == 0 ==> events.len() == 1
                && now == (VerificationView::Answered {
                answer: Err(
                    ErrorView {
                        status: Status::BadRequest,
                        code: "INVALID_REQUEST"@,
                        message: "No other Matrix devices are available for verification"@,
                    },
                ),
            })
            &&& events.len() >= 1 && !(event is Failed) && n < targets@.len() ==> now.action() == (
            verification::ActionView::Ask { device_id: targets@[n]@ })
            &&& events.len() >= 2 && !(event is Failed) && n >= targets@.len() ==> n
                == targets@.len() && now == (VerificationView::Answered {
                answer: Ok(targets.deep_view()),
            })
        }),
{
    let whole = events.push(event);
    assert(whole.drop_last() =~= events);
    verification::lemma_asking(events);
    verification::lemma_asking(whole);
    assert(targets.deep_view().len() == targets@.len());
    if events.len() > 0 {
        assert(whole[0] == events[0]);
    }
    if events.len() > 1 {
        assert(whole[1] == events[1]);
    }
}

} // verus!
