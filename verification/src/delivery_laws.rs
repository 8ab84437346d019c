//! What holds of every delivery, whatever Matrix and the database do.

use vstd::prelude::*;

use crate::delivery::{
    self, ActionView, DeliveryView, EventView, PlanView, SentView, StageView,
};
use crate::error;
use crate::message::{MessageFormat, RequestView, ResponseView};
use crate::room_setup::RoomChange;

verus! {

/// A delivery that has just begun.
pub open spec fn started(plan: PlanView) -> DeliveryView {
    DeliveryView { plan, stage: StageView::FindingClient }
}

/// The delivery of `plan` after `events` have come of its actions, one by one.
pub open spec fn after(plan: PlanView, events: Seq<EventView>) -> DeliveryView
    decreases events.len(),
{
    if events.len() == 0 {
        started(plan)
    } else {
        after(plan, events.drop_last()).next(events.last())
    }
}

/// Each of the events can come of the action that it comes of.
pub open spec fn is_run(plan: PlanView, events: Seq<EventView>) -> bool
    decreases events.len(),
{
    events.len() > 0 ==> {
        &&& is_run(plan, events.drop_last())
        &&& after(plan, events.drop_last()).expects(events.last())
    }
}

/// The actions that the events came of, in their order.
pub open spec fn actions(plan: PlanView, events: Seq<EventView>) -> Seq<ActionView> {
    Seq::new(events.len(), |i: int| after(plan, events.take(i)).action())
}

/// The action puts an event into the room.
pub open spec fn sends(action: ActionView) -> bool {
    action is SendImage || action is SendMessage
}

/// The action looks something up and changes nothing.
pub open spec fn only_looks(action: ActionView) -> bool {
    action is FindClient || action is FindRoom || action is ReadEncryption || action is LoadRecord
}

/// The place of a stage in the order in which a delivery goes through its stages.
pub open spec fn rank(stage: StageView) -> int {
    match stage {
        StageView::FindingClient => 0,
        StageView::FindingRoom => 1,
        StageView::ReadingEncryption => 2,
        StageView::LoadingRecord => 3,
        StageView::SavingRecord => 4,
        StageView::FetchingImage => 5,
        StageView::SendingImage => 6,
        StageView::SendingMessage { .. } => 7,
        StageView::CompletingRecord { .. } => 8,
        StageView::AwaitingReceipt { .. } => 9,
        StageView::NotingFailure { .. } => 10,
        StageView::NotingVerification { .. } => 11,
        StageView::DiscardingKey { .. } => 12,
        StageView::Withdrawing { .. } => 12,
        StageView::Answered { .. } => 13,
    }
}

/// The plan stays what it was, and no stage asks for what the plan does not have.
pub proof fn lemma_plan_stays(plan: PlanView, events: Seq<EventView>)
    requires
        is_run(plan, events),
    ensures
        after(plan, events).plan == plan,
        after(plan, events).well_formed(),
    decreases events.len(),
{
    if events.len() > 0 {
        lemma_plan_stays(plan, events.drop_last());
    }
}

/// A run goes on where a part of it ends.
pub proof fn lemma_take_is_run(plan: PlanView, events: Seq<EventView>, n: int)
    requires
        is_run(plan, events),
        0 <= n <= events.len(),
    ensures
        is_run(plan, events.take(n)),
        n < events.len() ==> after(plan, events.take(n)).expects(events[n]),
        n < events.len() ==> after(plan, events.take(n + 1)) == after(plan, events.take(n)).next(
            events[n],
        ),
        events.take(events.len() as int) == events,
    decreases events.len(),
{
    assert(events.take(events.len() as int) =~= events);
    if n < events.len() {
        let shorter = events.drop_last();
        assert(shorter.take(n) =~= events.take(n));
        if n < shorter.len() {
            lemma_take_is_run(plan, shorter, n);
            assert(shorter.take(n + 1) =~= events.take(n + 1));
        } else {
            assert(events.take(n) =~= shorter);
            assert(events.take(n + 1) =~= events);
        }
    }
}

/// Every step leads to a later stage.
proof fn lemma_rank_rises(plan: PlanView, events: Seq<EventView>, m: int, n: int)
    requires
        is_run(plan, events),
        0 <= m < n <= events.len(),
    ensures
        rank(after(plan, events.take(m)).stage) < rank(after(plan, events.take(n)).stage),
    decreases n - m,
{
    lemma_take_is_run(plan, events, n - 1);
    lemma_plan_stays(plan, events.take(n - 1));
    if m < n - 1 {
        lemma_rank_rises(plan, events, m, n - 1);
    }
}

/// A delivery comes to an end: it takes at most thirteen actions before it
/// answers, and none after.
pub proof fn law_delivery_ends(plan: PlanView, events: Seq<EventView>)
    requires
        is_run(plan, events),
    ensures
        events.len() <= 13,
        events.len() == 13 ==> after(plan, events).stage is Answered,
        after(plan, events).stage is Answered ==> forall|event: EventView|
            !after(plan, events).expects(event),
    decreases events.len(),
{
    lemma_rank_counts(plan, events);
}

/// The place of a stage is at least the number of steps that led to it.
proof fn lemma_rank_counts(plan: PlanView, events: Seq<EventView>)
    requires
        is_run(plan, events),
    ensures
        events.len() <= rank(after(plan, events).stage),
    decreases events.len(),
{
    if events.len() > 0 {
        lemma_rank_counts(plan, events.drop_last());
        lemma_plan_stays(plan, events.drop_last());
    }
}

/// A delivery sends its message at most once and its image at most once, the
/// image before the message. In particular an accepted message is not sent again
/// when the monitor does not decrypt it.
pub proof fn law_each_event_is_sent_once(plan: PlanView, events: Seq<EventView>, m: int, n: int)
    requires
        is_run(plan, events),
        0 <= m < n < events.len(),
    ensures
        actions(plan, events)[m] is SendMessage ==> !sends(actions(plan, events)[n]),
        actions(plan, events)[m] is SendImage ==> !(actions(plan, events)[n] is SendImage),
{
    lemma_rank_rises(plan, events, m, n);
}

/// Delivery never falls back to another encryption mode: what is sent is sent in
/// the mode of the plan, and an encrypted delivery sends nothing unless the room
/// was found to be encrypted.
pub proof fn law_no_plaintext_fallback(plan: PlanView, events: Seq<EventView>)
    requires
        is_run(plan, events),
    ensures
        match after(plan, events).action() {
            ActionView::SendImage { encrypted, .. } => encrypted == plan.encrypted,
            ActionView::SendMessage { encrypted, .. } => encrypted == plan.encrypted,
            _ => true,
        },
        sends(after(plan, events).action()) && plan.encrypted ==> events.contains(
            EventView::Encryption(true),
        ),
{
    lemma_plan_stays(plan, events);
    lemma_encryption_was_seen(plan, events);
}

/// No encrypted delivery gets past the reading of the encryption state unless the
/// room is encrypted.
proof fn lemma_encryption_was_seen(plan: PlanView, events: Seq<EventView>)
    requires
        is_run(plan, events),
    ensures
        plan.encrypted && 3 <= rank(after(plan, events).stage) && !(after(
            plan,
            events,
        ).stage matches StageView::Answered { answer: Err(_) }) ==> events.contains(
            EventView::Encryption(true),
        ),
    decreases events.len(),
{
    if events.len() > 0 {
        let before = events.drop_last();
        lemma_encryption_was_seen(plan, before);
        lemma_plan_stays(plan, before);
        assert(events.last() == events[events.len() - 1]);
        assert(before.contains(EventView::Encryption(true)) ==> events.contains(
            EventView::Encryption(true),
        )) by {
            if before.contains(EventView::Encryption(true)) {
                let i = choose|i: int|
                    0 <= i < before.len() && before[i] == EventView::Encryption(true);
                assert(events[i] == EventView::Encryption(true));
            }
        }
    }
}

/// Matrix accepted the message under this event ID.
pub open spec fn accepted_message(
    plan: PlanView,
    events: Seq<EventView>,
    event_id: Seq<char>,
) -> bool {
    exists|i: int|
        0 <= i < events.len() && (#[trigger] actions(plan, events)[i]) is SendMessage && events[i]
            == EventView::Sent(event_id)
}

/// Matrix accepted the image under this event ID.
pub open spec fn accepted_image(
    plan: PlanView,
    events: Seq<EventView>,
    event_id: Seq<char>,
) -> bool {
    exists|i: int|
        0 <= i < events.len() && (#[trigger] actions(plan, events)[i]) is SendImage && events[i]
            == EventView::Sent(event_id)
}

/// The events of a delivery are those that Matrix accepted: the message, and the
/// image if and only if there is one.
pub open spec fn accepted(plan: PlanView, events: Seq<EventView>, sent: SentView) -> bool {
    &&& accepted_message(plan, events, sent.event_id)
    &&& accepted_if_any(plan, events, sent.image_event_id)
}

/// The image event is the one that Matrix accepted, if there is an image.
pub open spec fn accepted_if_any(
    plan: PlanView,
    events: Seq<EventView>,
    image_event_id: Option<Seq<char>>,
) -> bool {
    &&& image_event_id is Some <==> plan.image_url is Some
    &&& image_event_id matches Some(id) ==> accepted_image(plan, events, id)
}

/// One more event leaves the earlier actions and what came of them as they were.
pub proof fn lemma_earlier_actions_stay(plan: PlanView, events: Seq<EventView>)
    requires
        events.len() > 0,
    ensures
        actions(plan, events) == actions(plan, events.drop_last()).push(
            after(plan, events.drop_last()).action(),
        ),
        forall|id: Seq<char>| #[trigger]
            accepted_message(plan, events.drop_last(), id) ==> accepted_message(plan, events, id),
        forall|id: Seq<char>| #[trigger]
            accepted_image(plan, events.drop_last(), id) ==> accepted_image(plan, events, id),
{
    let before = events.drop_last();
    let n = before.len() as int;
    assert(events.take(n) =~= before);
    assert forall|i: int| 0 <= i < n implies actions(plan, events)[i] == actions(
        plan,
        before,
    )[i] by {
        assert(events.take(i) =~= before.take(i));
    }
    assert(actions(plan, events) =~= actions(plan, before).push(after(plan, before).action()));
    assert forall|id: Seq<char>| #[trigger] accepted_message(plan, before, id) implies
        accepted_message(plan, events, id) by {
        let i = choose|i: int|
            0 <= i < before.len() && (#[trigger] actions(plan, before)[i]) is SendMessage
                && before[i] == EventView::Sent(id);
        assert(actions(plan, events)[i] is SendMessage && events[i] == EventView::Sent(id));
    }
    assert forall|id: Seq<char>| #[trigger] accepted_image(plan, before, id) implies
        accepted_image(plan, events, id) by {
        let i = choose|i: int|
            0 <= i < before.len() && (#[trigger] actions(plan, before)[i]) is SendImage
                && before[i] == EventView::Sent(id);
        assert(actions(plan, events)[i] is SendImage && events[i] == EventView::Sent(id));
    }
}

/// At every stage, what the delivery takes to be sent has been accepted.
pub proof fn lemma_sent_was_accepted(plan: PlanView, events: Seq<EventView>)
    requires
        is_run(plan, events),
    ensures
        match after(plan, events).stage {
            StageView::FetchingImage | StageView::SendingImage => plan.image_url is Some,
            StageView::SendingMessage { image_event_id, .. } => accepted_if_any(
                plan,
                events,
                image_event_id,
            ),
            StageView::CompletingRecord { sent } => accepted(plan, events, sent),
            StageView::AwaitingReceipt { sent } => accepted(plan, events, sent) && plan.encrypted,
            StageView::NotingFailure { sent } => accepted(plan, events, sent) && plan.encrypted,
            StageView::NotingVerification { sent, .. } => accepted(plan, events, sent)
                && plan.encrypted,
            StageView::DiscardingKey { sent } => accepted(plan, events, sent) && plan.encrypted,
            StageView::Answered { answer: Ok(response) } => response.idempotent_replay || {
                &&& accepted(
                    plan,
                    events,
                    SentView {
                        event_id: response.event_id,
                        image_event_id: response.image_event_id,
                    },
                )
                &&& response.room_id == plan.room_id
                &&& response.encrypted == plan.encrypted
                &&& response.monitor_verified is Some <==> plan.encrypted
                &&& response.excluded_device_count == 0
            },
            _ => true,
        },
    decreases events.len(),
{
    if events.len() > 0 {
        let before = events.drop_last();
        let n = before.len() as int;
        lemma_sent_was_accepted(plan, before);
        lemma_plan_stays(plan, before);
        lemma_earlier_actions_stay(plan, events);
        assert(actions(plan, events)[n] == after(plan, before).action());
        assert(events[n] == events.last());
        if let EventView::Sent(id) = events.last() {
            if after(plan, before).stage is SendingMessage {
                assert(accepted_message(plan, events, id));
            }
            if after(plan, before).stage is SendingImage {
                assert(accepted_image(plan, events, id));
            }
        }
    }
}

/// The response to a delivery that was carried out tells what was done: the
/// message and the image that Matrix accepted, the room and the encryption mode.
/// It says whether the monitor verified the delivery if and only if the delivery
/// was encrypted.
pub proof fn law_response_tells_what_was_sent(
    plan: PlanView,
    events: Seq<EventView>,
    response: ResponseView,
)
    requires
        is_run(plan, events),
        after(plan, events).stage == (StageView::Answered { answer: Ok(response) }),
        !response.idempotent_replay,
    ensures
        accepted_message(plan, events, response.event_id),
        response.image_event_id is Some <==> plan.image_url is Some,
        response.image_event_id matches Some(id) ==> accepted_image(plan, events, id),
        response.room_id == plan.room_id,
        response.encrypted == plan.encrypted,
        response.monitor_verified is Some <==> plan.encrypted,
        response.excluded_device_count == 0,
{
    lemma_sent_was_accepted(plan, events);
}

/// The monitor was waited for, and `verified` says whether it decrypted the event.
pub open spec fn awaited(
    plan: PlanView,
    events: Seq<EventView>,
    event_id: Seq<char>,
    verified: bool,
) -> bool {
    exists|i: int|
        0 <= i < events.len() && (#[trigger] actions(plan, events)[i])
            == (ActionView::AwaitReceipt { event_id }) && (events[i] is Done <==> verified)
}

proof fn lemma_monitor_was_awaited(plan: PlanView, events: Seq<EventView>)
    requires
        is_run(plan, events),
    ensures
        match after(plan, events).stage {
            StageView::NotingFailure { sent } => awaited(plan, events, sent.event_id, false),
            StageView::NotingVerification { sent, verified } => awaited(
                plan,
                events,
                sent.event_id,
                verified,
            ),
            StageView::DiscardingKey { sent } => awaited(plan, events, sent.event_id, false),
            StageView::Answered { answer: Ok(response) } => response.idempotent_replay
                || !plan.encrypted || {
                &&& response.monitor_verified is Some
                &&& awaited(plan, events, response.event_id, response.monitor_verified->0)
                &&& response.monitor_verified == Some(false) ==> actions(plan, events).last() == (
                ActionView::DiscardRoomKey { room_id: plan.room_id })
            },
            _ => true,
        },
    decreases events.len(),
{
    if events.len() > 0 {
        let before = events.drop_last();
        let n = before.len() as int;
        lemma_monitor_was_awaited(plan, before);
        lemma_plan_stays(plan, before);
        lemma_earlier_actions_stay(plan, events);
        assert(actions(plan, events)[n] == after(plan, before).action());
        assert(events[n] == events.last());
        assert forall|id: Seq<char>, verified: bool|
            awaited(plan, before, id, verified) implies awaited(plan, events, id, verified) by {
            let i = choose|i: int|
                0 <= i < before.len() && (#[trigger] actions(plan, before)[i])
                    == (ActionView::AwaitReceipt { event_id: id }) && (before[i] is Done
                    <==> verified);
            assert(actions(plan, events)[i] == actions(plan, before)[i]);
            assert(events[i] == before[i]);
        }
    }
}

/// The response to an encrypted delivery says of the very message that it names
/// whether the monitor decrypted it. Where it did not, the delivery ends by
/// dropping the session, and the message is not sent again.
pub proof fn law_monitor_status_tells_of_the_receipt(
    plan: PlanView,
    events: Seq<EventView>,
    response: ResponseView,
)
    requires
        is_run(plan, events),
        plan.encrypted,
        after(plan, events).stage == (StageView::Answered { answer: Ok(response) }),
        !response.idempotent_replay,
    ensures
        response.monitor_verified is Some,
        awaited(plan, events, response.event_id, response.monitor_verified->0),
        response.monitor_verified == Some(false) ==> actions(plan, events).last() == (
        ActionView::DiscardRoomKey { room_id: plan.room_id }),
{
    lemma_monitor_was_awaited(plan, events);
}

/// An image goes out immediately before its message: the message is sent only when
/// the last action was to send the image and Matrix accepted it.
pub proof fn law_image_comes_immediately_before(plan: PlanView, events: Seq<EventView>)
    requires
        is_run(plan, events),
        plan.image_url is Some,
        after(plan, events).action() is SendMessage,
    ensures
        events.len() > 0,
        actions(plan, events).last() is SendImage,
        events.last() is Sent,
{
    lemma_plan_stays(plan, events);
    let before = events.drop_last();
    lemma_plan_stays(plan, before);
    lemma_earlier_actions_stay(plan, events);
    assert(actions(plan, events)[before.len() as int] == after(plan, before).action());
}

/// A replayed response comes of a delivery that sent nothing and left the
/// records alone.
pub proof fn law_replay_does_nothing(
    plan: PlanView,
    events: Seq<EventView>,
    response: ResponseView,
    i: int,
)
    requires
        is_run(plan, events),
        after(plan, events).stage == (StageView::Answered { answer: Ok(response) }),
        response.idempotent_replay,
        0 <= i < events.len(),
    ensures
        only_looks(actions(plan, events)[i]),
{
    let before = events.drop_last();
    let n = before.len() as int;
    lemma_plan_stays(plan, before);
    assert(after(plan, before).stage is LoadingRecord);
    assert(events.take(n) =~= before);
    if i < n {
        lemma_rank_rises(plan, events, i, n);
    }
}

/// The errors that a delivery can come to.
pub open spec fn is_delivery_error(error: error::ErrorView) -> bool {
    ||| error == error::service_unavailable("Matrix setup has not completed"@)
    ||| error == error::bad_request("The Matrix account has not joined this room"@)
    ||| error == delivery::room_not_encrypted()
    ||| error == delivery::idempotency_conflict()
    ||| error == delivery::image_refused()
    ||| error == error::internal()
}

/// A delivery fails in one of few ways, each with its stable code. A failure of
/// Matrix, of the database or of the network shows nothing of what went wrong.
pub proof fn law_errors_are_stable(
    plan: PlanView,
    events: Seq<EventView>,
    refusal: error::ErrorView,
)
    requires
        is_run(plan, events),
        after(plan, events).stage == (StageView::Answered { answer: Err(refusal) }),
    ensures
        is_delivery_error(refusal),
{
    let before = events.drop_last();
    lemma_plan_stays(plan, before);
    lemma_withdrawn_errors(plan, before);
}

proof fn lemma_withdrawn_errors(plan: PlanView, events: Seq<EventView>)
    requires
        is_run(plan, events),
    ensures
        after(plan, events).stage is Withdrawing ==> (after(plan, events).stage->error
            == delivery::image_refused() || after(plan, events).stage->error == error::internal()),
{
    if events.len() > 0 {
        lemma_plan_stays(plan, events.drop_last());
    }
}

/// The record of the delivery in progress has been put down.
pub open spec fn saved_record(plan: PlanView, events: Seq<EventView>) -> bool {
    exists|i: int|
        0 <= i < events.len() && (#[trigger] actions(plan, events)[i]) is SaveRecord && events[i]
            == EventView::Done
}

/// A delivery that fails leaves no record in progress behind: what it put down
/// it takes back as its last action, unless Matrix had accepted the message, in
/// which case nothing is taken back.
pub proof fn law_failure_takes_the_record_back(
    plan: PlanView,
    events: Seq<EventView>,
    refusal: error::ErrorView,
)
    requires
        is_run(plan, events),
        after(plan, events).stage == (StageView::Answered { answer: Err(refusal) }),
        saved_record(plan, events),
    ensures
        (exists|id: Seq<char>| accepted_message(plan, events, id)) <==> actions(
            plan,
            events,
        ).last() is CompleteRecord,
        !(actions(plan, events).last() is CompleteRecord) ==> actions(plan, events).last() == (
        ActionView::DeleteRecord { key: plan.request_key->0 }),
{
    let before = events.drop_last();
    let n = before.len() as int;
    lemma_plan_stays(plan, before);
    lemma_earlier_actions_stay(plan, events);
    lemma_save_and_acceptance(plan, before);
    lemma_sent_was_accepted(plan, before);
    let i = choose|i: int|
        0 <= i < events.len() && (#[trigger] actions(plan, events)[i]) is SaveRecord && events[i]
            == EventView::Done;
    if i < n {
        assert(actions(plan, before)[i] is SaveRecord && before[i] == EventView::Done);
        assert(saved_record(plan, before));
    }
    if exists|id: Seq<char>| accepted_message(plan, events, id) {
        let id = choose|id: Seq<char>| accepted_message(plan, events, id);
        let j = choose|j: int|
            0 <= j < events.len() && (#[trigger] actions(plan, events)[j]) is SendMessage
                && events[j] == EventView::Sent(id);
        if j < n {
            assert(actions(plan, before)[j] is SendMessage && before[j] == EventView::Sent(id));
            assert(accepted_message(plan, before, id));
        }
    }
}

/// Where a delivery stands tells whether its record was put down and whether its
/// message was accepted.
proof fn lemma_save_and_acceptance(plan: PlanView, events: Seq<EventView>)
    requires
        is_run(plan, events),
    ensures
        saved_record(plan, events) ==> plan.request_key is Some && 4 < rank(
            after(plan, events).stage,
        ),
        rank(after(plan, events).stage) <= 7 || after(plan, events).stage is Withdrawing
            ==> forall|id: Seq<char>| !accepted_message(plan, events, id),
    decreases events.len(),
{
    if events.len() > 0 {
        let before = events.drop_last();
        let n = before.len() as int;
        lemma_plan_stays(plan, before);
        lemma_earlier_actions_stay(plan, events);
        lemma_save_and_acceptance(plan, before);
        if saved_record(plan, events) {
            let i = choose|i: int|
                0 <= i < events.len() && (#[trigger] actions(plan, events)[i]) is SaveRecord
                    && events[i] == EventView::Done;
            if i < n {
                assert(actions(plan, before)[i] is SaveRecord && before[i] == EventView::Done);
                assert(saved_record(plan, before));
            }
        }
        assert forall|id: Seq<char>|
            (rank(after(plan, events).stage) <= 7 || after(plan, events).stage is Withdrawing)
                implies !accepted_message(plan, events, id) by {
            if accepted_message(plan, events, id) {
                let j = choose|j: int|
                    0 <= j < events.len() && (#[trigger] actions(plan, events)[j]) is SendMessage
                        && events[j] == EventView::Sent(id);
                if j < n {
                    assert(actions(plan, before)[j] is SendMessage && before[j]
                        == EventView::Sent(id));
                    assert(accepted_message(plan, before, id));
                }
            }
        }
    }
}

/// The texts that an action writes to the tables or finds a row by.
pub open spec fn written(action: ActionView) -> Set<Seq<char>> {
    match action {
        ActionView::SaveRecord { key, request_hash, room_id, .. } => set![
            key,
            request_hash,
            room_id,
        ],
        ActionView::CompleteRecord { key, event_id, image_event_id } => match image_event_id {
            Some(image_event_id) => set![key, event_id, image_event_id],
            None => set![key, event_id],
        },
        ActionView::NoteFailure { event_id, room_id, .. } => set![event_id, room_id],
        ActionView::NoteVerification { key, .. } => set![key],
        ActionView::DeleteRecord { key } => set![key],
        _ => Set::empty(),
    }
}

/// No text of a request is kept in the tables but its room ID: what an action
/// writes is the digest that the record is found by, the digest of content and
/// options, the room ID, or an event ID that Matrix gave.
pub proof fn law_messages_are_not_kept(
    request: RequestView,
    default_room_id: Seq<char>,
    plan: PlanView,
    events: Seq<EventView>,
    text: Seq<char>,
)
    requires
        plan.is_for(request, default_room_id),
        is_run(plan, events),
        written(after(plan, events).action()).contains(text),
    ensures
        request.key(default_room_id) == Some(text) || text == request.hash(default_room_id) || text
            == request.effective_room(default_room_id) || accepted_message(plan, events, text)
            || accepted_image(plan, events, text),
{
    lemma_plan_stays(plan, events);
    lemma_sent_was_accepted(plan, events);
}

/// The change that an action makes to the room, if any.
pub open spec fn room_change(action: ActionView) -> Option<RoomChange> {
    match action {
        ActionView::DiscardRoomKey { .. } => Some(RoomChange::RotateSession),
        _ => None,
    }
}

/// A delivery never turns encryption on. The one change that it makes to a room is
/// to give up the outbound session, in the room of the message, after the monitor
/// did not decrypt the message.
pub proof fn law_delivery_does_not_turn_encryption_on(plan: PlanView, events: Seq<EventView>)
    requires
        is_run(plan, events),
    ensures
        room_change(after(plan, events).action()) != Some(RoomChange::EnableEncryption),
        room_change(after(plan, events).action()) is Some ==> {
            &&& plan.encrypted
            &&& after(plan, events).action() == (ActionView::DiscardRoomKey {
                room_id: plan.room_id,
            })
            &&& exists|event_id: Seq<char>|
                accepted_message(plan, events, event_id) && #[trigger] awaited(
                    plan,
                    events,
                    event_id,
                    false,
                )
        },
{
    lemma_plan_stays(plan, events);
    lemma_sent_was_accepted(plan, events);
    lemma_monitor_was_awaited(plan, events);
    if let StageView::DiscardingKey { sent } = after(plan, events).stage {
        assert(awaited(plan, events, sent.event_id, false));
    }
}

/// A request with its defaults spelled out.
pub open spec fn spelled_out(request: RequestView, default_room_id: Seq<char>) -> RequestView {
    RequestView {
        room_id: Some(request.effective_room(default_room_id)),
        format: Some(request.effective_format()),
        encrypted: Some(request.effective_encryption()),
        ..request
    }
}

/// Defaults can be left out: a request without room, format or encryption mode is
/// the same as one for the default room, in Markdown and encrypted. It is refused
/// on the same grounds, and planned in the same way down to its digests, so one is
/// a retry of the other.
pub proof fn law_defaults_can_be_left_out(
    request: RequestView,
    default_room_id: Seq<char>,
    plan: PlanView,
)
    ensures
        request.room_id is None ==> spelled_out(request, default_room_id).room_id == Some(
            default_room_id,
        ),
        request.format is None ==> spelled_out(request, default_room_id).format == Some(
            MessageFormat::Markdown,
        ),
        request.encrypted is None ==> spelled_out(request, default_room_id).encrypted == Some(true),
        spelled_out(request, default_room_id).refusal(default_room_id) == request.refusal(
            default_room_id,
        ),
        plan.is_for(spelled_out(request, default_room_id), default_room_id) <==> plan.is_for(
            request,
            default_room_id,
        ),
{
}

} // verus!
