//! The course of a delivery, action by action: what is done next, told from what was done
//! last and what came of it.

use vstd::prelude::*;

use crate::content;
use crate::delivery::{
    self, ActionView, Delivery, DeliveryAction, DeliveryEvent, DeliveryPlan, EventView, PlanView,
    SentView, StageView,
};
use crate::delivery_laws;
use crate::error::{ApiError, ErrorView, Status};
use crate::idempotency;
use crate::identity_laws;
use crate::message::{RequestView, ResponseView, SendMessageRequest, SendMessageResponse};

verus! {

/// A delivery begins exactly where its request can be planned, with that plan but for what
/// is left to chance, and first looks for the client.
pub proof fn law_delivery_begins_with_the_client(
    request: SendMessageRequest,
    default_room_id: &str,
    begun: Result<Delivery, ApiError>,
    planned: Result<DeliveryPlan, ApiError>,
    action: DeliveryAction,
)
    requires
        call_ensures(Delivery::begin, (request, default_room_id), begun),
        call_ensures(DeliveryPlan::from_request, (request, default_room_id), planned),
        begun is Ok ==> call_ensures(Delivery::action, (&begun->Ok_0,), action),
    ensures
        begun is Ok <==> planned is Ok,
        begun is Err ==> begun->Err_0@ == planned->Err_0@,
        begun is Ok ==> {
            let plan = begun->Ok_0@.plan;
            &&& plan.message == planned->Ok_0.message@
            &&& plan.format == planned->Ok_0.format
            &&& plan.encrypted == planned->Ok_0.encrypted
            &&& plan.room_id == planned->Ok_0.room_id@
            &&& plan.request_hash == planned->Ok_0.request_hash@
            &&& plan.request_key == planned->Ok_0.request_key.deep_view()
            &&& plan.image_url == planned->Ok_0.image_url.deep_view()
            &&& plan.image_alt == planned->Ok_0.image_alt@
            &&& plan.request_key is Some ==> plan.image_transaction_id
                == planned->Ok_0.image_transaction_id@ && plan.message_transaction_id
                == planned->Ok_0.message_transaction_id@
            &&& begun->Ok_0@ == delivery_laws::after(plan, Seq::empty())
            &&& delivery_laws::is_run(plan, Seq::empty())
            &&& action is FindClient
        },
{
    if let Ok(delivery) = begun {
        assert(planned->Ok_0@.request_key == planned->Ok_0.request_key.deep_view());
        assert(planned->Ok_0@.image_url == planned->Ok_0.image_url.deep_view());
    }
}

/// A delivery that has gone through a run of events takes exactly those further events
/// that the run can go on with, and goes on with them.
pub proof fn law_delivery_follows_the_run(
    delivery: Delivery,
    events: Seq<EventView>,
    event: DeliveryEvent,
    accepted: bool,
    next: Delivery,
    action: DeliveryAction,
)
    requires
        delivery_laws::is_run(delivery@.plan, events),
        delivery@ == delivery_laws::after(delivery@.plan, events),
        call_ensures(Delivery::accepts, (&delivery, &event), accepted),
        accepted ==> call_ensures(Delivery::step, (delivery, event), next),
        call_ensures(Delivery::action, (&delivery,), action),
    ensures
        action@ == delivery_laws::after(delivery@.plan, events).action(),
        accepted <==> delivery_laws::is_run(delivery@.plan, events.push(event@)),
        accepted ==> next@.plan == delivery@.plan && next@ == delivery_laws::after(
            next@.plan,
            events.push(event@),
        ),
{
    assert(events.push(event@).drop_last() =~= events);
}

/// A delivery is over exactly where the next thing to do is to respond, and then it has the
/// answer.
pub proof fn law_respond_means_answered(
    delivery: Delivery,
    action: DeliveryAction,
    answer: Option<Result<SendMessageResponse, ApiError>>,
)
    requires
        call_ensures(Delivery::action, (&delivery,), action),
        call_ensures(Delivery::into_answer, (delivery,), answer),
    ensures
        action is Respond <==> answer is Some,
        answer is Some ==> delivery@.stage == (StageView::Answered {
            answer: match answer->0 {
                Ok(response) => Ok(response@),
                Err(error) => Err(error@),
            },
        }),
{
}

/// The answer to each action: whether a room is encrypted, the record that was looked up,
/// the event that was sent, or merely that it was done. Each can fail, and there is nothing
/// to come once the delivery is answered.
pub proof fn law_events_answer_their_actions(
    plan: PlanView,
    events: Seq<EventView>,
    event: EventView,
)
    requires
        delivery_laws::is_run(plan, events),
    ensures
        ({
            let action = delivery_laws::after(plan, events).action();
            delivery_laws::is_run(plan, events.push(event)) <==> {
                ||| event is Failed && !(action is Respond)
                ||| event is Encryption && action is ReadEncryption
                ||| event is Record && action is LoadRecord
                ||| event is Sent && (action is SendImage || action is SendMessage)
                ||| event is Done && !(action is ReadEncryption || action is LoadRecord
                    || action is SendImage || action is SendMessage || action is Respond)
            }
        }),
{
    assert(events.push(event).drop_last() =~= events);
}

/// One more event in a run.
proof fn lemma_one_more(plan: PlanView, events: Seq<EventView>, event: EventView)
    requires
        delivery_laws::is_run(plan, events.push(event)),
    ensures
        delivery_laws::is_run(plan, events),
        delivery_laws::after(plan, events.push(event)) == delivery_laws::after(plan, events).next(
            event,
        ),
        delivery_laws::after(plan, events).expects(event),
        delivery_laws::after(plan, events).plan == plan,
        delivery_laws::after(plan, events).well_formed(),
        delivery_laws::after(plan, events.push(event)).plan == plan,
        delivery_laws::after(plan, events.push(event)).well_formed(),
{
    assert(events.push(event).drop_last() =~= events);
    delivery_laws::lemma_plan_stays(plan, events);
    delivery_laws::lemma_plan_stays(plan, events.push(event));
}

/// The sends of a delivery name their events: the image goes out under the transaction ID
/// for the image and the message under the one for the message, whatever came before.
pub proof fn law_sends_carry_their_transaction_ids(plan: PlanView, events: Seq<EventView>)
    requires
        delivery_laws::is_run(plan, events),
    ensures
        match delivery_laws::after(plan, events).action() {
            ActionView::SendImage { transaction_id, encrypted } => transaction_id
                == plan.image_transaction_id && encrypted == plan.encrypted,
            ActionView::SendMessage { transaction_id, encrypted, .. } => transaction_id
                == plan.message_transaction_id && encrypted == plan.encrypted,
            _ => true,
        },
{
    delivery_laws::lemma_plan_stays(plan, events);
}

/// The transaction ID that an action sends an event under.
pub open spec fn transaction_of(action: ActionView) -> Option<Seq<char>> {
    match action {
        ActionView::SendImage { transaction_id, .. } => Some(transaction_id),
        ActionView::SendMessage { transaction_id, .. } => Some(transaction_id),
        _ => None,
    }
}

/// The actions of a request's delivery that send an event: the image goes out under a
/// transaction ID that begins with `n8n-image-`, the message under one that begins with
/// `n8n-message-`. No two sends of a delivery share a transaction ID, so Matrix takes
/// neither for the other.
pub proof fn law_no_two_sends_share_a_transaction_id(
    request: RequestView,
    default_room_id: Seq<char>,
    plan: PlanView,
    events: Seq<EventView>,
    m: int,
    n: int,
)
    requires
        plan.is_for(request, default_room_id),
        delivery_laws::is_run(plan, events),
        0 <= m < n < events.len(),
        transaction_of(delivery_laws::actions(plan, events)[m]) is Some,
        transaction_of(delivery_laws::actions(plan, events)[n]) is Some,
    ensures
        delivery_laws::actions(plan, events)[m] is SendImage,
        delivery_laws::actions(plan, events)[n] is SendMessage,
        "n8n-image-"@.is_prefix_of(transaction_of(delivery_laws::actions(plan, events)[m])->0),
        "n8n-message-"@.is_prefix_of(transaction_of(delivery_laws::actions(plan, events)[n])->0),
        transaction_of(delivery_laws::actions(plan, events)[m]) != transaction_of(
            delivery_laws::actions(plan, events)[n],
        ),
{
    delivery_laws::law_each_event_is_sent_once(plan, events, m, n);
    delivery_laws::lemma_take_is_run(plan, events, m);
    delivery_laws::lemma_take_is_run(plan, events, n);
    law_sends_carry_their_transaction_ids(plan, events.take(m));
    law_sends_carry_their_transaction_ids(plan, events.take(n));
    identity_laws::law_image_and_message_have_different_transaction_ids(
        request,
        default_room_id,
        plan,
    );
    lemma_transaction_ids_begin(plan.request_key, plan.image_transaction_id, true);
    lemma_transaction_ids_begin(plan.request_key, plan.message_transaction_id, false);
}

proof fn lemma_transaction_ids_begin(request_key: Option<Seq<char>>, id: Seq<char>, image: bool)
    requires
        idempotency::is_stable_transaction_id(
            request_key,
            if image {
                "image"@
            } else {
                "message"@
            },
            id,
        ),
    ensures
        image ==> "n8n-image-"@.is_prefix_of(id),
        !image ==> "n8n-message-"@.is_prefix_of(id),
{
    reveal_strlit("n8n-");
    reveal_strlit("image");
    reveal_strlit("message");
    reveal_strlit("-");
    reveal_strlit("n8n-image-");
    reveal_strlit("n8n-message-");
    assert("n8n-"@ + "image"@ + "-"@ =~= "n8n-image-"@);
    assert("n8n-"@ + "message"@ + "-"@ =~= "n8n-message-"@);
}

/// A delivery opens by looking for the client, for the room of the message, and for whether
/// that room is encrypted. Without a client it is answered with the status 503, in a room
/// that was not joined with 400, and where the room cannot be asked with 500.
pub proof fn law_client_room_and_encryption_come_first(
    plan: PlanView,
    events: Seq<EventView>,
    event: EventView,
)
    requires
        delivery_laws::is_run(plan, events.push(event)),
    ensures
        ({
            let last = delivery_laws::after(plan, events).action();
            let now = delivery_laws::after(plan, events.push(event));
            &&& events.len() == 0 <==> last is FindClient
            &&& last is FindClient && event is Done ==> now.action() == (ActionView::FindRoom {
                room_id: plan.room_id,
            })
            &&& last is FindClient && event is Failed ==> now.stage == (StageView::Answered {
                answer: Err(
                    ErrorView {
                        status: Status::ServiceUnavailable,
                        code: "SETUP_REQUIRED"@,
                        message: "Matrix setup has not completed"@,
                    },
                ),
            })
            &&& last is FindRoom && event is Done ==> now.action() == (ActionView::ReadEncryption {
                room_id: plan.room_id,
            })
            &&& last is FindRoom && event is Failed ==> now.stage == (StageView::Answered {
                answer: Err(
                    ErrorView {
                        status: Status::BadRequest,
                        code: "INVALID_REQUEST"@,
                        message: "The Matrix account has not joined this room"@,
                    },
                ),
            })
            &&& last is ReadEncryption && event is Failed ==> now.stage == (StageView::Answered {
                answer: Err(
                    ErrorView {
                        status: Status::InternalServerError,
                        code: "MATRIX_DELIVERY_FAILED"@,
                        message: "Matrix delivery failed"@,
                    },
                ),
            })
        }),
{
    lemma_one_more(plan, events, event);
    if events.len() > 0 {
        let before = events.drop_last();
        delivery_laws::lemma_plan_stays(plan, before);
    }
}

/// An encrypted message in a room that is not encrypted is answered with the status 409. In
/// any other case the delivery goes on: with the record, where the request has one, or else
/// with the image, or else with the message. So a room that is encrypted takes messages in
/// either mode, and one that is not takes those that are not to be encrypted.
pub proof fn law_encrypted_messages_need_an_encrypted_room(
    plan: PlanView,
    events: Seq<EventView>,
    encrypted: bool,
)
    requires
        delivery_laws::is_run(plan, events),
        delivery_laws::after(plan, events).action() is ReadEncryption,
    ensures
        ({
            let now = delivery_laws::after(plan, events.push(EventView::Encryption(encrypted)));
            &&& plan.encrypted && !encrypted ==> now.stage == (StageView::Answered {
                answer: Err(
                    ErrorView {
                        status: Status::Conflict,
                        code: "ROOM_ENCRYPTION_REQUIRED"@,
                        message: "The room is not configured for end-to-end encryption."@,
                    },
                ),
            })
            &&& (encrypted || !plan.encrypted) && plan.request_key is Some ==> now.action() == (
            ActionView::LoadRecord { key: plan.request_key->0 })
            &&& (encrypted || !plan.encrypted) && plan.request_key is None ==> begins_sending(
                plan,
                now.action(),
            )
        }),
{
    assert(events.push(EventView::Encryption(encrypted)).drop_last() =~= events);
    lemma_one_more(plan, events, EventView::Encryption(encrypted));
    delivery_laws::lemma_plan_stays(plan, events);
}

/// The action is the first of those that put the events of a plan into the room: the image
/// is fetched, by its URL and for its alt text, where there is one, and otherwise the
/// message is sent.
pub open spec fn begins_sending(plan: PlanView, action: ActionView) -> bool {
    &&& plan.image_url is Some ==> action == (ActionView::FetchImage {
        url: plan.image_url->0,
        alt: plan.image_alt,
    })
    &&& plan.image_url is None ==> action is SendMessage
}

/// The record that is found under the key of a request decides. Without one the delivery
/// puts one down. One of another request is a conflict, with the status 409. One of this
/// request is answered from where it names the message that was sent, and carried on with
/// where it does not.
pub proof fn law_record_decides(
    plan: PlanView,
    events: Seq<EventView>,
    event: EventView,
)
    requires
        delivery_laws::is_run(plan, events.push(event)),
        delivery_laws::after(plan, events).action() is LoadRecord,
    ensures
        ({
            let now = delivery_laws::after(plan, events.push(event));
            let save = ActionView::SaveRecord {
                key: plan.request_key->0,
                request_hash: plan.request_hash,
                room_id: plan.room_id,
                encrypted: plan.encrypted,
            };
            &&& plan.request_key is Some
            &&& event is Failed ==> now.stage == (StageView::Answered {
                answer: Err(
                    ErrorView {
                        status: Status::InternalServerError,
                        code: "MATRIX_DELIVERY_FAILED"@,
                        message: "Matrix delivery failed"@,
                    },
                ),
            })
            &&& event == EventView::Record(None) ==> now.action() == save
            &&& event matches EventView::Record(Some(record)) ==> {
                &&& record.request_hash != plan.request_hash ==> now.stage == (
                StageView::Answered {
                    answer: Err(
                        ErrorView {
                            status: Status::Conflict,
                            code: "IDEMPOTENCY_CONFLICT"@,
                            message: "request_id was already used with different delivery content or options"@,
                        },
                    ),
                })
                &&& record.request_hash == plan.request_hash && record.event_id is None
                    ==> now.action() == save
                &&& record.request_hash == plan.request_hash && record.event_id is Some
                    ==> now.stage == (StageView::Answered {
                    answer: Ok(
                        ResponseView {
                            event_id: record.event_id->0,
                            image_event_id: record.image_event_id,
                            room_id: record.room_id,
                            encrypted: record.encrypted,
                            monitor_verified: record.monitor_verified,
                            idempotent_replay: true,
                            excluded_device_count: 0,
                        },
                    ),
                })
            }
        }),
{
    lemma_one_more(plan, events, event);
}

/// Once the record is put down the events are sent, the image first. Where it cannot be put
/// down nothing is sent, and the answer has the status 500.
pub proof fn law_record_precedes_the_events(
    plan: PlanView,
    events: Seq<EventView>,
    event: EventView,
)
    requires
        delivery_laws::is_run(plan, events.push(event)),
        delivery_laws::after(plan, events).action() is SaveRecord,
    ensures
        ({
            let now = delivery_laws::after(plan, events.push(event));
            &&& event is Done ==> begins_sending(plan, now.action())
            &&& event is Failed ==> now.stage == (StageView::Answered {
                answer: Err(
                    ErrorView {
                        status: Status::InternalServerError,
                        code: "MATRIX_DELIVERY_FAILED"@,
                        message: "Matrix delivery failed"@,
                    },
                ),
            })
        }),
{
    lemma_one_more(plan, events, event);
}

/// An image that was fetched is sent, and after it the message.
pub proof fn law_image_is_fetched_then_sent_then_the_message(
    plan: PlanView,
    events: Seq<EventView>,
    event: EventView,
)
    requires
        delivery_laws::is_run(plan, events.push(event)),
    ensures
        ({
            let last = delivery_laws::after(plan, events).action();
            let now = delivery_laws::after(plan, events.push(event)).action();
            &&& last is FetchImage && event is Done ==> now == (ActionView::SendImage {
                transaction_id: plan.image_transaction_id,
                encrypted: plan.encrypted,
            })
            &&& last is SendImage && event is Sent ==> now is SendMessage
            &&& now is SendImage ==> last is FetchImage && event is Done
            &&& now is FetchImage ==> plan.image_url is Some && now == (ActionView::FetchImage {
                url: plan.image_url->0,
                alt: plan.image_alt,
            })
        }),
{
    lemma_one_more(plan, events, event);
}

/// The message is sent as its format has it: the content is that of the message of the
/// plan in the format of the plan.
pub proof fn law_message_is_sent_in_its_format(
    plan: PlanView,
    events: Seq<EventView>,
    message: &str,
    content: content::MessageContent,
)
    requires
        delivery_laws::is_run(plan, events),
        delivery_laws::after(plan, events).action() is SendMessage,
        message@ == plan.message,
        call_ensures(content::format_content, (message, plan.format), content),
    ensures
        ({
            let sent = delivery_laws::after(plan, events).action()->content;
            &&& sent.body == content.body@
            &&& sent.formatted_body is Some <==> content.formatted_body is Some
            &&& content.formatted_body is Some ==> sent.formatted_body->0
                == content.formatted_body->0@
        }),
{
    let before = events.drop_last();
    delivery_laws::lemma_plan_stays(plan, before);
    assert(content@.formatted_body == content.formatted_body.deep_view());
}

/// A delivery that fails before Matrix has the message takes its record back, where the
/// request has one, and then answers with the error. The answer has the status 400 where
/// the image could not be fetched, and 500 where an event could not be sent.
pub proof fn law_failure_before_the_message(
    plan: PlanView,
    events: Seq<EventView>,
    withdrawn: EventView,
)
    requires
        delivery_laws::is_run(plan, events.push(EventView::Failed)),
        ({
            let last = delivery_laws::after(plan, events).action();
            last is FetchImage || last is SendImage || last is SendMessage
        }),
        plan.request_key is Some ==> delivery_laws::is_run(
            plan,
            events.push(EventView::Failed).push(withdrawn),
        ),
    ensures
        ({
            let last = delivery_laws::after(plan, events).action();
            let now = delivery_laws::after(plan, events.push(EventView::Failed));
            let later = delivery_laws::after(plan, events.push(EventView::Failed).push(withdrawn));
            let answered = StageView::Answered {
                answer: Err(
                    if last is FetchImage {
                        ErrorView {
                            status: Status::BadRequest,
                            code: "INVALID_REQUEST"@,
                            message: "image_url must be a reachable HTTPS image hosted by an approved public CDN"@,
                        }
                    } else {
                        ErrorView {
                            status: Status::InternalServerError,
                            code: "MATRIX_DELIVERY_FAILED"@,
                            message: "Matrix delivery failed"@,
                        }
                    },
                ),
            };
            &&& plan.request_key is None ==> now.stage == answered
            &&& plan.request_key is Some ==> now.action() == (ActionView::DeleteRecord {
                key: plan.request_key->0,
            }) && later.stage == answered
        }),
{
    lemma_one_more(plan, events, EventView::Failed);
    if plan.request_key is Some {
        lemma_one_more(plan, events.push(EventView::Failed), withdrawn);
    }
}

/// What a delivery knows to have been sent: the message is what the last send came to, and
/// the image what the send before came to, if there is an image.
spec fn knows_what_was_sent(plan: PlanView, events: Seq<EventView>, sent: SentView, n: int) -> bool {
    &&& 0 <= n < events.len()
    &&& events[n] == EventView::Sent(sent.event_id)
    &&& delivery_laws::after(plan, events.take(n)).action() is SendMessage
    &&& plan.image_url is None ==> sent.image_event_id is None
    &&& plan.image_url is Some ==> {
        &&& n > 0
        &&& sent.image_event_id is Some
        &&& events[n - 1] == EventView::Sent(sent.image_event_id->0)
        &&& delivery_laws::after(plan, events.take(n - 1)).action() is SendImage
    }
}

/// The place of the last send of the message, at each stage after it.
spec fn sent_at(plan: PlanView, stage: StageView, n: int) -> int {
    let on_record: int = if plan.request_key is Some {
        1
    } else {
        0
    };
    match stage {
        StageView::CompletingRecord { .. } => n - 1,
        StageView::AwaitingReceipt { .. } => n - 1 - on_record,
        StageView::NotingFailure { .. } => n - 2 - on_record,
        StageView::NotingVerification { verified, .. } => if verified {
            n - 2 - on_record
        } else {
            n - 3 - on_record
        },
        StageView::DiscardingKey { .. } => n - 3 - 2 * on_record,
        _ => n,
    }
}

proof fn lemma_knows_what_was_sent(plan: PlanView, events: Seq<EventView>)
    requires
        delivery_laws::is_run(plan, events),
    ensures
        ({
            let stage = delivery_laws::after(plan, events).stage;
            let n = sent_at(plan, stage, events.len() as int);
            match stage {
                StageView::SendingMessage { image_event_id, .. } => {
                    &&& plan.image_url is None ==> image_event_id is None
                    &&& plan.image_url is Some ==> {
                        &&& events.len() > 0
                        &&& image_event_id is Some
                        &&& events.last() == EventView::Sent(image_event_id->0)
                        &&& delivery_laws::after(plan, events.drop_last()).action() is SendImage
                    }
                },
                StageView::FetchingImage | StageView::SendingImage => plan.image_url is Some,
                StageView::CompletingRecord { sent } => knows_what_was_sent(plan, events, sent, n),
                StageView::AwaitingReceipt { sent } => knows_what_was_sent(plan, events, sent, n)
                    && plan.encrypted,
                StageView::NotingFailure { sent } => knows_what_was_sent(plan, events, sent, n)
                    && plan.encrypted,
                StageView::NotingVerification { sent, .. } => knows_what_was_sent(
                    plan,
                    events,
                    sent,
                    n,
                ) && plan.encrypted,
                StageView::DiscardingKey { sent } => knows_what_was_sent(plan, events, sent, n)
                    && plan.encrypted,
                _ => true,
            }
        }),
    decreases events.len(),
{
    if events.len() > 0 {
        let before = events.drop_last();
        let last = before.len() as int;
        lemma_knows_what_was_sent(plan, before);
        delivery_laws::lemma_plan_stays(plan, before);
        assert(events.take(last) =~= before);
        assert(events[last] == events.last());
        let stage = delivery_laws::after(plan, before).stage;
        let n = sent_at(plan, stage, last);
        if stage is SendingMessage {
            if plan.image_url is Some {
                assert(events.take(last - 1) =~= before.drop_last());
                assert(events[last - 1] == before.last());
            }
        } else if 0 <= n < last {
            assert(events.take(n) =~= before.take(n));
            assert(events[n] == before[n]);
            if n > 0 {
                assert(events.take(n - 1) =~= before.take(n - 1));
                assert(events[n - 1] == before[n - 1]);
            }
        }
    }
}

/// A message that Matrix took is put on record at once, under the key of the request and
/// with the events that Matrix gave: the message's, and the image's if there is one. Where
/// that fails, the answer has the status 500.
pub proof fn law_sent_message_is_put_on_record(
    plan: PlanView,
    events: Seq<EventView>,
    event_id: Seq<char>,
)
    requires
        delivery_laws::is_run(plan, events),
        delivery_laws::after(plan, events).action() is SendMessage,
        plan.request_key is Some,
    ensures
        ({
            let sent = events.push(EventView::Sent(event_id));
            let now = delivery_laws::after(plan, sent).action();
            let failed = delivery_laws::after(plan, sent.push(EventView::Failed));
            &&& now is CompleteRecord
            &&& now == (ActionView::CompleteRecord {
                key: plan.request_key->0,
                event_id,
                image_event_id: if plan.image_url is Some {
                    Some(events.last()->Sent_0)
                } else {
                    None
                },
            })
            &&& plan.image_url is Some ==> events.len() > 0 && events.last() is Sent
                && delivery_laws::after(plan, events.drop_last()).action() is SendImage
            &&& failed.stage == (StageView::Answered {
                answer: Err(
                    ErrorView {
                        status: Status::InternalServerError,
                        code: "MATRIX_DELIVERY_FAILED"@,
                        message: "Matrix delivery failed"@,
                    },
                ),
            })
        }),
{
    let sent = events.push(EventView::Sent(event_id));
    assert(sent.drop_last() =~= events);
    assert(sent.push(EventView::Failed).drop_last() =~= sent);
    lemma_one_more(plan, events, EventView::Sent(event_id));
    lemma_knows_what_was_sent(plan, events);
}

/// A message that was not to be encrypted is answered as soon as it is sent and, where the
/// request has a record, on record. The response names the room, the mode and the events
/// that Matrix gave, and says nothing of the monitor.
pub proof fn law_plain_message_is_answered_at_once(
    plan: PlanView,
    events: Seq<EventView>,
    event_id: Seq<char>,
)
    requires
        delivery_laws::is_run(plan, events),
        delivery_laws::after(plan, events).action() is SendMessage,
        !plan.encrypted,
    ensures
        ({
            let sent = events.push(EventView::Sent(event_id));
            let end = if plan.request_key is Some {
                sent.push(EventView::Done)
            } else {
                sent
            };
            delivery_laws::after(plan, end).stage == (StageView::Answered {
                answer: Ok(
                    ResponseView {
                        event_id,
                        image_event_id: if plan.image_url is Some {
                            Some(events.last()->Sent_0)
                        } else {
                            None
                        },
                        room_id: plan.room_id,
                        encrypted: false,
                        monitor_verified: None,
                        idempotent_replay: false,
                        excluded_device_count: 0,
                    },
                ),
            })
        }),
{
    let sent = events.push(EventView::Sent(event_id));
    assert(sent.drop_last() =~= events);
    assert(sent.push(EventView::Done).drop_last() =~= sent);
    lemma_one_more(plan, events, EventView::Sent(event_id));
    lemma_knows_what_was_sent(plan, events);
}

/// An encrypted message is waited for as soon as it is sent and, where the request has a
/// record, on record: the monitor has to decrypt the very event that Matrix gave.
pub proof fn law_encrypted_message_is_awaited(
    plan: PlanView,
    events: Seq<EventView>,
    event_id: Seq<char>,
)
    requires
        delivery_laws::is_run(plan, events),
        delivery_laws::after(plan, events).action() is SendMessage,
        plan.encrypted,
    ensures
        ({
            let sent = events.push(EventView::Sent(event_id));
            let end = if plan.request_key is Some {
                sent.push(EventView::Done)
            } else {
                sent
            };
            delivery_laws::after(plan, end).action() == (ActionView::AwaitReceipt { event_id })
        }),
{
    let sent = events.push(EventView::Sent(event_id));
    assert(sent.drop_last() =~= events);
    assert(sent.push(EventView::Done).drop_last() =~= sent);
    lemma_one_more(plan, events, EventView::Sent(event_id));
}

/// A message that the monitor decrypted is answered as verified, after that has been added
/// to the record where the request has one. Whether it could be added makes no difference.
pub proof fn law_received_message_is_verified(
    plan: PlanView,
    events: Seq<EventView>,
    event_id: Seq<char>,
    noted: EventView,
)
    requires
        delivery_laws::is_run(plan, events),
        delivery_laws::after(plan, events).action() == (ActionView::AwaitReceipt { event_id }),
        noted is Done || noted is Failed,
    ensures
        ({
            let received = events.push(EventView::Done);
            let now = delivery_laws::after(plan, received);
            let end = if plan.request_key is Some {
                received.push(noted)
            } else {
                received
            };
            let stage = delivery_laws::after(plan, end).stage;
            &&& plan.request_key is Some ==> now.action() == (ActionView::NoteVerification {
                key: plan.request_key->0,
                verified: true,
            })
            &&& stage matches StageView::Answered { answer: Ok(response) } && {
                &&& response.event_id == event_id
                &&& response.image_event_id is Some <==> plan.image_url is Some
                &&& response.room_id == plan.room_id
                &&& response.encrypted
                &&& response.monitor_verified == Some(true)
                &&& !response.idempotent_replay
                &&& response.excluded_device_count == 0
            }
        }),
{
    let received = events.push(EventView::Done);
    assert(received.drop_last() =~= events);
    assert(received.push(noted).drop_last() =~= received);
    delivery_laws::lemma_plan_stays(plan, events);
    lemma_knows_what_was_sent(plan, events);
    assert(delivery_laws::is_run(plan, received));
    delivery_laws::lemma_plan_stays(plan, received);
}

/// A message that the monitor did not decrypt is put down as such, in its room and as the
/// first attempt, and on its record where the request has one. Then the session is dropped,
/// and the message is answered as not verified. Whether any of this succeeds makes no
/// difference, and the message is not sent again.
pub proof fn law_missed_message_is_reported(
    plan: PlanView,
    events: Seq<EventView>,
    event_id: Seq<char>,
    put_down: EventView,
    noted: EventView,
    dropped: EventView,
)
    requires
        delivery_laws::is_run(plan, events),
        delivery_laws::after(plan, events).action() == (ActionView::AwaitReceipt { event_id }),
        put_down is Done || put_down is Failed,
        noted is Done || noted is Failed,
        dropped is Done || dropped is Failed,
    ensures
        ({
            let missed = events.push(EventView::Failed);
            let known = missed.push(put_down);
            let on_record = if plan.request_key is Some {
                known.push(noted)
            } else {
                known
            };
            let stage = delivery_laws::after(plan, on_record.push(dropped)).stage;
            &&& delivery_laws::after(plan, missed).action() == (ActionView::NoteFailure {
                event_id,
                room_id: plan.room_id,
                attempt: 1,
            })
            &&& plan.request_key is Some ==> delivery_laws::after(plan, known).action() == (
            ActionView::NoteVerification { key: plan.request_key->0, verified: false })
            &&& delivery_laws::after(plan, on_record).action() == (ActionView::DiscardRoomKey {
                room_id: plan.room_id,
            })
            &&& stage matches StageView::Answered { answer: Ok(response) } && {
                &&& response.event_id == event_id
                &&& response.image_event_id is Some <==> plan.image_url is Some
                &&& response.room_id == plan.room_id
                &&& response.encrypted
                &&& response.monitor_verified == Some(false)
                &&& !response.idempotent_replay
                &&& response.excluded_device_count == 0
            }
        }),
{
    let missed = events.push(EventView::Failed);
    let known = missed.push(put_down);
    let on_record = if plan.request_key is Some {
        known.push(noted)
    } else {
        known
    };
    assert(missed.drop_last() =~= events);
    assert(known.drop_last() =~= missed);
    assert(known.push(noted).drop_last() =~= known);
    assert(on_record.push(dropped).drop_last() =~= on_record);
    delivery_laws::lemma_plan_stays(plan, events);
    lemma_knows_what_was_sent(plan, events);
}

} // verus!
