//! What holds of the delivery records and of the retries that they answer.

use vstd::prelude::*;

use crate::delivery::{self, ActionView, EventView, PlanView, StageView};
use crate::delivery_laws;
use crate::idempotency::RecordView;
use crate::identity_laws;
use crate::message::{RequestView, ResponseView};

verus! {

/// The record under a key, if there is one.
pub open spec fn lookup(table: Map<Seq<char>, RecordView>, key: Seq<char>) -> Option<RecordView> {
    if table.dom().contains(key) {
        Some(table[key])
    } else {
        None
    }
}

/// A record is complete once it holds an event ID; until then it is in progress.
pub open spec fn is_complete(table: Map<Seq<char>, RecordView>, key: Seq<char>) -> bool {
    table.dom().contains(key) && table[key].event_id is Some
}

/// What an action does to the records. Actions that do not concern them leave
/// them as they are.
pub open spec fn effect(table: Map<Seq<char>, RecordView>, action: ActionView) -> Map<
    Seq<char>,
    RecordView,
> {
    match action {
        ActionView::SaveRecord { key, request_hash, room_id, encrypted } => if table.dom().contains(
            key,
        ) {
            table
        } else {
            table.insert(
                key,
                RecordView {
                    request_hash,
                    room_id,
                    encrypted,
                    event_id: None,
                    image_event_id: None,
                    monitor_verified: None,
                },
            )
        },
        ActionView::CompleteRecord { key, event_id, image_event_id } => if table.dom().contains(
            key,
        ) {
            table.insert(
                key,
                RecordView { event_id: Some(event_id), image_event_id, ..table[key] },
            )
        } else {
            table
        },
        ActionView::NoteVerification { key, verified } => if table.dom().contains(key) {
            table.insert(key, RecordView { monitor_verified: Some(verified), ..table[key] })
        } else {
            table
        },
        ActionView::DeleteRecord { key } => if is_complete(table, key) {
            table
        } else {
            table.remove(key)
        },
        _ => table,
    }
}

/// `event` can come of `action` with the records `before` it and `later`. What
/// is looked up is what is there. An action that is reported as failed may or may
/// not have had its effect.
pub open spec fn outcome(
    before: Map<Seq<char>, RecordView>,
    action: ActionView,
    event: EventView,
    later: Map<Seq<char>, RecordView>,
) -> bool {
    &&& later == effect(before, action) || (event is Failed && later == before)
    &&& match action {
        ActionView::LoadRecord { key } => event is Failed || event == EventView::Record(
            lookup(before, key),
        ),
        _ => true,
    }
}

/// A run of a delivery with the records at each point of it, the delivery having
/// the records to itself.
pub open spec fn is_recorded_run(
    plan: PlanView,
    events: Seq<EventView>,
    tables: Seq<Map<Seq<char>, RecordView>>,
) -> bool
    decreases events.len(),
{
    &&& tables.len() == events.len() + 1
    &&& events.len() > 0 ==> {
        let before = delivery_laws::after(plan, events.drop_last());
        &&& is_recorded_run(plan, events.drop_last(), tables.drop_last())
        &&& before.expects(events.last())
        &&& outcome(
            tables[tables.len() - 2],
            before.action(),
            events.last(),
            tables[tables.len() - 1],
        )
    }
}

/// The record of a plan in progress is there and is its own.
spec fn in_progress(
    plan: PlanView,
    first: Map<Seq<char>, RecordView>,
    table: Map<Seq<char>, RecordView>,
) -> bool {
    let key = plan.request_key->0;
    &&& !is_complete(first, key)
    &&& table.dom().contains(key)
    &&& table[key].event_id is None
    &&& table[key].request_hash == plan.request_hash
    &&& if first.dom().contains(key) {
        &&& first[key].request_hash == plan.request_hash
        &&& table[key].room_id == first[key].room_id
        &&& table[key].encrypted == first[key].encrypted
        &&& table[key].monitor_verified == first[key].monitor_verified
    } else {
        &&& table[key].room_id == plan.room_id
        &&& table[key].encrypted == plan.encrypted
        &&& table[key].monitor_verified is None
    }
}

/// The record of a plan holds the events that were sent.
spec fn on_record(
    plan: PlanView,
    first: Map<Seq<char>, RecordView>,
    table: Map<Seq<char>, RecordView>,
    event_id: Seq<char>,
    image_event_id: Option<Seq<char>>,
    monitor_verified: Option<bool>,
) -> bool {
    let key = plan.request_key->0;
    &&& !is_complete(first, key)
    &&& table.dom().contains(key)
    &&& table[key].event_id == Some(event_id)
    &&& table[key].image_event_id == image_event_id
    &&& table[key].request_hash == plan.request_hash
    &&& if first.dom().contains(key) {
        &&& first[key].request_hash == plan.request_hash
        &&& table[key].room_id == first[key].room_id
        &&& table[key].encrypted == first[key].encrypted
        &&& first[key].monitor_verified is None ==> table[key].monitor_verified is None
            || table[key].monitor_verified == monitor_verified
    } else {
        &&& table[key].room_id == plan.room_id
        &&& table[key].encrypted == plan.encrypted
        &&& table[key].monitor_verified is None || table[key].monitor_verified == monitor_verified
    }
}

/// What the records hold of a plan with a key at a stage.
spec fn stage_records(
    plan: PlanView,
    stage: StageView,
    first: Map<Seq<char>, RecordView>,
    table: Map<Seq<char>, RecordView>,
) -> bool {
    let key = plan.request_key->0;
    match stage {
        StageView::FindingClient
        | StageView::FindingRoom
        | StageView::ReadingEncryption
        | StageView::LoadingRecord => table == first,
        StageView::SavingRecord => table == first && !is_complete(first, key) && (
        first.dom().contains(key) ==> first[key].request_hash == plan.request_hash),
        StageView::FetchingImage
        | StageView::SendingImage
        | StageView::SendingMessage { .. }
        | StageView::CompletingRecord { .. }
        | StageView::Withdrawing { .. } => in_progress(plan, first, table),
        StageView::AwaitingReceipt { sent } => on_record(
            plan,
            first,
            table,
            sent.event_id,
            sent.image_event_id,
            None,
        ),
        StageView::NotingFailure { sent } => on_record(
            plan,
            first,
            table,
            sent.event_id,
            sent.image_event_id,
            None,
        ),
        StageView::NotingVerification { sent, .. } => on_record(
            plan,
            first,
            table,
            sent.event_id,
            sent.image_event_id,
            None,
        ),
        StageView::DiscardingKey { sent } => on_record(
            plan,
            first,
            table,
            sent.event_id,
            sent.image_event_id,
            Some(false),
        ),
        StageView::Answered { answer } => match answer {
            Ok(response) => if response.idempotent_replay {
                &&& table == first
                &&& is_complete(first, key)
                &&& first[key].request_hash == plan.request_hash
                &&& response == delivery::replay(first[key], first[key].event_id->0)
            } else {
                on_record(
                    plan,
                    first,
                    table,
                    response.event_id,
                    response.image_event_id,
                    response.monitor_verified,
                )
            },
            Err(_) => (is_complete(first, key) || first.dom().contains(key)
                && first[key].request_hash != plan.request_hash) ==> table == first,
        },
    }
}

/// The records of other requests are left alone, and the own record is what the
/// stage says.
proof fn lemma_records_at_stage(
    plan: PlanView,
    events: Seq<EventView>,
    tables: Seq<Map<Seq<char>, RecordView>>,
)
    requires
        is_recorded_run(plan, events, tables),
    ensures
        delivery_laws::is_run(plan, events),
        plan.request_key is None ==> tables.last() == tables[0],
        plan.request_key is Some ==> stage_records(
            plan,
            delivery_laws::after(plan, events).stage,
            tables[0],
            tables.last(),
        ),
        forall|other: Seq<char>|
            plan.request_key != Some(other) ==> #[trigger] lookup(tables.last(), other) == lookup(
                tables[0],
                other,
            ),
    decreases events.len(),
{
    if events.len() > 0 {
        let earlier = events.drop_last();
        lemma_records_at_stage(plan, earlier, tables.drop_last());
        delivery_laws::lemma_plan_stays(plan, earlier);
        let before = delivery_laws::after(plan, earlier);
        let table = tables[tables.len() - 2];
        assert(tables.drop_last().last() == table);
        assert(tables.drop_last()[0] == tables[0]);
        assert(tables.last() == tables[tables.len() - 1]);
        assert forall|other: Seq<char>| plan.request_key != Some(other) implies #[trigger] lookup(
            tables.last(),
            other,
        ) == lookup(tables[0], other) by {
            assert(lookup(table, other) == lookup(tables[0], other));
        }
    }
}

/// A delivery touches no record but its own, and none at all without a request
/// ID.
pub proof fn law_other_records_are_untouched(
    plan: PlanView,
    events: Seq<EventView>,
    tables: Seq<Map<Seq<char>, RecordView>>,
    key: Seq<char>,
)
    requires
        is_recorded_run(plan, events, tables),
        plan.request_key != Some(key),
    ensures
        lookup(tables.last(), key) == lookup(tables[0], key),
{
    lemma_records_at_stage(plan, events, tables);
}

/// A complete record stays as it is through every delivery that follows, under
/// the same key or another.
pub proof fn law_complete_records_are_kept(
    plan: PlanView,
    events: Seq<EventView>,
    tables: Seq<Map<Seq<char>, RecordView>>,
    key: Seq<char>,
)
    requires
        is_recorded_run(plan, events, tables),
        is_complete(tables[0], key),
    ensures
        lookup(tables.last(), key) == lookup(tables[0], key),
{
    lemma_records_at_stage(plan, events, tables);
}

/// A delivery with a request ID that is carried out leaves a complete record of
/// the events that it sent.
pub proof fn law_carried_out_is_on_record(
    plan: PlanView,
    events: Seq<EventView>,
    tables: Seq<Map<Seq<char>, RecordView>>,
    response: ResponseView,
)
    requires
        is_recorded_run(plan, events, tables),
        plan.request_key is Some,
        delivery_laws::after(plan, events).stage == (StageView::Answered { answer: Ok(response) }),
    ensures
        is_complete(tables.last(), plan.request_key->0),
        tables.last()[plan.request_key->0].request_hash == plan.request_hash,
        tables.last()[plan.request_key->0].event_id == Some(response.event_id),
        tables.last()[plan.request_key->0].image_event_id == response.image_event_id,
{
    lemma_records_at_stage(plan, events, tables);
}

/// A request with the key of a complete record is answered from the record, and
/// nothing is done but to look things up: with the recorded response where content and options are the
/// same, with a conflict where they are not.
pub proof fn law_complete_record_answers(
    plan: PlanView,
    events: Seq<EventView>,
    tables: Seq<Map<Seq<char>, RecordView>>,
    i: int,
)
    requires
        is_recorded_run(plan, events, tables),
        plan.request_key is Some,
        is_complete(tables[0], plan.request_key->0),
        0 <= i < events.len(),
    ensures
        delivery_laws::only_looks(delivery_laws::actions(plan, events)[i]),
        match delivery_laws::after(plan, events).stage {
            StageView::Answered { answer: Ok(response) } => {
                let record = tables[0][plan.request_key->0];
                &&& record.request_hash == plan.request_hash
                &&& response == delivery::replay(record, record.event_id->0)
            },
            StageView::Answered { answer: Err(_) } => true,
            stage => delivery_laws::only_looks(delivery_laws::after(plan, events).action()),
        },
    decreases events.len(),
{
    lemma_records_at_stage(plan, events, tables);
    let earlier = events.drop_last();
    let n = earlier.len() as int;
    lemma_records_at_stage(plan, earlier, tables.drop_last());
    assert(tables.drop_last()[0] == tables[0]);
    delivery_laws::lemma_earlier_actions_stay(plan, events);
    if i < n {
        law_complete_record_answers(plan, earlier, tables.drop_last(), i);
    }
}

/// The request of a delivery whose room, content or options differ from those on
/// record under its key sends nothing and changes no record: it does nothing but
/// look things up. It is refused with a conflict, unless it is refused before the
/// record is read.
pub proof fn law_changed_request_is_refused(
    plan: PlanView,
    events: Seq<EventView>,
    tables: Seq<Map<Seq<char>, RecordView>>,
    i: int,
)
    requires
        is_recorded_run(plan, events, tables),
        plan.request_key is Some,
        tables[0].dom().contains(plan.request_key->0),
        tables[0][plan.request_key->0].request_hash != plan.request_hash,
        0 <= i < events.len(),
    ensures
        delivery_laws::only_looks(delivery_laws::actions(plan, events)[i]),
        tables.last() == tables[0],
        match delivery_laws::after(plan, events).stage {
            StageView::Answered { answer } => answer == Err::<ResponseView, _>(
                delivery::idempotency_conflict(),
            ) || answer == Err::<ResponseView, _>(delivery::room_not_encrypted())
                || events.last() is Failed,
            stage => delivery_laws::only_looks(delivery_laws::after(plan, events).action()),
        },
    decreases events.len(),
{
    lemma_records_at_stage(plan, events, tables);
    let earlier = events.drop_last();
    let n = earlier.len() as int;
    lemma_records_at_stage(plan, earlier, tables.drop_last());
    delivery_laws::lemma_plan_stays(plan, earlier);
    assert(tables.drop_last()[0] == tables[0]);
    assert(tables.drop_last().last() == tables[tables.len() - 2]);
    delivery_laws::lemma_earlier_actions_stay(plan, events);
    if i < n {
        law_changed_request_is_refused(plan, earlier, tables.drop_last(), i);
    }
}

/// A record was saved for a request: it is under the key of the request and has
/// its hash, its room and its encryption mode. What came of the request is on it
/// only once the events are.
pub open spec fn is_saved_for(
    key: Seq<char>,
    record: RecordView,
    request: RequestView,
    default_room_id: Seq<char>,
) -> bool {
    &&& request.refusal(default_room_id) is None
    &&& request.key(default_room_id) == Some(key)
    &&& record.request_hash == request.hash(default_room_id)
    &&& record.room_id == request.effective_room(default_room_id)
    &&& record.encrypted == request.effective_encryption()
    &&& record.event_id is None ==> record.image_event_id is None && record.monitor_verified is None
}

/// A request that was handled: its plan, what came of the actions, and the records
/// at each point.
pub struct Handled {
    pub request: RequestView,
    pub default_room_id: Seq<char>,
    pub plan: PlanView,
    pub events: Seq<EventView>,
    pub tables: Seq<Map<Seq<char>, RecordView>>,
}

impl Handled {
    /// The request was accepted, and its delivery ran as planned for it.
    pub open spec fn is_sound(self) -> bool {
        &&& self.request.refusal(self.default_room_id) is None
        &&& self.plan.is_for(self.request, self.default_room_id)
        &&& is_recorded_run(self.plan, self.events, self.tables)
    }

    /// The delivery was answered with this response.
    pub open spec fn is_answered(self, response: ResponseView) -> bool {
        delivery_laws::after(self.plan, self.events).stage == (StageView::Answered {
            answer: Ok(response),
        })
    }

    /// A record was saved for the request.
    pub open spec fn has_saved(self, key: Seq<char>, record: RecordView) -> bool {
        is_saved_for(key, record, self.request, self.default_room_id)
    }

    /// The request and another do not share key and hash while they differ in room
    /// or encryption mode.
    pub open spec fn is_told_apart_from(self, other: Handled) -> bool {
        are_told_apart(self.request, self.default_room_id, other.request, other.default_room_id)
    }
}

/// Some records may have been deleted; those that are left are what they were.
pub open spec fn is_left(
    later: Map<Seq<char>, RecordView>,
    earlier: Map<Seq<char>, RecordView>,
) -> bool {
    forall|key: Seq<char>| #[trigger]
        later.dom().contains(key) ==> earlier.dom().contains(key) && later[key] == earlier[key]
}

/// The records before the request at `n` of a history was handled. There are none at
/// first.
pub open spec fn records_before(history: Seq<Handled>, n: int) -> Map<Seq<char>, RecordView> {
    if n == 0 {
        Map::empty()
    } else {
        history[n - 1].tables.last()
    }
}

/// Requests that were handled one after another, from the first on. In between,
/// records may be deleted.
pub open spec fn is_history(history: Seq<Handled>) -> bool {
    forall|i: int|
        0 <= i < history.len() ==> (#[trigger] history[i]).is_sound() && is_left(
            history[i].tables[0],
            records_before(history, i),
        )
}

/// A record was saved for one of the first `n` requests of a history.
pub open spec fn is_of_history(
    history: Seq<Handled>,
    n: int,
    key: Seq<char>,
    record: RecordView,
) -> bool {
    exists|j: int| 0 <= j < n && (#[trigger] history[j]).has_saved(key, record)
}

proof fn lemma_run_keeps_to_the_history(
    history: Seq<Handled>,
    i: int,
    events: Seq<EventView>,
    tables: Seq<Map<Seq<char>, RecordView>>,
)
    requires
        0 <= i < history.len(),
        history[i].is_sound(),
        is_recorded_run(history[i].plan, events, tables),
        forall|key: Seq<char>| #[trigger]
            tables[0].dom().contains(key) ==> is_of_history(history, i + 1, key, tables[0][key]),
    ensures
        forall|key: Seq<char>| #[trigger]
            tables.last().dom().contains(key) ==> is_of_history(
                history,
                i + 1,
                key,
                tables.last()[key],
            ),
    decreases events.len(),
{
    let handled = history[i];
    if events.len() == 0 {
        assert(tables.last() == tables[0]);
    } else {
        let earlier = events.drop_last();
        let table = tables[tables.len() - 2];
        let later = tables.last();
        assert(tables.drop_last()[0] == tables[0]);
        assert(tables.drop_last().last() == table);
        lemma_run_keeps_to_the_history(history, i, earlier, tables.drop_last());
        lemma_records_at_stage(handled.plan, earlier, tables.drop_last());
        delivery_laws::lemma_plan_stays(handled.plan, earlier);
        assert forall|key: Seq<char>| #[trigger] later.dom().contains(key) implies is_of_history(
            history,
            i + 1,
            key,
            later[key],
        ) by {
            if table.dom().contains(key) {
                assert(is_of_history(history, i + 1, key, table[key]));
                let j = choose|j: int|
                    0 <= j < i + 1 && (#[trigger] history[j]).has_saved(key, table[key]);
                assert(history[j].has_saved(key, later[key]));
            } else {
                assert(history[i].has_saved(key, later[key]));
            }
        }
    }
}

/// The records are those of the requests that were handled: at every point, each has
/// the room and the encryption mode of a request that was handled before and that
/// it was saved for.
pub proof fn law_records_are_of_handled_requests(history: Seq<Handled>, n: int)
    requires
        is_history(history),
        0 <= n <= history.len(),
    ensures
        forall|key: Seq<char>| #[trigger]
            records_before(history, n).dom().contains(key) ==> is_of_history(
                history,
                n,
                key,
                records_before(history, n)[key],
            ),
    decreases n,
{
    if n > 0 {
        let i = n - 1;
        law_records_are_of_handled_requests(history, i);
        let handled = history[i];
        assert(handled.is_sound() && is_left(handled.tables[0], records_before(history, i)));
        assert forall|key: Seq<char>| #[trigger]
            handled.tables[0].dom().contains(key) implies is_of_history(
            history,
            i + 1,
            key,
            handled.tables[0][key],
        ) by {
            assert(records_before(history, i).dom().contains(key));
            let j = choose|j: int|
                0 <= j < i && (#[trigger] history[j]).has_saved(
                    key,
                    records_before(history, i)[key],
                );
            assert(history[j].has_saved(key, handled.tables[0][key]));
        }
        lemma_run_keeps_to_the_history(history, i, handled.events, handled.tables);
    }
}

/// Two requests with the same key and the same hash are for the same room and in
/// the same encryption mode.
pub open spec fn are_told_apart(
    request: RequestView,
    default_room_id: Seq<char>,
    other: RequestView,
    other_default_room_id: Seq<char>,
) -> bool {
    request.key(default_room_id) == other.key(other_default_room_id) && request.hash(
        default_room_id,
    ) == other.hash(other_default_room_id) ==> {
        &&& request.effective_room(default_room_id) == other.effective_room(other_default_room_id)
        &&& request.effective_encryption() == other.effective_encryption()
    }
}

/// Keys and hashes tell requests apart, where their digests do not collide and two
/// of message, image URL and alt text hold no NUL.
pub proof fn law_requests_are_told_apart(
    request: RequestView,
    default_room_id: Seq<char>,
    other: RequestView,
    other_default_room_id: Seq<char>,
)
    requires
        request.refusal(default_room_id) is None,
        other.refusal(other_default_room_id) is None,
        identity_laws::is_plainly_delimited(
            request.message,
            request.image_url,
            request.image_alt,
            other.message,
            other.image_url,
            other.image_alt,
        ),
        request.hash(default_room_id) == other.hash(other_default_room_id) ==> request.identity(
            default_room_id,
        ) == other.identity(other_default_room_id),
    ensures
        are_told_apart(request, default_room_id, other, other_default_room_id),
{
    if request.hash(default_room_id) == other.hash(other_default_room_id) {
        identity_laws::law_request_hash_covers_content_and_options(
            request.message,
            request.effective_room(default_room_id),
            request.effective_format(),
            request.effective_encryption(),
            request.image_url,
            request.image_alt,
            other.message,
            other.effective_room(other_default_room_id),
            other.effective_format(),
            other.effective_encryption(),
            other.image_url,
            other.image_alt,
        );
    }
}

/// The latest request of a history is told apart from those before it.
pub open spec fn ends_distinctly(history: Seq<Handled>) -> bool {
    forall|j: int|
        0 <= j < history.len() ==> (#[trigger] history[j]).is_told_apart_from(history.last())
}

/// A record that the latest request of a history found in progress or complete
/// under its key, with its hash, is of its room and its mode.
proof fn lemma_found_record_is_alike(history: Seq<Handled>, key: Seq<char>)
    requires
        is_history(history),
        history.len() > 0,
        ends_distinctly(history),
        history.last().plan.request_key == Some(key),
        history.last().tables[0].dom().contains(key),
    ensures
        ({
            let found = history.last().tables[0][key];
            let plan = history.last().plan;
            &&& found.request_hash == plan.request_hash ==> found.room_id == plan.room_id
                && found.encrypted == plan.encrypted
            &&& found.event_id is None ==> found.monitor_verified is None
        }),
{
    let n = history.len() - 1;
    law_records_are_of_handled_requests(history, n);
    let handled = history[n];
    assert(handled.is_sound() && is_left(handled.tables[0], records_before(history, n)));
    assert(records_before(history, n).dom().contains(key));
    let j = choose|j: int|
        0 <= j < n && (#[trigger] history[j]).has_saved(key, records_before(history, n)[key]);
    assert(history[j].is_told_apart_from(history.last()));
}

/// An answer names the room and the encryption mode that the request asks for,
/// whether its events were sent for it or for an earlier request that the record
/// is of.
pub proof fn law_answer_names_room_and_mode(history: Seq<Handled>, response: ResponseView)
    requires
        is_history(history),
        history.len() > 0,
        ends_distinctly(history),
        history.last().is_answered(response),
    ensures
        response.room_id == history.last().request.effective_room(history.last().default_room_id),
        response.encrypted == history.last().request.effective_encryption(),
{
    let handled = history.last();
    assert(history[history.len() - 1].is_sound());
    lemma_records_at_stage(handled.plan, handled.events, handled.tables);
    delivery_laws::lemma_sent_was_accepted(handled.plan, handled.events);
    if response.idempotent_replay {
        lemma_replay_needs_a_key(handled.plan, handled.events);
        lemma_found_record_is_alike(history, handled.plan.request_key->0);
    }
}

/// A request that names neither room nor encryption mode is answered with the
/// default room and as encrypted, at the first delivery and at every retry.
pub proof fn law_default_answer_is_encrypted_in_the_default_room(
    history: Seq<Handled>,
    response: ResponseView,
)
    requires
        is_history(history),
        history.len() > 0,
        ends_distinctly(history),
        history.last().is_answered(response),
        history.last().request.room_id is None,
        history.last().request.encrypted is None,
    ensures
        response.room_id == history.last().default_room_id,
        response.encrypted,
{
    law_answer_names_room_and_mode(history, response);
}

proof fn lemma_replay_needs_a_key(plan: PlanView, events: Seq<EventView>)
    requires
        delivery_laws::is_run(plan, events),
    ensures
        delivery_laws::after(plan, events).stage is LoadingRecord ==> plan.request_key is Some,
        match delivery_laws::after(plan, events).stage {
            StageView::Answered { answer: Ok(response) } => response.idempotent_replay
                ==> plan.request_key is Some,
            _ => true,
        },
    decreases events.len(),
{
    if events.len() > 0 {
        lemma_replay_needs_a_key(plan, events.drop_last());
        delivery_laws::lemma_plan_stays(plan, events.drop_last());
    }
}

/// What the monitor found was put on record as often as it was to be.
pub open spec fn is_noted(plan: PlanView, events: Seq<EventView>) -> bool {
    forall|i: int|
        0 <= i < events.len() && (#[trigger] delivery_laws::actions(plan, events)[i])
            is NoteVerification ==> events[i] is Done
}

/// The monitor status on record, stage by stage.
proof fn lemma_status_on_record(
    plan: PlanView,
    events: Seq<EventView>,
    tables: Seq<Map<Seq<char>, RecordView>>,
)
    requires
        is_recorded_run(plan, events, tables),
        plan.request_key is Some,
        is_noted(plan, events),
        tables[0].dom().contains(plan.request_key->0) && tables[0][plan.request_key->0].event_id
            is None ==> tables[0][plan.request_key->0].monitor_verified is None,
    ensures
        ({
            let record = tables.last()[plan.request_key->0];
            match delivery_laws::after(plan, events).stage {
                StageView::FetchingImage
                | StageView::SendingImage
                | StageView::SendingMessage { .. }
                | StageView::CompletingRecord { .. }
                | StageView::AwaitingReceipt { .. }
                | StageView::NotingFailure { .. }
                | StageView::NotingVerification { .. } => record.monitor_verified is None,
                StageView::DiscardingKey { .. } => record.monitor_verified == Some(false),
                StageView::Answered { answer: Ok(response) } => response.idempotent_replay
                    || record.monitor_verified == response.monitor_verified,
                _ => true,
            }
        }),
    decreases events.len(),
{
    if events.len() > 0 {
        let earlier = events.drop_last();
        let n = earlier.len() as int;
        let before = delivery_laws::after(plan, earlier);
        delivery_laws::lemma_earlier_actions_stay(plan, events);
        let actions = delivery_laws::actions(plan, events);
        assert(actions[n] == before.action());
        assert(events[n] == events.last());
        assert forall|i: int|
            0 <= i < n && (#[trigger] delivery_laws::actions(plan, earlier)[i])
                is NoteVerification implies earlier[i] is Done by {
            assert(actions[i] == delivery_laws::actions(plan, earlier)[i]);
            assert(events[i] == earlier[i]);
        }
        assert(tables.drop_last()[0] == tables[0]);
        assert(tables.drop_last().last() == tables[tables.len() - 2]);
        assert(tables.last() == tables[tables.len() - 1]);
        lemma_status_on_record(plan, earlier, tables.drop_last());
        lemma_records_at_stage(plan, earlier, tables.drop_last());
        lemma_records_at_stage(plan, events, tables);
        delivery_laws::lemma_plan_stays(plan, earlier);
    }
}

/// A request ID makes retries safe: once a delivery has been answered with its
/// events, every later delivery of the same request that finds the record in
/// place sends nothing, fetches no image and waits for no receipt. Unless what it
/// looks up cannot be had or the room is no longer encrypted, it answers with the
/// same events, room and encryption mode, and with the same monitor status as far
/// as that is on record: where it was put on record, the answer is the first one
/// but for the mark of a replay.
pub proof fn law_retry_gives_the_first_answer(
    history: Seq<Handled>,
    response: ResponseView,
    retry: PlanView,
    retry_events: Seq<EventView>,
    retry_tables: Seq<Map<Seq<char>, RecordView>>,
    i: int,
)
    requires
        is_history(history),
        history.len() > 0,
        ends_distinctly(history),
        history.last().request.request_id is Some,
        history.last().is_answered(response),
        retry.is_for(history.last().request, history.last().default_room_id),
        is_recorded_run(retry, retry_events, retry_tables),
        lookup(retry_tables[0], retry.request_key->0) == lookup(
            history.last().tables.last(),
            retry.request_key->0,
        ),
        0 <= i < retry_events.len(),
    ensures
        delivery_laws::only_looks(delivery_laws::actions(retry, retry_events)[i]),
        match delivery_laws::after(retry, retry_events).stage {
            StageView::Answered { answer: Ok(again) } => {
                &&& again.event_id == response.event_id
                &&& again.image_event_id == response.image_event_id
                &&& again.room_id == response.room_id
                &&& again.encrypted == response.encrypted
                &&& again.idempotent_replay
                &&& again.monitor_verified is None || again.monitor_verified
                    == response.monitor_verified
                &&& is_noted(history.last().plan, history.last().events) ==> again == (
                ResponseView { idempotent_replay: true, ..response })
            },
            StageView::Answered { answer: Err(refusal) } => refusal
                == delivery::room_not_encrypted() || retry_events.last() is Failed,
            stage => delivery_laws::only_looks(delivery_laws::after(retry, retry_events).action()),
        },
{
    let first = history.last();
    let plan = first.plan;
    let key = plan.request_key->0;
    assert(history[history.len() - 1].is_sound());
    lemma_records_at_stage(plan, first.events, first.tables);
    law_answer_names_room_and_mode(history, response);
    if first.tables[0].dom().contains(key) {
        lemma_found_record_is_alike(history, key);
    }
    if is_noted(plan, first.events) {
        lemma_status_on_record(plan, first.events, first.tables);
    }
    assert(is_complete(first.tables.last(), key));
    assert(is_complete(retry_tables[0], key));
    law_complete_record_answers(retry, retry_events, retry_tables, i);
    delivery_laws::lemma_sent_was_accepted(plan, first.events);
    let earlier = retry_events.drop_last();
    lemma_records_at_stage(retry, earlier, retry_tables.drop_last());
    delivery_laws::lemma_plan_stays(retry, earlier);
    assert(retry_tables.drop_last()[0] == retry_tables[0]);
    assert(retry_tables.drop_last().last() == retry_tables[retry_tables.len() - 2]);
}

} // verus!
