//! What holds of every run of the migrations, whatever the database does.

use vstd::prelude::*;

use crate::migration_run::{ActionView, MigrationEvent, MigrationView, RunView, StageView};
use crate::migrations;

verus! {

/// A run after `events` have come of its actions, one by one.
pub open spec fn after(list: Seq<MigrationView>, events: Seq<MigrationEvent>) -> RunView
    decreases events.len(),
{
    if events.len() == 0 {
        RunView { migrations: list, stage: StageView::Locking }
    } else {
        after(list, events.drop_last()).next(events.last())
    }
}

/// Each of the events can come of the action that it comes of.
pub open spec fn is_run(list: Seq<MigrationView>, events: Seq<MigrationEvent>) -> bool
    decreases events.len(),
{
    events.len() > 0 ==> {
        &&& is_run(list, events.drop_last())
        &&& after(list, events.drop_last()).expects(events.last())
    }
}

/// The action that the event at `n` came of.
pub open spec fn action_at(
    list: Seq<MigrationView>,
    events: Seq<MigrationEvent>,
    n: int,
) -> ActionView {
    after(list, events.take(n)).action()
}

/// The versions on the ledger: those that were there, and those that the run has
/// recorded.
pub open spec fn ledger(
    list: Seq<MigrationView>,
    start: Set<Seq<char>>,
    events: Seq<MigrationEvent>,
) -> Set<Seq<char>>
    decreases events.len(),
{
    if events.len() == 0 {
        start
    } else {
        let earlier = ledger(list, start, events.drop_last());
        match after(list, events.drop_last()).action() {
            ActionView::Record { version } if events.last() is Done => earlier.insert(version),
            _ => earlier,
        }
    }
}

/// A run on a database that answers by its ledger.
pub open spec fn is_ledger_run(
    list: Seq<MigrationView>,
    start: Set<Seq<char>>,
    events: Seq<MigrationEvent>,
) -> bool
    decreases events.len(),
{
    &&& is_run(list, events)
    &&& events.len() > 0 ==> {
        let earlier = events.drop_last();
        &&& is_ledger_run(list, start, earlier)
        &&& match (after(list, earlier).action(), events.last()) {
            (ActionView::Check { version }, MigrationEvent::Known(known)) => known == ledger(
                list,
                start,
                earlier,
            ).contains(version),
            _ => true,
        }
    }
}

/// The migration at `index` is being applied: it was not on the ledger, and since
/// then its first `applied` statements have been executed in their order.
pub open spec fn is_applied_up_to(
    list: Seq<MigrationView>,
    events: Seq<MigrationEvent>,
    index: int,
    applied: int,
) -> bool {
    let first = events.len() - applied;
    let statements = migrations::statements(list[index].sql);
    &&& 1 <= first
    &&& action_at(list, events, first - 1) == (ActionView::Check { version: list[index].version })
    &&& events[first - 1] == MigrationEvent::Known(false)
    &&& forall|j: int|
        #![trigger statements[j]]
        0 <= j < applied ==> is_executed(list, events, first + j, statements[j])
}

/// The event at `n` says that the statement was executed.
pub open spec fn is_executed(
    list: Seq<MigrationView>,
    events: Seq<MigrationEvent>,
    n: int,
    statement: Seq<char>,
) -> bool {
    action_at(list, events, n) == (ActionView::Execute { statement }) && events[n] is Done
}

proof fn lemma_run_is_well_formed(list: Seq<MigrationView>, events: Seq<MigrationEvent>)
    requires
        is_run(list, events),
    ensures
        after(list, events).migrations == list,
        after(list, events).well_formed(),
    decreases events.len(),
{
    if events.len() > 0 {
        lemma_run_is_well_formed(list, events.drop_last());
    }
}

proof fn lemma_applied_one_more(
    list: Seq<MigrationView>,
    events: Seq<MigrationEvent>,
    index: int,
    applied: int,
)
    requires
        events.len() > 0,
        is_applied_up_to(list, events.drop_last(), index, applied),
        0 <= applied,
        after(list, events.drop_last()).action() == (ActionView::Execute {
            statement: migrations::statements(list[index].sql)[applied],
        }),
        events.last() is Done,
    ensures
        is_applied_up_to(list, events, index, applied + 1),
{
    let earlier = events.drop_last();
    let first = events.len() - (applied + 1);
    let statements = migrations::statements(list[index].sql);
    assert(first == earlier.len() - applied);
    assert(events.take(first - 1) =~= earlier.take(first - 1));
    assert(events[first - 1] == earlier[first - 1]);
    assert forall|j: int|
        #![trigger statements[j]]
        0 <= j < applied + 1 implies is_executed(list, events, first + j, statements[j]) by {
        if j == applied {
            assert(events.take(first + j) =~= earlier);
            assert(events[first + j] == events.last());
        } else {
            assert(is_executed(list, earlier, first + j, statements[j]));
            assert(events.take(first + j) =~= earlier.take(first + j));
            assert(events[first + j] == earlier[first + j]);
        }
    }
}

proof fn lemma_applied_up_to(list: Seq<MigrationView>, events: Seq<MigrationEvent>)
    requires
        is_run(list, events),
    ensures
        match after(list, events).stage {
            StageView::Applying { index, applied } => is_applied_up_to(
                list,
                events,
                index,
                applied,
            ),
            StageView::Recording { index } => is_applied_up_to(
                list,
                events,
                index,
                migrations::statements(list[index].sql).len() as int,
            ),
            _ => true,
        },
    decreases events.len(),
{
    if events.len() > 0 {
        let earlier = events.drop_last();
        lemma_applied_up_to(list, earlier);
        lemma_run_is_well_formed(list, earlier);
        match after(list, earlier).stage {
            StageView::Checking { index } => {
                assert(events.take(events.len() - 1) =~= earlier);
                if events.last() == MigrationEvent::Known(false) {
                    assert(is_applied_up_to(list, events, index, 0));
                }
            },
            StageView::Applying { index, applied } => {
                if events.last() is Done {
                    lemma_applied_one_more(list, events, index, applied);
                }
            },
            _ => {},
        }
    }
}

/// A version is put on the ledger only when it was not there and all its
/// statements have been executed in their order.
pub proof fn law_recorded_migrations_are_applied(
    list: Seq<MigrationView>,
    events: Seq<MigrationEvent>,
    index: int,
)
    requires
        is_run(list, events),
        after(list, events).stage == (StageView::Recording { index }),
    ensures
        is_applied_up_to(
            list,
            events,
            index,
            migrations::statements(list[index].sql).len() as int,
        ),
{
    lemma_applied_up_to(list, events);
}

proof fn lemma_ledger_grows(
    list: Seq<MigrationView>,
    start: Set<Seq<char>>,
    events: Seq<MigrationEvent>,
    version: Seq<char>,
)
    requires
        start.contains(version),
    ensures
        ledger(list, start, events).contains(version),
    decreases events.len(),
{
    if events.len() > 0 {
        lemma_ledger_grows(list, start, events.drop_last(), version);
    }
}

proof fn lemma_forward(
    list: Seq<MigrationView>,
    start: Set<Seq<char>>,
    events: Seq<MigrationEvent>,
)
    requires
        is_ledger_run(list, start, events),
    ensures
        ({
            let known = ledger(list, start, events);
            let recorded_before = |index: int|
                forall|i: int|
                    0 <= i < index ==> known.contains((#[trigger] list[i]).version);
            match after(list, events).stage {
                StageView::Checking { index } => recorded_before(index),
                StageView::Applying { index, .. } | StageView::Recording { index } => {
                    &&& recorded_before(index)
                    &&& !known.contains(list[index].version)
                },
                StageView::Unlocking { outcome } | StageView::Finished { outcome } => outcome
                    is Ok ==> recorded_before(list.len() as int),
                _ => true,
            }
        }),
    decreases events.len(),
{
    if events.len() > 0 {
        lemma_forward(list, start, events.drop_last());
        lemma_run_is_well_formed(list, events.drop_last());
    }
}

/// Migrations are applied in their order: one is applied or recorded only when
/// all before it are on the ledger and it is not.
pub proof fn law_migrations_go_forward(
    list: Seq<MigrationView>,
    start: Set<Seq<char>>,
    events: Seq<MigrationEvent>,
    index: int,
)
    requires
        is_ledger_run(list, start, events),
        match after(list, events).stage {
            StageView::Applying { index: at, .. } | StageView::Recording { index: at } => at
                == index,
            _ => false,
        },
    ensures
        forall|i: int|
            0 <= i < index ==> ledger(list, start, events).contains((#[trigger] list[i]).version),
        !ledger(list, start, events).contains(list[index].version),
        !start.contains(list[index].version),
{
    lemma_forward(list, start, events);
    if start.contains(list[index].version) {
        lemma_ledger_grows(list, start, events, list[index].version);
    }
}

/// A run that succeeds leaves every version on the ledger.
pub proof fn law_success_records_all(
    list: Seq<MigrationView>,
    start: Set<Seq<char>>,
    events: Seq<MigrationEvent>,
)
    requires
        is_ledger_run(list, start, events),
        after(list, events).stage == (StageView::Finished { outcome: Ok(()) }),
    ensures
        forall|i: int|
            0 <= i < list.len() ==> ledger(list, start, events).contains(
                (#[trigger] list[i]).version,
            ),
{
    lemma_forward(list, start, events);
}

/// No action failed.
pub open spec fn has_no_failure(events: Seq<MigrationEvent>) -> bool {
    forall|i: int| 0 <= i < events.len() ==> !((#[trigger] events[i]) is Failed)
}

/// A run in which no action fails succeeds.
pub proof fn law_run_without_failure_succeeds(
    list: Seq<MigrationView>,
    events: Seq<MigrationEvent>,
)
    requires
        is_run(list, events),
        has_no_failure(events),
    ensures
        match after(list, events).stage {
            StageView::Unlocking { outcome } | StageView::Finished { outcome } => outcome is Ok,
            _ => true,
        },
    decreases events.len(),
{
    if events.len() > 0 {
        let earlier = events.drop_last();
        assert forall|i: int| 0 <= i < earlier.len() implies !((#[trigger] earlier[i])
            is Failed) by {
            assert(events[i] == earlier[i]);
        }
        assert(!(events[events.len() - 1] is Failed));
        law_run_without_failure_succeeds(list, earlier);
    }
}

/// Migrations can be run again: after a run that succeeded, another one executes
/// no statement and records no version, and succeeds unless an action fails.
pub proof fn law_second_run_changes_nothing(
    list: Seq<MigrationView>,
    start: Set<Seq<char>>,
    first: Seq<MigrationEvent>,
    second: Seq<MigrationEvent>,
)
    requires
        is_ledger_run(list, start, first),
        after(list, first).stage == (StageView::Finished { outcome: Ok(()) }),
        is_ledger_run(list, ledger(list, start, first), second),
    ensures
        !(after(list, second).action() is Execute),
        !(after(list, second).action() is Record),
        has_no_failure(second) && after(list, second).stage is Finished ==> after(
            list,
            second,
        ).stage == (StageView::Finished { outcome: Ok(()) }),
{
    if has_no_failure(second) {
        law_run_without_failure_succeeds(list, second);
    }
    let known = ledger(list, start, first);
    law_success_records_all(list, start, first);
    lemma_forward(list, known, second);
    lemma_run_is_well_formed(list, second);
    match after(list, second).stage {
        StageView::Applying { index, .. } | StageView::Recording { index } => {
            lemma_ledger_grows(list, known, second, list[index].version);
        },
        _ => {},
    }
}

/// Everything is done under the lock: where a run is neither about to take it nor
/// over, it was taken and has not been given back. A run that took the lock gives
/// it back before it is over.
pub proof fn law_run_holds_the_lock(list: Seq<MigrationView>, events: Seq<MigrationEvent>)
    requires
        is_run(list, events),
    ensures
        !(after(list, events).stage is Locking) && !(after(list, events).stage is Finished) ==> {
            &&& events.len() > 0
            &&& events[0] is Done
            &&& forall|i: int| 0 <= i < events.len() ==> !(action_at(list, events, i) is Unlock)
        },
        after(list, events).stage is Finished ==> {
            &&& events.len() > 0
            &&& events[0] is Done ==> action_at(list, events, events.len() - 1) is Unlock
        },
        after(list, events).stage is Locking ==> events.len() == 0,
    decreases events.len(),
{
    if events.len() > 0 {
        let earlier = events.drop_last();
        let n = earlier.len() as int;
        law_run_holds_the_lock(list, earlier);
        lemma_run_is_well_formed(list, earlier);
        assert(events.take(n) =~= earlier);
        if n > 0 {
            assert(events[0] == earlier[0]);
        }
        assert forall|i: int| 0 <= i < n implies action_at(list, events, i) == action_at(
            list,
            earlier,
            i,
        ) by {
            assert(events.take(i) =~= earlier.take(i));
        }
    }
}

/// How many actions the migrations from `index` on take at most.
pub open spec fn work(list: Seq<MigrationView>, index: int) -> int
    decreases list.len() - index,
{
    if index < list.len() {
        2 + migrations::statements(list[index].sql).len() + work(list, index + 1)
    } else {
        0
    }
}

proof fn lemma_work_is_not_negative(list: Seq<MigrationView>, index: int)
    ensures
        work(list, index) >= 0,
    decreases list.len() - index,
{
    if index < list.len() {
        lemma_work_is_not_negative(list, index + 1);
    }
}

/// How many actions a run takes at most from where it stands.
pub open spec fn remaining(run: RunView) -> int {
    match run.stage {
        StageView::Locking => 4 + work(run.migrations, 0),
        StageView::CreatingSchema => 3 + work(run.migrations, 0),
        StageView::CreatingLedger => 2 + work(run.migrations, 0),
        StageView::Checking { index } => 1 + work(run.migrations, index),
        StageView::Applying { index, applied } => 2 + run.statements(index).len() - applied + work(
            run.migrations,
            index + 1,
        ),
        StageView::Recording { index } => 2 + work(run.migrations, index + 1),
        StageView::Unlocking { .. } => 1,
        StageView::Finished { .. } => 0,
    }
}

/// A run comes to an end: the lock, the schema, the ledger and the unlocking take
/// one action each, and each migration takes at most one for every statement and
/// two for the ledger.
pub proof fn law_run_ends(list: Seq<MigrationView>, events: Seq<MigrationEvent>)
    requires
        is_run(list, events),
    ensures
        events.len() + remaining(after(list, events)) <= 4 + work(list, 0),
        remaining(after(list, events)) >= 0,
        remaining(after(list, events)) == 0 <==> after(list, events).stage is Finished,
    decreases events.len(),
{
    lemma_run_is_well_formed(list, events);
    lemma_work_is_not_negative(list, 0);
    match after(list, events).stage {
        StageView::Checking { index }
        | StageView::Applying { index, .. }
        | StageView::Recording { index } => {
            lemma_work_is_not_negative(list, index);
            lemma_work_is_not_negative(list, index + 1);
        },
        _ => {},
    }
    if events.len() > 0 {
        let earlier = events.drop_last();
        law_run_ends(list, earlier);
        lemma_run_is_well_formed(list, earlier);
        match after(list, earlier).stage {
            StageView::Checking { index }
            | StageView::Applying { index, .. }
            | StageView::Recording { index } => {
                lemma_work_is_not_negative(list, index + 1);
            },
            _ => {},
        }
    }
}

} // verus!
