//! The course of a run of the migrations, action by action, and how it ends.

use vstd::prelude::*;

use crate::migration_laws;
use crate::migration_run::{
    ActionView, ErrorView, Migration, MigrationAction, MigrationError, MigrationEvent,
    MigrationRun, MigrationView, StageView,
};
use crate::migrations::{self, split_statements, versions};
use crate::text;

verus! {

/// There are seven migrations, in the order of their versions.
pub proof fn law_there_are_seven_migrations(list: Vec<&'static str>)
    requires
        call_ensures(versions, (), list),
    ensures
        list@.len() == 7,
        list@[0]@ == "0001"@,
        list@[1]@ == "0002"@,
        list@[2]@ == "0003"@,
        list@[3]@ == "0004"@,
        list@[4]@ == "0005"@,
        list@[5]@ == "0006"@,
        list@[6]@ == "0007"@,
{
    let texts = list.deep_view();
    assert(texts.len() == 7);
    assert(forall|i: int| 0 <= i < 7 ==> (#[trigger] texts[i]) == list@[i]@);
}

proof fn lemma_pieces_of_two(head: Seq<char>, tail: Seq<char>)
    ensures
        migrations::pieces(head + seq![';'] + tail) == migrations::pieces(head)
            + migrations::pieces(tail),
        migrations::pieces(tail).len() > 0,
    decreases tail.len(),
{
    let whole = head + seq![';'] + tail;
    if tail.len() == 0 {
        assert(whole.drop_last() =~= head);
        assert(migrations::pieces(whole) =~= migrations::pieces(head) + migrations::pieces(tail));
    } else {
        lemma_pieces_of_two(head, tail.drop_last());
        assert(whole.drop_last() =~= head + seq![';'] + tail.drop_last());
        assert(migrations::pieces(whole) =~= migrations::pieces(head) + migrations::pieces(tail));
    }
}

/// A semicolon parts statements: those of two texts with a semicolon between them are the
/// statements of the first, followed by those of the second.
pub proof fn law_semicolons_part_statements(
    first: &str,
    second: &str,
    both: &str,
    of_first: Vec<String>,
    of_second: Vec<String>,
    of_both: Vec<String>,
)
    requires
        both@ == first@ + seq![';'] + second@,
        call_ensures(split_statements, (first,), of_first),
        call_ensures(split_statements, (second,), of_second),
        call_ensures(split_statements, (both,), of_both),
    ensures
        of_both.deep_view() == of_first.deep_view() + of_second.deep_view(),
{
    lemma_pieces_of_two(first@, second@);
    let a = migrations::pieces(first@);
    let b = migrations::pieces(second@);
    let trim = |piece: Seq<char>| text::trimmed(piece);
    let kept = |statement: Seq<char>| statement.len() > 0;
    assert((a + b).map_values(trim) =~= a.map_values(trim) + b.map_values(trim));
    Seq::filter_distributes_over_add(a.map_values(trim), b.map_values(trim), kept);
}

proof fn lemma_one_piece(sql: Seq<char>)
    requires
        forall|i: int| 0 <= i < sql.len() ==> sql[i] != ';',
    ensures
        migrations::pieces(sql) == seq![sql],
    decreases sql.len(),
{
    if sql.len() > 0 {
        assert(sql.last() == sql[sql.len() - 1]);
        assert forall|i: int| 0 <= i < sql.drop_last().len() implies sql.drop_last()[i] != ';' by {
            assert(sql[i] != ';');
        }
        lemma_one_piece(sql.drop_last());
        assert(sql.drop_last().push(sql.last()) =~= sql);
        assert(migrations::pieces(sql) =~= seq![sql]);
    } else {
        assert(sql =~= Seq::empty());
    }
}

/// A text without a semicolon is one statement, trimmed, unless it is blank: then it is none.
pub proof fn law_text_without_semicolon_is_one_statement(sql: &str, list: Vec<String>)
    requires
        forall|i: int| 0 <= i < sql@.len() ==> sql@[i] != ';',
        call_ensures(split_statements, (sql,), list),
    ensures
        (exists|i: int| 0 <= i < sql@.len() && !text::is_white_space(#[trigger] sql@[i]))
            ==> list.deep_view() == seq![text::trimmed(sql@)],
        (forall|i: int| 0 <= i < sql@.len() ==> text::is_white_space(#[trigger] sql@[i]))
            ==> list@.len() == 0,
{
    lemma_one_piece(sql@);
    text::lemma_trimmed_is_empty_iff_blank(sql@);
    let trim = |piece: Seq<char>| text::trimmed(piece);
    let kept = |statement: Seq<char>| statement.len() > 0;
    let mapped = seq![sql@].map_values(trim);
    assert(mapped =~= seq![text::trimmed(sql@)]);
    reveal(Seq::filter);
    assert(mapped.drop_last() =~= Seq::empty());
    assert(mapped.drop_last().filter(kept) =~= Seq::empty());
    assert(list.deep_view().len() == list@.len());
    assert(Seq::empty().push(text::trimmed(sql@)) =~= seq![text::trimmed(sql@)]);
}

/// A run begins by taking the lock.
pub proof fn law_run_begins_with_the_lock(
    list: Vec<Migration>,
    run: MigrationRun,
    action: MigrationAction,
)
    requires
        call_ensures(MigrationRun::begin, (list,), run),
        call_ensures(MigrationRun::action, (&run,), action),
    ensures
        action is Lock,
        run@ == migration_laws::after(list.deep_view(), Seq::empty()),
        migration_laws::is_run(list.deep_view(), Seq::empty()),
        list.deep_view().len() == list@.len(),
        forall|i: int|
            0 <= i < list@.len() ==> (#[trigger] list.deep_view()[i]) == (MigrationView {
                version: list@[i].version@,
                sql: list@[i].sql@,
            }),
{
}

/// A run that has gone through events takes exactly those further events that it can go on
/// with, and goes on with them. It is over exactly where there is nothing further to do.
pub proof fn law_run_follows_its_events(
    list: Seq<MigrationView>,
    events: Seq<MigrationEvent>,
    run: MigrationRun,
    event: MigrationEvent,
    accepted: bool,
    next: MigrationRun,
    action: MigrationAction,
    outcome: Option<Result<(), MigrationError>>,
)
    requires
        migration_laws::is_run(list, events),
        run@ == migration_laws::after(list, events),
        call_ensures(MigrationRun::accepts, (&run, event), accepted),
        accepted ==> call_ensures(MigrationRun::step, (run, event), next),
        call_ensures(MigrationRun::action, (&run,), action),
        call_ensures(MigrationRun::into_outcome, (run,), outcome),
    ensures
        action@ == migration_laws::after(list, events).action(),
        accepted <==> migration_laws::is_run(list, events.push(event)),
        accepted ==> next@ == migration_laws::after(list, events.push(event)),
        action is Finish <==> outcome is Some,
        outcome is Some ==> run@.stage == (StageView::Finished {
            outcome: match outcome->0 {
                Ok(_) => Ok(()),
                Err(error) => Err(error@),
            },
        }),
{
    assert(events.push(event).drop_last() =~= events);
}

/// The answer to each action: whether a version is on the ledger, or merely that it was done.
/// Each can fail, and there is nothing to come once the run is over.
pub proof fn law_run_events_answer_their_actions(
    list: Seq<MigrationView>,
    events: Seq<MigrationEvent>,
    event: MigrationEvent,
)
    requires
        migration_laws::is_run(list, events),
    ensures
        ({
            let action = migration_laws::after(list, events).action();
            migration_laws::is_run(list, events.push(event)) <==> {
                ||| event is Failed && !(action is Finish)
                ||| event is Known && action is Check
                ||| event is Done && !(action is Check || action is Finish)
            }
        }),
{
    assert(events.push(event).drop_last() =~= events);
}

/// What the ledger has answered so far, version by version.
pub open spec fn answers(events: Seq<MigrationEvent>) -> Seq<bool>
    decreases events.len(),
{
    if events.len() == 0 {
        Seq::empty()
    } else {
        match events.last() {
            MigrationEvent::Known(known) => answers(events.drop_last()).push(known),
            _ => answers(events.drop_last()),
        }
    }
}

/// The actions that the events came of, in their order.
pub open spec fn actions(list: Seq<MigrationView>, events: Seq<MigrationEvent>) -> Seq<ActionView> {
    Seq::new(events.len(), |i: int| migration_laws::action_at(list, events, i))
}

/// How a run opens: the lock is taken, and schema and ledger are created.
pub open spec fn opening() -> Seq<ActionView> {
    seq![ActionView::Lock, ActionView::CreateSchema, ActionView::CreateLedger]
}

/// What a run does about a migration: it asks the ledger and, where the version is not on it,
/// executes the statements in their order and records the version.
pub open spec fn round(migration: MigrationView, known: bool) -> Seq<ActionView> {
    let check = seq![ActionView::Check { version: migration.version }];
    if known {
        check
    } else {
        check + migrations::statements(migration.sql).map_values(
            |statement: Seq<char>| ActionView::Execute { statement },
        ) + seq![ActionView::Record { version: migration.version }]
    }
}

/// What a run does about the first migrations, as many as the ledger has answered for.
pub open spec fn rounds(list: Seq<MigrationView>, known: Seq<bool>) -> Seq<ActionView>
    decreases known.len(),
{
    if known.len() == 0 {
        opening()
    } else {
        rounds(list, known.drop_last()) + round(list[known.len() - 1], known.last())
    }
}

spec fn has_done(list: Seq<MigrationView>, events: Seq<MigrationEvent>) -> bool {
    let run = migration_laws::after(list, events);
    let known = answers(events);
    let done = actions(list, events);
    &&& run.migrations == list
    &&& run.well_formed()
    &&& match run.stage {
        StageView::Locking => known.len() == 0 && done == opening().take(0),
        StageView::CreatingSchema => known.len() == 0 && done == opening().take(1),
        StageView::CreatingLedger => known.len() == 0 && done == opening().take(2),
        StageView::Checking { index } => index == known.len() && done == rounds(list, known),
        StageView::Applying { index, applied } => {
            &&& index == known.len() - 1
            &&& !known.last()
            &&& done == rounds(list, known.drop_last()) + round(list[index], false).take(
                1 + applied,
            )
        },
        StageView::Recording { index } => {
            &&& index == known.len() - 1
            &&& !known.last()
            &&& done == rounds(list, known.drop_last()) + round(list[index], false).take(
                1 + migrations::statements(list[index].sql).len() as int,
            )
        },
        StageView::Unlocking { outcome: Ok(_) } => known.len() == list.len() && done == rounds(
            list,
            known,
        ),
        StageView::Finished { outcome: Ok(_) } => known.len() == list.len() && done == rounds(
            list,
            known,
        ).push(ActionView::Unlock),
        _ => true,
    }
}

proof fn lemma_round_parts(migration: MigrationView, j: int)
    requires
        0 <= j < migrations::statements(migration.sql).len(),
    ensures
        round(migration, false).len() == 2 + migrations::statements(migration.sql).len(),
        round(migration, false)[0] == (ActionView::Check { version: migration.version }),
        round(migration, false)[1 + j] == (ActionView::Execute {
            statement: migrations::statements(migration.sql)[j],
        }),
{
}

proof fn lemma_round_ends(migration: MigrationView)
    ensures
        ({
            let n = migrations::statements(migration.sql).len() as int;
            &&& round(migration, false).len() == 2 + n
            &&& round(migration, false).take(1) =~= seq![
                ActionView::Check { version: migration.version },
            ]
            &&& round(migration, false).take(1 + n).push(
                ActionView::Record { version: migration.version },
            ) =~= round(migration, false)
        }),
{
}

proof fn lemma_has_done(list: Seq<MigrationView>, events: Seq<MigrationEvent>)
    requires
        migration_laws::is_run(list, events),
    ensures
        has_done(list, events),
    decreases events.len(),
{
    let done = actions(list, events);
    if events.len() == 0 {
        assert(done =~= opening().take(0));
    } else {
        let earlier = events.drop_last();
        let event = events.last();
        let n = earlier.len() as int;
        lemma_has_done(list, earlier);
        let before = migration_laws::after(list, earlier);
        let known = answers(earlier);
        assert(events.take(n) =~= earlier);
        assert forall|i: int| 0 <= i < n implies actions(list, events)[i] == actions(
            list,
            earlier,
        )[i] by {
            assert(events.take(i) =~= earlier.take(i));
        }
        assert(done =~= actions(list, earlier).push(before.action()));
        match before.stage {
            StageView::Locking => {
                assert(opening().take(0).push(ActionView::Lock) =~= opening().take(1));
            },
            StageView::CreatingSchema => {
                assert(opening().take(1).push(ActionView::CreateSchema) =~= opening().take(2));
            },
            StageView::CreatingLedger => {
                assert(opening().take(2).push(ActionView::CreateLedger) =~= opening());
            },
            StageView::Checking { index } => {
                if let MigrationEvent::Known(answer) = event {
                    let now = known.push(answer);
                    assert(now.drop_last() =~= known);
                    lemma_round_ends(list[index]);
                    let check = seq![ActionView::Check { version: list[index].version }];
                    assert(done =~= rounds(list, known) + check);
                }
            },
            StageView::Applying { index, applied } => {
                lemma_round_parts(list[index], applied);
                let head = rounds(list, known.drop_last());
                let whole = round(list[index], false);
                assert(whole.take(1 + applied).push(whole[1 + applied]) =~= whole.take(
                    2 + applied,
                ));
                assert(head + whole.take(2 + applied) =~= (head + whole.take(1 + applied)).push(
                    whole[1 + applied],
                ));
            },
            StageView::Recording { index } => {
                lemma_round_ends(list[index]);
                let head = rounds(list, known.drop_last());
                let whole = round(list[index], false);
                let m = migrations::statements(list[index].sql).len() as int;
                let record = ActionView::Record { version: list[index].version };
                assert(head + whole.take(1 + m).push(record) =~= (head + whole.take(1 + m)).push(
                    record,
                ));
                assert(rounds(list, known) == head + whole);
            },
            _ => {},
        }
    }
}

/// A run takes the lock, creates schema and ledger, and goes through the migrations in their
/// order. Of each it asks the ledger, and only where the version is not on it does it execute
/// the statements, in their order, and record the version. It gives the lock back after the
/// last.
pub proof fn law_run_takes_its_course(list: Seq<MigrationView>, events: Seq<MigrationEvent>)
    requires
        migration_laws::is_run(list, events),
    ensures
        ({
            let action = migration_laws::after(list, events).action();
            let stage = migration_laws::after(list, events).stage;
            let known = answers(events);
            let done = actions(list, events);
            &&& action is Lock ==> done.len() == 0
            &&& action is CreateSchema ==> done == seq![ActionView::Lock]
            &&& action is CreateLedger ==> done == seq![ActionView::Lock, ActionView::CreateSchema]
            &&& action is Check ==> done == rounds(list, known) && known.len() < list.len()
                && action == (ActionView::Check { version: list[known.len() as int].version })
            &&& action is Execute || action is Record ==> done.push(action).is_prefix_of(
                rounds(list, known),
            ) && rounds(list, known.drop_last()).len() < done.len()
            &&& stage == (StageView::Unlocking { outcome: Ok(()) }) ==> done == rounds(list, known)
                && known.len() == list.len()
            &&& stage == (StageView::Finished { outcome: Ok(()) }) ==> done == rounds(
                list,
                known,
            ).push(ActionView::Unlock) && known.len() == list.len()
        }),
{
    lemma_has_done(list, events);
    let run = migration_laws::after(list, events);
    let known = answers(events);
    let done = actions(list, events);
    assert(opening().take(1) =~= seq![ActionView::Lock]);
    assert(opening().take(2) =~= seq![ActionView::Lock, ActionView::CreateSchema]);
    match run.stage {
        StageView::Applying { index, applied } => {
            lemma_round_parts(list[index], applied);
            let head = rounds(list, known.drop_last());
            let whole = round(list[index], false);
            assert(rounds(list, known) == head + whole);
            assert(done.push(whole[1 + applied]) =~= (head + whole).take(
                head.len() + 2 + applied,
            ));
        },
        StageView::Recording { index } => {
            lemma_round_ends(list[index]);
            let head = rounds(list, known.drop_last());
            let whole = round(list[index], false);
            let m = migrations::statements(list[index].sql).len() as int;
            let record = ActionView::Record { version: list[index].version };
            assert(rounds(list, known) == head + whole);
            assert(whole.take(1 + m).push(record) =~= whole);
            assert(done.push(record) =~= head + whole);
        },
        _ => {},
    }
}

/// The last version that the ledger was asked about.
pub open spec fn last_checked(list: Seq<MigrationView>, events: Seq<MigrationEvent>) -> Seq<char> {
    list[answers(events).len() - 1].version
}

/// A run that fails gives the lock back, unless it never had it, and ends with an error that
/// tells what failed: the lock, the schema, the ledger, a check, or the application or the
/// recording of the version that was last asked about. Whether the lock could be given back
/// makes no difference.
pub proof fn law_failed_run_gives_the_lock_back(
    list: Seq<MigrationView>,
    events: Seq<MigrationEvent>,
    unlocked: MigrationEvent,
)
    requires
        migration_laws::is_run(list, events),
        !(migration_laws::after(list, events).action() is Finish),
        !(migration_laws::after(list, events).action() is Unlock),
        unlocked is Done || unlocked is Failed,
    ensures
        ({
            let action = migration_laws::after(list, events).action();
            let failed = events.push(MigrationEvent::Failed);
            let now = migration_laws::after(list, failed);
            let end = migration_laws::after(list, failed.push(unlocked)).stage;
            &&& action is Lock ==> now.stage == (StageView::Finished {
                outcome: Err(ErrorView::LockFailed),
            })
            &&& !(action is Lock) ==> now.action() is Unlock
            &&& action is CreateSchema ==> end == (StageView::Finished {
                outcome: Err(ErrorView::SchemaFailed),
            })
            &&& action is CreateLedger ==> end == (StageView::Finished {
                outcome: Err(ErrorView::LedgerFailed),
            })
            &&& action is Check ==> end == (StageView::Finished {
                outcome: Err(ErrorView::CheckFailed),
            })
            &&& action is Execute ==> end == (StageView::Finished {
                outcome: Err(ErrorView::ApplyFailed { version: last_checked(list, events) }),
            })
            &&& action is Record ==> end == (StageView::Finished {
                outcome: Err(ErrorView::RecordFailed { version: last_checked(list, events) }),
            }) && action == (ActionView::Record { version: last_checked(list, events) })
        }),
{
    lemma_has_done(list, events);
    let failed = events.push(MigrationEvent::Failed);
    assert(failed.drop_last() =~= events);
    assert(failed.push(unlocked).drop_last() =~= failed);
}

/// A run that has done all ends well, whether or not the lock could be given back.
pub proof fn law_finished_run_succeeds(
    list: Seq<MigrationView>,
    events: Seq<MigrationEvent>,
    unlocked: MigrationEvent,
)
    requires
        migration_laws::is_run(list, events),
        migration_laws::after(list, events).action() is Unlock,
        forall|i: int| 0 <= i < events.len() ==> !((#[trigger] events[i]) is Failed),
        unlocked is Done || unlocked is Failed,
    ensures
        migration_laws::after(list, events.push(unlocked)).stage == (StageView::Finished {
            outcome: Ok(()),
        }),
{
    migration_laws::law_run_without_failure_succeeds(list, events);
    assert(events.push(unlocked).drop_last() =~= events);
    if let StageView::Unlocking { outcome } = migration_laws::after(list, events).stage {
        assert(outcome->Ok_0 == ());
    }
}

/// The message for the operator tells what was being done, and for which version.
pub proof fn law_migration_messages(error: &MigrationError, message: String)
    requires
        call_ensures(MigrationError::message, (error,), message),
    ensures
        error is LockFailed ==> message@ == "locking Matrix Service migrations"@,
        error is SchemaFailed ==> message@ == "creating Matrix Service schema"@,
        error is LedgerFailed ==> message@ == "creating Matrix Service migration ledger"@,
        error is CheckFailed ==> message@ == "checking Matrix Service migration ledger"@,
        error is ApplyFailed ==> message@ == "applying Matrix Service migration "@
            + error->ApplyFailed_version@,
        error is RecordFailed ==> message@ == "recording Matrix Service migration "@
            + error->RecordFailed_version@,
{
}

} // verus!
