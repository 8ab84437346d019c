//! What holds of several instances of the service that run the migrations at the
//! same time, on one database.

use vstd::prelude::*;

use crate::migration_run::{ActionView, MigrationEvent, MigrationView, RunView, StageView};
use crate::migrations;

verus! {

/// Runs on one database, and the versions on its ledger.
pub struct Instances {
    pub runs: Seq<RunView>,
    pub ledger: Set<Seq<char>>,
}

/// A step of one of the runs: what came of its action.
pub struct Turn {
    pub who: int,
    pub event: MigrationEvent,
}

/// The run has the lock.
pub open spec fn holds_lock(run: RunView) -> bool {
    !(run.stage is Locking) && !(run.stage is Finished)
}

impl Instances {
    /// After a step.
    pub open spec fn next(self, turn: Turn) -> Instances {
        Instances {
            runs: self.runs.update(turn.who, self.runs[turn.who].next(turn.event)),
            ledger: match self.runs[turn.who].action() {
                ActionView::Record { version } if turn.event is Done => self.ledger.insert(version),
                _ => self.ledger,
            },
        }
    }

    /// The step is one that the database allows: the lock is given to one run at a
    /// time, and a check is answered by the ledger.
    pub open spec fn allows(self, turn: Turn) -> bool {
        &&& 0 <= turn.who < self.runs.len()
        &&& self.runs[turn.who].expects(turn.event)
        &&& match self.runs[turn.who].action() {
            ActionView::Lock => turn.event is Done ==> forall|i: int|
                0 <= i < self.runs.len() ==> !holds_lock(#[trigger] self.runs[i]),
            ActionView::Check { version } => turn.event matches MigrationEvent::Known(known)
                ==> known == self.ledger.contains(version),
            _ => true,
        }
    }
}

/// A number of runs of the same migrations after their steps, in whatever order
/// they came.
pub open spec fn after(
    list: Seq<MigrationView>,
    count: nat,
    start: Set<Seq<char>>,
    turns: Seq<Turn>,
) -> Instances
    decreases turns.len(),
{
    if turns.len() == 0 {
        Instances {
            runs: Seq::new(
                count,
                |i: int| RunView { migrations: list, stage: StageView::Locking },
            ),
            ledger: start,
        }
    } else {
        after(list, count, start, turns.drop_last()).next(turns.last())
    }
}

/// Each of the steps is one that the database allows.
pub open spec fn is_run(
    list: Seq<MigrationView>,
    count: nat,
    start: Set<Seq<char>>,
    turns: Seq<Turn>,
) -> bool
    decreases turns.len(),
{
    turns.len() > 0 ==> {
        &&& is_run(list, count, start, turns.drop_last())
        &&& after(list, count, start, turns.drop_last()).allows(turns.last())
    }
}

/// What the runs have changed, in the order in which they did: the statements that
/// were executed and the versions that were recorded.
pub open spec fn changes(
    list: Seq<MigrationView>,
    count: nat,
    start: Set<Seq<char>>,
    turns: Seq<Turn>,
) -> Seq<ActionView>
    decreases turns.len(),
{
    if turns.len() == 0 {
        Seq::empty()
    } else {
        let earlier = changes(list, count, start, turns.drop_last());
        let action = after(list, count, start, turns.drop_last()).runs[turns.last().who].action();
        if turns.last().event is Done && (action is Execute || action is Record) {
            earlier.push(action)
        } else {
            earlier
        }
    }
}

/// The statements of the migration at `index`, each to be executed.
pub open spec fn executions(list: Seq<MigrationView>, index: int) -> Seq<ActionView> {
    migrations::statements(list[index].sql).map_values(
        |statement: Seq<char>| ActionView::Execute { statement },
    )
}

/// What is to be changed from the migration at `index` on: of each that is not on
/// the ledger the statements are executed and the version is recorded.
pub open spec fn pending(
    list: Seq<MigrationView>,
    known: Set<Seq<char>>,
    index: int,
) -> Seq<ActionView>
    decreases list.len() - index,
{
    if index >= list.len() {
        Seq::empty()
    } else if known.contains(list[index].version) {
        pending(list, known, index + 1)
    } else {
        executions(list, index) + recording(list, known, index)
    }
}

/// What is to be changed once the statements of the migration at `index` have been
/// executed.
pub open spec fn recording(
    list: Seq<MigrationView>,
    known: Set<Seq<char>>,
    index: int,
) -> Seq<ActionView>
    decreases list.len() - index, 0int,
{
    if index >= list.len() {
        Seq::empty()
    } else {
        seq![ActionView::Record { version: list[index].version }] + pending(
            list,
            known.insert(list[index].version),
            index + 1,
        )
    }
}

/// All versions before `index` are on the ledger.
pub open spec fn are_known(list: Seq<MigrationView>, known: Set<Seq<char>>, index: int) -> bool {
    forall|i: int| 0 <= i < index ==> known.contains((#[trigger] list[i]).version)
}

/// No action failed.
pub open spec fn has_no_failure(turns: Seq<Turn>) -> bool {
    forall|i: int| 0 <= i < turns.len() ==> !((#[trigger] turns[i]).event is Failed)
}

/// What a run that stands at a stage has behind it.
spec fn is_sound(list: Seq<MigrationView>, known: Set<Seq<char>>, run: RunView) -> bool {
    &&& run.migrations == list
    &&& run.well_formed()
    &&& match run.stage {
        StageView::Checking { index } => are_known(list, known, index),
        StageView::Applying { index, .. } | StageView::Recording { index } => {
            &&& are_known(list, known, index)
            &&& !known.contains(list[index].version)
        },
        StageView::Unlocking { outcome } | StageView::Finished { outcome } => outcome is Ok
            ==> are_known(list, known, list.len() as int),
        _ => true,
    }
}

/// At most one run has the lock, and each has behind it what its stage says.
proof fn lemma_instances(
    list: Seq<MigrationView>,
    count: nat,
    start: Set<Seq<char>>,
    turns: Seq<Turn>,
)
    requires
        is_run(list, count, start, turns),
    ensures
        ({
            let state = after(list, count, start, turns);
            &&& state.runs.len() == count
            &&& forall|i: int|
                0 <= i < count ==> is_sound(list, state.ledger, #[trigger] state.runs[i])
            &&& forall|i: int, j: int|
                0 <= i < count && 0 <= j < count && holds_lock(#[trigger] state.runs[i])
                    && holds_lock(#[trigger] state.runs[j]) ==> i == j
            &&& start.subset_of(state.ledger)
        }),
    decreases turns.len(),
{
    if turns.len() > 0 {
        lemma_instances(list, count, start, turns.drop_last());
        let before = after(list, count, start, turns.drop_last());
        let state = after(list, count, start, turns);
        let turn = turns.last();
        let who = turn.who;
        assert(is_sound(list, before.ledger, before.runs[who]));
        assert forall|i: int| 0 <= i < count implies is_sound(
            list,
            state.ledger,
            #[trigger] state.runs[i],
        ) by {
            assert(is_sound(list, before.ledger, before.runs[i]));
            if i != who {
                assert(state.runs[i] == before.runs[i]);
                if before.runs[who].stage is Recording {
                    assert(holds_lock(before.runs[who]));
                    assert(!holds_lock(before.runs[i]));
                }
            }
        }
        assert forall|i: int, j: int|
            0 <= i < count && 0 <= j < count && holds_lock(#[trigger] state.runs[i])
                && holds_lock(#[trigger] state.runs[j]) implies i == j by {
            if i != who && j != who {
                assert(holds_lock(before.runs[i]) && holds_lock(before.runs[j]));
            } else if i != who {
                assert(holds_lock(before.runs[i]));
                assert(before.runs[who].stage is Locking || holds_lock(before.runs[who]));
            } else if j != who {
                assert(holds_lock(before.runs[j]));
                assert(before.runs[who].stage is Locking || holds_lock(before.runs[who]));
            }
        }
    }
}

/// One at a time: at most one instance has the lock, and only the one that has it
/// executes statements or records versions.
pub proof fn law_instances_take_turns(
    list: Seq<MigrationView>,
    count: nat,
    start: Set<Seq<char>>,
    turns: Seq<Turn>,
    i: int,
    j: int,
)
    requires
        is_run(list, count, start, turns),
        0 <= i < count,
        0 <= j < count,
        i != j,
    ensures
        ({
            let state = after(list, count, start, turns);
            let action = state.runs[i].action();
            &&& !(holds_lock(state.runs[i]) && holds_lock(state.runs[j]))
            &&& action is Execute || action is Record ==> !holds_lock(state.runs[j])
        }),
{
    lemma_instances(list, count, start, turns);
}

/// What one instance has recorded no other executes again: an instance executes
/// the statements of a migration, or records it, only while its version is not on
/// the ledger that all of them share, and all versions before it are.
pub proof fn law_recorded_migrations_are_not_repeated(
    list: Seq<MigrationView>,
    count: nat,
    start: Set<Seq<char>>,
    turns: Seq<Turn>,
    who: int,
    index: int,
)
    requires
        is_run(list, count, start, turns),
        0 <= who < count,
        match after(list, count, start, turns).runs[who].stage {
            StageView::Applying { index: at, .. } | StageView::Recording { index: at } => at
                == index,
            _ => false,
        },
    ensures
        !after(list, count, start, turns).ledger.contains(list[index].version),
        !start.contains(list[index].version),
        are_known(list, after(list, count, start, turns).ledger, index),
{
    lemma_instances(list, count, start, turns);
    assert(is_sound(
        list,
        after(list, count, start, turns).ledger,
        after(list, count, start, turns).runs[who],
    ));
}

/// What is left to be changed by a run that has the lock.
spec fn rest(list: Seq<MigrationView>, known: Set<Seq<char>>, stage: StageView) -> Seq<ActionView> {
    match stage {
        StageView::CreatingSchema | StageView::CreatingLedger => pending(list, known, 0),
        StageView::Checking { index } => pending(list, known, index),
        StageView::Applying { index, applied } => executions(list, index).skip(applied)
            + recording(list, known, index),
        StageView::Recording { index } => recording(list, known, index),
        _ => Seq::empty(),
    }
}

/// Migrations on the ledger add nothing to what is to be changed.
proof fn lemma_known_are_skipped(
    list: Seq<MigrationView>,
    known: Set<Seq<char>>,
    from: int,
    to: int,
)
    requires
        0 <= from <= to <= list.len(),
        are_known(list, known, to),
    ensures
        pending(list, known, from) == pending(list, known, to),
    decreases to - from,
{
    if from < to {
        assert(known.contains(list[from].version));
        lemma_known_are_skipped(list, known, from + 1, to);
    }
}

/// A step of a run that has the lock takes what it changes off what is left.
proof fn lemma_step_takes_off(
    list: Seq<MigrationView>,
    known: Set<Seq<char>>,
    run: RunView,
    event: MigrationEvent,
)
    requires
        is_sound(list, known, run),
        holds_lock(run),
        run.expects(event),
        !(event is Failed),
        run.action() matches ActionView::Check { version } ==> event == MigrationEvent::Known(
            known.contains(version),
        ),
    ensures
        ({
            let action = run.action();
            let later = match action {
                ActionView::Record { version } => known.insert(version),
                _ => known,
            };
            let left = rest(list, later, run.next(event).stage);
            rest(list, known, run.stage) == if action is Execute || action is Record {
                seq![action] + left
            } else {
                left
            }
        }),
{
    match run.stage {
        StageView::Checking { index } => {
            if event == MigrationEvent::Known(true) {
                assert(pending(list, known, index) == pending(list, known, index + 1));
            } else {
                assert(executions(list, index).skip(0) =~= executions(list, index));
                if run.statements(index).len() == 0 {
                    assert(executions(list, index) =~= Seq::empty());
                    assert(executions(list, index) + recording(list, known, index) =~= recording(
                        list,
                        known,
                        index,
                    ));
                }
            }
        },
        StageView::Applying { index, applied } => {
            let all = executions(list, index);
            assert(all[applied] == run.action());
            assert(all.skip(applied) =~= seq![run.action()] + all.skip(applied + 1));
            let end = recording(list, known, index);
            assert(all.skip(applied) + end =~= seq![run.action()] + (all.skip(applied + 1) + end));
            if applied + 1 == run.statements(index).len() {
                assert(all.skip(applied + 1) + end =~= end);
            }
        },
        _ => {},
    }
}

/// What has been changed and what is left make up what was to be changed.
proof fn lemma_changes_and_rest(
    list: Seq<MigrationView>,
    count: nat,
    start: Set<Seq<char>>,
    turns: Seq<Turn>,
)
    requires
        is_run(list, count, start, turns),
        has_no_failure(turns),
    ensures
        ({
            let state = after(list, count, start, turns);
            let done = changes(list, count, start, turns);
            let total = pending(list, start, 0);
            &&& forall|i: int|
                0 <= i < count && holds_lock(#[trigger] state.runs[i]) ==> done + rest(
                    list,
                    state.ledger,
                    state.runs[i].stage,
                ) == total
            &&& (forall|i: int| 0 <= i < count ==> !holds_lock(#[trigger] state.runs[i])) ==> done
                + pending(list, state.ledger, 0) == total
            &&& forall|i: int|
                0 <= i < count ==> match (#[trigger] state.runs[i]).stage {
                    StageView::Unlocking { outcome } | StageView::Finished { outcome } => outcome
                        is Ok,
                    _ => true,
                }
        }),
    decreases turns.len(),
{
    let total = pending(list, start, 0);
    if turns.len() == 0 {
        assert(Seq::<ActionView>::empty() + total =~= total);
    } else {
        let earlier = turns.drop_last();
        assert forall|i: int| 0 <= i < earlier.len() implies !((#[trigger] earlier[i]).event
            is Failed) by {
            assert(turns[i] == earlier[i]);
        }
        assert(!(turns[turns.len() - 1].event is Failed));
        lemma_changes_and_rest(list, count, start, earlier);
        lemma_instances(list, count, start, earlier);
        lemma_instances(list, count, start, turns);
        let before = after(list, count, start, earlier);
        let state = after(list, count, start, turns);
        let was = changes(list, count, start, earlier);
        let done = changes(list, count, start, turns);
        let who = turns.last().who;
        let event = turns.last().event;
        let run = before.runs[who];
        let action = run.action();
        assert(is_sound(list, before.ledger, run));
        assert(is_sound(list, state.ledger, state.runs[who]));
        assert forall|i: int| 0 <= i < count && i != who implies #[trigger] state.runs[i]
            == before.runs[i] by {}
        if holds_lock(run) {
            assert forall|i: int| 0 <= i < count && i != who implies !holds_lock(
                #[trigger] state.runs[i],
            ) by {
                assert(!holds_lock(before.runs[i]));
            }
            lemma_step_takes_off(list, before.ledger, run, event);
            let left = rest(list, state.ledger, state.runs[who].stage);
            if action is Execute || action is Record {
                assert(was + (seq![action] + left) =~= was.push(action) + left);
            }
            assert(done + left == total);
            if !holds_lock(state.runs[who]) {
                lemma_known_are_skipped(list, state.ledger, 0, list.len() as int);
            }
        } else {
            assert forall|i: int| 0 <= i < count implies !holds_lock(#[trigger] before.runs[i]) by {
                if run.stage is Locking {
                } else {
                    assert(false);
                }
            }
        }
    }
}

/// However many instances start at the same time, together they do what one would:
/// where no action fails and all of them are over, each of them has succeeded, and
/// the statements of every migration that was not on the ledger have been executed
/// once, in their order, and its version recorded once after them.
pub proof fn law_instances_together_apply_each_migration_once(
    list: Seq<MigrationView>,
    count: nat,
    start: Set<Seq<char>>,
    turns: Seq<Turn>,
)
    requires
        count > 0,
        is_run(list, count, start, turns),
        has_no_failure(turns),
        forall|i: int|
            0 <= i < count ==> (#[trigger] after(list, count, start, turns).runs[i]).stage
                is Finished,
    ensures
        changes(list, count, start, turns) == pending(list, start, 0),
        are_known(list, after(list, count, start, turns).ledger, list.len() as int),
        forall|i: int|
            0 <= i < count ==> (#[trigger] after(list, count, start, turns).runs[i]).stage == (
            StageView::Finished { outcome: Ok(()) }),
{
    let state = after(list, count, start, turns);
    lemma_instances(list, count, start, turns);
    lemma_changes_and_rest(list, count, start, turns);
    assert(state.runs[0].stage is Finished);
    assert(is_sound(list, state.ledger, state.runs[0]));
    lemma_known_are_skipped(list, state.ledger, 0, list.len() as int);
    let done = changes(list, count, start, turns);
    assert(done + Seq::<ActionView>::empty() =~= done);
    assert forall|i: int| 0 <= i < count implies (#[trigger] state.runs[i]).stage == (
    StageView::Finished { outcome: Ok(()) }) by {
        assert(state.runs[i].stage is Finished);
        if let StageView::Finished { outcome } = state.runs[i].stage {
            assert(outcome is Ok);
            assert(outcome->Ok_0 == ());
        }
    }
}

} // verus!
