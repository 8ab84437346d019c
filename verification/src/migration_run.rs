//! The run of the migrations at startup, as a sequence of steps. Each step asks for
//! an action on the database; what came of it decides the next step.

use vstd::prelude::*;

use crate::migrations::{self, split_statements};
use crate::text::concat3;

verus! {

/// A migration: its version, and its statements as one text.
#[derive(Debug)]
pub struct Migration {
    pub version: String,
    pub sql: String,
}

/// The contents of a [`Migration`].
pub struct MigrationView {
    pub version: Seq<char>,
    pub sql: Seq<char>,
}

impl View for Migration {
    type V = MigrationView;

    open spec fn view(&self) -> MigrationView {
        MigrationView { version: self.version@, sql: self.sql@ }
    }
}

impl DeepView for Migration {
    type V = MigrationView;

    open spec fn deep_view(&self) -> MigrationView {
        self@
    }
}

/// Why the migrations were not applied.
#[derive(Debug)]
pub enum MigrationError {
    LockFailed,
    SchemaFailed,
    LedgerFailed,
    CheckFailed,
    ApplyFailed { version: String },
    RecordFailed { version: String },
}

/// The contents of a [`MigrationError`].
pub enum ErrorView {
    LockFailed,
    SchemaFailed,
    LedgerFailed,
    CheckFailed,
    ApplyFailed { version: Seq<char> },
    RecordFailed { version: Seq<char> },
}

impl View for MigrationError {
    type V = ErrorView;

    open spec fn view(&self) -> ErrorView {
        match self {
            MigrationError::LockFailed => ErrorView::LockFailed,
            MigrationError::SchemaFailed => ErrorView::SchemaFailed,
            MigrationError::LedgerFailed => ErrorView::LedgerFailed,
            MigrationError::CheckFailed => ErrorView::CheckFailed,
            MigrationError::ApplyFailed { version } => ErrorView::ApplyFailed { version: version@ },
            MigrationError::RecordFailed { version } => ErrorView::RecordFailed {
                version: version@,
            },
        }
    }
}

impl ErrorView {
    /// What was being done when the run failed.
    pub open spec fn message(self) -> Seq<char> {
        match self {
            ErrorView::LockFailed => "locking Matrix Service migrations"@,
            ErrorView::SchemaFailed => "creating Matrix Service schema"@,
            ErrorView::LedgerFailed => "creating Matrix Service migration ledger"@,
            ErrorView::CheckFailed => "checking Matrix Service migration ledger"@,
            ErrorView::ApplyFailed { version } => "applying Matrix Service migration "@ + version,
            ErrorView::RecordFailed { version } => "recording Matrix Service migration "@
                + version,
        }
    }
}

impl MigrationError {
    /// What was being done when the run failed.
    pub fn message(&self) -> (message: String)
        ensures
            message@ == self@.message(),
    {
        proof {
            reveal_strlit("");
        }
        match self {
            MigrationError::LockFailed => "locking Matrix Service migrations".to_owned(),
            MigrationError::SchemaFailed => "creating Matrix Service schema".to_owned(),
            MigrationError::LedgerFailed => "creating Matrix Service migration ledger".to_owned(),
            MigrationError::CheckFailed => "checking Matrix Service migration ledger".to_owned(),
            MigrationError::ApplyFailed { version } => {
                concat3("applying Matrix Service migration ", version.as_str(), "")
            },
            MigrationError::RecordFailed { version } => {
                concat3("recording Matrix Service migration ", version.as_str(), "")
            },
        }
    }
}

/// How far a run has come.
#[derive(Debug)]
enum Stage {
    Locking,
    CreatingSchema,
    CreatingLedger,
    Checking { index: usize },
    Applying { index: usize, statements: Vec<String>, applied: usize },
    Recording { index: usize },
    Unlocking { outcome: Result<(), MigrationError> },
    Finished { outcome: Result<(), MigrationError> },
}

/// How far a run has come: the action that it waits for.
pub enum StageView {
    /// Other instances are locked out.
    Locking,
    /// The schema is created, if it is not there.
    CreatingSchema,
    /// The ledger of applied versions is created, if it is not there.
    CreatingLedger,
    /// The ledger is asked about a version.
    Checking { index: int },
    /// The statements of a version are executed, one by one.
    Applying { index: int, applied: int },
    /// A version is put on the ledger.
    Recording { index: int },
    /// Other instances are let in.
    Unlocking { outcome: Result<(), ErrorView> },
    /// The run is over.
    Finished { outcome: Result<(), ErrorView> },
}

/// The contents of an outcome.
pub open spec fn outcome_view(outcome: Result<(), MigrationError>) -> Result<(), ErrorView> {
    match outcome {
        Ok(_) => Ok(()),
        Err(error) => Err(error@),
    }
}

impl View for Stage {
    type V = StageView;

    closed spec fn view(&self) -> StageView {
        match self {
            Stage::Locking => StageView::Locking,
            Stage::CreatingSchema => StageView::CreatingSchema,
            Stage::CreatingLedger => StageView::CreatingLedger,
            Stage::Checking { index } => StageView::Checking { index: *index as int },
            Stage::Applying { index, statements, applied } => StageView::Applying {
                index: *index as int,
                applied: *applied as int,
            },
            Stage::Recording { index } => StageView::Recording { index: *index as int },
            Stage::Unlocking { outcome } => StageView::Unlocking {
                outcome: outcome_view(*outcome),
            },
            Stage::Finished { outcome } => StageView::Finished { outcome: outcome_view(*outcome) },
        }
    }
}

/// What came of an action.
#[derive(Clone, Copy, Debug, PartialEq, Eq, Structural)]
pub enum MigrationEvent {
    /// It was done.
    Done,
    /// It failed.
    Failed,
    /// Whether the version is on the ledger.
    Known(bool),
}

/// What is to be done next.
#[derive(Debug)]
pub enum MigrationAction {
    Lock,
    CreateSchema,
    CreateLedger,
    Check { version: String },
    Execute { statement: String },
    Record { version: String },
    Unlock,
    Finish,
}

/// The contents of a [`MigrationAction`].
pub enum ActionView {
    Lock,
    CreateSchema,
    CreateLedger,
    Check { version: Seq<char> },
    Execute { statement: Seq<char> },
    Record { version: Seq<char> },
    Unlock,
    Finish,
}

impl View for MigrationAction {
    type V = ActionView;

    open spec fn view(&self) -> ActionView {
        match self {
            MigrationAction::Lock => ActionView::Lock,
            MigrationAction::CreateSchema => ActionView::CreateSchema,
            MigrationAction::CreateLedger => ActionView::CreateLedger,
            MigrationAction::Check { version } => ActionView::Check { version: version@ },
            MigrationAction::Execute { statement } => ActionView::Execute {
                statement: statement@,
            },
            MigrationAction::Record { version } => ActionView::Record { version: version@ },
            MigrationAction::Unlock => ActionView::Unlock,
            MigrationAction::Finish => ActionView::Finish,
        }
    }
}

/// A run of the migrations.
#[derive(Debug)]
pub struct MigrationRun {
    migrations: Vec<Migration>,
    stage: Stage,
}

/// The contents of a [`MigrationRun`].
pub struct RunView {
    pub migrations: Seq<MigrationView>,
    pub stage: StageView,
}

impl View for MigrationRun {
    type V = RunView;

    closed spec fn view(&self) -> RunView {
        RunView { migrations: self.migrations.deep_view(), stage: self.stage@ }
    }
}

impl RunView {
    /// The statements of the migration at `index`.
    pub open spec fn statements(self, index: int) -> Seq<Seq<char>> {
        migrations::statements(self.migrations[index].sql)
    }

    /// The run stands at a migration and a statement that are there.
    pub open spec fn well_formed(self) -> bool {
        match self.stage {
            StageView::Checking { index } => 0 <= index < self.migrations.len(),
            StageView::Applying { index, applied } => {
                &&& 0 <= index < self.migrations.len()
                &&& 0 <= applied < self.statements(index).len()
            },
            StageView::Recording { index } => 0 <= index < self.migrations.len(),
            _ => true,
        }
    }

    /// `event` can come of the action that the run waits for.
    pub open spec fn expects(self, event: MigrationEvent) -> bool {
        match self.stage {
            StageView::Checking { .. } => event is Known || event is Failed,
            StageView::Finished { .. } => false,
            _ => event is Done || event is Failed,
        }
    }

    /// The action that the run waits for.
    pub open spec fn action(self) -> ActionView {
        match self.stage {
            StageView::Locking => ActionView::Lock,
            StageView::CreatingSchema => ActionView::CreateSchema,
            StageView::CreatingLedger => ActionView::CreateLedger,
            StageView::Checking { index } => ActionView::Check {
                version: self.migrations[index].version,
            },
            StageView::Applying { index, applied } => ActionView::Execute {
                statement: self.statements(index)[applied],
            },
            StageView::Recording { index } => ActionView::Record {
                version: self.migrations[index].version,
            },
            StageView::Unlocking { .. } => ActionView::Unlock,
            StageView::Finished { .. } => ActionView::Finish,
        }
    }

    /// Goes on to the migration at `index`, if there is one.
    pub open spec fn turn_to(self, index: int) -> StageView {
        if index < self.migrations.len() {
            StageView::Checking { index }
        } else {
            StageView::Unlocking { outcome: Ok(()) }
        }
    }

    /// The stage that follows when the action has failed. What was locked is
    /// unlocked.
    pub open spec fn fail(self) -> StageView {
        let unlock = |error: ErrorView| StageView::Unlocking { outcome: Err(error) };
        match self.stage {
            StageView::Locking => StageView::Finished { outcome: Err(ErrorView::LockFailed) },
            StageView::CreatingSchema => unlock(ErrorView::SchemaFailed),
            StageView::CreatingLedger => unlock(ErrorView::LedgerFailed),
            StageView::Checking { .. } => unlock(ErrorView::CheckFailed),
            StageView::Applying { index, .. } => unlock(
                ErrorView::ApplyFailed { version: self.migrations[index].version },
            ),
            StageView::Recording { index } => unlock(
                ErrorView::RecordFailed { version: self.migrations[index].version },
            ),
            StageView::Unlocking { outcome } => StageView::Finished { outcome },
            StageView::Finished { .. } => self.stage,
        }
    }

    /// The stage that follows when `event` has come of the action.
    pub open spec fn next_stage(self, event: MigrationEvent) -> StageView {
        if event is Failed {
            self.fail()
        } else {
            match self.stage {
                StageView::Locking => StageView::CreatingSchema,
                StageView::CreatingSchema => StageView::CreatingLedger,
                StageView::CreatingLedger => self.turn_to(0),
                StageView::Checking { index } => if event == MigrationEvent::Known(true) {
                    self.turn_to(index + 1)
                } else if self.statements(index).len() > 0 {
                    StageView::Applying { index, applied: 0 }
                } else {
                    StageView::Recording { index }
                },
                StageView::Applying { index, applied } => if applied + 1 < self.statements(
                    index,
                ).len() {
                    StageView::Applying { index, applied: applied + 1 }
                } else {
                    StageView::Recording { index }
                },
                StageView::Recording { index } => self.turn_to(index + 1),
                StageView::Unlocking { outcome } => StageView::Finished { outcome },
                StageView::Finished { .. } => self.stage,
            }
        }
    }

    /// The run after `event` has come of the action.
    pub open spec fn next(self, event: MigrationEvent) -> RunView {
        RunView { migrations: self.migrations, stage: self.next_stage(event) }
    }
}

fn unlock_with(error: MigrationError) -> (stage: Stage)
    ensures
        stage@ == (StageView::Unlocking { outcome: Err(error@) }),
        !(stage is Applying),
{
    Stage::Unlocking { outcome: Err(error) }
}

/// Goes on to the migration at `index`, if there is one.
fn turn_to(migrations: &Vec<Migration>, index: usize) -> (stage: Stage)
    ensures
        index < migrations@.len() ==> stage@ == (StageView::Checking { index: index as int }),
        index >= migrations@.len() ==> stage@ == (StageView::Unlocking { outcome: Ok(()) }),
        !(stage is Applying),
{
    if index < migrations.len() {
        Stage::Checking { index }
    } else {
        Stage::Unlocking { outcome: Ok(()) }
    }
}

impl MigrationRun {
    #[verifier::type_invariant]
    spec fn is_well_formed(self) -> bool {
        &&& self@.well_formed()
        &&& match self.stage {
            Stage::Applying { index, statements, applied } => statements.deep_view()
                == self@.statements(index as int),
            _ => true,
        }
    }

    /// Starts a run.
    pub fn begin(migrations: Vec<Migration>) -> (run: MigrationRun)
        ensures
            run@ == (RunView { migrations: migrations.deep_view(), stage: StageView::Locking }),
    {
        MigrationRun { migrations, stage: Stage::Locking }
    }

    /// What is to be done next.
    pub fn action(&self) -> (action: MigrationAction)
        ensures
            action@ == self@.action(),
    {
        proof {
            use_type_invariant(self);
            assert(self.migrations.deep_view().len() == self.migrations.len());
        }
        match &self.stage {
            Stage::Locking => MigrationAction::Lock,
            Stage::CreatingSchema => MigrationAction::CreateSchema,
            Stage::CreatingLedger => MigrationAction::CreateLedger,
            Stage::Checking { index } => MigrationAction::Check {
                version: self.migrations[*index].version.clone(),
            },
            Stage::Applying { index: _, statements, applied } => {
                assert(statements.deep_view().len() == statements.len());
                MigrationAction::Execute { statement: statements[*applied].clone() }
            },
            Stage::Recording { index } => MigrationAction::Record {
                version: self.migrations[*index].version.clone(),
            },
            Stage::Unlocking { .. } => MigrationAction::Unlock,
            Stage::Finished { .. } => MigrationAction::Finish,
        }
    }

    /// Whether `event` can come of the action that the run waits for.
    pub fn accepts(&self, event: MigrationEvent) -> (accepted: bool)
        ensures
            accepted == self@.expects(event),
    {
        match &self.stage {
            Stage::Checking { .. } => matches!(
                event,
                MigrationEvent::Known(_) | MigrationEvent::Failed
            ),
            Stage::Finished { .. } => false,
            _ => matches!(event, MigrationEvent::Done | MigrationEvent::Failed),
        }
    }

    /// Goes on with what came of the action.
    pub fn step(self, event: MigrationEvent) -> (next: MigrationRun)
        requires
            self@.expects(event),
        ensures
            next@ == self@.next(event),
    {
        proof {
            use_type_invariant(&self);
            assert(self.migrations.deep_view().len() == self.migrations.len());
        }
        let MigrationRun { migrations, stage } = self;
        let failed = matches!(event, MigrationEvent::Failed);
        let stage = match stage {
            Stage::Locking => if failed {
                Stage::Finished { outcome: Err(MigrationError::LockFailed) }
            } else {
                Stage::CreatingSchema
            },
            Stage::CreatingSchema => if failed {
                unlock_with(MigrationError::SchemaFailed)
            } else {
                Stage::CreatingLedger
            },
            Stage::CreatingLedger => if failed {
                unlock_with(MigrationError::LedgerFailed)
            } else {
                turn_to(&migrations, 0)
            },
            Stage::Checking { index } => if failed {
                unlock_with(MigrationError::CheckFailed)
            } else if matches!(event, MigrationEvent::Known(true)) {
                turn_to(&migrations, index + 1)
            } else {
                let statements = split_statements(migrations[index].sql.as_str());
                assert(statements.deep_view().len() == statements.len());
                if statements.len() > 0 {
                    Stage::Applying { index, statements, applied: 0 }
                } else {
                    Stage::Recording { index }
                }
            },
            Stage::Applying { index, statements, applied } => {
                assert(statements.deep_view().len() == statements.len());
                if failed {
                    unlock_with(
                        MigrationError::ApplyFailed { version: migrations[index].version.clone() },
                    )
                } else if applied + 1 < statements.len() {
                    Stage::Applying { index, statements, applied: applied + 1 }
                } else {
                    Stage::Recording { index }
                }
            },
            Stage::Recording { index } => if failed {
                unlock_with(
                    MigrationError::RecordFailed { version: migrations[index].version.clone() },
                )
            } else {
                turn_to(&migrations, index + 1)
            },
            Stage::Unlocking { outcome } => Stage::Finished { outcome },
            Stage::Finished { outcome } => Stage::Finished { outcome },
        };
        MigrationRun { migrations, stage }
    }

    /// How the run ended, once it is over.
    pub fn into_outcome(self) -> (outcome: Option<Result<(), MigrationError>>)
        ensures
            match outcome {
                Some(outcome) => self@.stage == (StageView::Finished {
                    outcome: outcome_view(outcome),
                }),
                None => !(self@.stage is Finished),
            },
    {
        match self.stage {
            Stage::Finished { outcome } => Some(outcome),
            _ => None,
        }
    }
}

} // verus!
