use matrix_service::migration_run::{
    Migration, MigrationAction, MigrationError, MigrationEvent, MigrationRun,
};
use matrix_service::migrations::{split_statements, versions};

fn migrations() -> Vec<Migration> {
    vec![
        Migration {
            version: "0001".into(),
            sql: "CREATE TABLE a ();\n\nCREATE TABLE b ();\n".into(),
        },
        Migration {
            version: "0002".into(),
            sql: "ALTER TABLE a ADD c TEXT".into(),
        },
        Migration {
            version: "0003".into(),
            sql: " ; ".into(),
        },
    ]
}

/// Runs the migrations on a ledger and a list of executed statements, until the
/// action that is to fail.
fn run(ledger: &mut Vec<String>, executed: &mut Vec<String>, fail_at: Option<usize>) -> Option<MigrationError> {
    let mut run = MigrationRun::begin(migrations());
    let mut count = 0;
    loop {
        let action = run.action();
        let event = if Some(count) == fail_at {
            MigrationEvent::Failed
        } else {
            match action {
                MigrationAction::Check { version } => {
                    MigrationEvent::Known(ledger.contains(&version))
                }
                MigrationAction::Execute { statement } => {
                    executed.push(statement);
                    MigrationEvent::Done
                }
                MigrationAction::Record { version } => {
                    ledger.push(version);
                    MigrationEvent::Done
                }
                MigrationAction::Finish => return run.into_outcome().unwrap().err(),
                _ => MigrationEvent::Done,
            }
        };
        assert!(run.accepts(event));
        run = run.step(event);
        count += 1;
    }
}

#[test]
fn versions_are_in_their_order() {
    assert_eq!(
        versions(),
        vec!["0001", "0002", "0003", "0004", "0005", "0006", "0007"]
    );
}

#[test]
fn statements_are_taken_apart() {
    assert_eq!(split_statements("A;B ; C\n"), vec!["A", "B", "C"]);
    assert_eq!(split_statements("\n A;\n\n;;B;"), vec!["A", "B"]);
    assert_eq!(split_statements("A b\n c"), vec!["A b\n c"]);
    assert!(split_statements("").is_empty());
    assert!(split_statements(" ; \n").is_empty());
}

#[test]
fn migrations_are_applied_once() {
    let mut ledger = Vec::new();
    let mut executed = Vec::new();
    assert!(run(&mut ledger, &mut executed, None).is_none());
    assert_eq!(ledger, vec!["0001", "0002", "0003"]);
    assert_eq!(
        executed,
        vec!["CREATE TABLE a ()", "CREATE TABLE b ()", "ALTER TABLE a ADD c TEXT"]
    );
    assert!(run(&mut ledger, &mut executed, None).is_none());
    assert_eq!(ledger.len(), 3);
    assert_eq!(executed.len(), 3);
}

#[test]
fn known_migrations_are_skipped() {
    let mut ledger = vec!["0001".to_string()];
    let mut executed = Vec::new();
    assert!(run(&mut ledger, &mut executed, None).is_none());
    assert_eq!(ledger, vec!["0001", "0002", "0003"]);
    assert_eq!(executed, vec!["ALTER TABLE a ADD c TEXT"]);
}

#[test]
fn a_failed_migration_is_not_recorded() {
    for (fail_at, message, recorded) in [
        (0, "locking Matrix Service migrations", 0),
        (1, "creating Matrix Service schema", 0),
        (2, "creating Matrix Service migration ledger", 0),
        (3, "checking Matrix Service migration ledger", 0),
        (4, "applying Matrix Service migration 0001", 0),
        (5, "applying Matrix Service migration 0001", 0),
        (6, "recording Matrix Service migration 0001", 0),
        (8, "applying Matrix Service migration 0002", 1),
    ] {
        let mut ledger = Vec::new();
        let mut executed = Vec::new();
        let error = run(&mut ledger, &mut executed, Some(fail_at)).unwrap();
        assert_eq!(error.message(), message);
        assert_eq!(ledger.len(), recorded);
    }
}

#[test]
fn the_lock_is_given_back() {
    let run = MigrationRun::begin(migrations());
    assert!(matches!(run.action(), MigrationAction::Lock));
    let locked = run.step(MigrationEvent::Done).step(MigrationEvent::Failed);
    assert!(matches!(locked.action(), MigrationAction::Unlock));
    let finished = locked.step(MigrationEvent::Done);
    assert!(matches!(finished.action(), MigrationAction::Finish));
    assert!(!finished.accepts(MigrationEvent::Done));
    let refused = MigrationRun::begin(migrations()).step(MigrationEvent::Failed);
    assert!(matches!(refused.action(), MigrationAction::Finish));
    let empty = MigrationRun::begin(Vec::new())
        .step(MigrationEvent::Done)
        .step(MigrationEvent::Done)
        .step(MigrationEvent::Done);
    assert!(matches!(empty.action(), MigrationAction::Unlock));
    assert!(empty.into_outcome().is_none());
}

/// Lets two instances run at the same time, the one or the other going on by turns
/// as far as the lock lets it.
#[test]
fn two_instances_apply_each_migration_once() {
    for period in 1..6 {
        let mut runs = vec![
            MigrationRun::begin(migrations()),
            MigrationRun::begin(migrations()),
        ];
        let mut holder: Option<usize> = None;
        let mut ledger: Vec<String> = Vec::new();
        let mut executed: Vec<String> = Vec::new();
        let mut turn = 0;
        while !runs.iter().all(|run| matches!(run.action(), MigrationAction::Finish)) {
            let who = turn / period % 2;
            turn += 1;
            let event = match runs[who].action() {
                MigrationAction::Finish => continue,
                MigrationAction::Lock if holder.is_some() => continue,
                MigrationAction::Lock => {
                    holder = Some(who);
                    MigrationEvent::Done
                }
                MigrationAction::Unlock => {
                    holder = None;
                    MigrationEvent::Done
                }
                MigrationAction::Check { version } => {
                    MigrationEvent::Known(ledger.contains(&version))
                }
                MigrationAction::Execute { statement } => {
                    assert_eq!(holder, Some(who));
                    executed.push(statement);
                    MigrationEvent::Done
                }
                MigrationAction::Record { version } => {
                    ledger.push(version);
                    MigrationEvent::Done
                }
                _ => MigrationEvent::Done,
            };
            let run = runs.remove(who);
            runs.insert(who, run.step(event));
        }
        for run in runs {
            assert!(run.into_outcome().unwrap().is_ok());
        }
        assert_eq!(ledger, vec!["0001", "0002", "0003"]);
        assert_eq!(
            executed,
            vec!["CREATE TABLE a ()", "CREATE TABLE b ()", "ALTER TABLE a ADD c TEXT"]
        );
    }
}
