use advisory_db::error::LoadError;
use advisory_db::load::{package_count, Action, BatchLoad, Outcome, Stage};
use advisory_db::record::{Advisory, AffectedPackage};
use advisory_db::schema::{
    advisory_bindings, package_bindings, SqlValue, CREATE_ADVISORIES_TABLE,
    CREATE_AFFECTED_PACKAGES_TABLE, INSERT_ADVISORY, INSERT_AFFECTED_PACKAGE,
};
use rusqlite::types::Value;
use rusqlite::{params_from_iter, Connection};

fn text(s: &str) -> String {
    s.to_string()
}

fn advisory(id: &str, packages: &[&str]) -> Advisory {
    let affected = packages
        .iter()
        .map(|name| AffectedPackage {
            name: text(name),
            ecosystem: text("npm"),
            ranges: text("[]"),
            versions: vec![text("1.0.0")],
        })
        .collect();
    Advisory {
        id: text(id),
        schema_version: Some(text("1.4.0")),
        modified: text("2024-01-02T03:04:05Z"),
        published: None,
        withdrawn: None,
        aliases: None,
        summary: None,
        details: None,
        affected: Some(affected),
        database_specific: None,
        references: None,
    }
}

fn store() -> Connection {
    let conn = Connection::open_in_memory().unwrap();
    conn.execute(CREATE_ADVISORIES_TABLE, ()).unwrap();
    conn.execute(CREATE_AFFECTED_PACKAGES_TABLE, ()).unwrap();
    conn
}

fn bound(values: Vec<SqlValue>) -> Vec<Value> {
    values
        .into_iter()
        .map(|value| match value {
            SqlValue::Null => Value::Null,
            SqlValue::Integer(i) => Value::Integer(i),
            SqlValue::Text(t) => Value::Text(t),
        })
        .collect()
}

fn outcome<T>(result: rusqlite::Result<T>) -> Outcome {
    match result {
        Ok(_) => Outcome::Succeeded,
        Err(_) => Outcome::Failed,
    }
}

fn load(conn: &Connection, records: Vec<Advisory>) -> Result<(), LoadError> {
    let (mut state, mut action) = BatchLoad::start(records);
    loop {
        let answer = match &action {
            Action::AcquireLock => Outcome::Succeeded,
            Action::Begin => outcome(conn.execute_batch("BEGIN")),
            Action::InsertAdvisory(row) => outcome(
                conn.execute(INSERT_ADVISORY, params_from_iter(bound(advisory_bindings(row)))),
            ),
            Action::InsertPackage(row) => outcome(conn.execute(
                INSERT_AFFECTED_PACKAGE,
                params_from_iter(bound(package_bindings(row))),
            )),
            Action::Commit => outcome(conn.execute_batch("COMMIT")),
            Action::Rollback => outcome(conn.execute_batch("ROLLBACK")),
            Action::Finish(result) => return *result,
        };
        let next = state.advance(answer);
        state = next.0;
        action = next.1;
    }
}

fn count(conn: &Connection, table: &str) -> i64 {
    conn.query_row(&format!("SELECT COUNT(*) FROM {}", table), (), |row| row.get(0)).unwrap()
}

fn column(conn: &Connection, sql: &str) -> Vec<String> {
    let mut statement = conn.prepare(sql).unwrap();
    let rows = statement.query_map((), |row| row.get::<_, String>(0)).unwrap();
    rows.map(|r| r.unwrap()).collect()
}

fn script(records: Vec<Advisory>, outcomes: &[Outcome]) -> (Vec<Action>, BatchLoad) {
    let (mut state, first) = BatchLoad::start(records);
    let mut actions = vec![first];
    for answer in outcomes {
        let next = state.advance(*answer);
        state = next.0;
        actions.push(next.1);
    }
    (actions, state)
}

#[test]
fn duplicate_identifier_rolls_the_whole_batch_back() {
    let conn = store();
    let batch = vec![
        advisory("GHSA-0000-0000-0001", &["a"]),
        advisory("GHSA-0000-0000-0002", &[]),
        advisory("GHSA-0000-0000-0003", &["b", "c"]),
        advisory("GHSA-0000-0000-0001", &["d"]),
    ];
    assert_eq!(load(&conn, batch), Err(LoadError::Transaction));
    assert_eq!(count(&conn, "advisories"), 0);
    assert_eq!(count(&conn, "affected_packages"), 0);
    assert!(conn.is_autocommit());
}

#[test]
fn rows_are_stored_in_input_order() {
    let conn = store();
    let batch = vec![
        advisory("GHSA-0000-0000-0002", &[]),
        advisory("GHSA-0000-0000-0001", &["zlib", "acorn", "minimist"]),
    ];
    assert_eq!(load(&conn, batch), Ok(()));
    assert_eq!(count(&conn, "advisories"), 2);
    assert_eq!(count(&conn, "affected_packages"), 3);
    assert_eq!(
        column(&conn, "SELECT ghsa FROM advisories ORDER BY rowid"),
        vec!["GHSA-0000-0000-0002", "GHSA-0000-0000-0001"]
    );
    assert_eq!(
        column(&conn, "SELECT name FROM affected_packages ORDER BY rowid"),
        vec!["zlib", "acorn", "minimist"]
    );
    assert_eq!(
        column(&conn, "SELECT DISTINCT ghsa FROM affected_packages"),
        vec!["GHSA-0000-0000-0001"]
    );
}

#[test]
fn stored_columns_are_those_of_the_row() {
    let conn = store();
    let mut record = advisory("GHSA-0000-0000-0001", &["left-pad"]);
    record.aliases = Some(vec![text("CVE-2023-0001")]);
    record.references = Some(vec![text("https://example.com/repo/pull/42/files")]);
    record.database_specific = Some(advisory_db::record::DatabaseSpecific {
        severity: Some(text("HIGH")),
        cwe_ids: Some(vec![text("CWE-79")]),
        github_reviewed: Some(true),
        github_reviewed_at: None,
        nvd_published_at: None,
    });
    assert_eq!(load(&conn, vec![record]), Ok(()));
    let stored: (String, String, Option<String>, String, Option<String>, String, i64, String) = conn
        .query_row(
            "SELECT ghsa, modified, published, cve, ref_commits, ref_pull_requests, \
             github_reviewed, cwes FROM advisories",
            (),
            |row| {
                Ok((
                    row.get(0)?,
                    row.get(1)?,
                    row.get(2)?,
                    row.get(3)?,
                    row.get(4)?,
                    row.get(5)?,
                    row.get(6)?,
                    row.get(7)?,
                ))
            },
        )
        .unwrap();
    assert_eq!(
        stored,
        (
            text("GHSA-0000-0000-0001"),
            text("2024-01-02T03:04:05Z"),
            None,
            text("CVE-2023-0001"),
            None,
            text("[\"https://example.com/repo/pull/42\"]"),
            1,
            text("[\"CWE-79\"]"),
        )
    );
    let package: (String, String, String, String, String) = conn
        .query_row(
            "SELECT ghsa, name, ecosystem, ranges, versions FROM affected_packages",
            (),
            |row| Ok((row.get(0)?, row.get(1)?, row.get(2)?, row.get(3)?, row.get(4)?)),
        )
        .unwrap();
    assert_eq!(
        package,
        (
            text("GHSA-0000-0000-0001"),
            text("left-pad"),
            text("npm"),
            text("[]"),
            text("[\"1.0.0\"]"),
        )
    );
}

#[test]
fn second_batch_with_a_stored_identifier_leaves_the_first_batch() {
    let conn = store();
    assert_eq!(load(&conn, vec![advisory("GHSA-0000-0000-0001", &["a"])]), Ok(()));
    let second = vec![
        advisory("GHSA-0000-0000-0002", &["b"]),
        advisory("GHSA-0000-0000-0001", &["c"]),
    ];
    assert_eq!(load(&conn, second), Err(LoadError::Transaction));
    assert_eq!(
        column(&conn, "SELECT ghsa FROM advisories ORDER BY rowid"),
        vec!["GHSA-0000-0000-0001"]
    );
    assert_eq!(column(&conn, "SELECT name FROM affected_packages ORDER BY rowid"), vec!["a"]);
}

#[test]
fn empty_batch_begins_and_commits() {
    let conn = store();
    assert_eq!(load(&conn, Vec::new()), Ok(()));
    assert_eq!(count(&conn, "advisories"), 0);
    let (actions, state) = script(Vec::new(), &[Outcome::Succeeded; 3]);
    assert_eq!(
        actions,
        vec![Action::AcquireLock, Action::Begin, Action::Commit, Action::Finish(Ok(()))]
    );
    assert_eq!(state.result(), Some(Ok(())));
}

#[test]
fn refused_lock_ends_the_load_before_it_begins() {
    let (actions, state) =
        script(vec![advisory("GHSA-0000-0000-0001", &["a"])], &[Outcome::Failed]);
    assert_eq!(
        actions,
        vec![Action::AcquireLock, Action::Finish(Err(LoadError::LockAcquisition))]
    );
    assert_eq!(state.result(), Some(Err(LoadError::LockAcquisition)));
}

#[test]
fn refused_begin_ends_the_load_without_a_rollback() {
    let (actions, _) = script(
        vec![advisory("GHSA-0000-0000-0001", &["a"])],
        &[Outcome::Succeeded, Outcome::Failed],
    );
    assert_eq!(
        actions,
        vec![Action::AcquireLock, Action::Begin, Action::Finish(Err(LoadError::Transaction))]
    );
}

#[test]
fn refused_insert_is_followed_by_a_rollback() {
    let (actions, state) = script(
        vec![advisory("GHSA-0000-0000-0001", &["a", "b"])],
        &[
            Outcome::Succeeded,
            Outcome::Succeeded,
            Outcome::Succeeded,
            Outcome::Failed,
            Outcome::Succeeded,
            Outcome::Succeeded,
        ],
    );
    assert_eq!(actions.len(), 7);
    assert!(matches!(actions[2], Action::InsertAdvisory(_)));
    assert!(matches!(actions[3], Action::InsertPackage(_)));
    assert_eq!(actions[4], Action::Rollback);
    assert_eq!(actions[5], Action::Finish(Err(LoadError::Transaction)));
    assert_eq!(actions[6], Action::Finish(Err(LoadError::Transaction)));
    assert_eq!(
        state.current_stage(),
        Stage::Finished { result: Err(LoadError::Transaction) }
    );
}

#[test]
fn refused_commit_is_followed_by_a_rollback() {
    let (actions, _) = script(
        vec![advisory("GHSA-0000-0000-0001", &[])],
        &[
            Outcome::Succeeded,
            Outcome::Succeeded,
            Outcome::Succeeded,
            Outcome::Failed,
            Outcome::Failed,
        ],
    );
    assert_eq!(actions[3], Action::Commit);
    assert_eq!(actions[4], Action::Rollback);
    assert_eq!(actions[5], Action::Finish(Err(LoadError::Transaction)));
}

#[test]
fn rows_are_asked_for_record_by_record() {
    let records = vec![
        advisory("GHSA-0000-0000-0001", &["a", "b"]),
        advisory("GHSA-0000-0000-0002", &[]),
        advisory("GHSA-0000-0000-0003", &["c"]),
    ];
    let (actions, state) = script(records, &[Outcome::Succeeded; 9]);
    let asked: Vec<String> = actions
        .iter()
        .map(|action| match action {
            Action::AcquireLock => text("lock"),
            Action::Begin => text("begin"),
            Action::InsertAdvisory(row) => format!("advisory {}", row.ghsa),
            Action::InsertPackage(row) => format!("package {} of {}", row.name, row.ghsa),
            Action::Commit => text("commit"),
            Action::Rollback => text("rollback"),
            Action::Finish(Ok(())) => text("done"),
            Action::Finish(Err(_)) => text("failed"),
        })
        .collect();
    assert_eq!(
        asked,
        vec![
            "lock",
            "begin",
            "advisory GHSA-0000-0000-0001",
            "package a of GHSA-0000-0000-0001",
            "package b of GHSA-0000-0000-0001",
            "advisory GHSA-0000-0000-0002",
            "advisory GHSA-0000-0000-0003",
            "package c of GHSA-0000-0000-0003",
            "commit",
            "done",
        ]
    );
    assert_eq!(state.result(), Some(Ok(())));
}

#[test]
fn stage_follows_the_rows() {
    let records = vec![advisory("GHSA-0000-0000-0001", &["a"])];
    let (state, _) = BatchLoad::start(records);
    assert_eq!(state.current_stage(), Stage::Locking);
    assert_eq!(state.result(), None);
    let (state, _) = state.advance(Outcome::Succeeded);
    assert_eq!(state.current_stage(), Stage::Beginning);
    let (state, _) = state.advance(Outcome::Succeeded);
    assert_eq!(state.current_stage(), Stage::Writing { record: 0, part: 0 });
    let (state, _) = state.advance(Outcome::Succeeded);
    assert_eq!(state.current_stage(), Stage::Writing { record: 0, part: 1 });
    let (state, _) = state.advance(Outcome::Succeeded);
    assert_eq!(state.current_stage(), Stage::Committing);
    let (state, _) = state.advance(Outcome::Succeeded);
    assert_eq!(state.current_stage(), Stage::Finished { result: Ok(()) });
}

#[test]
fn package_count_counts_the_affected_packages() {
    assert_eq!(package_count(&advisory("GHSA-0000-0000-0001", &["a", "b"])), 2);
    let mut record = advisory("GHSA-0000-0000-0001", &[]);
    assert_eq!(package_count(&record), 0);
    record.affected = None;
    assert_eq!(package_count(&record), 0);
}

#[test]
fn bindings_follow_the_columns() {
    let record = advisory("GHSA-0000-0000-0001", &["a"]);
    let row = advisory_db::normalize::normalize(&record).unwrap();
    let values = advisory_bindings(&row);
    assert_eq!(values.len(), 16);
    assert_eq!(values[0], SqlValue::Text(text("GHSA-0000-0000-0001")));
    assert_eq!(values[1], SqlValue::Text(text("1.4.0")));
    assert_eq!(values[2], SqlValue::Text(text("2024-01-02T03:04:05Z")));
    assert_eq!(values[3], SqlValue::Null);
    assert_eq!(values[6], SqlValue::Text(text("[\"npm\"]")));
    assert_eq!(values[11], SqlValue::Null);
    let package = advisory_db::normalize::make_package_row(
        &record.id,
        &record.affected.as_ref().unwrap()[0],
    )
    .unwrap();
    assert_eq!(
        package_bindings(&package),
        vec![
            SqlValue::Text(text("GHSA-0000-0000-0001")),
            SqlValue::Text(text("a")),
            SqlValue::Text(text("npm")),
            SqlValue::Text(text("[]")),
            SqlValue::Text(text("[\"1.0.0\"]")),
        ]
    );
}
