use resy::remotes::aws::schema::LAST_UPDATED;
use resy::remotes::aws::{
    setup_statements, Action, Change, CompactS3Object, DiffSession, DiffStats, ListPage,
    ListedObject, Notice, Outcome, StoredObject, Timestamp,
};
use rusqlite::{Connection, OptionalExtension, Row};

fn create_state_db() -> Connection {
    let conn = Connection::open_in_memory().unwrap();
    for statement in setup_statements() {
        conn.execute(statement, ()).unwrap();
    }
    conn
}

fn entry(key: &str, etag: &str, size: i64, secs: i64) -> ListedObject {
    ListedObject {
        key: Some(key.to_string()),
        etag: Some(etag.to_string()),
        size: Some(size),
        last_modified: Some((secs, 0)),
    }
}

fn page(contents: Vec<ListedObject>) -> ListPage {
    ListPage { contents, is_truncated: None, next_continuation_token: None }
}

fn truncated(contents: Vec<ListedObject>, token: &str) -> ListPage {
    ListPage {
        contents,
        is_truncated: Some(true),
        next_continuation_token: Some(token.to_string()),
    }
}

fn compact(row: &Row, first: usize) -> rusqlite::Result<CompactS3Object> {
    Ok(CompactS3Object {
        etag: row.get(first)?,
        size: row.get(first + 1)?,
        last_modified: row.get(first + 2)?,
    })
}

fn unseen(conn: &Connection, sql: &str) -> rusqlite::Result<Vec<StoredObject>> {
    let mut statement = conn.prepare(sql)?;
    let rows = statement.query_map((), |row| {
        Ok(StoredObject { key: row.get(0)?, state: compact(row, 1)? })
    })?;
    rows.collect()
}

fn done<T, E>(result: Result<T, E>) -> Outcome {
    match result {
        Ok(_) => Outcome::Done,
        Err(_) => Outcome::Failed,
    }
}

struct Report {
    stats: Option<DiffStats>,
    changes: Vec<Change>,
    requests: Vec<(String, i32, Option<String>)>,
    notices: Vec<Notice>,
}

/// Runs a session on the database. The handler says whether it accepts a change.
fn run(conn: &Connection, pages: Vec<ListPage>, accept: fn(&Change) -> bool) -> Report {
    let tx = conn.unchecked_transaction().unwrap();
    let mut pages = pages.into_iter();
    let mut report = Report {
        stats: None,
        changes: Vec::new(),
        requests: Vec::new(),
        notices: Vec::new(),
    };
    let mut step = DiffSession::start("my-test-bucket".to_string());
    loop {
        report.notices.append(&mut step.notices);
        let sql = step.action.statement().unwrap_or("");
        let outcome = match step.action {
            Action::AddSeenColumn | Action::ResetSeen | Action::DropSeenColumn => {
                done(tx.execute(sql, ()))
            }
            Action::PrepareLookup
            | Action::PrepareUpsert
            | Action::PrepareMarkSeen
            | Action::PrepareUnseen
            | Action::PrepareDelete => done(tx.prepare(sql)),
            Action::Connect => Outcome::Done,
            Action::ListObjects(request) => {
                report.requests.push((
                    request.bucket,
                    request.max_keys,
                    request.continuation_token,
                ));
                match pages.next() {
                    Some(page) => Outcome::Page(page),
                    None => Outcome::Failed,
                }
            }
            Action::Lookup { key } => {
                match tx.query_row(sql, [key], |row| compact(row, 0)).optional() {
                    Ok(found) => Outcome::Found(found),
                    Err(_) => Outcome::Failed,
                }
            }
            Action::Upsert(row) => {
                done(tx.execute(sql, (row.key, row.etag, row.size, row.last_modified)))
            }
            Action::MarkSeen { key } | Action::Delete { key } => done(tx.execute(sql, [key])),
            Action::Notify(change) => {
                if accept(&change) {
                    report.changes.push(change);
                    Outcome::Done
                } else {
                    Outcome::Failed
                }
            }
            Action::SelectUnseen => match unseen(&tx, sql) {
                Ok(rows) => Outcome::Unseen(rows),
                Err(_) => Outcome::Failed,
            },
            Action::ReadClock => Outcome::Time(1609459200),
            Action::RecordUpdate { time } => done(tx.execute(sql, [time])),
            Action::Commit => break,
            Action::Finish(_) => panic!("finished before the commit"),
            Action::Abort => {
                tx.rollback().unwrap();
                return report;
            }
        };
        step = step.session.resume(outcome);
    }
    let outcome = done(tx.commit());
    match step.session.resume(outcome).action {
        Action::Finish(stats) => report.stats = Some(stats),
        _ => panic!("not finished after the commit"),
    }
    report
}

fn all(_: &Change) -> bool {
    true
}

fn stats(added: u64, modified: u64, deleted: u64, unchanged: u64) -> Option<DiffStats> {
    Some(DiffStats { added, modified, deleted, unchanged })
}

fn rows(conn: &Connection) -> Vec<(String, String, i64, i64)> {
    let mut statement = conn
        .prepare("SELECT key, etag, size, last_modified FROM object_state ORDER BY key")
        .unwrap();
    let rows = statement
        .query_map((), |row| Ok((row.get(0)?, row.get(1)?, row.get(2)?, row.get(3)?)))
        .unwrap();
    rows.collect::<Result<Vec<_>, _>>().unwrap()
}

fn row(key: &str, etag: &str, size: i64, secs: i64) -> (String, String, i64, i64) {
    (key.to_string(), etag.to_string(), size, secs)
}

#[test]
fn test_create_state_db() {
    let conn = create_state_db();

    let mut stmt = conn.prepare("SELECT name FROM sqlite_master WHERE type='table'").unwrap();
    let tables: Vec<String> = stmt
        .query_map([], |row| row.get::<_, String>(0))
        .unwrap()
        .collect::<Result<Vec<_>, _>>()
        .unwrap();

    assert!(tables.contains(&"object_state".to_string()));
    assert!(tables.contains(&"metadata".to_string()));

    let mut index_stmt = conn
        .prepare("SELECT name FROM sqlite_master WHERE type='index' AND name='idx_etag'")
        .unwrap();
    let index_count: i32 = index_stmt.query_row([], |_| Ok(1)).unwrap_or(0);
    assert_eq!(index_count, 1);
}

#[test]
fn test_database_operations() {
    let conn = create_state_db();

    conn.execute(
        "INSERT INTO object_state (key, etag, size, last_modified) VALUES (?1, ?2, ?3, ?4)",
        ("test/file.txt", "etag123", 1024, 1609459200),
    )
    .unwrap();

    let mut stmt = conn
        .prepare("SELECT key, etag, size, last_modified FROM object_state WHERE key = ?1")
        .unwrap();
    let (key, etag, size, last_modified): (String, String, i64, i64) = stmt
        .query_row(["test/file.txt"], |row| {
            Ok((row.get(0)?, row.get(1)?, row.get(2)?, row.get(3)?))
        })
        .unwrap();

    assert_eq!(key, "test/file.txt");
    assert_eq!(etag, "etag123");
    assert_eq!(size, 1024);
    assert_eq!(last_modified, 1609459200);
}

#[test]
fn test_database_with_temp_seen_column() {
    let conn = create_state_db();

    conn.execute(
        "INSERT INTO object_state (key, etag, size, last_modified) VALUES (?1, ?2, ?3, ?4)",
        ("test/file.txt", "etag123", 1024, 1609459200),
    )
    .unwrap();

    let tx = conn.unchecked_transaction().unwrap();

    let add = Action::AddSeenColumn.statement().unwrap();
    assert_eq!(add, "ALTER TABLE object_state ADD COLUMN temp_seen INTEGER DEFAULT 0");
    tx.execute(add, []).unwrap();

    let mark = Action::PrepareMarkSeen.statement().unwrap();
    assert_eq!(mark, "UPDATE object_state SET temp_seen = 1 WHERE key = ?1");
    tx.execute(mark, ["test/file.txt"]).unwrap();

    let temp_seen: i32 = tx
        .query_row(
            "SELECT temp_seen FROM object_state WHERE key = ?1",
            ["test/file.txt"],
            |row| row.get(0),
        )
        .unwrap();

    assert_eq!(temp_seen, 1);

    tx.commit().unwrap();
}

#[test]
fn test_stream_diff_and_update() {
    let conn = create_state_db();

    // 1. Initial check: no changes
    let report = run(&conn, vec![page(vec![])], all);
    assert_eq!(report.stats, Some(DiffStats::default()));

    // 2. Add a file
    let key = "test-file.txt";
    let content = "Hello, Resy!";
    let first = || entry(key, "etag-1", content.len() as i64, 1609459200);
    let report = run(&conn, vec![page(vec![first()])], all);
    let found = report.stats.unwrap();
    assert_eq!(found.added, 1);
    assert_eq!(found.modified, 0);
    assert_eq!(found.deleted, 0);
    assert_eq!(report.changes.len(), 1);
    match &report.changes[0] {
        Change::Added(obj) => {
            assert_eq!(obj.key, key);
            assert_eq!(obj.size, content.len() as i64);
        }
        _ => panic!("Expected Added change"),
    }

    // 3. Modify the file
    let updated_content = "Hello, Resy! Updated.";
    let second = || entry(key, "etag-2", updated_content.len() as i64, 1609459260);
    let report = run(&conn, vec![page(vec![second()])], all);
    let found = report.stats.unwrap();
    assert_eq!(found.added, 0);
    assert_eq!(found.modified, 1);
    assert_eq!(found.deleted, 0);
    assert_eq!(report.changes.len(), 1);
    match &report.changes[0] {
        Change::Modified { old, new } => {
            assert_eq!(new.key, key);
            assert_eq!(old.size, content.len() as i64);
            assert_eq!(new.size, updated_content.len() as i64);
            assert_eq!(old.last_modified, Timestamp::from_timestamp(1609459200, 0));
        }
        _ => panic!("Expected Modified change"),
    }

    // 4. Delete the file
    let report = run(&conn, vec![page(vec![])], all);
    let found = report.stats.unwrap();
    assert_eq!(found.added, 0);
    assert_eq!(found.modified, 0);
    assert_eq!(found.deleted, 1);
    assert_eq!(report.changes.len(), 1);
    match &report.changes[0] {
        Change::Deleted(obj) => {
            assert_eq!(obj.key, key);
            assert_eq!(obj.size, updated_content.len() as i64);
        }
        _ => panic!("Expected Deleted change"),
    }
}

#[test]
fn a_diff_is_exact() {
    let conn = create_state_db();
    let before = vec![entry("a", "1", 1, 10), entry("b", "1", 2, 20), entry("c", "1", 3, 30)];
    assert_eq!(run(&conn, vec![page(before)], all).stats, stats(3, 0, 0, 0));

    let after = vec![entry("b", "2", 22, 25), entry("c", "1", 3, 30), entry("d", "1", 4, 40)];
    let report = run(&conn, vec![page(after)], all);
    assert_eq!(report.stats, stats(1, 1, 1, 1));
    assert_eq!(report.changes.len(), 3);
    assert!(matches!(&report.changes[0], Change::Modified { old, new }
        if old.etag == "1" && old.size == 2 && new.etag == "2" && new.key == "b"));
    assert!(matches!(&report.changes[1], Change::Added(new) if new.key == "d"));
    assert!(matches!(&report.changes[2], Change::Deleted(old) if old.key == "a" && old.size == 1));
    assert_eq!(
        rows(&conn),
        vec![row("b", "2", 22, 25), row("c", "1", 3, 30), row("d", "1", 4, 40)]
    );
    let updated: String = conn
        .query_row("SELECT value FROM metadata WHERE key = 'last_updated'", (), |row| row.get(0))
        .unwrap();
    assert_eq!(updated, "1609459200");
}

#[test]
fn a_second_diff_is_quiet() {
    let conn = create_state_db();
    let listing = || vec![page(vec![entry("a", "1", 1, 10), entry("b", "1", 2, 20)])];
    run(&conn, listing(), all);
    let before = rows(&conn);
    let report = run(&conn, listing(), all);
    assert_eq!(report.stats, stats(0, 0, 0, 2));
    assert!(report.changes.is_empty());
    assert_eq!(rows(&conn), before);
}

#[test]
fn a_second_diff_in_another_order_is_quiet() {
    let conn = create_state_db();
    let (a, b, c) = (entry("a", "1", 1, 10), entry("b", "1", 2, 20), entry("c", "1", 3, 30));
    run(&conn, vec![page(vec![a, b, c])], |change| !matches!(change, Change::Added(o) if o.key == "b"));
    let before = rows(&conn);
    let (a, b, c) = (entry("a", "1", 1, 10), entry("b", "1", 2, 20), entry("c", "1", 3, 30));
    let report = run(&conn, vec![truncated(vec![c, a], "t1"), page(vec![b])], all);
    assert_eq!(report.stats, stats(0, 0, 0, 3));
    assert!(report.changes.is_empty());
    assert_eq!(rows(&conn), before);
}

#[test]
fn the_etag_alone_decides() {
    let conn = create_state_db();
    run(&conn, vec![page(vec![entry("a", "1", 1, 10)])], all);
    let report = run(&conn, vec![page(vec![entry("a", "1", 999, 99)])], all);
    assert_eq!(report.stats, stats(0, 0, 0, 1));
    assert_eq!(rows(&conn), vec![row("a", "1", 1, 10)]);
}

#[test]
fn a_key_that_is_listed_twice_is_compared_with_itself() {
    let conn = create_state_db();
    let report = run(&conn, vec![page(vec![entry("a", "1", 1, 10), entry("a", "2", 2, 20)])], all);
    assert_eq!(report.stats, stats(1, 1, 0, 0));
    assert_eq!(rows(&conn), vec![row("a", "2", 2, 20)]);
}

#[test]
fn pages_are_read_in_order() {
    let conn = create_state_db();
    let report = run(
        &conn,
        vec![
            truncated(vec![entry("a", "1", 1, 10)], "t1"),
            truncated(vec![], "t2"),
            ListPage {
                contents: vec![ListedObject { size: None, ..entry("x", "1", 1, 1) }, entry("b", "1", 2, 20)],
                is_truncated: Some(false),
                next_continuation_token: Some("t3".to_string()),
            },
            page(vec![entry("never", "1", 1, 1)]),
        ],
        all,
    );
    assert_eq!(report.stats, stats(2, 0, 0, 0));
    let bucket = || "my-test-bucket".to_string();
    assert_eq!(
        report.requests,
        vec![
            (bucket(), 1000, None),
            (bucket(), 1000, Some("t1".to_string())),
            (bucket(), 1000, Some("t2".to_string())),
        ]
    );
    assert!(report.notices.iter().any(|n| matches!(n, Notice::ListedInTotal(2))));
}

#[test]
fn the_marking_column_is_temporary() {
    let conn = create_state_db();
    let report = run(&conn, vec![page(vec![entry("a", "1", 1, 10)])], all);
    assert!(!report.notices.iter().any(|n| matches!(n, Notice::SeenColumnKept)));
    assert!(conn.prepare("SELECT temp_seen FROM object_state").is_err());
}

#[test]
fn a_refused_change_costs_its_object_only() {
    let conn = create_state_db();
    let listing = vec![page(vec![entry("bad", "1", 1, 10), entry("good", "1", 2, 20)])];
    let report = run(&conn, listing, |change| !matches!(change, Change::Added(o) if o.key == "bad"));
    assert_eq!(report.stats, stats(2, 0, 0, 0));
    assert_eq!(report.changes.len(), 1);
    assert_eq!(report.notices.iter().filter(|n| matches!(n, Notice::ObjectFailed)).count(), 1);
    assert_eq!(rows(&conn), vec![row("bad", "1", 1, 10), row("good", "1", 2, 20)]);
}

fn refuse_rows_of(conn: &Connection, key: &str) {
    conn.execute_batch(&format!(
        "CREATE TRIGGER refuse BEFORE INSERT ON object_state WHEN NEW.key = '{}' \
         BEGIN SELECT RAISE(ABORT, 'refused'); END",
        key
    ))
    .unwrap();
}

#[test]
fn an_object_whose_row_cannot_be_written_is_not_counted() {
    let conn = create_state_db();
    refuse_rows_of(&conn, "bad");
    let listing = vec![page(vec![entry("bad", "1", 1, 10), entry("good", "1", 2, 20)])];
    let report = run(&conn, listing, all);
    assert_eq!(report.stats, stats(1, 0, 0, 0));
    assert_eq!(report.changes.len(), 1);
    assert!(matches!(report.notices[0], Notice::ObjectFailed));
    assert!(matches!(report.notices[1], Notice::ListedInTotal(2)));
    assert_eq!(rows(&conn), vec![row("good", "1", 2, 20)]);
}

#[test]
fn a_modification_whose_row_cannot_be_written_is_not_counted() {
    let conn = create_state_db();
    run(&conn, vec![page(vec![entry("bad", "1", 1, 10), entry("good", "1", 2, 20)])], all);
    refuse_rows_of(&conn, "bad");
    let listing = vec![page(vec![entry("bad", "2", 1, 10), entry("good", "2", 2, 20)])];
    let report = run(&conn, listing, all);
    assert_eq!(report.stats, stats(0, 1, 0, 0));
    assert_eq!(report.changes.len(), 1);
    assert_eq!(rows(&conn), vec![row("bad", "1", 1, 10), row("good", "2", 2, 20)]);
}

#[test]
fn an_unreadable_row_ends_the_diff() {
    let conn = create_state_db();
    run(&conn, vec![page(vec![entry("a", "1", -1, 10)])], all);
    conn.execute("UPDATE metadata SET value = '7'", ()).unwrap();
    for listing in [vec![entry("a", "2", 5, 20)], vec![entry("b", "1", 5, 20)], vec![]] {
        assert_eq!(run(&conn, vec![page(listing)], all).stats, None);
        assert_eq!(rows(&conn), vec![row("a", "1", -1, 10)]);
        assert_eq!(last_updated(&conn), Some("7".to_string()));
    }
}

#[test]
fn a_refused_deletion_ends_the_diff() {
    let conn = create_state_db();
    run(&conn, vec![page(vec![entry("a", "1", 1, 10)])], all);
    let listing = vec![page(vec![entry("b", "1", 2, 20)])];
    let report = run(&conn, listing, |change| !matches!(change, Change::Deleted(_)));
    assert_eq!(report.stats, None);
    assert_eq!(rows(&conn), vec![row("a", "1", 1, 10)]);
}

#[test]
fn a_listing_that_breaks_off_leaves_the_table() {
    let conn = create_state_db();
    run(&conn, vec![page(vec![entry("a", "1", 1, 10)])], all);
    let report = run(&conn, vec![truncated(vec![entry("b", "1", 2, 20)], "t1")], all);
    assert_eq!(report.stats, None);
    assert_eq!(rows(&conn), vec![row("a", "1", 1, 10)]);
}

#[test]
fn a_negative_size_cannot_be_read_back() {
    let conn = create_state_db();
    let listing = || vec![page(vec![entry("a", "1", -1, 10)])];
    assert_eq!(run(&conn, listing(), all).stats, stats(1, 0, 0, 0));
    let report = run(&conn, listing(), all);
    assert_eq!(report.stats, None);
    assert!(matches!(report.notices[0], Notice::ObjectFailed));
}

#[test]
fn progress_is_reported_every_ten_thousand_objects() {
    let conn = create_state_db();
    let contents = (0..10_001).map(|i| entry(&format!("k{}", i), "1", 1, 1)).collect();
    let report = run(&conn, vec![page(contents)], all);
    assert_eq!(report.stats, stats(10_001, 0, 0, 0));
    assert_eq!(report.notices.len(), 3);
    assert!(matches!(report.notices[0], Notice::Compared(s) if s.added == 10_000));
    assert!(matches!(report.notices[1], Notice::Listed(10_000)));
    assert!(matches!(report.notices[2], Notice::ListedInTotal(10_001)));
}

#[test]
fn an_empty_listing_has_no_progress() {
    let report = run(&create_state_db(), vec![page(vec![])], all);
    assert_eq!(report.notices.len(), 1);
    assert!(matches!(report.notices[0], Notice::ListedInTotal(0)));
}

#[test]
fn progress_does_not_depend_on_the_pages() {
    let object = |i: i32| entry(&format!("k{}", i), "1", 1, 1);
    let pages = vec![
        truncated((0..9_999).map(object).collect(), "t1"),
        truncated(vec![object(9_999)], "t2"),
        truncated(vec![], "t3"),
        page((10_000..20_500).map(object).collect()),
    ];
    let report = run(&create_state_db(), pages, all);
    assert_eq!(report.stats, stats(20_500, 0, 0, 0));
    let listed: Vec<u64> = report
        .notices
        .iter()
        .filter_map(|n| match n {
            Notice::Listed(listed) => Some(*listed),
            _ => None,
        })
        .collect();
    assert_eq!(listed, vec![10_000, 20_000]);
}

#[test]
fn progress_is_reported_at_a_refused_change() {
    let contents = (0..10_001).map(|i| entry(&format!("k{}", i), "1", 1, 1)).collect();
    let report = run(&create_state_db(), vec![page(contents)], |change| {
        !matches!(change, Change::Added(object) if object.key == "k9999")
    });
    assert_eq!(report.stats, stats(10_001, 0, 0, 0));
    assert_eq!(report.notices.len(), 3);
    assert!(matches!(report.notices[0], Notice::ObjectFailed));
    assert!(matches!(report.notices[1], Notice::Listed(10_000)));
    assert!(matches!(report.notices[2], Notice::ListedInTotal(10_001)));
}

/// Answers every action of a session with a success until the one in question comes.
fn fails_at(wanted: fn(&Action) -> bool) -> Action {
    let mut step = DiffSession::start("bucket".to_string());
    let mut listed = false;
    loop {
        if wanted(&step.action) {
            return step.session.resume(Outcome::Failed).action;
        }
        let outcome = match step.action {
            Action::ListObjects(_) => {
                let contents = if listed { vec![] } else { vec![entry("a", "2", 1, 1), entry("b", "1", 1, 1)] };
                listed = true;
                Outcome::Page(page(contents))
            }
            Action::Lookup { key } => Outcome::Found(if key == "a" {
                Some(CompactS3Object { etag: "1".to_string(), size: 1, last_modified: 1 })
            } else {
                None
            }),
            Action::SelectUnseen => Outcome::Unseen(vec![StoredObject {
                key: "c".to_string(),
                state: CompactS3Object { etag: "1".to_string(), size: 1, last_modified: 1 },
            }]),
            Action::ReadClock => Outcome::Time(7),
            Action::Finish(_) | Action::Abort => panic!("the action never came"),
            _ => Outcome::Done,
        };
        step = step.session.resume(outcome);
    }
}

#[test]
fn every_failure_has_its_consequence() {
    let ends = |wanted| matches!(fails_at(wanted), Action::Abort);
    assert!(!ends(|a| matches!(a, Action::AddSeenColumn)));
    assert!(ends(|a| matches!(a, Action::ResetSeen)));
    assert!(ends(|a| matches!(a, Action::PrepareLookup)));
    assert!(ends(|a| matches!(a, Action::PrepareUpsert)));
    assert!(ends(|a| matches!(a, Action::PrepareMarkSeen)));
    assert!(ends(|a| matches!(a, Action::Connect)));
    assert!(ends(|a| matches!(a, Action::ListObjects(_))));
    assert!(!ends(|a| matches!(a, Action::Lookup { .. })));
    assert!(!ends(|a| matches!(a, Action::MarkSeen { .. })));
    assert!(!ends(|a| matches!(a, Action::Upsert(_))));
    assert!(!ends(|a| matches!(a, Action::Notify(Change::Added(_)))));
    assert!(!ends(|a| matches!(a, Action::Notify(Change::Modified { .. }))));
    assert!(ends(|a| matches!(a, Action::PrepareUnseen)));
    assert!(ends(|a| matches!(a, Action::SelectUnseen)));
    assert!(ends(|a| matches!(a, Action::PrepareDelete)));
    assert!(ends(|a| matches!(a, Action::Notify(Change::Deleted(_)))));
    assert!(ends(|a| matches!(a, Action::Delete { .. })));
    assert!(!ends(|a| matches!(a, Action::DropSeenColumn)));
    assert!(ends(|a| matches!(a, Action::ReadClock)));
    assert!(ends(|a| matches!(a, Action::RecordUpdate { time: 7 })));
    assert!(ends(|a| matches!(a, Action::Commit)));
}

#[test]
fn an_outcome_of_another_kind_counts_as_a_failure() {
    let step = DiffSession::start("bucket".to_string());
    let step = step.session.resume(Outcome::Done);
    assert!(matches!(step.action, Action::ResetSeen));
    let step = step.session.resume(Outcome::Found(None));
    assert!(matches!(step.action, Action::Abort));
    let step = step.session.resume(Outcome::Done);
    assert!(matches!(step.action, Action::Abort));
    assert_eq!(step.session.listed(), 0);
}

fn last_updated(conn: &Connection) -> Option<String> {
    conn.query_row("SELECT value FROM metadata WHERE key = ?1", [LAST_UPDATED], |row| row.get(0))
        .optional()
        .unwrap()
}

#[test]
fn a_committed_diff_records_its_time() {
    let conn = create_state_db();
    run(&conn, vec![], all);
    assert_eq!(last_updated(&conn), None);
    run(&conn, vec![page(vec![])], all);
    assert_eq!(last_updated(&conn), Some("1609459200".to_string()));
}

#[test]
fn a_diff_that_is_given_up_leaves_the_database() {
    let conn = create_state_db();
    run(&conn, vec![page(vec![entry("a", "1", 1, 10)])], all);
    conn.execute("UPDATE metadata SET value = '7'", ()).unwrap();
    conn.execute("INSERT INTO metadata (key, value) VALUES ('other', 'kept')", ()).unwrap();

    assert_eq!(run(&conn, vec![], all).stats, None);
    assert_eq!(last_updated(&conn), Some("7".to_string()));
    assert!(conn.prepare("SELECT temp_seen FROM object_state").is_err());
    assert_eq!(rows(&conn), vec![row("a", "1", 1, 10)]);

    run(&conn, vec![page(vec![])], all);
    assert_eq!(last_updated(&conn), Some("1609459200".to_string()));
    let metadata: i64 =
        conn.query_row("SELECT COUNT(*) FROM metadata", (), |row| row.get(0)).unwrap();
    assert_eq!(metadata, 2);
}

#[test]
fn a_column_that_is_there_already_is_used_and_removed() {
    let conn = create_state_db();
    run(&conn, vec![page(vec![entry("a", "1", 1, 10)])], all);
    conn.execute(Action::AddSeenColumn.statement().unwrap(), ()).unwrap();
    conn.execute("UPDATE object_state SET temp_seen = 1", ()).unwrap();
    assert_eq!(run(&conn, vec![page(vec![])], all).stats, stats(0, 0, 1, 0));
    assert!(conn.prepare("SELECT temp_seen FROM object_state").is_err());
}

#[test]
fn objects_are_taken_up_in_order_whatever_fails() {
    let mut pages = vec![
        page(vec![entry("c", "1", 1, 1), entry("d", "1", 1, 1)]),
        truncated(vec![entry("a", "1", 1, 1), entry("b", "1", 1, 1)], "more"),
    ];
    let mut taken: Vec<String> = Vec::new();
    let mut tokens: Vec<Option<String>> = Vec::new();
    let mut step = DiffSession::start("bucket".to_string());
    loop {
        let outcome = match step.action {
            Action::ListObjects(request) => {
                tokens.push(request.continuation_token);
                Outcome::Page(pages.pop().unwrap())
            }
            Action::Lookup { key } => {
                taken.push(key.clone());
                match key.as_str() {
                    "a" => Outcome::Failed,
                    "b" => Outcome::Found(Some(CompactS3Object {
                        etag: "1".to_string(),
                        size: 1,
                        last_modified: 1,
                    })),
                    _ => Outcome::Found(None),
                }
            }
            Action::Upsert(row) if row.key == "d" => Outcome::Done,
            Action::MarkSeen { .. } | Action::Upsert(_) | Action::Notify(_) => Outcome::Failed,
            Action::PrepareUnseen => break,
            _ => Outcome::Done,
        };
        step = step.session.resume(outcome);
    }
    assert_eq!(taken, ["a", "b", "c", "d"]);
    assert_eq!(tokens, [None, Some("more".to_string())]);
    assert_eq!(step.session.listed(), 4);
}

#[test]
fn the_time_of_the_clock_is_recorded() {
    let mut step = DiffSession::start("bucket".to_string());
    loop {
        let outcome = match step.action {
            Action::ListObjects(_) => Outcome::Page(page(vec![])),
            Action::SelectUnseen => Outcome::Unseen(vec![]),
            Action::ReadClock => Outcome::Time(-86_400),
            Action::RecordUpdate { time } => {
                assert_eq!(time, -86_400);
                break;
            }
            _ => Outcome::Done,
        };
        step = step.session.resume(outcome);
    }
    let step = step.session.resume(Outcome::Done);
    assert!(matches!(step.action, Action::Commit));
}

#[test]
fn a_request_that_fails_comes_after_the_objects_of_the_pages_read() {
    let conn = create_state_db();
    let report = run(&conn, vec![truncated(vec![entry("a", "1", 1, 1), entry("b", "1", 1, 1)], "t")], all);
    assert_eq!(report.stats, None);
    assert_eq!(report.changes.len(), 2);
    assert_eq!(report.requests.len(), 2);
}

#[test]
fn a_page_is_compared_before_the_next_is_asked_for() {
    let mut pages = vec![
        page(vec![entry("c", "1", 1, 1)]),
        truncated(vec![entry("a", "1", 1, 1), entry("b", "1", 1, 1)], "more"),
    ];
    let mut trace: Vec<String> = Vec::new();
    let mut step = DiffSession::start("bucket".to_string());
    loop {
        let outcome = match step.action {
            Action::ListObjects(_) => {
                trace.push("list".to_string());
                Outcome::Page(pages.pop().unwrap())
            }
            Action::Lookup { key } => {
                trace.push(key);
                Outcome::Found(None)
            }
            Action::PrepareUnseen => break,
            _ => Outcome::Done,
        };
        step = step.session.resume(outcome);
    }
    assert_eq!(trace, ["list", "a", "b", "list", "c"]);
    assert_eq!(step.session.listed(), 3);
}
