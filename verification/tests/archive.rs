use ironvault::changes::DbOp;
use ironvault::db::{DbStep, EncryptedDb, FileMetadata, SortColumn, SortDirection, VaultStats};
use ironvault::export::{ArchiveCheck, FileExport, FilePreview, IntegrityCheck};
use ironvault::ident::Uuid;
use ironvault::ingest::FileImport;
use ironvault::sql::{Cell, DbError, SqlValue, Statement};
use rusqlite::types::{Value, ValueRef};
use rusqlite::Connection;

fn value_of(value: &SqlValue) -> Value {
    match value {
        SqlValue::Null => Value::Null,
        SqlValue::Integer(n) => Value::Integer(*n),
        SqlValue::Text(t) => Value::Text(t.clone()),
        SqlValue::Blob(b) => Value::Blob(b.clone()),
    }
}

fn values_of(statement: &Statement) -> Vec<Value> {
    statement.params.iter().map(value_of).collect()
}

fn cell_of(value: ValueRef<'_>) -> Cell {
    match value {
        ValueRef::Null => Cell::Null,
        ValueRef::Integer(n) => Cell::Integer(n),
        ValueRef::Real(_) => Cell::Real,
        ValueRef::Text(t) => Cell::Text(t.to_vec()),
        ValueRef::Blob(b) => Cell::Blob(b.to_vec()),
    }
}

fn query(conn: &Connection, statement: &Statement) -> Vec<Vec<Cell>> {
    let mut prepared = conn.prepare(&statement.sql).unwrap();
    let columns = prepared.column_count();
    let mut rows = prepared
        .query(rusqlite::params_from_iter(values_of(statement)))
        .unwrap();
    let mut all = Vec::new();
    while let Some(row) = rows.next().unwrap() {
        let mut cells = Vec::new();
        for i in 0..columns {
            cells.push(cell_of(row.get_ref(i).unwrap()));
        }
        all.push(cells);
    }
    all
}

fn make(conn: &Connection, op: &DbOp) -> rusqlite::Result<usize> {
    let statement = op.statement().unwrap();
    conn.execute(
        &statement.sql,
        rusqlite::params_from_iter(values_of(&statement)),
    )
}

fn take_step(conn: &Connection, step: &DbStep) -> rusqlite::Result<()> {
    match step {
        DbStep::Pragma {
            name,
            value,
            required,
        } => {
            let res = match value {
                SqlValue::Integer(n) => conn.pragma_update(None, name, n),
                SqlValue::Text(t) => conn.pragma_update(None, name, t),
                _ => Ok(()),
            };
            if *required {
                res
            } else {
                Ok(())
            }
        }
        DbStep::Batch { sql } => conn.execute_batch(sql),
        DbStep::Probe { sql } => conn.query_row(sql, [], |_| Ok(())),
    }
}

fn open_archive() -> Connection {
    let conn = Connection::open_in_memory().unwrap();
    let plan = EncryptedDb::open(":memory:", "secret key");
    assert_eq!(plan.path, ":memory:");
    for step in &plan.steps {
        take_step(&conn, step).unwrap();
    }
    conn
}

fn import(conn: &Connection, name: &str, blocks: &[Vec<u8>], folder: Option<Uuid>) -> Uuid {
    let size: usize = blocks.iter().map(|b| b.len()).sum();
    let tx = conn.unchecked_transaction().unwrap();
    let (mut import, insert) = EncryptedDb::stream_insert_file(name, size, 1_700_000_000, folder);
    make(&tx, &insert).unwrap();
    for block in blocks {
        let probe = import.take_block(block).unwrap();
        let rows = query(&tx, &probe.lookup);
        let row = rows.first().map(|r| r.as_slice());
        let ops = import.store_block(block, &probe.hash, row).unwrap();
        for op in &ops {
            make(&tx, op).unwrap();
        }
    }
    assert!(import.take_block(&[]).is_none());
    assert_eq!(import.bytes_processed(), size);
    assert_eq!(import.total_size(), size);
    for op in &import.finish() {
        make(&tx, op).unwrap();
    }
    tx.commit().unwrap();
    import.file_id()
}

fn export(conn: &Connection, id: Uuid, size: usize) -> Vec<u8> {
    let mut export = FileExport::begin(size);
    let mut content = Vec::new();
    for row in query(conn, &EncryptedDb::stream_export_file(id)) {
        content.extend(export.next_block(&row).unwrap());
    }
    assert_eq!(export.bytes_processed(), content.len());
    assert_eq!(export.total_size(), size);
    content
}

fn check(conn: &Connection) -> Vec<(String, bool)> {
    let mut archive = ArchiveCheck::begin(&query(conn, &EncryptedDb::verify_integrity()));
    let mut files = 0;
    while let Some(next) = archive.next_file() {
        files += 1;
        assert_eq!(next.current, files);
        let mut check = IntegrityCheck::begin();
        for row in query(conn, &EncryptedDb::stream_export_file(next.id)) {
            if !check.next_block(&row).unwrap() {
                break;
            }
        }
        archive.record(&check);
        assert!(next.current <= next.total);
    }
    archive.into_results()
}

fn stats(conn: &Connection) -> VaultStats {
    let rows = query(conn, &EncryptedDb::get_vault_stats());
    EncryptedDb::parse_stats(&rows[0]).unwrap()
}

fn delete(conn: &Connection, id: Uuid, is_folder: bool) -> rusqlite::Result<()> {
    let tx = conn.unchecked_transaction()?;
    let rows = if is_folder {
        Vec::new()
    } else {
        query(&tx, &EncryptedDb::file_sizes(id))
    };
    let ops = EncryptedDb::delete_item(id, is_folder, rows.first().map(|r| r.as_slice()));
    for op in &ops {
        make(&tx, op)?;
    }
    tx.commit()
}

fn chunk_rows(conn: &Connection) -> Vec<(Vec<u8>, Vec<u8>, i64)> {
    let mut prepared = conn
        .prepare("SELECT chunk_hash, data, ref_count FROM chunks ORDER BY chunk_hash")
        .unwrap();
    let rows = prepared
        .query_map([], |r| Ok((r.get(0)?, r.get(1)?, r.get(2)?)))
        .unwrap();
    rows.map(|r| r.unwrap()).collect()
}

fn block(seed: u8, len: usize) -> Vec<u8> {
    (0..len).map(|i| seed.wrapping_add((i % 251) as u8)).collect()
}

#[test]
fn export_returns_what_was_imported() {
    let conn = open_archive();
    let blocks = vec![block(1, 5000), block(2, 5000), block(1, 5000), block(3, 7)];
    let id = import(&conn, "a.bin", &blocks, None);
    assert_eq!(export(&conn, id, 15007), blocks.concat());
    assert_eq!(check(&conn), vec![("a.bin".to_string(), true)]);
    let chunks = chunk_rows(&conn);
    assert_eq!(chunks.len(), 3);
    let counted: i64 = chunks.iter().map(|c| c.2).sum();
    assert_eq!(counted, 4);
    for (hash, data, _) in &chunks {
        let raw = zstd::decode_all(&data[..]).unwrap();
        assert_eq!(hash.as_slice(), blake3::hash(&raw).as_bytes());
    }
}

#[test]
fn empty_file_is_kept() {
    let conn = open_archive();
    let id = import(&conn, "empty", &[], None);
    assert_eq!(export(&conn, id, 0), Vec::<u8>::new());
    assert_eq!(check(&conn), vec![("empty".to_string(), true)]);
    delete(&conn, id, false).unwrap();
    assert_eq!(stats(&conn).total_files, 0);
}

#[test]
fn duplicate_stores_no_new_block() {
    let conn = open_archive();
    let blocks = vec![block(9, 4000), block(10, 4000)];
    import(&conn, "first", &blocks, None);
    let before = chunk_rows(&conn);
    let second = import(&conn, "second", &blocks, None);
    let after = chunk_rows(&conn);
    assert_eq!(before.len(), after.len());
    for (b, a) in before.iter().zip(after.iter()) {
        assert_eq!((&b.0, &b.1, b.2 + 1), (&a.0, &a.1, a.2));
    }
    assert_eq!(export(&conn, second, 8000), blocks.concat());
    let totals = stats(&conn);
    assert_eq!(totals.total_files, 2);
    assert_eq!(totals.total_bytes, 16000);
    let stored: usize = before.iter().map(|c| c.1.len()).sum();
    assert_eq!(totals.compressed_bytes, 2 * stored);
}

#[test]
fn file_with_the_only_reference_is_not_deleted() {
    let conn = open_archive();
    let blocks = vec![block(4, 3000)];
    let id = import(&conn, "only", &blocks, None);
    assert!(delete(&conn, id, false).is_err());
    assert_eq!(export(&conn, id, 3000), blocks.concat());
    assert_eq!(stats(&conn).total_files, 1);
}

#[test]
fn deletion_keeps_the_other_files() {
    let conn = open_archive();
    let shared = vec![block(4, 3000), block(5, 10)];
    let first = import(&conn, "first", &shared, None);
    let second = import(&conn, "second", &shared, None);
    let other = import(&conn, "other", &[block(6, 20)], None);
    delete(&conn, first, false).unwrap();
    assert_eq!(export(&conn, second, 3010), shared.concat());
    assert_eq!(export(&conn, other, 20), block(6, 20));
    assert_eq!(export(&conn, first, 3010), Vec::<u8>::new());
    let totals = stats(&conn);
    assert_eq!(totals.total_files, 2);
    assert_eq!(totals.total_bytes, 3030);
    assert!(chunk_rows(&conn).iter().all(|c| c.2 == 1));
    assert!(delete(&conn, second, false).is_err());
}

#[test]
fn deletion_of_an_unknown_file_uncounts_one() {
    let conn = open_archive();
    import(&conn, "kept", &[block(1, 5)], None);
    delete(&conn, Uuid::nil(), false).unwrap();
    let rows = query(&conn, &EncryptedDb::get_vault_stats());
    assert!(matches!(rows[0][0], Cell::Integer(0)));
    delete(&conn, Uuid::nil(), false).unwrap();
    let rows = query(&conn, &EncryptedDb::get_vault_stats());
    assert!(matches!(
        EncryptedDb::parse_stats(&rows[0]),
        Err(DbError::OutOfRange {
            column: 0,
            value: -1
        })
    ));
}

#[test]
fn folder_deletion_takes_all_below_it() {
    let conn = open_archive();
    let (top, make_top) = EncryptedDb::create_folder("top", None);
    make(&conn, &make_top).unwrap();
    let (below, make_below) = EncryptedDb::create_folder("below", Some(top));
    make(&conn, &make_below).unwrap();
    let content = vec![block(7, 100)];
    let outside = import(&conn, "outside", &content, None);
    let inside = import(&conn, "inside", &content, Some(below));
    assert_eq!(stats(&conn).total_files, 2);
    delete(&conn, top, true).unwrap();
    assert_eq!(export(&conn, outside, 100), content.concat());
    assert_eq!(export(&conn, inside, 100), Vec::<u8>::new());
    let totals = stats(&conn);
    assert_eq!(totals.total_files, 1);
    assert_eq!(totals.total_bytes, 100);
    assert!(query(&conn, &EncryptedDb::list_folders(None)).is_empty());
    assert!(query(&conn, &EncryptedDb::list_folders(Some(top))).is_empty());
}

#[test]
fn folder_with_an_only_reference_is_not_deleted() {
    let conn = open_archive();
    let (top, make_top) = EncryptedDb::create_folder("top", None);
    make(&conn, &make_top).unwrap();
    let id = import(&conn, "inside", &[block(7, 100)], Some(top));
    assert!(delete(&conn, top, true).is_err());
    assert_eq!(export(&conn, id, 100), block(7, 100));
    assert_eq!(query(&conn, &EncryptedDb::list_folders(None)).len(), 1);
}

#[test]
fn names_that_refer_to_nothing_are_refused() {
    let conn = open_archive();
    let (_, orphan) = EncryptedDb::create_folder("orphan", Some(Uuid::nil()));
    assert!(make(&conn, &orphan).is_err());
    let (_, insert) = FileImport::begin(Uuid::nil(), "f", 0, 0, Some(Uuid::nil()));
    assert!(make(&conn, &insert).is_err());
    let (_, insert) = FileImport::begin(Uuid::nil(), "f", 0, 0, None);
    assert!(make(&conn, &insert).is_ok());
    assert!(make(&conn, &insert).is_err());
    let link = DbOp::LinkChunk {
        file_id: Uuid::nil(),
        index: 0,
        hash: vec![1],
    };
    assert!(make(&conn, &link).is_err());
}

#[test]
fn rename_keeps_the_content() {
    let conn = open_archive();
    let (folder, make_folder) = EncryptedDb::create_folder("old", None);
    make(&conn, &make_folder).unwrap();
    let id = import(&conn, "old.txt", &[block(1, 9)], Some(folder));
    make(&conn, &EncryptedDb::rename_item(id, "new.txt", false)).unwrap();
    make(&conn, &EncryptedDb::rename_item(folder, "new", true)).unwrap();
    let folders = query(&conn, &EncryptedDb::list_folders(None));
    let folders = EncryptedDb::parse_folders(&folders).unwrap();
    assert_eq!(folders[0].name, "new");
    assert_eq!(folders[0].id, folder);
    assert_eq!(folders[0].parent_id, None);
    let statement = EncryptedDb::list_files_query(
        Some(folder),
        None,
        SortColumn::Name,
        SortDirection::Asc,
        10,
    )
    .unwrap();
    let files = EncryptedDb::parse_files(&query(&conn, &statement)).unwrap();
    assert_eq!(files.len(), 1);
    assert_eq!(files[0].name, "new.txt");
    assert_eq!(files[0].id, id);
    assert_eq!(files[0].folder_id, Some(folder));
    assert_eq!(files[0].size, 9);
    assert_eq!(files[0].created_at, 1_700_000_000);
    assert_eq!(
        files[0].checksum,
        blake3::hash(&block(1, 9)).to_hex().to_string()
    );
    assert_eq!(export(&conn, id, 9), block(1, 9));
}

#[test]
fn listings_filter_sort_and_stop() {
    let conn = open_archive();
    let (folder, make_folder) = EncryptedDb::create_folder("f", None);
    make(&conn, &make_folder).unwrap();
    import(&conn, "bb.txt", &[block(1, 30)], None);
    import(&conn, "aa.txt", &[block(2, 10)], None);
    import(&conn, "cc.log", &[block(3, 20)], Some(folder));
    let names = |folder, filter, column, direction, limit| {
        let statement =
            EncryptedDb::list_files_query(folder, filter, column, direction, limit).unwrap();
        let files = EncryptedDb::parse_files(&query(&conn, &statement)).unwrap();
        files.into_iter().map(|f| f.name).collect::<Vec<String>>()
    };
    assert_eq!(
        names(None, None, SortColumn::Name, SortDirection::Asc, 500),
        vec!["aa.txt", "bb.txt"]
    );
    assert_eq!(
        names(None, None, SortColumn::Size, SortDirection::Desc, 500),
        vec!["bb.txt", "aa.txt"]
    );
    assert_eq!(
        names(Some(folder), None, SortColumn::Name, SortDirection::Asc, 500),
        vec!["cc.log"]
    );
    assert_eq!(
        names(None, Some("  C.L "), SortColumn::Modified, SortDirection::Asc, 500),
        vec!["cc.log"]
    );
    for folder in [None, Some(folder)] {
        assert_eq!(
            names(folder, Some(" "), SortColumn::Name, SortDirection::Asc, 500),
            vec!["aa.txt", "bb.txt", "cc.log"]
        );
        assert_eq!(
            names(folder, Some("B.T"), SortColumn::Name, SortDirection::Asc, 500),
            vec!["bb.txt"]
        );
    }
    assert_eq!(
        names(None, Some("."), SortColumn::EncryptedSize, SortDirection::Desc, 2).len(),
        2
    );
    assert_eq!(
        names(None, Some("."), SortColumn::Name, SortDirection::Desc, 500),
        vec!["cc.log", "bb.txt", "aa.txt"]
    );
}

#[test]
fn content_is_found_by_its_digest() {
    let conn = open_archive();
    import(&conn, "known", &[block(1, 30)], None);
    let digest = blake3::hash(&block(1, 30));
    let rows = query(
        &conn,
        &EncryptedDb::find_existing_file_by_hash(digest.as_bytes()),
    );
    let name = EncryptedDb::parse_existing_name(rows.first().map(|r| r.as_slice())).unwrap();
    assert_eq!(name, Some("known".to_string()));
    let rows = query(&conn, &EncryptedDb::find_existing_file_by_hash(&[0; 32]));
    let name = EncryptedDb::parse_existing_name(rows.first().map(|r| r.as_slice())).unwrap();
    assert_eq!(name, None);
}

#[test]
fn preview_is_the_front_of_the_content() {
    let conn = open_archive();
    let blocks = vec![block(1, 100), block(2, 100), block(3, 100)];
    let id = import(&conn, "p", &blocks, None);
    let preview = |max: usize| {
        let mut preview = FilePreview::begin(max);
        for row in query(&conn, &EncryptedDb::load_file_preview_bytes(id)) {
            if preview.next_block(&row).unwrap() {
                break;
            }
        }
        preview.into_bytes()
    };
    let content = blocks.concat();
    assert_eq!(preview(0), Vec::<u8>::new());
    assert_eq!(preview(99), content[..99].to_vec());
    assert_eq!(preview(100), content[..100].to_vec());
    assert_eq!(preview(250), content[..250].to_vec());
    assert_eq!(preview(300), content);
    assert_eq!(preview(1000), content);
}

#[test]
fn damage_is_found() {
    let conn = open_archive();
    import(&conn, "a", &[block(1, 50)], None);
    import(&conn, "b", &[block(2, 50)], None);
    import(&conn, "c", &[block(3, 50)], None);
    let other = zstd::encode_all(&b"something else"[..], 3).unwrap();
    conn.execute(
        "UPDATE chunks SET data = ?1 WHERE chunk_hash = ?2",
        (other, blake3::hash(&block(1, 50)).as_bytes().to_vec()),
    )
    .unwrap();
    conn.execute(
        "UPDATE chunks SET data = ?1 WHERE chunk_hash = ?2",
        (
            vec![1u8, 2, 3],
            blake3::hash(&block(2, 50)).as_bytes().to_vec(),
        ),
    )
    .unwrap();
    let mut results = check(&conn);
    results.sort();
    assert_eq!(
        results,
        vec![
            ("a".to_string(), false),
            ("b".to_string(), false),
            ("c".to_string(), true)
        ]
    );
}

#[test]
fn change_of_key_and_compaction_are_steps() {
    let conn = open_archive();
    take_step(&conn, &EncryptedDb::vacuum_compact()).unwrap();
    match EncryptedDb::change_key("new key") {
        DbStep::Pragma {
            name,
            value,
            required,
        } => {
            assert_eq!(name, "rekey");
            assert!(matches!(value, SqlValue::Text(t) if t == "new key"));
            assert!(required);
        }
        _ => panic!("another step"),
    }
}

#[test]
fn random_identifiers_have_their_version() {
    let (id, _) = EncryptedDb::create_folder("x", None);
    let (other, _) = EncryptedDb::create_folder("x", None);
    assert_ne!(id, other);
    for u in [id, other] {
        assert_eq!(u.bytes[6] >> 4, 4);
        assert_eq!(u.bytes[8] >> 6, 2);
    }
    let (import, _) = EncryptedDb::stream_insert_file("f", 0, 0, None);
    assert_eq!(import.file_id().bytes[6] >> 4, 4);
}

fn table_rows(conn: &Connection) -> Vec<String> {
    let mut all = Vec::new();
    for table in ["folders", "files", "chunks", "file_chunks", "vault_stats"] {
        let statement = Statement {
            sql: format!("SELECT * FROM {} ORDER BY 1, 2", table),
            params: Vec::new(),
        };
        all.push(format!("{:?}", query(conn, &statement)));
    }
    all
}

#[test]
fn deletion_of_a_duplicate_undoes_its_import() {
    let conn = open_archive();
    let blocks = vec![block(1, 40), block(2, 40), block(3, 9)];
    import(&conn, "first", &blocks, None);
    let before = table_rows(&conn);
    let second = import(&conn, "second", &blocks[1..], None);
    assert_ne!(table_rows(&conn), before);
    delete(&conn, second, false).unwrap();
    assert_eq!(table_rows(&conn), before);
}

#[test]
fn every_occurrence_is_a_reference() {
    let conn = open_archive();
    let blocks = vec![block(1, 40), block(2, 40), block(1, 40), block(1, 40)];
    import(&conn, "first", &blocks, None);
    import(&conn, "second", &blocks, None);
    let hash = blake3::hash(&block(1, 40)).as_bytes().to_vec();
    let counted: Vec<i64> = chunk_rows(&conn)
        .into_iter()
        .filter(|c| c.0 == hash)
        .map(|c| c.2)
        .collect();
    assert_eq!(counted, vec![6]);
}

#[test]
fn files_pass_whatever_was_done_to_others() {
    let conn = open_archive();
    let shared = vec![block(1, 40), block(2, 40)];
    let kept = import(&conn, "kept", &shared, None);
    let other = import(&conn, "other", &shared, None);
    let (top, make_top) = EncryptedDb::create_folder("top", None);
    make(&conn, &make_top).unwrap();
    import(&conn, "inside", &shared[..1], Some(top));
    make(&conn, &EncryptedDb::rename_item(other, "renamed", false)).unwrap();
    delete(&conn, other, false).unwrap();
    delete(&conn, top, true).unwrap();
    assert!(delete(&conn, kept, false).is_err());
    assert_eq!(export(&conn, kept, 0), shared.concat());
    assert!(check(&conn).iter().all(|(_, passed)| *passed));
}

#[test]
fn opening_again_changes_nothing() {
    let conn = open_archive();
    assert_eq!(stats(&conn), VaultStats::default());
    import(&conn, "a", &[block(1, 40)], None);
    let before = table_rows(&conn);
    for step in &EncryptedDb::open("\\\\?\\:memory:", "secret key").steps {
        if let DbStep::Batch { .. } | DbStep::Probe { .. } = step {
            take_step(&conn, step).unwrap();
        }
    }
    assert_eq!(table_rows(&conn), before);
}

fn listed(conn: &Connection, folder: Option<Uuid>, limit: usize) -> Vec<FileMetadata> {
    let statement = EncryptedDb::list_files_query(
        folder,
        None,
        SortColumn::Name,
        SortDirection::Asc,
        limit,
    )
    .unwrap();
    EncryptedDb::parse_files(&query(conn, &statement)).unwrap()
}

#[test]
fn duplicate_is_like_its_copy() {
    let conn = open_archive();
    let blocks = vec![block(1, 4000), block(2, 300), block(1, 4000)];
    let first = import(&conn, "first", &blocks, None);
    make(&conn, &EncryptedDb::rename_item(first, "renamed", false)).unwrap();
    let before = chunk_rows(&conn);
    let second = import(&conn, "second", &blocks, None);
    let files = listed(&conn, None, 10);
    assert_eq!((files[0].id, files[1].id), (first, second));
    assert_ne!(files[0].id, files[1].id);
    assert_eq!(files[0].size, files[1].size);
    assert_eq!(files[0].compressed_size, files[1].compressed_size);
    assert_eq!(files[0].checksum, files[1].checksum);
    let after = chunk_rows(&conn);
    assert_eq!(before.len(), after.len());
    for (b, a) in before.iter().zip(after.iter()) {
        assert_eq!((&b.0, &b.1, 2 * b.2), (&a.0, &a.1, a.2));
    }
}

#[test]
fn totals_follow_a_run() {
    let conn = open_archive();
    let shared = vec![block(1, 4000), block(2, 40)];
    import(&conn, "kept", &shared, None);
    let other = import(&conn, "other", &shared, None);
    let (top, make_top) = EncryptedDb::create_folder("top", None);
    make(&conn, &make_top).unwrap();
    import(&conn, "inside", &shared[..1], Some(top));
    make(&conn, &EncryptedDb::rename_item(other, "renamed", false)).unwrap();
    delete(&conn, other, false).unwrap();
    delete(&conn, top, true).unwrap();
    import(&conn, "last", &[block(3, 7)], None);
    let files = listed(&conn, None, 10);
    let totals = stats(&conn);
    assert_eq!(totals.total_files, files.len());
    assert_eq!(totals.total_bytes, files.iter().map(|f| f.size).sum());
    assert_eq!(
        totals.compressed_bytes,
        files.iter().map(|f| f.compressed_size).sum()
    );
    let stored: usize = chunk_rows(&conn).iter().map(|c| c.1.len()).sum();
    assert_eq!(totals.compressed_bytes, stored);
}

#[test]
fn opening_completes_what_is_there() {
    let conn = open_archive();
    let (_, make_top) = EncryptedDb::create_folder("top", None);
    make(&conn, &make_top).unwrap();
    conn.execute_batch("DROP TABLE file_chunks; DELETE FROM vault_stats;")
        .unwrap();
    for step in &EncryptedDb::open(":memory:", "secret key").steps {
        if let DbStep::Batch { .. } | DbStep::Probe { .. } = step {
            take_step(&conn, step).unwrap();
        }
    }
    assert_eq!(stats(&conn), VaultStats::default());
    let rows = query(&conn, &EncryptedDb::list_folders(None));
    let folders = EncryptedDb::parse_folders(&rows).unwrap();
    assert_eq!(folders.len(), 1);
    assert_eq!(folders[0].name, "top");
    let id = import(&conn, "a", &[block(1, 40)], None);
    assert_eq!(export(&conn, id, 40), block(1, 40));
}

#[test]
fn listings_go_by_the_bytes_of_names() {
    let conn = open_archive();
    for name in ["b", "\u{e9}", "B", "ab", "a", "\u{1f512}", "a\u{7f}"] {
        import(&conn, name, &[block(name.len() as u8, 10)], None);
        let (_, make_folder) = EncryptedDb::create_folder(name, None);
        make(&conn, &make_folder).unwrap();
    }
    let sorted = vec!["B", "a", "ab", "a\u{7f}", "b", "\u{e9}", "\u{1f512}"];
    let names: Vec<String> = listed(&conn, None, 10).into_iter().map(|f| f.name).collect();
    assert_eq!(names, sorted);
    let names: Vec<String> = listed(&conn, None, 3).into_iter().map(|f| f.name).collect();
    assert_eq!(names, &sorted[..3]);
    assert!(listed(&conn, None, 0).is_empty());
    let rows = query(&conn, &EncryptedDb::list_folders(None));
    let folders = EncryptedDb::parse_folders(&rows).unwrap();
    let names: Vec<String> = folders.into_iter().map(|f| f.name).collect();
    assert_eq!(names, sorted);
}
