use ironvault::changes::DbOp;
use ironvault::db::{DbStep, EncryptedDb, SortColumn, SortDirection, VaultStats, SCHEMA};
use ironvault::digest::{digest_of, same_bytes, ContentHasher};
use ironvault::export::{parse_checks, read_block, FileExport, FilePreview, IntegrityCheck};
use ironvault::ident::Uuid;
use ironvault::ingest::{progress_due, FileImport};
use ironvault::sql::{
    read_blob, read_integer, read_optional_blob, read_size, read_text, size_value, Cell, DbError,
    SqlValue,
};

fn text(t: &str) -> Cell {
    Cell::Text(t.as_bytes().to_vec())
}

#[test]
fn cells_are_read_by_their_class() {
    let row = vec![
        Cell::Null,
        Cell::Integer(-1),
        Cell::Real,
        text("t"),
        Cell::Blob(vec![1, 2]),
        Cell::Text(vec![0xff]),
        Cell::Integer(7),
    ];
    assert_eq!(read_blob(&row, 4).unwrap(), vec![1, 2]);
    assert!(matches!(
        read_blob(&row, 3),
        Err(DbError::WrongType { column: 3 })
    ));
    assert!(matches!(
        read_blob(&row, 7),
        Err(DbError::MissingColumn { column: 7 })
    ));
    assert_eq!(read_optional_blob(&row, 0).unwrap(), None);
    assert_eq!(read_optional_blob(&row, 4).unwrap(), Some(vec![1, 2]));
    assert!(matches!(
        read_optional_blob(&row, 2),
        Err(DbError::WrongType { column: 2 })
    ));
    assert_eq!(read_text(&row, 3).unwrap(), "t");
    assert!(matches!(
        read_text(&row, 5),
        Err(DbError::NotUtf8 { column: 5 })
    ));
    assert!(matches!(
        read_text(&row, 4),
        Err(DbError::WrongType { column: 4 })
    ));
    assert_eq!(read_integer(&row, 1).unwrap(), -1);
    assert!(matches!(
        read_integer(&row, 0),
        Err(DbError::WrongType { column: 0 })
    ));
    assert_eq!(read_size(&row, 6).unwrap(), 7);
    assert!(matches!(
        read_size(&row, 1),
        Err(DbError::OutOfRange {
            column: 1,
            value: -1
        })
    ));
}

#[test]
fn large_sizes_are_not_bound() {
    assert!(matches!(size_value(5), Ok(SqlValue::Integer(5))));
    assert!(matches!(
        size_value(i64::MAX as usize),
        Ok(SqlValue::Integer(i64::MAX))
    ));
    assert!(matches!(
        size_value(i64::MAX as usize + 1),
        Err(DbError::IntegerTooLarge)
    ));
    let op = DbOp::CountFile {
        size: usize::MAX,
        compressed_size: 0,
    };
    assert!(matches!(op.statement(), Err(DbError::IntegerTooLarge)));
    assert!(matches!(
        EncryptedDb::list_files_query(
            None,
            None,
            SortColumn::Name,
            SortDirection::Asc,
            usize::MAX
        ),
        Err(DbError::IntegerTooLarge)
    ));
}

#[test]
fn opening_takes_its_steps_in_order() {
    let plan = EncryptedDb::open("\\\\?\\C:\\a.ivault", "k'ey");
    assert_eq!(plan.path, "C:\\a.ivault");
    let names: Vec<String> = plan
        .steps
        .iter()
        .map(|s| match s {
            DbStep::Pragma {
                name,
                value,
                required,
            } => format!("{} {:?} {}", name, value, required),
            DbStep::Batch { sql } if sql == SCHEMA => "schema".to_string(),
            DbStep::Batch { sql } => sql.clone(),
            DbStep::Probe { sql } => sql.clone(),
        })
        .collect();
    assert_eq!(
        names,
        vec![
            "key Text(\"k'ey\") true",
            "PRAGMA foreign_keys = ON;",
            "journal_mode Text(\"WAL\") true",
            "synchronous Text(\"NORMAL\") true",
            "mmap_size Integer(268435456) false",
            "cache_size Integer(-128000) false",
            "temp_store Text(\"MEMORY\") true",
            "auto_vacuum Text(\"INCREMENTAL\") true",
            "schema",
            "SELECT id FROM vault_stats WHERE id = 1",
        ]
    );
}

#[test]
fn listing_statement_is_exact() {
    let statement = EncryptedDb::list_files_query(
        Some(Uuid::nil()),
        Some(" a b "),
        SortColumn::EncryptedSize,
        SortDirection::Desc,
        500,
    )
    .unwrap();
    assert_eq!(
        statement.sql,
        "SELECT id, name, size, compressed_size, created_at, folder_id, checksum FROM files WHERE name LIKE ?1 ORDER BY compressed_size DESC LIMIT ?2"
    );
    assert!(matches!(&statement.params[0], SqlValue::Text(t) if t == "%a b%"));
    assert!(matches!(statement.params[1], SqlValue::Integer(500)));
    let statement =
        EncryptedDb::list_files_query(None, None, SortColumn::Modified, SortDirection::Asc, 3)
            .unwrap();
    assert_eq!(
        statement.sql,
        "SELECT id, name, size, compressed_size, created_at, folder_id, checksum FROM files WHERE folder_id IS NULL ORDER BY created_at ASC LIMIT ?1"
    );
    assert_eq!(statement.params.len(), 1);
}

#[test]
fn odd_identifiers_are_read_as_nil_or_none() {
    let folder =
        EncryptedDb::parse_folder(&[Cell::Blob(vec![1]), text("n"), Cell::Blob(vec![2])]).unwrap();
    assert_eq!(folder.id, Uuid::nil());
    assert_eq!(folder.parent_id, None);
    assert_eq!(folder.name, "n");
    let row = vec![
        Cell::Blob(vec![3; 16]),
        text("n"),
        Cell::Integer(1),
        Cell::Integer(2),
        Cell::Integer(-3),
        Cell::Null,
        Cell::Blob(vec![0, 0xab, 0x0f]),
    ];
    let file = EncryptedDb::parse_file(&row).unwrap();
    assert_eq!(file.id, Uuid { bytes: [3; 16] });
    assert_eq!((file.size, file.compressed_size, file.created_at), (1, 2, -3));
    assert_eq!(file.folder_id, None);
    assert_eq!(file.checksum, "00ab0f");
}

#[test]
fn first_faulty_row_ends_a_listing() {
    let good = vec![Cell::Blob(vec![1; 16]), text("n"), Cell::Null];
    let bad = vec![Cell::Blob(vec![1; 16]), Cell::Integer(1), Cell::Null];
    let worse = vec![Cell::Null];
    let rows = vec![good, bad, worse];
    assert!(matches!(
        EncryptedDb::parse_folders(&rows),
        Err(DbError::WrongType { column: 1 })
    ));
    assert_eq!(EncryptedDb::parse_folders(&rows[..1]).unwrap().len(), 1);
    assert!(matches!(
        EncryptedDb::parse_files(&rows),
        Err(DbError::MissingColumn { column: 5 })
    ));
    assert!(EncryptedDb::parse_files(&[]).unwrap().is_empty());
}

#[test]
fn faulty_rows_are_left_out_of_a_check() {
    let rows = vec![
        vec![Cell::Null, text("a"), Cell::Blob(vec![])],
        vec![Cell::Blob(vec![1; 16]), text("b"), Cell::Blob(vec![9])],
        vec![Cell::Blob(vec![1; 16]), Cell::Null, Cell::Blob(vec![9])],
    ];
    let items = parse_checks(&rows);
    assert_eq!(items.len(), 1);
    assert_eq!(items[0].name, "b");
    assert_eq!(items[0].id, Uuid { bytes: [1; 16] });
    assert_eq!(items[0].checksum, vec![9]);
}

#[test]
fn deletion_of_a_file_without_sizes_counts_zeros() {
    let ops = EncryptedDb::delete_item(Uuid::nil(), false, None);
    assert_eq!(ops.len(), 4);
    assert!(matches!(ops[0], DbOp::ReleaseFileChunks { .. }));
    assert!(matches!(ops[1], DbOp::DropUnreferencedChunks));
    assert!(matches!(ops[2], DbOp::DeleteFile { .. }));
    assert!(matches!(
        ops[3],
        DbOp::UncountFile {
            size: 0,
            compressed_size: 0
        }
    ));
    let row = vec![Cell::Integer(4), Cell::Integer(-1)];
    let ops = EncryptedDb::delete_item(Uuid::nil(), false, Some(&row));
    assert!(matches!(
        ops[3],
        DbOp::UncountFile {
            size: 0,
            compressed_size: 0
        }
    ));
    let row = vec![Cell::Integer(4), Cell::Integer(1)];
    let ops = EncryptedDb::delete_item(Uuid::nil(), false, Some(&row));
    assert!(matches!(
        ops[3],
        DbOp::UncountFile {
            size: 4,
            compressed_size: 1
        }
    ));
    let ops = EncryptedDb::delete_item(Uuid::nil(), true, Some(&row));
    assert!(matches!(ops[0], DbOp::UncountFolder { .. }));
    assert!(matches!(ops[3], DbOp::DeleteFolder { .. }));
}

#[test]
fn totals_start_at_zero() {
    assert_eq!(
        VaultStats::default(),
        VaultStats {
            total_files: 0,
            total_bytes: 0,
            compressed_bytes: 0
        }
    );
}

#[test]
fn digest_does_not_depend_on_the_pieces() {
    let mut hasher = ContentHasher::new();
    hasher.update(b"ab");
    hasher.update(b"");
    hasher.update(b"c");
    assert_eq!(hasher.finish(), digest_of(b"abc"));
    assert_eq!(&digest_of(b"abc"), blake3::hash(b"abc").as_bytes());
    assert_ne!(digest_of(b"abc"), digest_of(b"abd"));
    assert!(same_bytes(b"abc", b"abc"));
    assert!(!same_bytes(b"abc", b"ab"));
    assert!(!same_bytes(b"abc", b"abd"));
}

#[test]
fn stored_block_is_only_referenced() {
    let (mut import, _) = FileImport::begin(Uuid::nil(), "n", 3, 0, None);
    let probe = import.take_block(b"abc").unwrap();
    assert_eq!(probe.hash, digest_of(b"abc"));
    assert_eq!(
        probe.lookup.sql,
        "SELECT length(data) FROM chunks WHERE chunk_hash = ?1"
    );
    let row = vec![Cell::Integer(77)];
    let ops = import.store_block(b"abc", &probe.hash, Some(&row)).unwrap();
    assert!(matches!(&ops[0], DbOp::StoreChunk { data, .. } if data.is_empty()));
    assert!(matches!(&ops[1], DbOp::LinkChunk { index: 0, .. }));
    let ops = import.finish();
    assert!(matches!(
        &ops[0],
        DbOp::SealFile { compressed_size: 77, checksum, .. } if checksum.as_slice() == digest_of(b"abc")
    ));
    assert!(matches!(
        ops[1],
        DbOp::CountFile {
            size: 3,
            compressed_size: 77
        }
    ));
}

#[test]
fn new_block_is_compressed() {
    let (mut import, _) = FileImport::begin(Uuid::nil(), "n", 3000, 0, None);
    let block = vec![5u8; 3000];
    let probe = import.take_block(&block).unwrap();
    let ops = import.store_block(&block, &probe.hash, None).unwrap();
    match &ops[0] {
        DbOp::StoreChunk { hash, data } => {
            assert_eq!(hash.as_slice(), probe.hash);
            assert_ne!(data, &block);
            assert_eq!(zstd::decode_all(&data[..]).unwrap(), block);
            let mut direct = Vec::new();
            zstd::stream::copy_encode(&block[..], &mut direct, 3).unwrap();
            assert_eq!(data, &direct);
        }
        _ => panic!("another change"),
    }
}

#[test]
fn faults_of_an_import_are_told_apart() {
    let (mut import, _) = FileImport::begin(Uuid::nil(), "n", 3, 0, None);
    let probe = import.take_block(b"abc").unwrap();
    let row = vec![Cell::Null];
    assert!(matches!(
        import.store_block(b"abc", &probe.hash, Some(&row)),
        Err(DbError::WrongType { column: 0 })
    ));
    assert!(matches!(
        import.store_packed(&probe.hash, Err("broken".to_string())),
        Err(DbError::Codec(t)) if t == "broken"
    ));
    let row = vec![Cell::Integer(i64::MAX)];
    assert!(import.store_block(b"abc", &probe.hash, Some(&row)).is_ok());
    import.take_block(b"abc");
    assert!(import.store_block(b"abc", &probe.hash, Some(&row)).is_ok());
    import.take_block(b"abc");
    assert!(matches!(
        import.store_block(b"abc", &probe.hash, Some(&row)),
        Err(DbError::SizeOverflow)
    ));
    let ops = import.finish();
    assert!(ops[0].statement().is_err());
}

#[test]
fn blocks_are_read_or_refused() {
    let frame = zstd::encode_all(&b"abc"[..], 3).unwrap();
    assert_eq!(read_block(&[Cell::Blob(frame.clone())]).unwrap(), b"abc");
    assert!(matches!(
        read_block(&[Cell::Blob(vec![1, 2, 3])]),
        Err(DbError::Codec(_))
    ));
    assert!(matches!(
        read_block(&[Cell::Null]),
        Err(DbError::WrongType { column: 0 })
    ));
    let mut export = FileExport::begin(3);
    export.advance(usize::MAX - 2);
    assert!(matches!(
        export.next_block(&[Cell::Blob(frame.clone())]),
        Err(DbError::SizeOverflow)
    ));
    let mut preview = FilePreview::begin(2);
    assert!(preview.next_block(&[Cell::Blob(frame.clone())]).unwrap());
    assert_eq!(preview.into_bytes(), b"ab");
    let mut check = IntegrityCheck::begin();
    assert!(check.next_block(&[Cell::Blob(frame)]).unwrap());
    assert!(check.verdict(&digest_of(b"abc")));
    assert!(!check.verdict(&digest_of(b"ab")));
    assert!(check.next_block(&[Cell::Integer(1)]).is_err());
    assert!(!check.next_block(&[Cell::Blob(vec![0])]).unwrap());
    assert!(!check.verdict(&digest_of(b"abc")));
}

#[test]
fn progress_is_reported_at_most_so_often() {
    assert!(!progress_due(15, 1, 2));
    assert!(progress_due(16, 1, 2));
    assert!(progress_due(0, 2, 2));
}
