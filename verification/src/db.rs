//! The database of an archive: what it is asked, and what its rows say.
use crate::changes::{blob_value, id_value, text_value, DbOp};
use crate::ident::Uuid;
use crate::paths::sanitize_db_path;
use crate::sql::{
    read_blob, read_integer, read_optional_blob, read_size, read_text, size_value, statement0,
    statement1, statement2, Bound, Cell, DbError, SqlValue, Statement, StatementView,
};
use crate::text::{hex_text, trim_text};
use vstd::prelude::*;
use vstd::string::StringExecFns;

verus! {

/// A folder of an archive.
#[derive(Clone, Debug)]
pub struct FolderMetadata {
    pub id: Uuid,
    pub name: String,
    pub parent_id: Option<Uuid>,
}

/// A file of an archive.
#[derive(Clone, Debug)]
pub struct FileMetadata {
    pub id: Uuid,
    pub name: String,
    pub size: usize,
    pub compressed_size: usize,
    pub created_at: i64,
    pub folder_id: Option<Uuid>,
    pub checksum: String,
}

/// The column that a listing of files is sorted by.
#[derive(Clone, Copy, Debug, PartialEq, Eq, Structural)]
pub enum SortColumn {
    Name,
    Size,
    EncryptedSize,
    Modified,
}

/// The direction of a listing.
#[derive(Clone, Copy, Debug, PartialEq, Eq, Structural)]
pub enum SortDirection {
    Asc,
    Desc,
}

/// The totals of an archive.
#[derive(Clone, Copy, Debug, PartialEq, Eq, Structural)]
pub struct VaultStats {
    pub total_files: usize,
    pub total_bytes: usize,
    pub compressed_bytes: usize,
}

impl Default for VaultStats {
    /// The totals of an archive without files.
    fn default() -> (stats: Self)
        ensures
            stats == (VaultStats { total_files: 0, total_bytes: 0, compressed_bytes: 0 }),
    {
        VaultStats { total_files: 0, total_bytes: 0, compressed_bytes: 0 }
    }
}

/// A folder as a mathematical value.
pub struct FolderView {
    pub id: Seq<u8>,
    pub name: Seq<char>,
    pub parent_id: Option<Seq<u8>>,
}

/// A file as a mathematical value.
pub struct FileView {
    pub id: Seq<u8>,
    pub name: Seq<char>,
    pub size: usize,
    pub compressed_size: usize,
    pub created_at: i64,
    pub folder_id: Option<Seq<u8>>,
    pub checksum: Seq<char>,
}

/// The bytes of an identifier that may be absent.
pub open spec fn id_bytes(id: Option<Uuid>) -> Option<Seq<u8>> {
    match id {
        Some(u) => Some(u.bytes@),
        None => None,
    }
}

impl View for FolderMetadata {
    type V = FolderView;

    open spec fn view(&self) -> FolderView {
        FolderView { id: self.id.bytes@, name: self.name@, parent_id: id_bytes(self.parent_id) }
    }
}

impl View for FileMetadata {
    type V = FileView;

    open spec fn view(&self) -> FileView {
        FileView {
            id: self.id.bytes@,
            name: self.name@,
            size: self.size,
            compressed_size: self.compressed_size,
            created_at: self.created_at,
            folder_id: id_bytes(self.folder_id),
            checksum: self.checksum@,
        }
    }
}

/// The identifier that a column holds: its bytes, or zeros where they are not sixteen.
pub open spec fn id_from(bytes: Seq<u8>) -> Seq<u8> {
    if bytes.len() == 16 {
        bytes
    } else {
        Seq::new(16, |i: int| 0u8)
    }
}

/// The identifier that a nullable column holds: none where the bytes are not sixteen.
pub open spec fn optional_id_from(bytes: Option<Seq<u8>>) -> Option<Seq<u8>> {
    match bytes {
        Some(b) => if b.len() == 16 {
            Some(b)
        } else {
            None
        },
        None => None,
    }
}

/// The folder in a row of identifier, name and parent.
pub open spec fn folder_in(row: Seq<Cell>) -> Result<FolderView, DbError> {
    match crate::sql::blob_in(row, 0) {
        Err(e) => Err(e),
        Ok(id) => match crate::sql::optional_blob_in(row, 2) {
            Err(e) => Err(e),
            Ok(parent) => match crate::sql::text_in(row, 1) {
                Err(e) => Err(e),
                Ok(name) => Ok(
                    FolderView { id: id_from(id), name, parent_id: optional_id_from(parent) },
                ),
            },
        },
    }
}

/// The file in a row of identifier, name, size, compressed size, time, folder and checksum.
pub open spec fn file_in(row: Seq<Cell>) -> Result<FileView, DbError> {
    match crate::sql::blob_in(row, 0) {
        Err(e) => Err(e),
        Ok(id) => match crate::sql::optional_blob_in(row, 5) {
            Err(e) => Err(e),
            Ok(folder) => match crate::sql::blob_in(row, 6) {
                Err(e) => Err(e),
                Ok(checksum) => match crate::sql::text_in(row, 1) {
                    Err(e) => Err(e),
                    Ok(name) => match crate::sql::size_in(row, 2) {
                        Err(e) => Err(e),
                        Ok(size) => match crate::sql::size_in(row, 3) {
                            Err(e) => Err(e),
                            Ok(compressed_size) => match crate::sql::integer_in(row, 4) {
                                Err(e) => Err(e),
                                Ok(created_at) => Ok(
                                    FileView {
                                        id: id_from(id),
                                        name,
                                        size,
                                        compressed_size,
                                        created_at,
                                        folder_id: optional_id_from(folder),
                                        checksum: crate::text::hex(checksum),
                                    },
                                ),
                            },
                        },
                    },
                },
            },
        },
    }
}

/// The folders in some rows, or the fault of the first row that has one.
pub open spec fn folders_in(rows: Seq<Vec<Cell>>) -> Result<Seq<FolderView>, DbError>
    decreases rows.len(),
{
    if rows.len() == 0 {
        Ok(Seq::empty())
    } else {
        match folders_in(rows.drop_last()) {
            Err(e) => Err(e),
            Ok(folders) => match folder_in(rows.last()@) {
                Err(e) => Err(e),
                Ok(folder) => Ok(folders.push(folder)),
            },
        }
    }
}

/// The files in some rows, or the fault of the first row that has one.
pub open spec fn files_in(rows: Seq<Vec<Cell>>) -> Result<Seq<FileView>, DbError>
    decreases rows.len(),
{
    if rows.len() == 0 {
        Ok(Seq::empty())
    } else {
        match files_in(rows.drop_last()) {
            Err(e) => Err(e),
            Ok(files) => match file_in(rows.last()@) {
                Err(e) => Err(e),
                Ok(file) => Ok(files.push(file)),
            },
        }
    }
}

/// A fault in some row is the fault of all rows from there on.
proof fn lemma_folders_fault(rows: Seq<Vec<Cell>>, upto: int)
    requires
        0 <= upto <= rows.len(),
        folders_in(rows.subrange(0, upto)) is Err,
    ensures
        folders_in(rows) == folders_in(rows.subrange(0, upto)),
    decreases rows.len() - upto,
{
    if upto < rows.len() {
        assert(rows.subrange(0, upto + 1).drop_last() =~= rows.subrange(0, upto));
        lemma_folders_fault(rows, upto + 1);
    } else {
        assert(rows.subrange(0, upto) =~= rows);
    }
}

/// A fault in some row is the fault of all rows from there on.
proof fn lemma_files_fault(rows: Seq<Vec<Cell>>, upto: int)
    requires
        0 <= upto <= rows.len(),
        files_in(rows.subrange(0, upto)) is Err,
    ensures
        files_in(rows) == files_in(rows.subrange(0, upto)),
    decreases rows.len() - upto,
{
    if upto < rows.len() {
        assert(rows.subrange(0, upto + 1).drop_last() =~= rows.subrange(0, upto));
        lemma_files_fault(rows, upto + 1);
    } else {
        assert(rows.subrange(0, upto) =~= rows);
    }
}

/// The totals in a row of three counts.
pub open spec fn stats_in(row: Seq<Cell>) -> Result<VaultStats, DbError> {
    match crate::sql::size_in(row, 0) {
        Err(e) => Err(e),
        Ok(total_files) => match crate::sql::size_in(row, 1) {
            Err(e) => Err(e),
            Ok(total_bytes) => match crate::sql::size_in(row, 2) {
                Err(e) => Err(e),
                Ok(compressed_bytes) => Ok(
                    VaultStats { total_files, total_bytes, compressed_bytes },
                ),
            },
        },
    }
}

/// One step in the opening of a database.
#[derive(Debug)]
pub enum DbStep {
    /// Sets a pragma. Where it is not required, a failure is passed over.
    Pragma { name: String, value: SqlValue, required: bool },
    /// Runs a batch of statements.
    Batch { sql: String },
    /// Runs a query that must give a row.
    Probe { sql: String },
}

/// A step as a mathematical value.
pub enum StepView {
    Pragma { name: Seq<char>, value: Bound, required: bool },
    Batch { sql: Seq<char> },
    Probe { sql: Seq<char> },
}

impl View for DbStep {
    type V = StepView;

    open spec fn view(&self) -> StepView {
        match *self {
            DbStep::Pragma { name, value, required } => StepView::Pragma {
                name: name@,
                value: value@,
                required,
            },
            DbStep::Batch { sql } => StepView::Batch { sql: sql@ },
            DbStep::Probe { sql } => StepView::Probe { sql: sql@ },
        }
    }
}

/// How a database is opened: the plain path of its file, and the steps to take, in order, on a
/// fresh connection to it. The first that fails, of those required, ends the opening.
#[derive(Debug)]
pub struct OpenPlan {
    pub path: String,
    pub steps: Vec<DbStep>,
}

/// The views of some steps.
pub open spec fn steps_of(steps: Seq<DbStep>) -> Seq<StepView> {
    Seq::new(steps.len(), |i: int| steps[i]@)
}

/// The tables and indexes of an archive, and its row of totals.
pub const SCHEMA: &'static str = "CREATE TABLE IF NOT EXISTS folders (id BLOB PRIMARY KEY, name TEXT NOT NULL, parent_id BLOB, FOREIGN KEY (parent_id) REFERENCES folders(id) ON DELETE CASCADE); CREATE TABLE IF NOT EXISTS files (id BLOB PRIMARY KEY, name TEXT NOT NULL, size INTEGER NOT NULL, compressed_size INTEGER NOT NULL DEFAULT 0, created_at INTEGER NOT NULL, folder_id BLOB, checksum BLOB NOT NULL, FOREIGN KEY (folder_id) REFERENCES folders(id) ON DELETE CASCADE); CREATE TABLE IF NOT EXISTS chunks (chunk_hash BLOB PRIMARY KEY, data BLOB NOT NULL, ref_count INTEGER NOT NULL DEFAULT 1); CREATE TABLE IF NOT EXISTS file_chunks (file_id BLOB NOT NULL, chunk_index INTEGER NOT NULL, chunk_hash BLOB NOT NULL, PRIMARY KEY (file_id, chunk_index), FOREIGN KEY (file_id) REFERENCES files(id) ON DELETE CASCADE, FOREIGN KEY (chunk_hash) REFERENCES chunks(chunk_hash)); CREATE TABLE IF NOT EXISTS vault_stats (id INTEGER PRIMARY KEY CHECK (id = 1), total_files INTEGER NOT NULL DEFAULT 0, total_bytes INTEGER NOT NULL DEFAULT 0, compressed_bytes INTEGER NOT NULL DEFAULT 0); INSERT OR IGNORE INTO vault_stats (id, total_files, total_bytes, compressed_bytes) VALUES (1, 0, 0, 0); CREATE INDEX IF NOT EXISTS idx_folders_nav ON folders(parent_id, name); CREATE INDEX IF NOT EXISTS idx_files_covering ON files(folder_id, name, size, compressed_size, created_at); CREATE INDEX IF NOT EXISTS idx_files_checksum ON files(checksum); CREATE INDEX IF NOT EXISTS idx_file_chunks_lookup ON file_chunks(file_id, chunk_index);";

/// Turns foreign keys on.
pub const ENABLE_FOREIGN_KEYS: &'static str = "PRAGMA foreign_keys = ON;";

/// Looks for the row of totals.
pub const PROBE_STATS: &'static str = "SELECT id FROM vault_stats WHERE id = 1";

/// Rebuilds the database file without free pages.
pub const VACUUM: &'static str = "VACUUM;";

/// The totals of the archive.
pub const SELECT_STATS: &'static str = "SELECT total_files, total_bytes, compressed_bytes FROM vault_stats WHERE id = 1";

/// The name of a file with a checksum.
pub const SELECT_BY_CHECKSUM: &'static str = "SELECT name FROM files WHERE checksum = ?1 LIMIT 1";

/// The folders in a folder, by name.
pub const SELECT_SUBFOLDERS: &'static str = "SELECT id, name, parent_id FROM folders WHERE parent_id = ?1 ORDER BY name ASC";

/// The folders at the top, by name.
pub const SELECT_TOP_FOLDERS: &'static str = "SELECT id, name, parent_id FROM folders WHERE parent_id IS NULL ORDER BY name ASC";

/// The front of every listing of files.
pub const SELECT_FILES: &'static str = "SELECT id, name, size, compressed_size, created_at, folder_id, checksum FROM files ";

/// The sizes of a file.
pub const SELECT_FILE_SIZES: &'static str = "SELECT size, compressed_size FROM files WHERE id = ?1";

/// The compressed blocks of a file, in order.
pub const SELECT_FILE_CHUNKS: &'static str = "SELECT c.data FROM file_chunks fc JOIN chunks c ON fc.chunk_hash = c.chunk_hash WHERE fc.file_id = ?1 ORDER BY fc.chunk_index ASC";

/// The identifier, name and checksum of every file.
pub const SELECT_ALL_CHECKSUMS: &'static str = "SELECT id, name, checksum FROM files";

/// The length of a stored block.
pub const SELECT_CHUNK_LENGTH: &'static str = "SELECT length(data) FROM chunks WHERE chunk_hash = ?1";

/// The steps that open a database under a key.
pub open spec fn opening_steps(key: Seq<char>) -> Seq<StepView> {
    seq![
        StepView::Pragma { name: "key"@, value: Bound::Text(key), required: true },
        StepView::Batch { sql: ENABLE_FOREIGN_KEYS@ },
        StepView::Pragma { name: "journal_mode"@, value: Bound::Text("WAL"@), required: true },
        StepView::Pragma { name: "synchronous"@, value: Bound::Text("NORMAL"@), required: true },
        StepView::Pragma {
            name: "mmap_size"@,
            value: Bound::Integer(268435456),
            required: false,
        },
        StepView::Pragma { name: "cache_size"@, value: Bound::Integer(-128000), required: false },
        StepView::Pragma { name: "temp_store"@, value: Bound::Text("MEMORY"@), required: true },
        StepView::Pragma {
            name: "auto_vacuum"@,
            value: Bound::Text("INCREMENTAL"@),
            required: true,
        },
        StepView::Batch { sql: SCHEMA@ },
        StepView::Probe { sql: PROBE_STATS@ },
    ]
}

/// The name of a sort column in the database.
pub open spec fn column_name(column: SortColumn) -> Seq<char> {
    match column {
        SortColumn::Name => "name"@,
        SortColumn::Size => "size"@,
        SortColumn::EncryptedSize => "compressed_size"@,
        SortColumn::Modified => "created_at"@,
    }
}

/// The word for a direction.
pub open spec fn direction_word(direction: SortDirection) -> Seq<char> {
    match direction {
        SortDirection::Asc => "ASC"@,
        SortDirection::Desc => "DESC"@,
    }
}

/// The pattern of a search: the query without white space around it, and anything on either side.
pub open spec fn search_pattern(query: Seq<char>) -> Seq<char> {
    "%"@ + crate::text::trimmed(query) + "%"@
}

/// The statement for a listing of files: those whose name holds the filter, whatever their folder,
/// or else those in the folder.
pub open spec fn listing(
    folder_id: Option<Uuid>,
    filter: Option<Seq<char>>,
    column: SortColumn,
    direction: SortDirection,
    limit: int,
) -> StatementView {
    let order = column_name(column) + " "@ + direction_word(direction);
    match filter {
        Some(query) => StatementView {
            sql: SELECT_FILES@ + "WHERE name LIKE ?1 ORDER BY "@ + order + " LIMIT ?2"@,
            params: seq![
                Bound::Text(search_pattern(query)),
                Bound::Integer(limit),
            ],
        },
        None => match folder_id {
            Some(id) => StatementView {
                sql: SELECT_FILES@ + "WHERE folder_id = ?1 ORDER BY "@ + order + " LIMIT ?2"@,
                params: seq![Bound::Blob(id.bytes@), Bound::Integer(limit)],
            },
            None => StatementView {
                sql: SELECT_FILES@ + "WHERE folder_id IS NULL ORDER BY "@ + order + " LIMIT ?1"@,
                params: seq![Bound::Integer(limit)],
            },
        },
    }
}

/// The text of an optional filter.
pub open spec fn filter_text(filter: Option<&str>) -> Option<Seq<char>> {
    match filter {
        Some(query) => Some(query@),
        None => None,
    }
}

/// A required pragma with a text value.
fn text_pragma(name: &str, value: &str) -> (step: DbStep)
    ensures
        step@ == (StepView::Pragma { name: name@, value: Bound::Text(value@), required: true }),
        step matches DbStep::Pragma { name: n, value: v, required } && n@ == name@ && required && (
        v matches SqlValue::Text(text) && text@ == value@),
{
    DbStep::Pragma { name: name.to_string(), value: text_value(value), required: true }
}

/// A pragma with an integer value, whose failure is passed over.
fn tuning_pragma(name: &str, value: i64) -> (step: DbStep)
    ensures
        step@ == (StepView::Pragma {
            name: name@,
            value: Bound::Integer(value as int),
            required: false,
        }),
        step matches DbStep::Pragma { name: n, value: v, required } && n@ == name@ && !required && v
            == SqlValue::Integer(value),
{
    DbStep::Pragma { name: name.to_string(), value: SqlValue::Integer(value), required: false }
}

/// The sizes that a deletion takes out of the totals: those in the row, or zeros where there is no
/// row or it does not read.
pub open spec fn sizes_in(row: Option<Seq<Cell>>) -> (usize, usize) {
    match row {
        None => (0, 0),
        Some(cells) => match crate::sql::size_in(cells, 0) {
            Err(_) => (0, 0),
            Ok(size) => match crate::sql::size_in(cells, 1) {
                Err(_) => (0, 0),
                Ok(compressed) => (size, compressed),
            },
        },
    }
}

/// The changes that delete a file of some sizes.
pub open spec fn file_deletion(id: Uuid, sizes: (usize, usize)) -> Seq<crate::changes::Change> {
    seq![
        crate::changes::Change::ReleaseFileChunks { file_id: id },
        crate::changes::Change::DropUnreferencedChunks,
        crate::changes::Change::DeleteFile { id },
        crate::changes::Change::UncountFile {
            size: sizes.0 as int,
            compressed_size: sizes.1 as int,
        },
    ]
}

/// The changes that delete a folder.
pub open spec fn folder_deletion(id: Uuid) -> Seq<crate::changes::Change> {
    seq![
        crate::changes::Change::UncountFolder { id },
        crate::changes::Change::ReleaseFolderChunks { id },
        crate::changes::Change::DropUnreferencedChunks,
        crate::changes::Change::DeleteFolder { id },
    ]
}

/// The cells of an optional row.
pub open spec fn optional_row(row: Option<&[Cell]>) -> Option<Seq<Cell>> {
    match row {
        Some(cells) => Some(cells@),
        None => None,
    }
}

/// The encrypted database of an archive: the statements to run on it, and the reading of the rows
/// that it returns. The connection itself is held by the caller.
#[derive(Debug)]
pub struct EncryptedDb {}

impl EncryptedDb {
    /// Plans the opening of the database at a path under a key.
    pub fn open(path: &str, key: &str) -> (plan: OpenPlan)
        ensures
            plan.path@ == crate::paths::plain_path(path@),
            steps_of(plan.steps@) == opening_steps(key@),
            plan.steps@.len() == 10,
            plan.steps@[0] matches DbStep::Pragma { name, value, required } && name@ == "key"@ && required
                && (value matches SqlValue::Text(text) && text@ == key@),
            plan.steps@[1] matches DbStep::Batch { sql } && sql@ == "PRAGMA foreign_keys = ON;"@,
            plan.steps@[2] matches DbStep::Pragma { name, value, required } && name@ == "journal_mode"@ && required
                && (value matches SqlValue::Text(text) && text@ == "WAL"@),
            plan.steps@[3] matches DbStep::Pragma { name, value, required } && name@ == "synchronous"@ && required
                && (value matches SqlValue::Text(text) && text@ == "NORMAL"@),
            plan.steps@[4] matches DbStep::Pragma { name, value, required } && name@ == "mmap_size"@
                && !required && (value matches SqlValue::Integer(n) && n == 268435456),
            plan.steps@[5] matches DbStep::Pragma { name, value, required } && name@ == "cache_size"@
                && !required && (value matches SqlValue::Integer(n) && n == -128000),
            plan.steps@[6] matches DbStep::Pragma { name, value, required } && name@ == "temp_store"@ && required
                && (value matches SqlValue::Text(text) && text@ == "MEMORY"@),
            plan.steps@[7] matches DbStep::Pragma { name, value, required } && name@ == "auto_vacuum"@ && required
                && (value matches SqlValue::Text(text) && text@ == "INCREMENTAL"@),
            plan.steps@[8] matches DbStep::Batch { sql } && sql@ == "CREATE TABLE IF NOT EXISTS folders (id BLOB PRIMARY KEY, name TEXT NOT NULL, parent_id BLOB, FOREIGN KEY (parent_id) REFERENCES folders(id) ON DELETE CASCADE); CREATE TABLE IF NOT EXISTS files (id BLOB PRIMARY KEY, name TEXT NOT NULL, size INTEGER NOT NULL, compressed_size INTEGER NOT NULL DEFAULT 0, created_at INTEGER NOT NULL, folder_id BLOB, checksum BLOB NOT NULL, FOREIGN KEY (folder_id) REFERENCES folders(id) ON DELETE CASCADE); CREATE TABLE IF NOT EXISTS chunks (chunk_hash BLOB PRIMARY KEY, data BLOB NOT NULL, ref_count INTEGER NOT NULL DEFAULT 1); CREATE TABLE IF NOT EXISTS file_chunks (file_id BLOB NOT NULL, chunk_index INTEGER NOT NULL, chunk_hash BLOB NOT NULL, PRIMARY KEY (file_id, chunk_index), FOREIGN KEY (file_id) REFERENCES files(id) ON DELETE CASCADE, FOREIGN KEY (chunk_hash) REFERENCES chunks(chunk_hash)); CREATE TABLE IF NOT EXISTS vault_stats (id INTEGER PRIMARY KEY CHECK (id = 1), total_files INTEGER NOT NULL DEFAULT 0, total_bytes INTEGER NOT NULL DEFAULT 0, compressed_bytes INTEGER NOT NULL DEFAULT 0); INSERT OR IGNORE INTO vault_stats (id, total_files, total_bytes, compressed_bytes) VALUES (1, 0, 0, 0); CREATE INDEX IF NOT EXISTS idx_folders_nav ON folders(parent_id, name); CREATE INDEX IF NOT EXISTS idx_files_covering ON files(folder_id, name, size, compressed_size, created_at); CREATE INDEX IF NOT EXISTS idx_files_checksum ON files(checksum); CREATE INDEX IF NOT EXISTS idx_file_chunks_lookup ON file_chunks(file_id, chunk_index);"@,
            plan.steps@[9] matches DbStep::Probe { sql } && sql@ == "SELECT id FROM vault_stats WHERE id = 1"@,
            path@ == "\\\\?\\"@ + plan.path@ || (plan.path@ == path@ && !crate::text::begins_with(
                path@,
                "\\\\?\\"@,
            )),
    {
        let mut steps: Vec<DbStep> = Vec::new();
        steps.push(text_pragma("key", key));
        steps.push(DbStep::Batch { sql: ENABLE_FOREIGN_KEYS.to_string() });
        steps.push(text_pragma("journal_mode", "WAL"));
        steps.push(text_pragma("synchronous", "NORMAL"));
        steps.push(tuning_pragma("mmap_size", 268435456));
        steps.push(tuning_pragma("cache_size", -128000));
        steps.push(text_pragma("temp_store", "MEMORY"));
        steps.push(text_pragma("auto_vacuum", "INCREMENTAL"));
        steps.push(DbStep::Batch { sql: SCHEMA.to_string() });
        steps.push(DbStep::Probe { sql: PROBE_STATS.to_string() });
        proof {
            assert(steps_of(steps@) =~= opening_steps(key@));
        }
        OpenPlan { path: sanitize_db_path(path), steps }
    }

    /// The step that changes the key.
    pub fn change_key(new_key: &str) -> (step: DbStep)
        ensures
            step@ == (StepView::Pragma {
                name: "rekey"@,
                value: Bound::Text(new_key@),
                required: true,
            }),
            step matches DbStep::Pragma { name, value, required } && name@ == "rekey"@ && required
                && (value matches SqlValue::Text(text) && text@ == new_key@),
    {
        text_pragma("rekey", new_key)
    }

    /// The step that compacts the database file.
    pub fn vacuum_compact() -> (step: DbStep)
        ensures
            step@ == (StepView::Batch { sql: VACUUM@ }),
            step matches DbStep::Batch { sql } && sql@ == "VACUUM;"@,
    {
        DbStep::Batch { sql: VACUUM.to_string() }
    }

    /// The query for the totals.
    pub fn get_vault_stats() -> (statement: Statement)
        ensures
            statement@ == (StatementView { sql: SELECT_STATS@, params: seq![] }),
            statement.sql@ == "SELECT total_files, total_bytes, compressed_bytes FROM vault_stats WHERE id = 1"@,
            statement.params@.len() == 0,
    {
        statement0(SELECT_STATS)
    }

    /// Reads the totals from their row.
    pub fn parse_stats(row: &[Cell]) -> (res: Result<VaultStats, DbError>)
        ensures
            res == stats_in(row@),
            match res {
                Ok(stats) => {
                    &&& row@.len() >= 3
                    &&& row@[0] matches Cell::Integer(n) && n == stats.total_files
                    &&& row@[1] matches Cell::Integer(n) && n == stats.total_bytes
                    &&& row@[2] matches Cell::Integer(n) && n == stats.compressed_bytes
                },
                Err(_) => row@.len() >= 3 ==> !(row@[0] matches Cell::Integer(a) && (
                row@[1] matches Cell::Integer(b) && (row@[2] matches Cell::Integer(c) && 0 <= a
                    <= usize::MAX && 0 <= b <= usize::MAX && 0 <= c <= usize::MAX))),
            },
    {
        let total_files = match read_size(row, 0) {
            Ok(n) => n,
            Err(e) => return Err(e),
        };
        let total_bytes = match read_size(row, 1) {
            Ok(n) => n,
            Err(e) => return Err(e),
        };
        let compressed_bytes = match read_size(row, 2) {
            Ok(n) => n,
            Err(e) => return Err(e),
        };
        Ok(VaultStats { total_files, total_bytes, compressed_bytes })
    }

    /// The query for a file with a checksum.
    pub fn find_existing_file_by_hash(checksum_bytes: &[u8]) -> (statement: Statement)
        ensures
            statement@ == (StatementView {
                sql: SELECT_BY_CHECKSUM@,
                params: seq![Bound::Blob(checksum_bytes@)],
            }),
            statement.sql@ == "SELECT name FROM files WHERE checksum = ?1 LIMIT 1"@,
            statement.params@.len() == 1,
            statement.params@[0] matches SqlValue::Blob(b) && b@ == checksum_bytes@,
    {
        statement1(SELECT_BY_CHECKSUM, blob_value(checksum_bytes))
    }

    /// Reads the name of the file that was found, if any was.
    pub fn parse_existing_name(row: Option<&[Cell]>) -> (res: Result<Option<String>, DbError>)
        ensures
            match row {
                None => res == Ok::<Option<String>, DbError>(None),
                Some(cells) => match res {
                    Ok(Some(name)) => crate::sql::text_in(cells@, 0) == Ok::<Seq<char>, DbError>(
                        name@,
                    ),
                    Ok(None) => false,
                    Err(e) => crate::sql::text_in(cells@, 0) == Err::<Seq<char>, DbError>(e),
                },
            },
            row matches Some(cells) ==> (res matches Ok(name) ==> name is Some && (
            cells@[0] matches Cell::Text(b) && vstd::utf8::encode_utf8(name->0@) == b@)),
    {
        match row {
            None => Ok(None),
            Some(cells) => match read_text(cells, 0) {
                Ok(name) => Ok(Some(name)),
                Err(e) => Err(e),
            },
        }
    }

    /// Reads a folder from its row.
    pub fn parse_folder(row: &[Cell]) -> (res: Result<FolderMetadata, DbError>)
        ensures
            match res {
                Ok(folder) => folder_in(row@) == Ok::<FolderView, DbError>(folder@),
                Err(e) => folder_in(row@) == Err::<FolderView, DbError>(e),
            },
            res matches Ok(folder) ==> {
                &&& row@.len() >= 3
                &&& row@[0] matches Cell::Blob(b) && folder.id.bytes@ == (if b@.len() == 16 {
                    b@
                } else {
                    Seq::new(16, |i: int| 0u8)
                })
                &&& row@[1] matches Cell::Text(b) && vstd::utf8::encode_utf8(folder.name@) == b@
                &&& match row@[2] {
                    Cell::Blob(b) => {
                        &&& folder.parent_id is Some <==> b@.len() == 16
                        &&& folder.parent_id matches Some(id) ==> id.bytes@ == b@
                    },
                    _ => row@[2] is Null && folder.parent_id is None,
                }
            },
    {
        let id_bytes = match read_blob(row, 0) {
            Ok(b) => b,
            Err(e) => return Err(e),
        };
        let parent_bytes = match read_optional_blob(row, 2) {
            Ok(b) => b,
            Err(e) => return Err(e),
        };
        let name = match read_text(row, 1) {
            Ok(t) => t,
            Err(e) => return Err(e),
        };
        let parent_id = match parent_bytes {
            Some(b) => Uuid::from_slice(b.as_slice()),
            None => None,
        };
        Ok(FolderMetadata { id: Uuid::from_slice_or_nil(id_bytes.as_slice()), name, parent_id })
    }

    /// Reads a file from its row.
    pub fn parse_file(row: &[Cell]) -> (res: Result<FileMetadata, DbError>)
        ensures
            match res {
                Ok(file) => file_in(row@) == Ok::<FileView, DbError>(file@),
                Err(e) => file_in(row@) == Err::<FileView, DbError>(e),
            },
            res matches Ok(file) ==> {
                &&& row@.len() >= 7
                &&& row@[0] matches Cell::Blob(b) && file.id.bytes@ == (if b@.len() == 16 {
                    b@
                } else {
                    Seq::new(16, |i: int| 0u8)
                })
                &&& row@[1] matches Cell::Text(b) && vstd::utf8::encode_utf8(file.name@) == b@
                &&& row@[2] matches Cell::Integer(n) && n == file.size
                &&& row@[3] matches Cell::Integer(n) && n == file.compressed_size
                &&& row@[4] matches Cell::Integer(n) && n == file.created_at
                &&& match row@[5] {
                    Cell::Blob(b) => {
                        &&& file.folder_id is Some <==> b@.len() == 16
                        &&& file.folder_id matches Some(id) ==> id.bytes@ == b@
                    },
                    _ => row@[5] is Null && file.folder_id is None,
                }
                &&& row@[6] matches Cell::Blob(b) && file.checksum@ == crate::text::hex(b@)
            },
    {
        let id_bytes = match read_blob(row, 0) {
            Ok(b) => b,
            Err(e) => return Err(e),
        };
        let folder_bytes = match read_optional_blob(row, 5) {
            Ok(b) => b,
            Err(e) => return Err(e),
        };
        let hash_bytes = match read_blob(row, 6) {
            Ok(b) => b,
            Err(e) => return Err(e),
        };
        let name = match read_text(row, 1) {
            Ok(t) => t,
            Err(e) => return Err(e),
        };
        let size = match read_size(row, 2) {
            Ok(n) => n,
            Err(e) => return Err(e),
        };
        let compressed_size = match read_size(row, 3) {
            Ok(n) => n,
            Err(e) => return Err(e),
        };
        let created_at = match read_integer(row, 4) {
            Ok(n) => n,
            Err(e) => return Err(e),
        };
        let folder_id = match folder_bytes {
            Some(b) => Uuid::from_slice(b.as_slice()),
            None => None,
        };
        Ok(
            FileMetadata {
                id: Uuid::from_slice_or_nil(id_bytes.as_slice()),
                name,
                size,
                compressed_size,
                created_at,
                folder_id,
                checksum: hex_text(hash_bytes.as_slice()),
            },
        )
    }

    /// The query for the folders in a folder, or at the top.
    pub fn list_folders(parent_id: Option<Uuid>) -> (statement: Statement)
        ensures
            statement@ == (match parent_id {
                Some(id) => StatementView {
                    sql: SELECT_SUBFOLDERS@,
                    params: seq![Bound::Blob(id.bytes@)],
                },
                None => StatementView { sql: SELECT_TOP_FOLDERS@, params: seq![] },
            }),
            statement@ == crate::queries::folders_query(parent_id),
            match parent_id {
                Some(id) => {
                    &&& statement.sql@ == "SELECT id, name, parent_id FROM folders WHERE parent_id = ?1 ORDER BY name ASC"@
                    &&& statement.params@.len() == 1
                    &&& statement.params@[0] matches SqlValue::Blob(b) && b@ == id.bytes@
                },
                None => {
                    &&& statement.sql@ == "SELECT id, name, parent_id FROM folders WHERE parent_id IS NULL ORDER BY name ASC"@
                    &&& statement.params@.len() == 0
                },
            },
    {
        match parent_id {
            Some(id) => statement1(SELECT_SUBFOLDERS, id_value(&id)),
            None => statement0(SELECT_TOP_FOLDERS),
        }
    }

    /// Reads the folders from their rows. The first row with a fault ends the reading.
    pub fn parse_folders(rows: &[Vec<Cell>]) -> (res: Result<Vec<FolderMetadata>, DbError>)
        ensures
            match res {
                Ok(folders) => folders_in(rows@) == Ok::<Seq<FolderView>, DbError>(
                    folder_views(folders@),
                ),
                Err(e) => folders_in(rows@) == Err::<Seq<FolderView>, DbError>(e),
            },
            res matches Ok(list) ==> list@.len() == rows@.len() && forall|i: int|
                0 <= i < rows@.len() ==> folder_in(#[trigger] rows@[i]@) == Ok::<FolderView, DbError>(list@[i]@),
            res is Err ==> exists|i: int|
                0 <= i < rows@.len() && folder_in(#[trigger] rows@[i]@) is Err && forall|j: int|
                    0 <= j < i ==> folder_in(#[trigger] rows@[j]@) is Ok,
    {
        let mut folders: Vec<FolderMetadata> = Vec::new();
        let mut i: usize = 0;
        proof {
            assert(folder_views(folders@) =~= Seq::empty());
        }
        while i < rows.len()
            invariant
                i <= rows@.len(),
                folders@.len() == i,
                forall|j: int|
                    0 <= j < i ==> folder_in(#[trigger] rows@[j]@) == Ok::<FolderView, DbError>(folders@[j]@),
                folders_in(rows@.subrange(0, i as int)) == Ok::<Seq<FolderView>, DbError>(
                    folder_views(folders@),
                ),
            decreases rows.len() - i,
        {
            proof {
                assert(rows@.subrange(0, i + 1).drop_last() =~= rows@.subrange(0, i as int));
            }
            match EncryptedDb::parse_folder(rows[i].as_slice()) {
                Ok(folder) => {
                    let ghost before = folder_views(folders@);
                    folders.push(folder);
                    proof {
                        assert(folder_views(folders@) =~= before.push(folder@));
                    }
                },
                Err(e) => {
                    proof {
                        lemma_folders_fault(rows@, i + 1);
                    }
                    return Err(e);
                },
            }
            i += 1;
        }
        proof {
            assert(rows@.subrange(0, i as int) =~= rows@);
        }
        Ok(folders)
    }

    /// The query for a listing of files.
    pub fn list_files_query(
        folder_id: Option<Uuid>,
        filter: Option<&str>,
        sort_col: SortColumn,
        sort_dir: SortDirection,
        limit: usize,
    ) -> (res: Result<Statement, DbError>)
        ensures
            res is Ok <==> crate::sql::fits_integer(limit as int),
            res matches Ok(statement) ==> statement@ == listing(
                folder_id,
                filter_text(filter),
                sort_col,
                sort_dir,
                limit as int,
            ),
            res matches Err(e) ==> e == DbError::IntegerTooLarge,
            res is Ok <==> limit <= i64::MAX,
            res matches Ok(statement) ==> {
                let order = (match sort_col {
                        SortColumn::Name => "name"@,
                        SortColumn::Size => "size"@,
                        SortColumn::EncryptedSize => "compressed_size"@,
                        SortColumn::Modified => "created_at"@,
                    }) + " "@ + (match sort_dir {
                        SortDirection::Asc => "ASC"@,
                        SortDirection::Desc => "DESC"@,
                    });
                let front =
                    "SELECT id, name, size, compressed_size, created_at, folder_id, checksum FROM files "@;
                match filter {
                    Some(query) => {
                        &&& statement.sql@ == front + "WHERE name LIKE ?1 ORDER BY "@ + order
                            + " LIMIT ?2"@
                        &&& statement.params@.len() == 2
                        &&& statement.params@[0] matches SqlValue::Text(text) && text@ == "%"@
                            + crate::text::trimmed(query@) + "%"@
                        &&& statement.params@[1] matches SqlValue::Integer(n) && n == limit
                    },
                    None => match folder_id {
                        Some(id) => {
                            &&& statement.sql@ == front + "WHERE folder_id = ?1 ORDER BY "@ + order
                                + " LIMIT ?2"@
                            &&& statement.params@.len() == 2
                            &&& statement.params@[0] matches SqlValue::Blob(b) && b@ == id.bytes@
                            &&& statement.params@[1] matches SqlValue::Integer(n) && n == limit
                        },
                        None => {
                            &&& statement.sql@ == front + "WHERE folder_id IS NULL ORDER BY "@ + order
                                + " LIMIT ?1"@
                            &&& statement.params@.len() == 1
                            &&& statement.params@[0] matches SqlValue::Integer(n) && n == limit
                        },
                    },
                }
            },
    {
        let limit_value = match size_value(limit) {
            Ok(v) => v,
            Err(e) => return Err(e),
        };
        let col_name = match sort_col {
            SortColumn::Name => "name",
            SortColumn::Size => "size",
            SortColumn::EncryptedSize => "compressed_size",
            SortColumn::Modified => "created_at",
        };
        let dir_sql = match sort_dir {
            SortDirection::Asc => "ASC",
            SortDirection::Desc => "DESC",
        };
        let mut order = col_name.to_string();
        order.append(" ");
        order.append(dir_sql);

        let mut sql = SELECT_FILES.to_string();
        match filter {
            Some(query) => {
                let mut pattern = "%".to_string();
                pattern.append(trim_text(query).as_str());
                pattern.append("%");
                sql.append("WHERE name LIKE ?1 ORDER BY ");
                sql.append(order.as_str());
                sql.append(" LIMIT ?2");
                Ok(statement2(sql.as_str(), SqlValue::Text(pattern), limit_value))
            },
            None => match folder_id {
                Some(id) => {
                    sql.append("WHERE folder_id = ?1 ORDER BY ");
                    sql.append(order.as_str());
                    sql.append(" LIMIT ?2");
                    Ok(statement2(sql.as_str(), id_value(&id), limit_value))
                },
                None => {
                    sql.append("WHERE folder_id IS NULL ORDER BY ");
                    sql.append(order.as_str());
                    sql.append(" LIMIT ?1");
                    Ok(statement1(sql.as_str(), limit_value))
                },
            },
        }
    }

    /// Reads the files from their rows. The first row with a fault ends the reading.
    pub fn parse_files(rows: &[Vec<Cell>]) -> (res: Result<Vec<FileMetadata>, DbError>)
        ensures
            match res {
                Ok(files) => files_in(rows@) == Ok::<Seq<FileView>, DbError>(file_views(files@)),
                Err(e) => files_in(rows@) == Err::<Seq<FileView>, DbError>(e),
            },
            res matches Ok(list) ==> list@.len() == rows@.len() && forall|i: int|
                0 <= i < rows@.len() ==> file_in(#[trigger] rows@[i]@) == Ok::<FileView, DbError>(list@[i]@),
            res is Err ==> exists|i: int|
                0 <= i < rows@.len() && file_in(#[trigger] rows@[i]@) is Err && forall|j: int|
                    0 <= j < i ==> file_in(#[trigger] rows@[j]@) is Ok,
    {
        let mut files: Vec<FileMetadata> = Vec::new();
        let mut i: usize = 0;
        proof {
            assert(file_views(files@) =~= Seq::empty());
        }
        while i < rows.len()
            invariant
                i <= rows@.len(),
                files@.len() == i,
                forall|j: int|
                    0 <= j < i ==> file_in(#[trigger] rows@[j]@) == Ok::<FileView, DbError>(files@[j]@),
                files_in(rows@.subrange(0, i as int)) == Ok::<Seq<FileView>, DbError>(
                    file_views(files@),
                ),
            decreases rows.len() - i,
        {
            proof {
                assert(rows@.subrange(0, i + 1).drop_last() =~= rows@.subrange(0, i as int));
            }
            match EncryptedDb::parse_file(rows[i].as_slice()) {
                Ok(file) => {
                    let ghost before = file_views(files@);
                    files.push(file);
                    proof {
                        assert(file_views(files@) =~= before.push(file@));
                    }
                },
                Err(e) => {
                    proof {
                        lemma_files_fault(rows@, i + 1);
                    }
                    return Err(e);
                },
            }
            i += 1;
        }
        proof {
            assert(rows@.subrange(0, i as int) =~= rows@);
        }
        Ok(files)
    }

    /// The change that makes a folder under a fresh random identifier, and that identifier.
    pub fn create_folder(name: &str, parent_id: Option<Uuid>) -> (created: (Uuid, DbOp))
        ensures
            crate::ident::is_random_id(created.0),
            created.1@ == (crate::changes::Change::InsertFolder {
                id: created.0,
                name: name@,
                parent_id,
            }),
            created.1 matches DbOp::InsertFolder { id, name: given, parent_id: parent } && id
                == created.0 && given@ == name@ && parent == parent_id,
    {
        let id = Uuid::new_v4();
        (id, DbOp::InsertFolder { id, name: name.to_string(), parent_id })
    }

    /// The change that renames a folder or a file.
    pub fn rename_item(id: Uuid, new_name: &str, is_folder: bool) -> (op: DbOp)
        ensures
            op@ == (if is_folder {
                crate::changes::Change::RenameFolder { id, name: new_name@ }
            } else {
                crate::changes::Change::RenameFile { id, name: new_name@ }
            }),
            is_folder ==> (op matches DbOp::RenameFolder { id: i, name } && i == id && name@
                == new_name@),
            !is_folder ==> (op matches DbOp::RenameFile { id: i, name } && i == id && name@
                == new_name@),
    {
        if is_folder {
            DbOp::RenameFolder { id, name: new_name.to_string() }
        } else {
            DbOp::RenameFile { id, name: new_name.to_string() }
        }
    }

    /// The query for the sizes of a file that is about to be deleted.
    pub fn file_sizes(id: Uuid) -> (statement: Statement)
        ensures
            statement@ == (StatementView {
                sql: SELECT_FILE_SIZES@,
                params: seq![Bound::Blob(id.bytes@)],
            }),
            statement.sql@ == "SELECT size, compressed_size FROM files WHERE id = ?1"@,
            statement.params@.len() == 1,
            statement.params@[0] matches SqlValue::Blob(b) && b@ == id.bytes@,
    {
        statement1(SELECT_FILE_SIZES, id_value(&id))
    }

    /// The changes, all in one transaction, that delete a folder, or a file whose row of sizes is
    /// given where there is one. Every one of them has a statement.
    pub fn delete_item(id: Uuid, is_folder: bool, sizes_row: Option<&[Cell]>) -> (ops: Vec<DbOp>)
        ensures
            crate::changes::changes_of(ops@) == (if is_folder {
                folder_deletion(id)
            } else {
                file_deletion(id, sizes_in(optional_row(sizes_row)))
            }),
            forall|i: int| 0 <= i < ops@.len() ==> crate::changes::fits(#[trigger] ops@[i]@),
            ops@.len() == 4,
            is_folder ==> {
                &&& ops@[0] == DbOp::UncountFolder { id }
                &&& ops@[1] == DbOp::ReleaseFolderChunks { id }
                &&& ops@[2] == DbOp::DropUnreferencedChunks
                &&& ops@[3] == DbOp::DeleteFolder { id }
            },
            !is_folder ==> {
                &&& ops@[0] == DbOp::ReleaseFileChunks { file_id: id }
                &&& ops@[1] == DbOp::DropUnreferencedChunks
                &&& ops@[2] == DbOp::DeleteFile { id }
                &&& ops@[3] matches DbOp::UncountFile { size, compressed_size } && match sizes_row {
                    None => size == 0 && compressed_size == 0,
                    Some(cells) => (cells@.len() >= 2 && (cells@[0] matches Cell::Integer(a) && (
                    cells@[1] matches Cell::Integer(b) && 0 <= a <= usize::MAX && 0 <= b
                        <= usize::MAX && size == a && compressed_size == b))) || (size == 0
                        && compressed_size == 0 && !(cells@.len() >= 2 && (
                    cells@[0] matches Cell::Integer(a) && (cells@[1] matches Cell::Integer(b) && 0
                        <= a <= usize::MAX && 0 <= b <= usize::MAX)))),
                }
            },
    {
        let mut ops: Vec<DbOp> = Vec::new();
        if is_folder {
            ops.push(DbOp::UncountFolder { id });
            ops.push(DbOp::ReleaseFolderChunks { id });
            ops.push(DbOp::DropUnreferencedChunks);
            ops.push(DbOp::DeleteFolder { id });
            proof {
                assert(crate::changes::changes_of(ops@) =~= folder_deletion(id));
            }
        } else {
            let (size, compressed_size) = match sizes_row {
                None => (0usize, 0usize),
                Some(cells) => match read_size(cells, 0) {
                    Err(_) => (0, 0),
                    Ok(size) => match read_size(cells, 1) {
                        Err(_) => (0, 0),
                        Ok(compressed) => (size, compressed),
                    },
                },
            };
            ops.push(DbOp::ReleaseFileChunks { file_id: id });
            ops.push(DbOp::DropUnreferencedChunks);
            ops.push(DbOp::DeleteFile { id });
            ops.push(DbOp::UncountFile { size, compressed_size });
            proof {
                assert(crate::changes::changes_of(ops@) =~= file_deletion(
                    id,
                    sizes_in(optional_row(sizes_row)),
                ));
            }
        }
        ops
    }
}

/// The views of some folders.
pub open spec fn folder_views(folders: Seq<FolderMetadata>) -> Seq<FolderView> {
    Seq::new(folders.len(), |i: int| folders[i]@)
}

/// The views of some files.
pub open spec fn file_views(files: Seq<FileMetadata>) -> Seq<FileView> {
    Seq::new(files.len(), |i: int| files[i]@)
}

/// What the views of a folder and of a file say is what they hold.
pub proof fn law_entries_are_as_viewed(folder: FolderMetadata, file: FileMetadata)
    ensures
        folder@.id == folder.id.bytes@,
        folder@.name == folder.name@,
        match folder.parent_id {
            Some(id) => folder@.parent_id == Some(id.bytes@),
            None => folder@.parent_id is None,
        },
        file@.id == file.id.bytes@,
        file@.name == file.name@,
        file@.size == file.size,
        file@.compressed_size == file.compressed_size,
        file@.created_at == file.created_at,
        match file.folder_id {
            Some(id) => file@.folder_id == Some(id.bytes@),
            None => file@.folder_id is None,
        },
        file@.checksum == file.checksum@,
{
}

} // verus!
