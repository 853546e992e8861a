//! The changes that are made to the database of an archive, each with the statement that makes it.
use crate::ident::Uuid;
use crate::sql::{
    size_value, statement0, statement1, statement2, statement3, statement5, Bound, DbError,
    SqlValue, Statement, StatementView,
};
use crate::tables::Tables;
use vstd::prelude::*;

verus! {

/// The statement of `DbOp::InsertFolder`.
pub const INSERT_FOLDER: &'static str = "INSERT INTO folders (id, name, parent_id) VALUES (?1, ?2, ?3)";

/// The statement of `DbOp::InsertFile`.
pub const INSERT_FILE: &'static str = "INSERT INTO files (id, name, size, compressed_size, created_at, folder_id, checksum) VALUES (?1, ?2, ?3, 0, ?4, ?5, X'')";

/// The statement of `DbOp::StoreChunk`.
pub const STORE_CHUNK: &'static str = "INSERT INTO chunks (chunk_hash, data, ref_count) VALUES (?1, ?2, 1) ON CONFLICT(chunk_hash) DO UPDATE SET ref_count = ref_count + 1";

/// The statement of `DbOp::LinkChunk`.
pub const LINK_CHUNK: &'static str = "INSERT INTO file_chunks (file_id, chunk_index, chunk_hash) VALUES (?1, ?2, ?3)";

/// The statement of `DbOp::SealFile`.
pub const SEAL_FILE: &'static str = "UPDATE files SET compressed_size = ?1, checksum = ?2 WHERE id = ?3";

/// The statement of `DbOp::CountFile`.
pub const COUNT_FILE: &'static str = "UPDATE vault_stats SET total_files = total_files + 1, total_bytes = total_bytes + ?1, compressed_bytes = compressed_bytes + ?2 WHERE id = 1";

/// The statement of `DbOp::RenameFolder`.
pub const RENAME_FOLDER: &'static str = "UPDATE folders SET name = ?1 WHERE id = ?2";

/// The statement of `DbOp::RenameFile`.
pub const RENAME_FILE: &'static str = "UPDATE files SET name = ?1 WHERE id = ?2";

/// The statement of `DbOp::ReleaseFileChunks`.
pub const RELEASE_FILE_CHUNKS: &'static str = "UPDATE chunks SET ref_count = ref_count - 1 WHERE chunk_hash IN (SELECT chunk_hash FROM file_chunks WHERE file_id = ?1)";

/// The statement of `DbOp::DropUnreferencedChunks`.
pub const DROP_UNREFERENCED_CHUNKS: &'static str = "DELETE FROM chunks WHERE ref_count <= 0";

/// The statement of `DbOp::DeleteFile`.
pub const DELETE_FILE: &'static str = "DELETE FROM files WHERE id = ?1";

/// The statement of `DbOp::UncountFile`.
pub const UNCOUNT_FILE: &'static str = "UPDATE vault_stats SET total_files = total_files - 1, total_bytes = total_bytes - ?1, compressed_bytes = compressed_bytes - ?2 WHERE id = 1";

/// The statement of `DbOp::UncountFolder`.
pub const UNCOUNT_FOLDER: &'static str = "WITH RECURSIVE subfolders(fid) AS (SELECT id FROM folders WHERE id = ?1 UNION ALL SELECT f.id FROM folders f JOIN subfolders s ON f.parent_id = s.fid) UPDATE vault_stats SET total_files = total_files - (SELECT COUNT(*) FROM files WHERE folder_id IN (SELECT fid FROM subfolders)), total_bytes = total_bytes - COALESCE((SELECT SUM(size) FROM files WHERE folder_id IN (SELECT fid FROM subfolders)), 0), compressed_bytes = compressed_bytes - COALESCE((SELECT SUM(compressed_size) FROM files WHERE folder_id IN (SELECT fid FROM subfolders)), 0) WHERE id = 1";

/// The statement of `DbOp::ReleaseFolderChunks`.
pub const RELEASE_FOLDER_CHUNKS: &'static str = "WITH RECURSIVE subfolders(fid) AS (SELECT id FROM folders WHERE id = ?1 UNION ALL SELECT f.id FROM folders f JOIN subfolders s ON f.parent_id = s.fid) UPDATE chunks SET ref_count = ref_count - 1 WHERE chunk_hash IN (SELECT fc.chunk_hash FROM file_chunks fc JOIN files f ON fc.file_id = f.id WHERE f.folder_id IN (SELECT fid FROM subfolders))";

/// The statement of `DbOp::DeleteFolder`.
pub const DELETE_FOLDER: &'static str = "DELETE FROM folders WHERE id = ?1";

/// One change to the database.
#[derive(Debug)]
pub enum DbOp {
    /// Adds a folder.
    InsertFolder { id: Uuid, name: String, parent_id: Option<Uuid> },
    /// Adds a file, with no blocks and no checksum yet.
    InsertFile {
        id: Uuid,
        name: String,
        size: usize,
        created_at: i64,
        folder_id: Option<Uuid>,
    },
    /// Adds a block, or counts one more reference to it where it is there already.
    StoreChunk { hash: Vec<u8>, data: Vec<u8> },
    /// Makes a block the one at a place in a file.
    LinkChunk { file_id: Uuid, index: usize, hash: Vec<u8> },
    /// Records the compressed size and the checksum of a file.
    SealFile { id: Uuid, compressed_size: usize, checksum: Vec<u8> },
    /// Counts a file in the totals of the archive.
    CountFile { size: usize, compressed_size: usize },
    /// Renames a folder.
    RenameFolder { id: Uuid, name: String },
    /// Renames a file.
    RenameFile { id: Uuid, name: String },
    /// Counts one reference less to every block of a file.
    ReleaseFileChunks { file_id: Uuid },
    /// Removes the blocks without references.
    DropUnreferencedChunks,
    /// Removes a file, and with it its links to blocks.
    DeleteFile { id: Uuid },
    /// Takes a file out of the totals of the archive.
    UncountFile { size: usize, compressed_size: usize },
    /// Takes the files in a folder, and in the folders below it, out of the totals.
    UncountFolder { id: Uuid },
    /// Counts one reference less to every block of a file in a folder or below it.
    ReleaseFolderChunks { id: Uuid },
    /// Removes a folder, and with it the folders below it, their files and the links of these.
    DeleteFolder { id: Uuid },
}

/// A change as a mathematical value.
pub enum Change {
    InsertFolder { id: Uuid, name: Seq<char>, parent_id: Option<Uuid> },
    InsertFile { id: Uuid, name: Seq<char>, size: int, created_at: int, folder_id: Option<Uuid> },
    StoreChunk { hash: Seq<u8>, data: Seq<u8> },
    LinkChunk { file_id: Uuid, index: int, hash: Seq<u8> },
    SealFile { id: Uuid, compressed_size: int, checksum: Seq<u8> },
    CountFile { size: int, compressed_size: int },
    RenameFolder { id: Uuid, name: Seq<char> },
    RenameFile { id: Uuid, name: Seq<char> },
    ReleaseFileChunks { file_id: Uuid },
    DropUnreferencedChunks,
    DeleteFile { id: Uuid },
    UncountFile { size: int, compressed_size: int },
    UncountFolder { id: Uuid },
    ReleaseFolderChunks { id: Uuid },
    DeleteFolder { id: Uuid },
}

impl View for DbOp {
    type V = Change;

    open spec fn view(&self) -> Change {
        match *self {
            DbOp::InsertFolder { id, name, parent_id } => Change::InsertFolder {
                id,
                name: name@,
                parent_id,
            },
            DbOp::InsertFile { id, name, size, created_at, folder_id } => Change::InsertFile {
                id,
                name: name@,
                size: size as int,
                created_at: created_at as int,
                folder_id,
            },
            DbOp::StoreChunk { hash, data } => Change::StoreChunk { hash: hash@, data: data@ },
            DbOp::LinkChunk { file_id, index, hash } => Change::LinkChunk {
                file_id,
                index: index as int,
                hash: hash@,
            },
            DbOp::SealFile { id, compressed_size, checksum } => Change::SealFile {
                id,
                compressed_size: compressed_size as int,
                checksum: checksum@,
            },
            DbOp::CountFile { size, compressed_size } => Change::CountFile {
                size: size as int,
                compressed_size: compressed_size as int,
            },
            DbOp::RenameFolder { id, name } => Change::RenameFolder { id, name: name@ },
            DbOp::RenameFile { id, name } => Change::RenameFile { id, name: name@ },
            DbOp::ReleaseFileChunks { file_id } => Change::ReleaseFileChunks { file_id },
            DbOp::DropUnreferencedChunks => Change::DropUnreferencedChunks,
            DbOp::DeleteFile { id } => Change::DeleteFile { id },
            DbOp::UncountFile { size, compressed_size } => Change::UncountFile {
                size: size as int,
                compressed_size: compressed_size as int,
            },
            DbOp::UncountFolder { id } => Change::UncountFolder { id },
            DbOp::ReleaseFolderChunks { id } => Change::ReleaseFolderChunks { id },
            DbOp::DeleteFolder { id } => Change::DeleteFolder { id },
        }
    }
}

/// The views of a list of changes.
pub open spec fn changes_of(ops: Seq<DbOp>) -> Seq<Change> {
    Seq::new(ops.len(), |i: int| ops[i]@)
}

/// The bound value for an identifier that may be absent.
pub open spec fn bound_id(id: Option<Uuid>) -> Bound {
    match id {
        Some(u) => Bound::Blob(u.bytes@),
        None => Bound::Null,
    }
}

/// Binds an identifier.
pub(crate) fn id_value(id: &Uuid) -> (value: SqlValue)
    ensures
        value@ == Bound::Blob(id.bytes@),
        value matches SqlValue::Blob(b) && b@ == id.bytes@,
{
    SqlValue::Blob(id.to_vec())
}

/// Binds an identifier that may be absent.
pub(crate) fn optional_id_value(id: &Option<Uuid>) -> (value: SqlValue)
    ensures
        value@ == bound_id(*id),
        match *id {
            Some(u) => value matches SqlValue::Blob(b) && b@ == u.bytes@,
            None => value is Null,
        },
{
    match id {
        Some(u) => id_value(u),
        None => SqlValue::Null,
    }
}

/// Binds a text.
pub(crate) fn text_value(text: &str) -> (value: SqlValue)
    ensures
        value@ == Bound::Text(text@),
        value matches SqlValue::Text(t) && t@ == text@,
{
    SqlValue::Text(text.to_string())
}

/// Binds some bytes.
pub(crate) fn blob_value(bytes: &[u8]) -> (value: SqlValue)
    ensures
        value@ == Bound::Blob(bytes@),
        value matches SqlValue::Blob(b) && b@ == bytes@,
{
    SqlValue::Blob(vstd::slice::slice_to_vec(bytes))
}

/// Whether every size in a change fits an integer of the database.
pub open spec fn fits(change: Change) -> bool {
    match change {
        Change::InsertFile { size, .. } => crate::sql::fits_integer(size),
        Change::LinkChunk { index, .. } => crate::sql::fits_integer(index),
        Change::SealFile { compressed_size, .. } => crate::sql::fits_integer(compressed_size),
        Change::CountFile { size, compressed_size } => crate::sql::fits_integer(size)
            && crate::sql::fits_integer(compressed_size),
        Change::UncountFile { size, compressed_size } => crate::sql::fits_integer(size)
            && crate::sql::fits_integer(compressed_size),
        _ => true,
    }
}

/// The text of the statement for a change.
pub open spec fn change_sql(change: Change) -> Seq<char> {
    match change {
        Change::InsertFolder { .. } => INSERT_FOLDER@,
        Change::InsertFile { .. } => INSERT_FILE@,
        Change::StoreChunk { .. } => STORE_CHUNK@,
        Change::LinkChunk { .. } => LINK_CHUNK@,
        Change::SealFile { .. } => SEAL_FILE@,
        Change::CountFile { .. } => COUNT_FILE@,
        Change::RenameFolder { .. } => RENAME_FOLDER@,
        Change::RenameFile { .. } => RENAME_FILE@,
        Change::ReleaseFileChunks { .. } => RELEASE_FILE_CHUNKS@,
        Change::DropUnreferencedChunks => DROP_UNREFERENCED_CHUNKS@,
        Change::DeleteFile { .. } => DELETE_FILE@,
        Change::UncountFile { .. } => UNCOUNT_FILE@,
        Change::UncountFolder { .. } => UNCOUNT_FOLDER@,
        Change::ReleaseFolderChunks { .. } => RELEASE_FOLDER_CHUNKS@,
        Change::DeleteFolder { .. } => DELETE_FOLDER@,
    }
}

/// The values bound to the parameters of the statement for a change.
pub open spec fn change_params(change: Change) -> Seq<Bound> {
    match change {
        Change::InsertFolder { id, name, parent_id } => seq![
            Bound::Blob(id.bytes@),
            Bound::Text(name),
            bound_id(parent_id),
        ],
        Change::InsertFile { id, name, size, created_at, folder_id } => seq![
            Bound::Blob(id.bytes@),
            Bound::Text(name),
            Bound::Integer(size),
            Bound::Integer(created_at),
            bound_id(folder_id),
        ],
        Change::StoreChunk { hash, data } => seq![
            Bound::Blob(hash),
            Bound::Blob(data),
        ],
        Change::LinkChunk { file_id, index, hash } => seq![
            Bound::Blob(file_id.bytes@),
            Bound::Integer(index),
            Bound::Blob(hash),
        ],
        Change::SealFile { id, compressed_size, checksum } => seq![
            Bound::Integer(compressed_size),
            Bound::Blob(checksum),
            Bound::Blob(id.bytes@),
        ],
        Change::CountFile { size, compressed_size } => seq![
            Bound::Integer(size),
            Bound::Integer(compressed_size),
        ],
        Change::RenameFolder { id, name } => seq![
            Bound::Text(name),
            Bound::Blob(id.bytes@),
        ],
        Change::RenameFile { id, name } => seq![
            Bound::Text(name),
            Bound::Blob(id.bytes@),
        ],
        Change::ReleaseFileChunks { file_id } => seq![Bound::Blob(file_id.bytes@)],
        Change::DropUnreferencedChunks => seq![],
        Change::DeleteFile { id } => seq![Bound::Blob(id.bytes@)],
        Change::UncountFile { size, compressed_size } => seq![
            Bound::Integer(size),
            Bound::Integer(compressed_size),
        ],
        Change::UncountFolder { id } => seq![Bound::Blob(id.bytes@)],
        Change::ReleaseFolderChunks { id } => seq![Bound::Blob(id.bytes@)],
        Change::DeleteFolder { id } => seq![Bound::Blob(id.bytes@)],
    }
}

/// The statement for a change.
pub open spec fn change_statement(change: Change) -> StatementView {
    StatementView { sql: change_sql(change), params: change_params(change) }
}

impl DbOp {
    /// The statement that makes the change, where every size in it fits.
    pub fn statement(&self) -> (res: Result<Statement, DbError>)
        ensures
            res is Ok <==> fits(self@),
            res matches Ok(statement) ==> statement@ == change_statement(self@),
            res matches Err(e) ==> e == DbError::IntegerTooLarge,
            res is Ok <==> match *self {
                DbOp::InsertFile { size, .. } => size <= i64::MAX,
                DbOp::LinkChunk { index, .. } => index <= i64::MAX,
                DbOp::SealFile { compressed_size, .. } => compressed_size <= i64::MAX,
                DbOp::CountFile { size, compressed_size } => size <= i64::MAX && compressed_size <= i64::MAX,
                DbOp::UncountFile { size, compressed_size } => size <= i64::MAX && compressed_size <= i64::MAX,
                _ => true,
            },
            res matches Ok(statement) ==> match *self {
                DbOp::InsertFolder { id, name, parent_id } => {
                    &&& statement.sql@ == "INSERT INTO folders (id, name, parent_id) VALUES (?1, ?2, ?3)"@
                    &&& statement.params@.len() == 3
                    &&& statement.params@[0] matches SqlValue::Blob(b) && b@ == id.bytes@
                    &&& statement.params@[1] matches SqlValue::Text(t) && t@ == name@
                    &&& match parent_id {
                        Some(u) => statement.params@[2] matches SqlValue::Blob(b) && b@ == u.bytes@,
                        None => statement.params@[2] is Null,
                    }
                },
                DbOp::InsertFile { id, name, size, created_at, folder_id } => {
                    &&& statement.sql@ == "INSERT INTO files (id, name, size, compressed_size, created_at, folder_id, checksum) VALUES (?1, ?2, ?3, 0, ?4, ?5, X'')"@
                    &&& statement.params@.len() == 5
                    &&& statement.params@[0] matches SqlValue::Blob(b) && b@ == id.bytes@
                    &&& statement.params@[1] matches SqlValue::Text(t) && t@ == name@
                    &&& statement.params@[2] matches SqlValue::Integer(n) && n == size
                    &&& statement.params@[3] matches SqlValue::Integer(n) && n == created_at
                    &&& match folder_id {
                        Some(u) => statement.params@[4] matches SqlValue::Blob(b) && b@ == u.bytes@,
                        None => statement.params@[4] is Null,
                    }
                },
                DbOp::StoreChunk { hash, data } => {
                    &&& statement.sql@ == "INSERT INTO chunks (chunk_hash, data, ref_count) VALUES (?1, ?2, 1) ON CONFLICT(chunk_hash) DO UPDATE SET ref_count = ref_count + 1"@
                    &&& statement.params@.len() == 2
                    &&& statement.params@[0] matches SqlValue::Blob(b) && b@ == hash@
                    &&& statement.params@[1] matches SqlValue::Blob(b) && b@ == data@
                },
                DbOp::LinkChunk { file_id, index, hash } => {
                    &&& statement.sql@ == "INSERT INTO file_chunks (file_id, chunk_index, chunk_hash) VALUES (?1, ?2, ?3)"@
                    &&& statement.params@.len() == 3
                    &&& statement.params@[0] matches SqlValue::Blob(b) && b@ == file_id.bytes@
                    &&& statement.params@[1] matches SqlValue::Integer(n) && n == index
                    &&& statement.params@[2] matches SqlValue::Blob(b) && b@ == hash@
                },
                DbOp::SealFile { id, compressed_size, checksum } => {
                    &&& statement.sql@ == "UPDATE files SET compressed_size = ?1, checksum = ?2 WHERE id = ?3"@
                    &&& statement.params@.len() == 3
                    &&& statement.params@[0] matches SqlValue::Integer(n) && n == compressed_size
                    &&& statement.params@[1] matches SqlValue::Blob(b) && b@ == checksum@
                    &&& statement.params@[2] matches SqlValue::Blob(b) && b@ == id.bytes@
                },
                DbOp::CountFile { size, compressed_size } => {
                    &&& statement.sql@ == "UPDATE vault_stats SET total_files = total_files + 1, total_bytes = total_bytes + ?1, compressed_bytes = compressed_bytes + ?2 WHERE id = 1"@
                    &&& statement.params@.len() == 2
                    &&& statement.params@[0] matches SqlValue::Integer(n) && n == size
                    &&& statement.params@[1] matches SqlValue::Integer(n) && n == compressed_size
                },
                DbOp::RenameFolder { id, name } => {
                    &&& statement.sql@ == "UPDATE folders SET name = ?1 WHERE id = ?2"@
                    &&& statement.params@.len() == 2
                    &&& statement.params@[0] matches SqlValue::Text(t) && t@ == name@
                    &&& statement.params@[1] matches SqlValue::Blob(b) && b@ == id.bytes@
                },
                DbOp::RenameFile { id, name } => {
                    &&& statement.sql@ == "UPDATE files SET name = ?1 WHERE id = ?2"@
                    &&& statement.params@.len() == 2
                    &&& statement.params@[0] matches SqlValue::Text(t) && t@ == name@
                    &&& statement.params@[1] matches SqlValue::Blob(b) && b@ == id.bytes@
                },
                DbOp::ReleaseFileChunks { file_id } => {
                    &&& statement.sql@ == "UPDATE chunks SET ref_count = ref_count - 1 WHERE chunk_hash IN (SELECT chunk_hash FROM file_chunks WHERE file_id = ?1)"@
                    &&& statement.params@.len() == 1
                    &&& statement.params@[0] matches SqlValue::Blob(b) && b@ == file_id.bytes@
                },
                DbOp::DropUnreferencedChunks => {
                    &&& statement.sql@ == "DELETE FROM chunks WHERE ref_count <= 0"@
                    &&& statement.params@.len() == 0
                },
                DbOp::DeleteFile { id } => {
                    &&& statement.sql@ == "DELETE FROM files WHERE id = ?1"@
                    &&& statement.params@.len() == 1
                    &&& statement.params@[0] matches SqlValue::Blob(b) && b@ == id.bytes@
                },
                DbOp::UncountFile { size, compressed_size } => {
                    &&& statement.sql@ == "UPDATE vault_stats SET total_files = total_files - 1, total_bytes = total_bytes - ?1, compressed_bytes = compressed_bytes - ?2 WHERE id = 1"@
                    &&& statement.params@.len() == 2
                    &&& statement.params@[0] matches SqlValue::Integer(n) && n == size
                    &&& statement.params@[1] matches SqlValue::Integer(n) && n == compressed_size
                },
                DbOp::UncountFolder { id } => {
                    &&& statement.sql@ == "WITH RECURSIVE subfolders(fid) AS (SELECT id FROM folders WHERE id = ?1 UNION ALL SELECT f.id FROM folders f JOIN subfolders s ON f.parent_id = s.fid) UPDATE vault_stats SET total_files = total_files - (SELECT COUNT(*) FROM files WHERE folder_id IN (SELECT fid FROM subfolders)), total_bytes = total_bytes - COALESCE((SELECT SUM(size) FROM files WHERE folder_id IN (SELECT fid FROM subfolders)), 0), compressed_bytes = compressed_bytes - COALESCE((SELECT SUM(compressed_size) FROM files WHERE folder_id IN (SELECT fid FROM subfolders)), 0) WHERE id = 1"@
                    &&& statement.params@.len() == 1
                    &&& statement.params@[0] matches SqlValue::Blob(b) && b@ == id.bytes@
                },
                DbOp::ReleaseFolderChunks { id } => {
                    &&& statement.sql@ == "WITH RECURSIVE subfolders(fid) AS (SELECT id FROM folders WHERE id = ?1 UNION ALL SELECT f.id FROM folders f JOIN subfolders s ON f.parent_id = s.fid) UPDATE chunks SET ref_count = ref_count - 1 WHERE chunk_hash IN (SELECT fc.chunk_hash FROM file_chunks fc JOIN files f ON fc.file_id = f.id WHERE f.folder_id IN (SELECT fid FROM subfolders))"@
                    &&& statement.params@.len() == 1
                    &&& statement.params@[0] matches SqlValue::Blob(b) && b@ == id.bytes@
                },
                DbOp::DeleteFolder { id } => {
                    &&& statement.sql@ == "DELETE FROM folders WHERE id = ?1"@
                    &&& statement.params@.len() == 1
                    &&& statement.params@[0] matches SqlValue::Blob(b) && b@ == id.bytes@
                },
            },
    {
        match self {
            DbOp::InsertFolder { id, name, parent_id } => Ok(
                statement3(
                    INSERT_FOLDER,
                    id_value(id),
                    text_value(name.as_str()),
                    optional_id_value(parent_id),
                ),
            ),
            DbOp::InsertFile { id, name, size, created_at, folder_id } => {
                let size = size_value(*size)?;
                Ok(
                    statement5(
                        INSERT_FILE,
                        id_value(id),
                        text_value(name.as_str()),
                        size,
                        SqlValue::Integer(*created_at),
                        optional_id_value(folder_id),
                    ),
                )
            },
            DbOp::StoreChunk { hash, data } => Ok(
                statement2(
                    STORE_CHUNK,
                    blob_value(hash.as_slice()),
                    blob_value(data.as_slice()),
                ),
            ),
            DbOp::LinkChunk { file_id, index, hash } => Ok(
                statement3(
                    LINK_CHUNK,
                    id_value(file_id),
                    size_value(*index)?,
                    blob_value(hash.as_slice()),
                ),
            ),
            DbOp::SealFile { id, compressed_size, checksum } => Ok(
                statement3(
                    SEAL_FILE,
                    size_value(*compressed_size)?,
                    blob_value(checksum.as_slice()),
                    id_value(id),
                ),
            ),
            DbOp::CountFile { size, compressed_size } => Ok(
                statement2(
                    COUNT_FILE,
                    size_value(*size)?,
                    size_value(*compressed_size)?,
                ),
            ),
            DbOp::RenameFolder { id, name } => Ok(
                statement2(
                    RENAME_FOLDER,
                    text_value(name.as_str()),
                    id_value(id),
                ),
            ),
            DbOp::RenameFile { id, name } => Ok(
                statement2(
                    RENAME_FILE,
                    text_value(name.as_str()),
                    id_value(id),
                ),
            ),
            DbOp::ReleaseFileChunks { file_id } => Ok(
                statement1(
                    RELEASE_FILE_CHUNKS,
                    id_value(file_id),
                ),
            ),
            DbOp::DropUnreferencedChunks => Ok(statement0(DROP_UNREFERENCED_CHUNKS)),
            DbOp::DeleteFile { id } => Ok(
                statement1(DELETE_FILE, id_value(id)),
            ),
            DbOp::UncountFile { size, compressed_size } => Ok(
                statement2(
                    UNCOUNT_FILE,
                    size_value(*size)?,
                    size_value(*compressed_size)?,
                ),
            ),
            DbOp::UncountFolder { id } => Ok(
                statement1(
                    UNCOUNT_FOLDER,
                    id_value(id),
                ),
            ),
            DbOp::ReleaseFolderChunks { id } => Ok(
                statement1(
                    RELEASE_FOLDER_CHUNKS,
                    id_value(id),
                ),
            ),
            DbOp::DeleteFolder { id } => Ok(
                statement1(DELETE_FOLDER, id_value(id)),
            ),
        }
    }
}

/// The texts of the statements differ from one kind of change to another.
proof fn lemma_texts_differ(a: Change, b: Change)
    requires
        change_sql(a) == change_sql(b),
    ensures
        match a {
            Change::InsertFolder { .. } => b is InsertFolder,
            Change::InsertFile { .. } => b is InsertFile,
            Change::StoreChunk { .. } => b is StoreChunk,
            Change::LinkChunk { .. } => b is LinkChunk,
            Change::SealFile { .. } => b is SealFile,
            Change::CountFile { .. } => b is CountFile,
            Change::RenameFolder { .. } => b is RenameFolder,
            Change::RenameFile { .. } => b is RenameFile,
            Change::ReleaseFileChunks { .. } => b is ReleaseFileChunks,
            Change::DropUnreferencedChunks => b is DropUnreferencedChunks,
            Change::DeleteFile { .. } => b is DeleteFile,
            Change::UncountFile { .. } => b is UncountFile,
            Change::UncountFolder { .. } => b is UncountFolder,
            Change::ReleaseFolderChunks { .. } => b is ReleaseFolderChunks,
            Change::DeleteFolder { .. } => b is DeleteFolder,
        },
{
    assert(INSERT_FOLDER@.len() == 61) by {
        reveal_strlit("INSERT INTO folders (id, name, parent_id) VALUES (?1, ?2, ?3)");
    }
    assert(INSERT_FILE@.len() == 120) by {
        reveal_strlit("INSERT INTO files (id, name, size, compressed_size, created_at, folder_id, checksum) VALUES (?1, ?2, ?3, 0, ?4, ?5, X'')");
    }
    assert(STORE_CHUNK@.len() == 131) by {
        reveal_strlit("INSERT INTO chunks (chunk_hash, data, ref_count) VALUES (?1, ?2, 1) ON CONFLICT(chunk_hash) DO UPDATE SET ref_count = ref_count + 1");
    }
    assert(LINK_CHUNK@.len() == 78) by {
        reveal_strlit("INSERT INTO file_chunks (file_id, chunk_index, chunk_hash) VALUES (?1, ?2, ?3)");
    }
    assert(SEAL_FILE@.len() == 66) by {
        reveal_strlit("UPDATE files SET compressed_size = ?1, checksum = ?2 WHERE id = ?3");
    }
    assert(COUNT_FILE@.len() == 139) by {
        reveal_strlit("UPDATE vault_stats SET total_files = total_files + 1, total_bytes = total_bytes + ?1, compressed_bytes = compressed_bytes + ?2 WHERE id = 1");
    }
    assert(RENAME_FOLDER@.len() == 42) by {
        reveal_strlit("UPDATE folders SET name = ?1 WHERE id = ?2");
    }
    assert(RENAME_FILE@.len() == 40) by {
        reveal_strlit("UPDATE files SET name = ?1 WHERE id = ?2");
    }
    assert(RELEASE_FILE_CHUNKS@.len() == 119) by {
        reveal_strlit("UPDATE chunks SET ref_count = ref_count - 1 WHERE chunk_hash IN (SELECT chunk_hash FROM file_chunks WHERE file_id = ?1)");
    }
    assert(DROP_UNREFERENCED_CHUNKS@.len() == 39) by {
        reveal_strlit("DELETE FROM chunks WHERE ref_count <= 0");
    }
    assert(DELETE_FILE@.len() == 31) by {
        reveal_strlit("DELETE FROM files WHERE id = ?1");
    }
    assert(UNCOUNT_FILE@.len() == 139) by {
        reveal_strlit("UPDATE vault_stats SET total_files = total_files - 1, total_bytes = total_bytes - ?1, compressed_bytes = compressed_bytes - ?2 WHERE id = 1");
    }
    assert(UNCOUNT_FOLDER@.len() == 552) by {
        reveal_strlit("WITH RECURSIVE subfolders(fid) AS (SELECT id FROM folders WHERE id = ?1 UNION ALL SELECT f.id FROM folders f JOIN subfolders s ON f.parent_id = s.fid) UPDATE vault_stats SET total_files = total_files - (SELECT COUNT(*) FROM files WHERE folder_id IN (SELECT fid FROM subfolders)), total_bytes = total_bytes - COALESCE((SELECT SUM(size) FROM files WHERE folder_id IN (SELECT fid FROM subfolders)), 0), compressed_bytes = compressed_bytes - COALESCE((SELECT SUM(compressed_size) FROM files WHERE folder_id IN (SELECT fid FROM subfolders)), 0) WHERE id = 1");
    }
    assert(RELEASE_FOLDER_CHUNKS@.len() == 341) by {
        reveal_strlit("WITH RECURSIVE subfolders(fid) AS (SELECT id FROM folders WHERE id = ?1 UNION ALL SELECT f.id FROM folders f JOIN subfolders s ON f.parent_id = s.fid) UPDATE chunks SET ref_count = ref_count - 1 WHERE chunk_hash IN (SELECT fc.chunk_hash FROM file_chunks fc JOIN files f ON fc.file_id = f.id WHERE f.folder_id IN (SELECT fid FROM subfolders))");
    }
    assert(DELETE_FOLDER@.len() == 33) by {
        reveal_strlit("DELETE FROM folders WHERE id = ?1");
    }
    assert(COUNT_FILE@[49] == '+' && UNCOUNT_FILE@[49] == '-') by {
        reveal_strlit("UPDATE vault_stats SET total_files = total_files + 1, total_bytes = total_bytes + ?1, compressed_bytes = compressed_bytes + ?2 WHERE id = 1");
        reveal_strlit("UPDATE vault_stats SET total_files = total_files - 1, total_bytes = total_bytes - ?1, compressed_bytes = compressed_bytes - ?2 WHERE id = 1");
    }
}

/// Nothing of a change is lost in its statement: the text and the bound values tell it from every
/// other change, so that changes with the same statement are the same change, however long the bytes
/// and texts in them are.
pub proof fn law_statement_tells_change(a: Change, b: Change)
    requires
        change_statement(a) == change_statement(b),
    ensures
        a == b,
{
    lemma_texts_differ(a, b);
    let p = change_params(a);
    let q = change_params(b);
    assert(p == q);
    assert forall|x: Uuid, y: Uuid| #[trigger] x.bytes@ == #[trigger] y.bytes@ implies x == y by {
        assert(x.bytes =~= y.bytes);
    }
    assert(p.len() > 0 ==> p[0] == q[0]);
    assert(p.len() > 1 ==> p[1] == q[1]);
    assert(p.len() > 2 ==> p[2] == q[2]);
    assert(p.len() > 3 ==> p[3] == q[3]);
    assert(p.len() > 4 ==> p[4] == q[4]);
}

/// What the statement for a change binds is what the tables have afterwards: the name, the sizes and
/// the place of a row that is added, the whole data of a block that is new, the block that is linked,
/// the checksum that is recorded, the name that is given, and by how much the totals change.
pub proof fn law_statement_binds_what_is_written(t: Tables, change: Change)
    requires
        crate::tables::effect(t, change) is Some,
    ensures
        ({
            let p = change_statement(change).params;
            let u = crate::tables::effect(t, change)->Some_0;
            match change {
                Change::InsertFolder { id, .. } => {
                    &&& p.len() == 3
                    &&& p[0] == Bound::Blob(id.bytes@)
                    &&& p[1] == Bound::Text(u.folders[id].name)
                    &&& match u.folders[id].parent_id {
                        Some(parent) => p[2] == Bound::Blob(parent.bytes@),
                        None => p[2] == Bound::Null,
                    }
                },
                Change::InsertFile { id, .. } => {
                    &&& p.len() == 5
                    &&& p[0] == Bound::Blob(id.bytes@)
                    &&& p[1] == Bound::Text(u.files[id].name)
                    &&& p[2] == Bound::Integer(u.files[id].size)
                    &&& p[3] == Bound::Integer(u.files[id].created_at)
                    &&& match u.files[id].folder_id {
                        Some(folder) => p[4] == Bound::Blob(folder.bytes@),
                        None => p[4] == Bound::Null,
                    }
                },
                Change::StoreChunk { hash, data } => {
                    &&& p.len() == 2
                    &&& p[0] == Bound::Blob(hash)
                    &&& p[1] == Bound::Blob(data)
                    &&& u.chunks.contains_key(hash)
                    &&& !t.chunks.contains_key(hash) ==> p[1] == Bound::Blob(u.chunks[hash].data)
                },
                Change::LinkChunk { file_id, index, .. } => {
                    &&& p.len() == 3
                    &&& p[0] == Bound::Blob(file_id.bytes@)
                    &&& p[1] == Bound::Integer(index)
                    &&& p[2] == Bound::Blob(u.links[(file_id, index)])
                },
                Change::SealFile { id, compressed_size, checksum } => {
                    &&& p.len() == 3
                    &&& p[0] == Bound::Integer(compressed_size)
                    &&& p[1] == Bound::Blob(checksum)
                    &&& p[2] == Bound::Blob(id.bytes@)
                    &&& t.files.contains_key(id) ==> {
                        &&& p[0] == Bound::Integer(u.files[id].compressed_size)
                        &&& p[1] == Bound::Blob(u.files[id].checksum)
                    }
                },
                Change::CountFile { .. } => {
                    &&& p.len() == 2
                    &&& p[0] == Bound::Integer(u.totals.bytes - t.totals.bytes)
                    &&& p[1] == Bound::Integer(u.totals.compressed - t.totals.compressed)
                    &&& u.totals.files == t.totals.files + 1
                },
                Change::UncountFile { .. } => {
                    &&& p.len() == 2
                    &&& p[0] == Bound::Integer(t.totals.bytes - u.totals.bytes)
                    &&& p[1] == Bound::Integer(t.totals.compressed - u.totals.compressed)
                    &&& u.totals.files == t.totals.files - 1
                },
                Change::RenameFolder { id, name } => {
                    &&& p.len() == 2
                    &&& p[0] == Bound::Text(name)
                    &&& p[1] == Bound::Blob(id.bytes@)
                    &&& t.folders.contains_key(id) ==> p[0] == Bound::Text(u.folders[id].name)
                },
                Change::RenameFile { id, name } => {
                    &&& p.len() == 2
                    &&& p[0] == Bound::Text(name)
                    &&& p[1] == Bound::Blob(id.bytes@)
                    &&& t.files.contains_key(id) ==> p[0] == Bound::Text(u.files[id].name)
                },
                Change::ReleaseFileChunks { file_id } => p.len() == 1 && p[0] == Bound::Blob(
                    file_id.bytes@,
                ),
                Change::DropUnreferencedChunks => p.len() == 0,
                Change::DeleteFile { id } => p.len() == 1 && p[0] == Bound::Blob(id.bytes@)
                    && !u.files.contains_key(id),
                Change::UncountFolder { id } => p.len() == 1 && p[0] == Bound::Blob(id.bytes@),
                Change::ReleaseFolderChunks { id } => p.len() == 1 && p[0] == Bound::Blob(
                    id.bytes@,
                ),
                Change::DeleteFolder { id } => {
                    &&& p.len() == 1
                    &&& p[0] == Bound::Blob(id.bytes@)
                    &&& !u.folders.contains_key(id)
                },
            }
        }),
{
    if let Change::DeleteFolder { id } = change {
        if t.folders.contains_key(id) {
            assert(crate::tables::descent(t, seq![id], id, id));
        }
    }
}

} // verus!
