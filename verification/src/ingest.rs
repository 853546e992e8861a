//! The import of a file, block by block.
use crate::changes::{blob_value, DbOp};
use crate::codec::{zstd_encode, ZSTD_LEVEL};
use crate::db::{EncryptedDb, SELECT_CHUNK_LENGTH};
use crate::digest::{digest_of, ContentHasher};
use crate::ident::Uuid;
use crate::sql::{
    read_size, statement1, Bound, Cell, DbError, SqlValue, Statement, StatementView,
};
use vstd::prelude::*;

verus! {

/// Milliseconds between two reports of progress.
pub const PROGRESS_INTERVAL_MS: u128 = 16;

/// Whether progress is to be reported: enough time has passed, or the work is complete.
pub fn progress_due(elapsed_ms: u128, done: usize, total: usize) -> (due: bool)
    ensures
        due == (elapsed_ms >= PROGRESS_INTERVAL_MS || done == total),
        due <==> elapsed_ms >= 16 || done == total,
{
    elapsed_ms >= PROGRESS_INTERVAL_MS || done == total
}

/// The import of one file.
pub struct FileImport {
    file_id: Uuid,
    total_size: usize,
    hasher: ContentHasher,
    total_compressed: usize,
    chunk_index: usize,
    bytes_processed: usize,
}

/// An import as a mathematical value: the file, the size that was announced for it, the content
/// read so far, the number of blocks placed and their compressed size.
pub struct ImportView {
    pub file_id: Uuid,
    pub total_size: int,
    pub content: Seq<u8>,
    pub blocks: int,
    pub compressed: int,
}

impl View for FileImport {
    type V = ImportView;

    closed spec fn view(&self) -> ImportView {
        ImportView {
            file_id: self.file_id,
            total_size: self.total_size as int,
            content: self.hasher@,
            blocks: self.chunk_index as int,
            compressed: self.total_compressed as int,
        }
    }
}

/// A block that was read: its digest, and the query for a stored block of that digest.
pub struct BlockProbe {
    pub hash: [u8; 32],
    pub lookup: Statement,
}

/// The query for the length of a stored block.
pub open spec fn block_lookup(hash: Seq<u8>) -> StatementView {
    StatementView { sql: SELECT_CHUNK_LENGTH@, params: seq![Bound::Blob(hash)] }
}

/// The changes that place a block in a file: its data goes to the store, where a block that is
/// there already only gains a reference, and the file is linked to it.
pub open spec fn placement(file_id: Uuid, index: int, hash: Seq<u8>, data: Seq<u8>) -> Seq<
    crate::changes::Change,
> {
    seq![
        crate::changes::Change::StoreChunk { hash, data },
        crate::changes::Change::LinkChunk { file_id, index, hash },
    ]
}

/// An import of which nothing was read yet.
pub open spec fn begun(file_id: Uuid, total_size: int) -> ImportView {
    ImportView { file_id, total_size, content: Seq::empty(), blocks: 0, compressed: 0 }
}

/// An import that took in one more block.
pub open spec fn took(import: ImportView, block: Seq<u8>) -> ImportView {
    ImportView { content: import.content + block, ..import }
}

/// An import that placed one more block, with so much stored data.
pub open spec fn placed(import: ImportView, stored_len: int) -> ImportView {
    ImportView {
        blocks: import.blocks + 1,
        compressed: import.compressed + stored_len,
        ..import
    }
}

/// The changes that complete a file.
pub open spec fn completion(import: ImportView) -> Seq<crate::changes::Change> {
    seq![
        crate::changes::Change::SealFile {
            id: import.file_id,
            compressed_size: import.compressed,
            checksum: crate::digest::blake3_digest(import.content),
        },
        crate::changes::Change::CountFile {
            size: import.total_size,
            compressed_size: import.compressed,
        },
    ]
}

impl FileImport {
    /// The content read so far is counted right, and every block placed holds some of it.
    pub closed spec fn wf(&self) -> bool {
        &&& self.bytes_processed == self.hasher@.len()
        &&& self.chunk_index <= self.bytes_processed
    }

    /// Whether content was read for one block more than were placed.
    pub closed spec fn can_place(&self) -> bool {
        self.chunk_index < self.bytes_processed
    }

    /// Begins the import of a file under a given identifier, with the change that adds the file.
    pub fn begin(
        file_id: Uuid,
        name: &str,
        total_size: usize,
        created_at: i64,
        folder_id: Option<Uuid>,
    ) -> (start: (FileImport, DbOp))
        ensures
            start.0.wf(),
            start.0@ == begun(file_id, total_size as int),
            start.0@.file_id == file_id,
            start.0@.total_size == total_size,
            start.0@.content.len() == 0,
            start.0@.blocks == 0,
            start.0@.compressed == 0,
            start.1 matches DbOp::InsertFile { id, name: n, size, created_at: c, folder_id: f } && id
                == file_id && n@ == name@ && size == total_size && c == created_at && f
                == folder_id,
            start.1@ == (crate::changes::Change::InsertFile {
                id: file_id,
                name: name@,
                size: total_size as int,
                created_at: created_at as int,
                folder_id,
            }),
    {
        let import = FileImport {
            file_id,
            total_size,
            hasher: ContentHasher::new(),
            total_compressed: 0,
            chunk_index: 0,
            bytes_processed: 0,
        };
        let op = DbOp::InsertFile {
            id: file_id,
            name: name.to_string(),
            size: total_size,
            created_at,
            folder_id,
        };
        (import, op)
    }

    /// The identifier of the file.
    pub fn file_id(&self) -> (id: Uuid)
        ensures
            id == self@.file_id,
    {
        self.file_id
    }

    /// How much content was read so far.
    pub fn bytes_processed(&self) -> (n: usize)
        requires
            self.wf(),
        ensures
            n == self@.content.len(),
    {
        self.bytes_processed
    }

    /// The size that was announced for the file.
    pub fn total_size(&self) -> (n: usize)
        ensures
            n == self@.total_size,
    {
        self.total_size
    }

    /// Takes in the next block of content. An empty block is the end of the content.
    pub fn take_block(&mut self, block: &[u8]) -> (probe: Option<BlockProbe>)
        requires
            old(self).wf(),
            old(self)@.content.len() + block@.len() <= usize::MAX,
        ensures
            final(self).wf(),
            final(self)@ == took(old(self)@, block@),
            final(self)@.content == old(self)@.content + block@,
            final(self)@.file_id == old(self)@.file_id,
            final(self)@.total_size == old(self)@.total_size,
            final(self)@.blocks == old(self)@.blocks,
            final(self)@.compressed == old(self)@.compressed,
            probe is Some <==> block@.len() > 0,
            probe is Some ==> final(self).can_place(),
            probe matches Some(p) ==> {
                &&& p.hash@ == crate::digest::blake3_digest(block@)
                &&& p.lookup@ == block_lookup(p.hash@)
                &&& p.lookup.sql@ == "SELECT length(data) FROM chunks WHERE chunk_hash = ?1"@
                &&& p.lookup.params@.len() == 1
                &&& p.lookup.params@[0] matches SqlValue::Blob(b) && b@
                    == crate::digest::blake3_digest(block@)
            },
    {
        self.hasher.update(block);
        self.bytes_processed = self.bytes_processed + block.len();
        if block.len() == 0 {
            proof {
                assert(old(self)@.content + block@ =~= old(self)@.content);
            }
            return None;
        }
        let hash = digest_of(block);
        let lookup = statement1(SELECT_CHUNK_LENGTH, blob_value(hash.as_slice()));
        Some(BlockProbe { hash, lookup })
    }

    /// Places a block: its data, which is empty for one that is stored already, and the length of
    /// the stored data.
    pub fn place_block(&mut self, hash: &[u8], data: Vec<u8>, stored_len: usize) -> (ops: Vec<DbOp>)
        requires
            old(self).wf(),
            old(self).can_place(),
            old(self)@.compressed + stored_len <= usize::MAX,
        ensures
            final(self).wf(),
            final(self)@ == placed(old(self)@, stored_len as int),
            crate::changes::changes_of(ops@) == placement(
                old(self)@.file_id,
                old(self)@.blocks,
                hash@,
                data@,
            ),
            ({
                &&& final(self)@.blocks == old(self)@.blocks + 1
                &&& final(self)@.compressed == old(self)@.compressed + stored_len
                &&& final(self)@.content == old(self)@.content
                &&& final(self)@.file_id == old(self)@.file_id
                &&& final(self)@.total_size == old(self)@.total_size
                &&& ops@.len() == 2
                &&& ops@[0] matches DbOp::StoreChunk { hash: h, data: d } && h@ == hash@ && d@ == data@
                &&& ops@[1] matches DbOp::LinkChunk { file_id, index, hash: h } && file_id
                    == old(self)@.file_id && index == old(self)@.blocks && h@ == hash@
            }),
    {
        self.total_compressed = self.total_compressed + stored_len;
        let mut ops: Vec<DbOp> = Vec::new();
        ops.push(DbOp::StoreChunk { hash: vstd::slice::slice_to_vec(hash), data });
        ops.push(
            DbOp::LinkChunk {
                file_id: self.file_id,
                index: self.chunk_index,
                hash: vstd::slice::slice_to_vec(hash),
            },
        );
        proof {
            assert(crate::changes::changes_of(ops@) =~= placement(
                old(self)@.file_id,
                old(self)@.blocks,
                hash@,
                data@,
            ));
        }
        self.chunk_index = self.chunk_index + 1;
        ops
    }

    /// Places a block that was compressed, or says why that cannot be.
    pub fn store_packed(&mut self, hash: &[u8], packed: Result<Vec<u8>, String>) -> (res: Result<
        Vec<DbOp>,
        DbError,
    >)
        requires
            old(self).wf(),
            old(self).can_place(),
        ensures
            final(self).wf(),
            res is Err ==> *final(self) == *old(self),
            match packed {
                Err(text) => res == Err::<Vec<DbOp>, DbError>(DbError::Codec(text)),
                Ok(frame) => if old(self)@.compressed + frame@.len() > usize::MAX {
                    res == Err::<Vec<DbOp>, DbError>(DbError::SizeOverflow)
                } else {
                    &&& res is Ok
                    &&& final(self)@ == placed(old(self)@, frame@.len() as int)
                    &&& crate::changes::changes_of(res->Ok_0@) == placement(
                        old(self)@.file_id,
                        old(self)@.blocks,
                        hash@,
                        frame@,
                    )
                },
            },
            packed matches Ok(frame) ==> res is Ok ==> {
                &&& final(self)@.blocks == old(self)@.blocks + 1
                &&& final(self)@.compressed == old(self)@.compressed + frame@.len()
                &&& final(self)@.content == old(self)@.content
                &&& final(self)@.file_id == old(self)@.file_id
                &&& final(self)@.total_size == old(self)@.total_size
                &&& res->Ok_0@.len() == 2
                &&& res->Ok_0@[0] matches DbOp::StoreChunk { hash: h, data: d } && h@ == hash@ && d@ == frame@
                &&& res->Ok_0@[1] matches DbOp::LinkChunk { file_id, index, hash: h } && file_id
                    == old(self)@.file_id && index == old(self)@.blocks && h@ == hash@
            },
    {
        match packed {
            Err(text) => Err(DbError::Codec(text)),
            Ok(frame) => {
                if frame.len() > usize::MAX - self.total_compressed {
                    return Err(DbError::SizeOverflow);
                }
                let len: usize = frame.len();
                Ok(self.place_block(hash, frame, len))
            },
        }
    }

    /// Decides what to do with the block just taken in, from the row that its lookup gave. A block
    /// that is stored already is not compressed again. A block that is not is compressed, and what
    /// is stored decodes to the block.
    pub fn store_block(&mut self, block: &[u8], hash: &[u8], row: Option<&[Cell]>) -> (res: Result<
        Vec<DbOp>,
        DbError,
    >)
        requires
            old(self).wf(),
            old(self).can_place(),
        ensures
            final(self).wf(),
            res is Err ==> *final(self) == *old(self),
            match row {
                Some(cells) => match crate::sql::size_in(cells@, 0) {
                    Err(e) => res == Err::<Vec<DbOp>, DbError>(e),
                    Ok(len) => if old(self)@.compressed + len > usize::MAX {
                        res == Err::<Vec<DbOp>, DbError>(DbError::SizeOverflow)
                    } else {
                        &&& res is Ok
                        &&& final(self)@ == placed(old(self)@, len as int)
                        &&& crate::changes::changes_of(res->Ok_0@) == placement(
                            old(self)@.file_id,
                            old(self)@.blocks,
                            hash@,
                            Seq::empty(),
                        )
                    },
                },
                None => match crate::codec::zstd_encoded(block@, ZSTD_LEVEL) {
                    None => res is Err && res->Err_0 is Codec,
                    Some(frame) => if old(self)@.compressed + frame.len() > usize::MAX {
                        res == Err::<Vec<DbOp>, DbError>(DbError::SizeOverflow)
                    } else {
                        &&& res is Ok
                        &&& crate::codec::zstd_decoded(frame) == Some(block@)
                        &&& final(self)@ == placed(old(self)@, frame.len() as int)
                        &&& crate::changes::changes_of(res->Ok_0@) == placement(
                            old(self)@.file_id,
                            old(self)@.blocks,
                            hash@,
                            frame,
                        )
                    },
                },
            },
            row is None && res is Ok ==> exists|frame: Seq<u8>| #[trigger]
                crate::codec::zstd_decoded(frame) == Some(block@)
                    && crate::codec::zstd_encoded(block@, 3) == Some(frame) && {
                    &&& final(self)@.blocks == old(self)@.blocks + 1
                    &&& final(self)@.compressed == old(self)@.compressed + frame.len()
                    &&& final(self)@.content == old(self)@.content
                    &&& final(self)@.file_id == old(self)@.file_id
                    &&& final(self)@.total_size == old(self)@.total_size
                    &&& res->Ok_0@.len() == 2
                    &&& res->Ok_0@[0] matches DbOp::StoreChunk { hash: h, data: d } && h@ == hash@ && d@ == frame
                    &&& res->Ok_0@[1] matches DbOp::LinkChunk { file_id, index, hash: h } && file_id
                        == old(self)@.file_id && index == old(self)@.blocks && h@ == hash@
                },
            row matches Some(cells) ==> res is Ok ==> (cells@[0] matches Cell::Integer(len) && {
                &&& final(self)@.blocks == old(self)@.blocks + 1
                &&& final(self)@.compressed == old(self)@.compressed + len
                &&& final(self)@.content == old(self)@.content
                &&& final(self)@.file_id == old(self)@.file_id
                &&& final(self)@.total_size == old(self)@.total_size
                &&& res->Ok_0@.len() == 2
                &&& res->Ok_0@[0] matches DbOp::StoreChunk { hash: h, data: d } && h@ == hash@ && d@ == Seq::<u8>::empty()
                &&& res->Ok_0@[1] matches DbOp::LinkChunk { file_id, index, hash: h } && file_id
                    == old(self)@.file_id && index == old(self)@.blocks && h@ == hash@
            }),
    {
        match row {
            Some(cells) => {
                let len = read_size(cells, 0)?;
                if len > usize::MAX - self.total_compressed {
                    return Err(DbError::SizeOverflow);
                }
                Ok(self.place_block(hash, Vec::new(), len))
            },
            None => self.store_packed(hash, zstd_encode(block, ZSTD_LEVEL)),
        }
    }

    /// The changes that complete the file: its compressed size and the digest of its content are
    /// recorded, and it is counted in the totals of the archive.
    pub fn finish(&self) -> (ops: Vec<DbOp>)
        ensures
            crate::changes::changes_of(ops@) == completion(self@),
            ops@.len() == 2,
            ops@[0] matches DbOp::SealFile { id, compressed_size, checksum } && id == self@.file_id
                && compressed_size == self@.compressed && checksum@ == crate::digest::blake3_digest(
                self@.content,
            ),
            ops@[1] matches DbOp::CountFile { size, compressed_size } && size == self@.total_size
                && compressed_size == self@.compressed,
    {
        let mut ops: Vec<DbOp> = Vec::new();
        ops.push(
            DbOp::SealFile {
                id: self.file_id,
                compressed_size: self.total_compressed,
                checksum: vstd::slice::slice_to_vec(self.hasher.finish().as_slice()),
            },
        );
        ops.push(
            DbOp::CountFile { size: self.total_size, compressed_size: self.total_compressed },
        );
        proof {
            assert(crate::changes::changes_of(ops@) =~= completion(self@));
        }
        ops
    }
}

impl EncryptedDb {
    /// Begins the import of a file under a fresh random identifier. Its content then goes through
    /// the import block by block, all in one transaction.
    pub fn stream_insert_file(
        name: &str,
        total_size: usize,
        created_at: i64,
        folder_id: Option<Uuid>,
    ) -> (start: (FileImport, DbOp))
        ensures
            start.0.wf(),
            crate::ident::is_random_id(start.0@.file_id),
            start.0@ == begun(start.0@.file_id, total_size as int),
            start.0@.total_size == total_size,
            start.0@.content.len() == 0,
            start.0@.blocks == 0,
            start.0@.compressed == 0,
            start.1 matches DbOp::InsertFile { id, name: n, size, created_at: c, folder_id: f } && id
                == start.0@.file_id && n@ == name@ && size == total_size && c == created_at && f
                == folder_id,
            start.1@ == (crate::changes::Change::InsertFile {
                id: start.0@.file_id,
                name: name@,
                size: total_size as int,
                created_at: created_at as int,
                folder_id,
            }),
    {
        FileImport::begin(Uuid::new_v4(), name, total_size, created_at, folder_id)
    }
}

} // verus!
