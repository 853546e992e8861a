//! Reading a file back: its export, its preview and the check of its content.
use crate::changes::id_value;
use crate::codec::zstd_decode;
use crate::db::{EncryptedDb, SELECT_ALL_CHECKSUMS, SELECT_FILE_CHUNKS};
use crate::digest::{same_bytes, ContentHasher};
use crate::ident::Uuid;
use crate::sql::{
    read_blob, read_text, statement0, statement1, Bound, Cell, DbError, SqlValue, Statement,
    StatementView,
};
use vstd::prelude::*;

verus! {

/// The query for the blocks of a file, in order.
pub open spec fn blocks_query(file_id: Uuid) -> StatementView {
    StatementView { sql: SELECT_FILE_CHUNKS@, params: seq![Bound::Blob(file_id.bytes@)] }
}

/// The content of the block in a row, if the row holds one and it is sound.
pub open spec fn block_in(row: Seq<Cell>) -> Option<Seq<u8>> {
    match crate::sql::blob_in(row, 0) {
        Ok(frames) => crate::codec::zstd_decoded(frames),
        Err(_) => None,
    }
}

/// The content seen after one more row: nothing once a block was not there or unsound.
pub open spec fn seen_on(seen: Option<Seq<u8>>, row: Seq<Cell>) -> Option<Seq<u8>> {
    match (seen, block_in(row)) {
        (Some(front), Some(raw)) => Some(front + raw),
        _ => None,
    }
}

/// What some rows of blocks give when they are read one after the other, as an export writes it and
/// a check sees it; nothing where a row has no block or one that is unsound.
pub open spec fn read_back(rows: Seq<Vec<Cell>>) -> Option<Seq<u8>>
    decreases rows.len(),
{
    if rows.len() == 0 {
        Some(Seq::empty())
    } else {
        seen_on(read_back(rows.drop_last()), rows.last()@)
    }
}

/// Reads and decompresses the block in a row. A fault of the row is told from one of the block.
pub fn read_block(row: &[Cell]) -> (res: Result<Vec<u8>, DbError>)
    ensures
        match crate::sql::blob_in(row@, 0) {
            Err(e) => res == Err::<Vec<u8>, DbError>(e),
            Ok(frames) => match res {
                Ok(raw) => crate::codec::zstd_decoded(frames) == Some(raw@),
                Err(e) => crate::codec::zstd_decoded(frames) is None && e is Codec,
            },
        },
        row@.len() > 0 ==> (row@[0] matches Cell::Blob(b) ==> match crate::codec::zstd_decoded(b@) {
            Some(content) => res is Ok && res->Ok_0@ == content,
            None => res is Err,
        }),
        res is Ok ==> row@.len() > 0 && row@[0] is Blob,
{
    let frames = read_blob(row, 0)?;
    match zstd_decode(frames.as_slice()) {
        Ok(raw) => Ok(raw),
        Err(text) => Err(DbError::Codec(text)),
    }
}

/// The export of one file.
pub struct FileExport {
    total_size: usize,
    bytes_processed: usize,
}

/// An export as a mathematical value: the size that was announced, and how much was written.
pub struct ExportView {
    pub total_size: int,
    pub written: int,
}

/// An export of which nothing is written yet.
pub open spec fn export_begun(total_size: int) -> ExportView {
    ExportView { total_size, written: 0 }
}

/// An export that wrote one more piece.
pub open spec fn wrote(export: ExportView, len: int) -> ExportView {
    ExportView { written: export.written + len, ..export }
}

impl View for FileExport {
    type V = ExportView;

    closed spec fn view(&self) -> ExportView {
        ExportView { total_size: self.total_size as int, written: self.bytes_processed as int }
    }
}

impl FileExport {
    /// An export of which nothing is written yet.
    pub fn begin(total_size: usize) -> (export: FileExport)
        ensures
            export@ == export_begun(total_size as int),
            export@.total_size == total_size,
            export@.written == 0,
    {
        FileExport { total_size, bytes_processed: 0 }
    }

    /// How much was written.
    pub fn bytes_processed(&self) -> (n: usize)
        ensures
            n == self@.written,
    {
        self.bytes_processed
    }

    /// The size that was announced.
    pub fn total_size(&self) -> (n: usize)
        ensures
            n == self@.total_size,
    {
        self.total_size
    }

    /// Counts a piece that was written.
    pub fn advance(&mut self, written: usize)
        requires
            old(self)@.written + written <= usize::MAX,
        ensures
            final(self)@ == wrote(old(self)@, written as int),
            final(self)@.written == old(self)@.written + written,
            final(self)@.total_size == old(self)@.total_size,
    {
        self.bytes_processed = self.bytes_processed + written;
    }

    /// Decompresses the block in the next row, to be written next, and counts it.
    pub fn next_block(&mut self, row: &[Cell]) -> (res: Result<Vec<u8>, DbError>)
        ensures
            res is Err ==> *final(self) == *old(self),
            match crate::sql::blob_in(row@, 0) {
                Err(e) => res == Err::<Vec<u8>, DbError>(e),
                Ok(frames) => match crate::codec::zstd_decoded(frames) {
                    None => res is Err && res->Err_0 is Codec,
                    Some(raw) => if old(self)@.written + raw.len() > usize::MAX {
                        res == Err::<Vec<u8>, DbError>(DbError::SizeOverflow)
                    } else {
                        &&& res is Ok
                        &&& res->Ok_0@ == raw
                        &&& final(self)@ == wrote(old(self)@, raw.len() as int)
                    },
                },
            },
            res matches Ok(raw) ==> {
                &&& row@[0] matches Cell::Blob(b) && crate::codec::zstd_decoded(b@) == Some(raw@)
                &&& final(self)@.written == old(self)@.written + raw@.len()
                &&& final(self)@.total_size == old(self)@.total_size
            },
    {
        let raw = read_block(row)?;
        if raw.len() > usize::MAX - self.bytes_processed {
            return Err(DbError::SizeOverflow);
        }
        self.advance(raw.len());
        Ok(raw)
    }
}

/// The front of a file, for a preview.
pub struct FilePreview {
    max_bytes: usize,
    collected: Vec<u8>,
}

/// The first bytes of some content, at most so many.
pub open spec fn front_of(content: Seq<u8>, max_bytes: int) -> Seq<u8> {
    if content.len() >= max_bytes {
        content.subrange(0, max_bytes)
    } else {
        content
    }
}

impl View for FilePreview {
    type V = Seq<u8>;

    /// The bytes collected so far.
    closed spec fn view(&self) -> Seq<u8> {
        self.collected@
    }
}

impl FilePreview {
    /// How many bytes the preview holds at most.
    pub closed spec fn limit(&self) -> int {
        self.max_bytes as int
    }

    /// A preview that holds nothing yet.
    pub fn begin(max_bytes: usize) -> (preview: FilePreview)
        ensures
            preview@ == Seq::<u8>::empty(),
            preview.limit() == max_bytes,
    {
        FilePreview { max_bytes, collected: Vec::new() }
    }

    /// Puts a piece behind what was collected, and cuts the whole to the limit. Tells whether the
    /// preview is full.
    pub fn collect(&mut self, raw: &[u8]) -> (full: bool)
        ensures
            full == ((old(self)@ + raw@).len() >= old(self).limit()),
            final(self)@ == front_of(old(self)@ + raw@, old(self).limit()),
            final(self)@ == (old(self)@ + raw@).subrange(
                0,
                if (old(self)@ + raw@).len() < old(self).limit() {
                    (old(self)@ + raw@).len() as int
                } else {
                    old(self).limit()
                },
            ),
            final(self).limit() == old(self).limit(),
    {
        self.collected.extend_from_slice(raw);
        if self.collected.len() >= self.max_bytes {
            self.collected.truncate(self.max_bytes);
            true
        } else {
            false
        }
    }

    /// Collects the block in the next row. Tells whether the preview is full.
    pub fn next_block(&mut self, row: &[Cell]) -> (res: Result<bool, DbError>)
        ensures
            res is Err ==> *final(self) == *old(self),
            final(self).limit() == old(self).limit(),
            match crate::sql::blob_in(row@, 0) {
                Err(e) => res == Err::<bool, DbError>(e),
                Ok(frames) => match crate::codec::zstd_decoded(frames) {
                    None => res is Err && res->Err_0 is Codec,
                    Some(raw) => {
                        &&& res == Ok::<bool, DbError>(
                            (old(self)@ + raw).len() >= old(self).limit(),
                        )
                        &&& final(self)@ == front_of(old(self)@ + raw, old(self).limit())
                    },
                },
            },
            res matches Ok(full) ==> (row@[0] matches Cell::Blob(b) && (crate::codec::zstd_decoded(
                b@,
            ) matches Some(raw) && full == ((old(self)@ + raw).len() >= old(self).limit())
                && final(self)@ == (old(self)@ + raw).subrange(
                0,
                if (old(self)@ + raw).len() < old(self).limit() {
                    (old(self)@ + raw).len() as int
                } else {
                    old(self).limit()
                },
            ))),
    {
        let raw = read_block(row)?;
        Ok(self.collect(raw.as_slice()))
    }

    /// The bytes collected.
    pub fn into_bytes(self) -> (bytes: Vec<u8>)
        ensures
            bytes@ == self@,
    {
        self.collected
    }
}

/// A file whose content is to be checked.
#[derive(Debug)]
pub struct CheckItem {
    pub id: Uuid,
    pub name: String,
    pub checksum: Vec<u8>,
}

/// A file to be checked as a mathematical value.
pub struct CheckView {
    pub id: Seq<u8>,
    pub name: Seq<char>,
    pub checksum: Seq<u8>,
}

impl View for CheckItem {
    type V = CheckView;

    open spec fn view(&self) -> CheckView {
        CheckView { id: self.id.bytes@, name: self.name@, checksum: self.checksum@ }
    }
}

/// The views of some files to be checked.
pub open spec fn check_views(items: Seq<CheckItem>) -> Seq<CheckView> {
    Seq::new(items.len(), |i: int| items[i]@)
}

/// The file in a row of identifier, name and checksum.
pub open spec fn check_in(row: Seq<Cell>) -> Result<CheckView, DbError> {
    match crate::sql::blob_in(row, 0) {
        Err(e) => Err(e),
        Ok(id) => match crate::sql::blob_in(row, 2) {
            Err(e) => Err(e),
            Ok(checksum) => match crate::sql::text_in(row, 1) {
                Err(e) => Err(e),
                Ok(name) => Ok(CheckView { id: crate::db::id_from(id), name, checksum }),
            },
        },
    }
}

/// The files in some rows, those rows left out that do not read.
pub open spec fn checks_in(rows: Seq<Vec<Cell>>) -> Seq<CheckView>
    decreases rows.len(),
{
    if rows.len() == 0 {
        Seq::empty()
    } else {
        match check_in(rows.last()@) {
            Ok(item) => checks_in(rows.drop_last()).push(item),
            Err(_) => checks_in(rows.drop_last()),
        }
    }
}

/// Reads a file to be checked from its row.
pub fn parse_check(row: &[Cell]) -> (res: Result<CheckItem, DbError>)
    ensures
        match res {
            Ok(item) => check_in(row@) == Ok::<CheckView, DbError>(item@),
            Err(e) => check_in(row@) == Err::<CheckView, DbError>(e),
        },
        res matches Ok(item) ==> {
            &&& row@.len() >= 3
            &&& row@[0] matches Cell::Blob(b) && item.id.bytes@ == (if b@.len() == 16 {
                    b@
                } else {
                    Seq::new(16, |i: int| 0u8)
                })
            &&& row@[1] matches Cell::Text(b) && vstd::utf8::encode_utf8(item.name@) == b@
            &&& row@[2] matches Cell::Blob(b) && item.checksum@ == b@
        },
        res is Err ==> row@.len() < 3 || !(row@[0] is Blob) || !(row@[2] is Blob) || !(
        row@[1] matches Cell::Text(b) && vstd::utf8::valid_utf8(b@)),
{
    let id_bytes = match read_blob(row, 0) {
        Ok(b) => b,
        Err(e) => return Err(e),
    };
    let checksum = match read_blob(row, 2) {
        Ok(b) => b,
        Err(e) => return Err(e),
    };
    let name = match read_text(row, 1) {
        Ok(t) => t,
        Err(e) => return Err(e),
    };
    Ok(CheckItem { id: Uuid::from_slice_or_nil(id_bytes.as_slice()), name, checksum })
}

/// Reads the files to be checked from their rows, and leaves out the rows that do not read.
pub fn parse_checks(rows: &[Vec<Cell>]) -> (items: Vec<CheckItem>)
    ensures
        check_views(items@) == checks_in(rows@),
        items@.len() == checks_in(rows@).len(),
        forall|i: int|
            0 <= i < items@.len() ==> {
                &&& (#[trigger] items@[i]).id.bytes@ == checks_in(rows@)[i].id
                &&& items@[i].name@ == checks_in(rows@)[i].name
                &&& items@[i].checksum@ == checks_in(rows@)[i].checksum
            },
{
    let mut items: Vec<CheckItem> = Vec::new();
    let mut i: usize = 0;
    proof {
        assert(check_views(items@) =~= Seq::empty());
    }
    while i < rows.len()
        invariant
            i <= rows@.len(),
            check_views(items@) == checks_in(rows@.subrange(0, i as int)),
        decreases rows.len() - i,
    {
        proof {
            assert(rows@.subrange(0, i + 1).drop_last() =~= rows@.subrange(0, i as int));
        }
        match parse_check(rows[i].as_slice()) {
            Ok(item) => {
                let ghost before = check_views(items@);
                items.push(item);
                proof {
                    assert(check_views(items@) =~= before.push(item@));
                }
            },
            Err(_) => {},
        }
        i += 1;
    }
    proof {
        assert(rows@.subrange(0, i as int) =~= rows@);
        assert forall|i: int| 0 <= i < items@.len() implies {
            &&& (#[trigger] items@[i]).id.bytes@ == checks_in(rows@)[i].id
            &&& items@[i].name@ == checks_in(rows@)[i].name
            &&& items@[i].checksum@ == checks_in(rows@)[i].checksum
        } by {
            assert(check_views(items@)[i] == items@[i]@);
        }
    }
    items
}

/// Whether all content was seen and has a checksum.
pub open spec fn sound_content(seen: Option<Seq<u8>>, checksum: Seq<u8>) -> bool {
    seen matches Some(content) && crate::digest::blake3_digest(content) == checksum
}

/// The check of the content of one file.
pub struct IntegrityCheck {
    hasher: ContentHasher,
    valid: bool,
}

impl View for IntegrityCheck {
    type V = Option<Seq<u8>>;

    /// The content seen so far, or nothing once a block was found unsound.
    closed spec fn view(&self) -> Option<Seq<u8>> {
        if self.valid {
            Some(self.hasher@)
        } else {
            None
        }
    }
}

impl IntegrityCheck {
    /// A check that has seen no content.
    pub fn begin() -> (check: IntegrityCheck)
        ensures
            check@ == Some(Seq::<u8>::empty()),
    {
        IntegrityCheck { hasher: ContentHasher::new(), valid: true }
    }

    /// Takes in the block in the next row. Tells whether the check goes on; a row without a block
    /// is an error, a block that is unsound ends the check.
    pub fn next_block(&mut self, row: &[Cell]) -> (res: Result<bool, DbError>)
        requires
            old(self)@ is Some,
        ensures
            res is Err ==> *final(self) == *old(self),
            match crate::sql::blob_in(row@, 0) {
                Err(e) => res == Err::<bool, DbError>(e),
                Ok(_) => {
                    &&& res == Ok::<bool, DbError>(block_in(row@) is Some)
                    &&& final(self)@ == seen_on(old(self)@, row@)
                },
            },
            res matches Ok(sound) ==> (row@[0] matches Cell::Blob(b) && match crate::codec::zstd_decoded(
                b@,
            ) {
                Some(raw) => sound && final(self)@ == Some(old(self)@->Some_0 + raw),
                None => !sound && final(self)@ is None,
            }),
    {
        match read_block(row) {
            Ok(raw) => {
                self.hasher.update(raw.as_slice());
                Ok(true)
            },
            Err(DbError::Codec(_)) => {
                self.valid = false;
                Ok(false)
            },
            Err(e) => Err(e),
        }
    }

    /// Whether the file is as it was stored: every block was sound, and the digest of the content
    /// is the checksum.
    pub fn verdict(&self, checksum: &[u8]) -> (passed: bool)
        ensures
            passed == sound_content(self@, checksum@),
            passed <==> (self@ matches Some(content) && crate::digest::blake3_digest(content)
                == checksum@),
    {
        if self.valid {
            same_bytes(self.hasher.finish().as_slice(), checksum)
        } else {
            false
        }
    }
}

/// The check of a whole archive, file by file.
pub struct ArchiveCheck {
    items: Vec<CheckItem>,
    results: Vec<(String, bool)>,
}

/// The check of an archive as a mathematical value: the files to be checked, and for those that were
/// the name with the verdict.
#[verifier::ext_equal]
pub struct ArchiveCheckView {
    pub items: Seq<CheckView>,
    pub results: Seq<(Seq<char>, bool)>,
}

/// The names and verdicts of some checks.
pub open spec fn result_views(results: Seq<(String, bool)>) -> Seq<(Seq<char>, bool)> {
    Seq::new(results.len(), |i: int| (results[i].0@, results[i].1))
}

impl View for ArchiveCheck {
    type V = ArchiveCheckView;

    closed spec fn view(&self) -> ArchiveCheckView {
        ArchiveCheckView {
            items: check_views(self.items@),
            results: result_views(self.results@),
        }
    }
}

/// The check of an archive before any file was checked.
pub open spec fn check_begun(rows: Seq<Vec<Cell>>) -> ArchiveCheckView {
    ArchiveCheckView { items: checks_in(rows), results: Seq::empty() }
}

/// The check of an archive after one more file was: its name is put down with the verdict on what was
/// seen of it.
pub open spec fn check_recorded(
    check: ArchiveCheckView,
    seen: Option<Seq<u8>>,
) -> ArchiveCheckView {
    let item = check.items[check.results.len() as int];
    ArchiveCheckView {
        results: check.results.push((item.name, sound_content(seen, item.checksum))),
        ..check
    }
}

/// The file to be checked next: which it is, by number from one, of how many, with its identifier and
/// name.
#[derive(Debug)]
pub struct NextCheck {
    pub current: usize,
    pub total: usize,
    pub id: Uuid,
    pub name: String,
}

impl ArchiveCheck {
    /// A check of the files in some rows.
    pub fn begin(rows: &[Vec<Cell>]) -> (check: ArchiveCheck)
        ensures
            check@ == check_begun(rows@),
            check@.items == checks_in(rows@),
            check@.results.len() == 0,
    {
        let check = ArchiveCheck { items: parse_checks(rows), results: Vec::new() };
        proof {
            assert(check@ =~= check_begun(rows@));
        }
        check
    }

    /// The file to be checked next, if any is left.
    pub fn next_file(&self) -> (next: Option<NextCheck>)
        ensures
            next is Some <==> self@.results.len() < self@.items.len(),
            next matches Some(n) ==> {
                &&& n.current == self@.results.len() + 1
                &&& n.total == self@.items.len()
                &&& n.id.bytes@ == self@.items[self@.results.len() as int].id
                &&& n.name@ == self@.items[self@.results.len() as int].name
            },
    {
        if self.results.len() < self.items.len() {
            let item = &self.items[self.results.len()];
            Some(
                NextCheck {
                    current: self.results.len() + 1,
                    total: self.items.len(),
                    id: item.id,
                    name: item.name.as_str().to_string(),
                },
            )
        } else {
            None
        }
    }

    /// Puts down the verdict on the file that was checked.
    pub fn record(&mut self, check: &IntegrityCheck)
        requires
            old(self)@.results.len() < old(self)@.items.len(),
        ensures
            final(self)@ == check_recorded(old(self)@, check@),
            final(self)@.items == old(self)@.items,
            ({
                let item = old(self)@.items[old(self)@.results.len() as int];
                final(self)@.results == old(self)@.results.push(
                    (
                        item.name,
                        check@ matches Some(content) && crate::digest::blake3_digest(content)
                            == item.checksum,
                    ),
                )
            }),
    {
        let item = &self.items[self.results.len()];
        let passed = check.verdict(item.checksum.as_slice());
        let name = item.name.as_str().to_string();
        self.results.push((name, passed));
        proof {
            assert(self@ =~= check_recorded(old(self)@, check@));
        }
    }

    /// The names and verdicts, in the order of the files.
    pub fn into_results(self) -> (results: Vec<(String, bool)>)
        ensures
            result_views(results@) == self@.results,
            results@.len() == self@.results.len(),
            forall|i: int|
                0 <= i < results@.len() ==> (#[trigger] results@[i]).0@ == self@.results[i].0
                    && results@[i].1 == self@.results[i].1,
    {
        self.results
    }
}

impl EncryptedDb {
    /// The query whose rows, in order, are the blocks of a file to be exported.
    pub fn stream_export_file(file_id: Uuid) -> (statement: Statement)
        ensures
            statement@ == blocks_query(file_id),
            statement.sql@
                == "SELECT c.data FROM file_chunks fc JOIN chunks c ON fc.chunk_hash = c.chunk_hash WHERE fc.file_id = ?1 ORDER BY fc.chunk_index ASC"@,
            statement.params@.len() == 1,
            statement.params@[0] matches SqlValue::Blob(b) && b@ == file_id.bytes@,
    {
        statement1(SELECT_FILE_CHUNKS, id_value(&file_id))
    }

    /// The query whose rows, in order, are the blocks of a file to be previewed.
    pub fn load_file_preview_bytes(file_id: Uuid) -> (statement: Statement)
        ensures
            statement@ == blocks_query(file_id),
            statement.sql@
                == "SELECT c.data FROM file_chunks fc JOIN chunks c ON fc.chunk_hash = c.chunk_hash WHERE fc.file_id = ?1 ORDER BY fc.chunk_index ASC"@,
            statement.params@.len() == 1,
            statement.params@[0] matches SqlValue::Blob(b) && b@ == file_id.bytes@,
    {
        statement1(SELECT_FILE_CHUNKS, id_value(&file_id))
    }

    /// The query for the files to be checked.
    pub fn verify_integrity() -> (statement: Statement)
        ensures
            statement@ == (StatementView { sql: SELECT_ALL_CHECKSUMS@, params: seq![] }),
            statement.sql@ == "SELECT id, name, checksum FROM files"@,
            statement.params@.len() == 0,
    {
        statement0(SELECT_ALL_CHECKSUMS)
    }
}

/// No row that reads is left out of a check, and none is put in its place: where all rows read, the
/// files to be checked are those of the rows, one for each and in their order.
pub proof fn law_every_row_is_checked(rows: Seq<Vec<Cell>>)
    ensures
        checks_in(rows).len() <= rows.len(),
        forall|i: int, item: CheckView|
            0 <= i < rows.len() && check_in(#[trigger] rows[i]@) == Ok::<CheckView, DbError>(item)
                ==> #[trigger] checks_in(rows).contains(item),
        (forall|i: int| 0 <= i < rows.len() ==> check_in(#[trigger] rows[i]@) is Ok) ==> {
            &&& checks_in(rows).len() == rows.len()
            &&& forall|i: int|
                0 <= i < rows.len() ==> check_in(#[trigger] rows[i]@) == Ok::<CheckView, DbError>(
                    checks_in(rows)[i],
                )
        },
    decreases rows.len(),
{
    if rows.len() > 0 {
        let front = rows.drop_last();
        law_every_row_is_checked(front);
        let last = rows.len() - 1;
        assert(rows.last() == rows[last]);
        assert forall|i: int| 0 <= i < last implies #[trigger] rows[i] == front[i] by {}
        assert forall|i: int, item: CheckView|
            0 <= i < rows.len() && check_in(#[trigger] rows[i]@) == Ok::<CheckView, DbError>(
                item,
            ) implies #[trigger] checks_in(rows).contains(item) by {
            if i < last {
                assert(check_in(front[i]@) == Ok::<CheckView, DbError>(item));
                assert(checks_in(front).contains(item));
                let j = choose|j: int|
                    0 <= j < checks_in(front).len() && checks_in(front)[j] == item;
                assert(checks_in(rows)[j] == item);
            } else {
                assert(checks_in(rows)[checks_in(front).len() as int] == item);
            }
        }
        if forall|i: int| 0 <= i < rows.len() ==> check_in(#[trigger] rows[i]@) is Ok {
            assert forall|i: int| 0 <= i < front.len() implies check_in(
                #[trigger] front[i]@,
            ) is Ok by {
                assert(check_in(rows[i]@) is Ok);
            }
            assert forall|i: int| 0 <= i < rows.len() implies check_in(#[trigger] rows[i]@)
                == Ok::<CheckView, DbError>(checks_in(rows)[i]) by {
                if i < last {
                    assert(check_in(front[i]@) == Ok::<CheckView, DbError>(checks_in(front)[i]));
                }
            }
        }
    }
}

/// What is read back of some rows is what each of them decompresses to, one behind the other: a row
/// more adds its content at the end, and a row that does not decompress spoils the whole.
pub proof fn law_read_back_row_by_row(rows: Seq<Vec<Cell>>, row: Vec<Cell>)
    ensures
        read_back(Seq::empty()) == Some(Seq::<u8>::empty()),
        match (read_back(rows), row@) {
            (Some(front), cells) => cells.len() > 0 ==> (cells[0] matches Cell::Blob(b)
                ==> read_back(rows.push(row)) == match crate::codec::zstd_decoded(b@) {
                Some(raw) => Some(front + raw),
                None => None,
            }),
            (None, _) => read_back(rows.push(row)) is None,
        },
        row@.len() == 0 || !(row@[0] is Blob) ==> read_back(rows.push(row)) is None,
{
    assert(rows.push(row).drop_last() =~= rows);
    assert(rows.push(row).last() == row);
}

/// The files to be checked of some rows, one behind the other, are those of the one part and then those
/// of the other; a row that reads is one file, and one that does not is none.
pub proof fn law_checks_go_row_by_row(rows: Seq<Vec<Cell>>, more: Seq<Vec<Cell>>, row: Vec<Cell>)
    ensures
        checks_in(rows + more) == checks_in(rows) + checks_in(more),
        match check_in(row@) {
            Ok(item) => checks_in(seq![row]) == seq![item],
            Err(_) => checks_in(seq![row]).len() == 0,
        },
    decreases more.len(),
{
    assert(seq![row].drop_last() =~= Seq::empty());
    assert(checks_in(seq![row].drop_last()) =~= Seq::<CheckView>::empty());
    if let Ok(item) = check_in(row@) {
        assert(checks_in(seq![row]) =~= seq![item]);
    }
    if more.len() == 0 {
        assert(rows + more =~= rows);
        assert(checks_in(rows) + checks_in(more) =~= checks_in(rows));
    } else {
        let front = more.drop_last();
        law_checks_go_row_by_row(rows, front, row);
        assert((rows + more).drop_last() =~= rows + front);
        assert((rows + more).last() == more.last());
        assert(checks_in(rows + more) =~= checks_in(rows) + checks_in(more));
    }
}

} // verus!
