//! What the tables of an archive hold, and what each change does to them.
use crate::changes::Change;
use crate::ident::Uuid;
use vstd::prelude::*;

verus! {

/// A row of the table of folders.
pub struct FolderRow {
    pub name: Seq<char>,
    pub parent_id: Option<Uuid>,
}

/// A row of the table of files.
pub struct FileRow {
    pub name: Seq<char>,
    pub size: int,
    pub compressed_size: int,
    pub created_at: int,
    pub folder_id: Option<Uuid>,
    pub checksum: Seq<u8>,
}

/// A row of the table of blocks.
pub struct ChunkRow {
    pub data: Seq<u8>,
    pub refs: int,
}

/// The row of totals.
pub struct Totals {
    pub files: int,
    pub bytes: int,
    pub compressed: int,
}

/// The tables of an archive. A link says which block is at a place in a file.
#[verifier::ext_equal]
pub struct Tables {
    pub folders: Map<Uuid, FolderRow>,
    pub files: Map<Uuid, FileRow>,
    pub chunks: Map<Seq<u8>, ChunkRow>,
    pub links: Map<(Uuid, int), Seq<u8>>,
    pub totals: Totals,
}

/// Whether a file has a link to a block.
pub open spec fn uses(t: Tables, file_id: Uuid, hash: Seq<u8>) -> bool {
    exists|i: int| #[trigger] t.links.contains_key((file_id, i)) && t.links[(file_id, i)] == hash
}

/// Whether a list of folders leads from one to another, each the parent of the next.
pub open spec fn descent(t: Tables, path: Seq<Uuid>, from: Uuid, to: Uuid) -> bool {
    &&& path.len() >= 1
    &&& path[0] == from
    &&& path.last() == to
    &&& forall|i: int| 0 <= i < path.len() ==> t.folders.contains_key(#[trigger] path[i])
    &&& forall|i: int|
        1 <= i < path.len() ==> (#[trigger] t.folders[path[i]]).parent_id == Some(path[i - 1])
}

/// Whether a folder is another one or below it.
pub open spec fn in_tree(t: Tables, root: Uuid, folder: Uuid) -> bool {
    exists|path: Seq<Uuid>| descent(t, path, root, folder)
}

/// Whether a file is in a folder or below it.
pub open spec fn file_in_tree(t: Tables, root: Uuid, file_id: Uuid) -> bool {
    t.files.contains_key(file_id) && (t.files[file_id].folder_id matches Some(f) && in_tree(
        t,
        root,
        f,
    ))
}

/// What is counted of a file.
pub enum Measure {
    Files,
    Bytes,
    Compressed,
}

/// How much a file counts.
pub open spec fn measure(m: Measure, row: FileRow) -> int {
    match m {
        Measure::Files => 1,
        Measure::Bytes => row.size,
        Measure::Compressed => row.compressed_size,
    }
}

/// How much some files count together.
pub open spec fn total(m: Measure, files: Map<Uuid, FileRow>) -> int
    decreases files.dom().len(),
{
    if !files.dom().finite() || files.dom().is_empty() {
        0
    } else {
        let id = files.dom().choose();
        measure(m, files[id]) + total(m, files.remove(id))
    }
}

/// The files in a folder and below it.
pub open spec fn files_in_tree(t: Tables, root: Uuid) -> Map<Uuid, FileRow> {
    Map::new(|id: Uuid| file_in_tree(t, root, id), |id: Uuid| t.files[id])
}

/// The files that are neither in a folder nor below it.
pub open spec fn files_outside_tree(t: Tables, root: Uuid) -> Map<Uuid, FileRow> {
    Map::new(
        |id: Uuid| t.files.contains_key(id) && !file_in_tree(t, root, id),
        |id: Uuid| t.files[id],
    )
}

/// The blocks with one reference less for each that is in a set.
pub open spec fn released(
    chunks: Map<Seq<u8>, ChunkRow>,
    hashes: spec_fn(Seq<u8>) -> bool,
) -> Map<Seq<u8>, ChunkRow> {
    Map::new(
        |h: Seq<u8>| chunks.contains_key(h),
        |h: Seq<u8>|
            if hashes(h) {
                ChunkRow { refs: chunks[h].refs - 1, ..chunks[h] }
            } else {
                chunks[h]
            },
    )
}

/// The blocks with references.
pub open spec fn referenced(chunks: Map<Seq<u8>, ChunkRow>) -> Map<Seq<u8>, ChunkRow> {
    Map::new(|h: Seq<u8>| chunks.contains_key(h) && chunks[h].refs > 0, |h: Seq<u8>| chunks[h])
}

/// The links of the files that remain.
pub open spec fn links_among(
    links: Map<(Uuid, int), Seq<u8>>,
    files: Map<Uuid, FileRow>,
) -> Map<(Uuid, int), Seq<u8>> {
    Map::new(
        |k: (Uuid, int)| links.contains_key(k) && files.contains_key(k.0),
        |k: (Uuid, int)| links[k],
    )
}

/// The tables after a change, or nothing where a constraint of the schema refuses it: a key that is
/// taken, or a reference to a row that is not there or is about to go. This is a reading of the
/// change's SQL. That the database does what is read here is not proved; the tests run the statements
/// on a real one.
pub open spec fn effect(t: Tables, change: Change) -> Option<Tables> {
    match change {
        Change::InsertFolder { id, name, parent_id } => {
            let row = FolderRow { name, parent_id };
            if t.folders.contains_key(id) || (parent_id matches Some(p) && p != id
                && !t.folders.contains_key(p)) {
                None
            } else {
                Some(Tables { folders: t.folders.insert(id, row), ..t })
            }
        },
        Change::InsertFile { id, name, size, created_at, folder_id } => {
            let row = FileRow {
                name,
                size,
                compressed_size: 0,
                created_at,
                folder_id,
                checksum: Seq::empty(),
            };
            if t.files.contains_key(id) || (folder_id matches Some(f) && !t.folders.contains_key(
                f,
            )) {
                None
            } else {
                Some(Tables { files: t.files.insert(id, row), ..t })
            }
        },
        Change::StoreChunk { hash, data } => {
            let row = if t.chunks.contains_key(hash) {
                ChunkRow { refs: t.chunks[hash].refs + 1, ..t.chunks[hash] }
            } else {
                ChunkRow { data, refs: 1 }
            };
            Some(Tables { chunks: t.chunks.insert(hash, row), ..t })
        },
        Change::LinkChunk { file_id, index, hash } => if t.links.contains_key((file_id, index))
            || !t.files.contains_key(file_id) || !t.chunks.contains_key(hash) {
            None
        } else {
            Some(Tables { links: t.links.insert((file_id, index), hash), ..t })
        },
        Change::SealFile { id, compressed_size, checksum } => if t.files.contains_key(id) {
            let row = FileRow { compressed_size, checksum, ..t.files[id] };
            Some(Tables { files: t.files.insert(id, row), ..t })
        } else {
            Some(t)
        },
        Change::CountFile { size, compressed_size } => Some(
            Tables {
                totals: Totals {
                    files: t.totals.files + 1,
                    bytes: t.totals.bytes + size,
                    compressed: t.totals.compressed + compressed_size,
                },
                ..t
            },
        ),
        Change::RenameFolder { id, name } => if t.folders.contains_key(id) {
            let row = FolderRow { name, ..t.folders[id] };
            Some(Tables { folders: t.folders.insert(id, row), ..t })
        } else {
            Some(t)
        },
        Change::RenameFile { id, name } => if t.files.contains_key(id) {
            let row = FileRow { name, ..t.files[id] };
            Some(Tables { files: t.files.insert(id, row), ..t })
        } else {
            Some(t)
        },
        Change::ReleaseFileChunks { file_id } => Some(
            Tables { chunks: released(t.chunks, |h: Seq<u8>| uses(t, file_id, h)), ..t },
        ),
        Change::DropUnreferencedChunks => if exists|k: (Uuid, int)| #[trigger]
            t.links.contains_key(k) && t.chunks.contains_key(t.links[k])
                && t.chunks[t.links[k]].refs <= 0 {
            None
        } else {
            Some(Tables { chunks: referenced(t.chunks), ..t })
        },
        Change::DeleteFile { id } => {
            let files = t.files.remove(id);
            Some(Tables { files, links: links_among(t.links, files), ..t })
        },
        Change::UncountFile { size, compressed_size } => Some(
            Tables {
                totals: Totals {
                    files: t.totals.files - 1,
                    bytes: t.totals.bytes - size,
                    compressed: t.totals.compressed - compressed_size,
                },
                ..t
            },
        ),
        Change::UncountFolder { id } => {
            let gone = files_in_tree(t, id);
            Some(
                Tables {
                    totals: Totals {
                        files: t.totals.files - total(Measure::Files, gone),
                        bytes: t.totals.bytes - total(Measure::Bytes, gone),
                        compressed: t.totals.compressed - total(Measure::Compressed, gone),
                    },
                    ..t
                },
            )
        },
        Change::ReleaseFolderChunks { id } => Some(
            Tables {
                chunks: released(
                    t.chunks,
                    |h: Seq<u8>| exists|f: Uuid| file_in_tree(t, id, f) && #[trigger] uses(t, f, h),
                ),
                ..t
            },
        ),
        Change::DeleteFolder { id } => {
            let files = files_outside_tree(t, id);
            Some(
                Tables {
                    folders: Map::new(
                        |f: Uuid| t.folders.contains_key(f) && !in_tree(t, id, f),
                        |f: Uuid| t.folders[f],
                    ),
                    files,
                    links: links_among(t.links, files),
                    ..t
                },
            )
        },
    }
}

/// The tables after some changes, made in one transaction: all of them or none.
pub open spec fn run(t: Tables, changes: Seq<Change>) -> Option<Tables>
    decreases changes.len(),
{
    if changes.len() == 0 {
        Some(t)
    } else {
        match run(t, changes.drop_last()) {
            Some(s) => effect(s, changes.last()),
            None => None,
        }
    }
}

/// The tables of a new archive.
pub open spec fn new_tables() -> Tables {
    Tables {
        folders: Map::empty(),
        files: Map::empty(),
        chunks: Map::empty(),
        links: Map::empty(),
        totals: Totals { files: 0, bytes: 0, compressed: 0 },
    }
}

/// Whether the links of a file are numbered from zero without a gap.
pub open spec fn block_count(t: Tables, file_id: Uuid, n: nat) -> bool {
    forall|i: int| #[trigger] t.links.contains_key((file_id, i)) <==> 0 <= i < n
}

/// The stored blocks of a file, in order.
pub open spec fn stored_blocks(t: Tables, file_id: Uuid, n: nat) -> Seq<Seq<u8>> {
    Seq::new(n, |i: int| t.chunks[t.links[(file_id, i)]].data)
}

/// What some stored blocks decompress to, one behind the other, if all are sound.
pub open spec fn decompressed(blocks: Seq<Seq<u8>>) -> Option<Seq<u8>>
    decreases blocks.len(),
{
    if blocks.len() == 0 {
        Some(Seq::empty())
    } else {
        match decompressed(blocks.drop_last()) {
            None => None,
            Some(front) => match crate::codec::zstd_decoded(blocks.last()) {
                None => None,
                Some(raw) => Some(front + raw),
            },
        }
    }
}

/// Some pieces of content, one behind the other.
pub open spec fn joined(pieces: Seq<Seq<u8>>) -> Seq<u8>
    decreases pieces.len(),
{
    if pieces.len() == 0 {
        Seq::empty()
    } else {
        joined(pieces.drop_last()) + pieces.last()
    }
}

/// How long some stored blocks are together.
pub open spec fn lengths(blocks: Seq<Seq<u8>>) -> int
    decreases blocks.len(),
{
    if blocks.len() == 0 {
        0
    } else {
        lengths(blocks.drop_last()) + blocks.last().len()
    }
}

/// Whether an export of a file gives some content.
pub open spec fn holds(t: Tables, file_id: Uuid, content: Seq<u8>) -> bool {
    exists|n: nat| #[trigger]
        block_count(t, file_id, n) && decompressed(stored_blocks(t, file_id, n)) == Some(content)
}

/// Whether every reference leads to a row, as the foreign keys of the schema demand.
pub open spec fn linked(t: Tables) -> bool {
    &&& forall|k: (Uuid, int)| #[trigger]
        t.links.contains_key(k) ==> t.files.contains_key(k.0) && t.chunks.contains_key(t.links[k])
    &&& forall|id: Uuid| #[trigger]
        t.files.contains_key(id) ==> (t.files[id].folder_id matches Some(f)
            ==> t.folders.contains_key(f))
    &&& forall|id: Uuid| #[trigger]
        t.folders.contains_key(id) ==> (t.folders[id].parent_id matches Some(p)
            ==> t.folders.contains_key(p))
}

/// Whether every block decompresses to content with the block's digest.
pub open spec fn sound(t: Tables) -> bool {
    forall|h: Seq<u8>| #[trigger]
        t.chunks.contains_key(h) ==> (crate::codec::zstd_decoded(t.chunks[h].data) matches Some(
            raw,
        ) && crate::digest::blake3_digest(raw) == h)
}

/// Whether the totals are those of the files.
pub open spec fn counted(t: Tables) -> bool {
    &&& t.files.dom().finite()
    &&& t.totals.files == total(Measure::Files, t.files)
    &&& t.totals.bytes == total(Measure::Bytes, t.files)
    &&& t.totals.compressed == total(Measure::Compressed, t.files)
}

/// The links to a block.
pub open spec fn links_to(t: Tables, hash: Seq<u8>) -> Set<(Uuid, int)> {
    Set::new(|k: (Uuid, int)| t.links.contains_key(k) && t.links[k] == hash)
}

/// Whether every block counts a reference, and at least as many as it has links.
pub open spec fn references_cover(t: Tables) -> bool {
    &&& t.links.dom().finite()
    &&& forall|h: Seq<u8>| #[trigger]
        t.chunks.contains_key(h) ==> links_to(t, h).len() <= t.chunks[h].refs && t.chunks[h].refs
            > 0
}

/// How many references a block counts; none where it is not stored.
pub open spec fn references(t: Tables, hash: Seq<u8>) -> int {
    if t.chunks.contains_key(hash) {
        t.chunks[hash].refs
    } else {
        0
    }
}

/// Whether every block counts as many references as it has links.
pub open spec fn references_exact(t: Tables) -> bool {
    &&& t.links.dom().finite()
    &&& forall|h: Seq<u8>| references(t, h) == #[trigger] links_to(t, h).len()
}

/// Whether every block counts a reference.
pub open spec fn all_referenced(t: Tables) -> bool {
    forall|h: Seq<u8>| #[trigger] t.chunks.contains_key(h) ==> t.chunks[h].refs > 0
}

/// Whether the compressed size of a file is the length of its stored blocks.
pub open spec fn measured(t: Tables, file_id: Uuid) -> bool {
    exists|n: nat| #[trigger]
        block_count(t, file_id, n) && t.files[file_id].compressed_size == lengths(
            stored_blocks(t, file_id, n),
        )
}

/// Whether the compressed size of every file is the length of its stored blocks.
pub open spec fn sized(t: Tables) -> bool {
    forall|id: Uuid| #[trigger] t.files.contains_key(id) ==> measured(t, id)
}

/// What holds of an archive between two transactions.
pub open spec fn consistent(t: Tables) -> bool {
    linked(t) && sound(t) && counted(t) && references_cover(t) && sized(t)
}

} // verus!
