//! The laws of the archive: what imports, deletions and renames keep.
use crate::changes::Change;
use crate::ident::Uuid;
use crate::ingest::ImportView;
use crate::sql::{Cell, DbError};
use crate::tables::{ChunkRow, FileRow, FolderRow, Measure, Tables, Totals};
use vstd::prelude::*;

verus! {

/// The data that goes with a block to the store: none where the block is there already.
pub open spec fn sent_data(t: Tables, block: Seq<u8>, frame: Seq<u8>) -> Seq<u8> {
    if t.chunks.contains_key(crate::digest::blake3_digest(block)) {
        Seq::empty()
    } else {
        frame
    }
}

/// The length of the stored data of a block.
pub open spec fn stored_len(t: Tables, block: Seq<u8>, frame: Seq<u8>) -> int {
    if t.chunks.contains_key(crate::digest::blake3_digest(block)) {
        t.chunks[crate::digest::blake3_digest(block)].data.len() as int
    } else {
        frame.len() as int
    }
}

/// The tables after some blocks were placed in a file, and the compressed size of the blocks.
pub open spec fn with_blocks(
    t: Tables,
    file_id: Uuid,
    blocks: Seq<Seq<u8>>,
    frames: Seq<Seq<u8>>,
) -> Option<(Tables, int)>
    decreases blocks.len(),
{
    if blocks.len() == 0 {
        Some((t, 0))
    } else {
        match with_blocks(t, file_id, blocks.drop_last(), frames.drop_last()) {
            None => None,
            Some((s, compressed)) => match crate::tables::run(
                s,
                crate::ingest::placement(
                    file_id,
                    blocks.len() - 1,
                    crate::digest::blake3_digest(blocks.last()),
                    sent_data(s, blocks.last(), frames.last()),
                ),
            ) {
                None => None,
                Some(u) => Some((u, compressed + stored_len(s, blocks.last(), frames.last()))),
            },
        }
    }
}

/// A file that is imported.
pub struct NewFile {
    pub id: Uuid,
    pub name: Seq<char>,
    pub size: int,
    pub created_at: int,
    pub folder_id: Option<Uuid>,
}

/// The tables after the import of a file, its content cut into blocks, each with its compressed
/// form.
pub open spec fn imported(
    t: Tables,
    file: NewFile,
    blocks: Seq<Seq<u8>>,
    frames: Seq<Seq<u8>>,
) -> Option<Tables> {
    match crate::tables::effect(
        t,
        Change::InsertFile {
            id: file.id,
            name: file.name,
            size: file.size,
            created_at: file.created_at,
            folder_id: file.folder_id,
        },
    ) {
        None => None,
        Some(s) => match with_blocks(s, file.id, blocks, frames) {
            None => None,
            Some((u, compressed)) => crate::tables::run(
                u,
                crate::ingest::completion(
                    ImportView {
                        file_id: file.id,
                        total_size: file.size,
                        content: crate::tables::joined(blocks),
                        blocks: blocks.len() as int,
                        compressed,
                    },
                ),
            ),
        },
    }
}

/// Whether a file can be added: its identifier is free and its folder is there.
pub open spec fn addable(t: Tables, file: NewFile) -> bool {
    &&& !t.files.contains_key(file.id)
    &&& file.folder_id matches Some(f) ==> t.folders.contains_key(f)
}

/// Whether every frame decompresses to its block.
pub open spec fn packed(blocks: Seq<Seq<u8>>, frames: Seq<Seq<u8>>) -> bool {
    &&& blocks.len() == frames.len()
    &&& forall|i: int|
        0 <= i < blocks.len() ==> crate::codec::zstd_decoded(#[trigger] frames[i]) == Some(
            blocks[i],
        )
}

/// Whether no block has the digest of a different block, neither of one that is stored nor of
/// another of its own file.
pub open spec fn collision_free(t: Tables, blocks: Seq<Seq<u8>>) -> bool {
    &&& forall|i: int|
        0 <= i < blocks.len() && t.chunks.contains_key(
            crate::digest::blake3_digest(#[trigger] blocks[i]),
        ) ==> crate::codec::zstd_decoded(
            t.chunks[crate::digest::blake3_digest(blocks[i])].data,
        ) == Some(blocks[i])
    &&& forall|i: int, j: int|
        0 <= i < blocks.len() && 0 <= j < blocks.len() && crate::digest::blake3_digest(
            #[trigger] blocks[i],
        ) == crate::digest::blake3_digest(#[trigger] blocks[j]) ==> blocks[i] == blocks[j]
}

/// Two changes in a row.
pub(crate) proof fn lemma_run_two(t: Tables, changes: Seq<Change>)
    requires
        changes.len() == 2,
    ensures
        crate::tables::run(t, changes) == (match crate::tables::effect(t, changes[0]) {
            None => None,
            Some(s) => crate::tables::effect(s, changes[1]),
        }),
{
    let front = changes.drop_last();
    assert(front.len() == 1 && front.last() == changes[0]);
    assert(front.drop_last().len() == 0);
    assert(crate::tables::run(t, front.drop_last()) == Some(t));
    assert(crate::tables::run(t, front) == crate::tables::effect(t, changes[0]));
}

/// Four changes in a row.
proof fn lemma_run_four(t: Tables, changes: Seq<Change>)
    requires
        changes.len() == 4,
    ensures
        crate::tables::run(t, changes) == (match crate::tables::effect(t, changes[0]) {
            None => None,
            Some(s) => match crate::tables::effect(s, changes[1]) {
                None => None,
                Some(u) => match crate::tables::effect(u, changes[2]) {
                    None => None,
                    Some(v) => crate::tables::effect(v, changes[3]),
                },
            },
        }),
{
    let three = changes.drop_last();
    let two = three.drop_last();
    lemma_run_two(t, two);
    assert(two[0] == changes[0] && two[1] == changes[1]);
    assert(three.last() == changes[2]);
    assert(changes.last() == changes[3]);
    assert(crate::tables::run(t, three) == (match crate::tables::run(t, two) {
        Some(s) => crate::tables::effect(s, three.last()),
        None => None,
    }));
}

/// Whether the store was only added to: no block is gone, and none has other data.
pub open spec fn store_grew(t: Tables, u: Tables) -> bool {
    forall|h: Seq<u8>| #[trigger]
        t.chunks.contains_key(h) ==> u.chunks.contains_key(h) && u.chunks[h].data
            == t.chunks[h].data
}

/// Whether the links of every other file are as they were.
pub open spec fn other_links_kept(t: Tables, u: Tables, file_id: Uuid) -> bool {
    forall|k: (Uuid, int)|
        k.0 != file_id ==> (#[trigger] u.links.contains_key(k) <==> t.links.contains_key(k)) && (
        t.links.contains_key(k) ==> u.links[k] == t.links[k])
}

/// Whether the blocks of a file are where they belong.
pub open spec fn in_place(u: Tables, file_id: Uuid, blocks: Seq<Seq<u8>>) -> bool {
    &&& crate::tables::block_count(u, file_id, blocks.len())
    &&& forall|i: int|
        0 <= i < blocks.len() ==> {
            let hash = crate::digest::blake3_digest(#[trigger] blocks[i]);
            &&& u.links[(file_id, i)] == hash
            &&& u.chunks.contains_key(hash)
        }
}

/// Whether what is stored under the digest of each block decompresses to that block.
pub open spec fn decodable(u: Tables, blocks: Seq<Seq<u8>>) -> bool {
    forall|i: int|
        0 <= i < blocks.len() ==> crate::codec::zstd_decoded(
            u.chunks[crate::digest::blake3_digest(#[trigger] blocks[i])].data,
        ) == Some(blocks[i])
}

/// How many of some blocks have a digest.
pub open spec fn occurrences(blocks: Seq<Seq<u8>>, hash: Seq<u8>) -> nat
    decreases blocks.len(),
{
    if blocks.len() == 0 {
        0
    } else {
        occurrences(blocks.drop_last(), hash) + (if crate::digest::blake3_digest(blocks.last())
            == hash {
            1nat
        } else {
            0nat
        })
    }
}

/// One more link to a block is one more in the set of its links; other sets are as they were.
proof fn lemma_link_counts(t: Tables, u: Tables, k: (Uuid, int), hash: Seq<u8>, h: Seq<u8>)
    requires
        t.links.dom().finite(),
        !t.links.contains_key(k),
        u.links == t.links.insert(k, hash),
    ensures
        u.links.dom().finite(),
        crate::tables::links_to(u, h).len() == crate::tables::links_to(t, h).len() + (if h == hash {
            1int
        } else {
            0int
        }),
{
    let before = crate::tables::links_to(t, h);
    assert(before.subset_of(t.links.dom()));
    vstd::set_lib::lemma_len_subset(before, t.links.dom());
    if h == hash {
        assert(crate::tables::links_to(u, h) =~= before.insert(k));
    } else {
        assert(crate::tables::links_to(u, h) =~= before);
    }
}

/// The placing of one block.
proof fn lemma_place_one(
    t: Tables,
    file_id: Uuid,
    blocks: Seq<Seq<u8>>,
    frame: Seq<u8>,
) -> (u: Tables)
    requires
        blocks.len() > 0,
        t.files.contains_key(file_id),
        in_place(t, file_id, blocks.drop_last()),
        crate::codec::zstd_decoded(frame) == Some(blocks.last()),
    ensures
        crate::tables::run(
            t,
            crate::ingest::placement(
                file_id,
                blocks.len() - 1,
                crate::digest::blake3_digest(blocks.last()),
                sent_data(t, blocks.last(), frame),
            ),
        ) == Some(u),
        u.files == t.files,
        u.folders == t.folders,
        u.totals == t.totals,
        in_place(u, file_id, blocks),
        store_grew(t, u),
        other_links_kept(t, u, file_id),
        u.chunks.dom() == t.chunks.dom().insert(crate::digest::blake3_digest(blocks.last())),
        u.chunks[crate::digest::blake3_digest(blocks.last())].data.len() == stored_len(
            t,
            blocks.last(),
            frame,
        ),
        ({
            let hash = crate::digest::blake3_digest(blocks.last());
            decodable(t, blocks.drop_last()) && (t.chunks.contains_key(hash)
                ==> crate::codec::zstd_decoded(t.chunks[hash].data) == Some(blocks.last()))
                ==> decodable(u, blocks)
        }),
        crate::tables::linked(t) ==> crate::tables::linked(u),
        crate::tables::sound(t) ==> crate::tables::sound(u),
        crate::tables::references_cover(t) && crate::tables::linked(t)
            ==> crate::tables::references_cover(u),
        forall|h: Seq<u8>| #[trigger]
            crate::tables::references(u, h) == crate::tables::references(t, h) + (if h
                == crate::digest::blake3_digest(blocks.last()) {
                1int
            } else {
                0int
            }),
        t.links.dom().finite() ==> u.links.dom().finite(),
        t.links.dom().finite() ==> forall|h: Seq<u8>| #[trigger]
            crate::tables::links_to(u, h).len() == crate::tables::links_to(t, h).len() + (if h
                == crate::digest::blake3_digest(blocks.last()) {
                1int
            } else {
                0int
            }),
{
    let hash = crate::digest::blake3_digest(blocks.last());
    let index = blocks.len() - 1;
    let front = blocks.drop_last();
    let changes = crate::ingest::placement(
        file_id,
        index,
        hash,
        sent_data(t, blocks.last(), frame),
    );
    lemma_run_two(t, changes);
    let s = crate::tables::effect(t, changes[0])->Some_0;
    assert(!t.links.contains_key((file_id, index)));
    let u = crate::tables::effect(s, changes[1])->Some_0;
    assert(u.links == t.links.insert((file_id, index), hash));
    assert forall|i: int| 0 <= i < blocks.len() implies {
        let h = crate::digest::blake3_digest(#[trigger] blocks[i]);
        &&& u.links[(file_id, i)] == h
        &&& u.chunks.contains_key(h)
    } by {
        if i < index {
            assert(front[i] == blocks[i]);
        }
    }
    if decodable(t, front) && (t.chunks.contains_key(hash) ==> crate::codec::zstd_decoded(
        t.chunks[hash].data,
    ) == Some(blocks.last())) {
        assert forall|i: int| 0 <= i < blocks.len() implies crate::codec::zstd_decoded(
            u.chunks[crate::digest::blake3_digest(#[trigger] blocks[i])].data,
        ) == Some(blocks[i]) by {
            if i < index {
                assert(front[i] == blocks[i]);
            }
        }
    }
    assert forall|i: int| #[trigger]
        u.links.contains_key((file_id, i)) <==> 0 <= i < blocks.len() by {
        assert(t.links.contains_key((file_id, i)) <==> 0 <= i < front.len());
    }
    assert(u.chunks.dom() =~= t.chunks.dom().insert(hash));
    if crate::tables::references_cover(t) && crate::tables::linked(t) {
        assert(u.links.dom().finite());
        assert forall|h: Seq<u8>| #[trigger] u.chunks.contains_key(h) implies
            crate::tables::links_to(u, h).len() <= u.chunks[h].refs && u.chunks[h].refs > 0 by {
            lemma_link_counts(t, u, (file_id, index), hash, h);
            if !t.chunks.contains_key(h) {
                assert(crate::tables::links_to(t, h) =~= Set::empty());
            }
        }
    }
    if t.links.dom().finite() {
        assert forall|h: Seq<u8>| #[trigger]
            crate::tables::links_to(u, h).len() == crate::tables::links_to(t, h).len() + (if h
                == hash {
                1int
            } else {
                0int
            }) by {
            lemma_link_counts(t, u, (file_id, index), hash, h);
        }
    }
    u
}

/// Blocks without a collision have none without the last of them.
proof fn lemma_collision_free_front(t: Tables, blocks: Seq<Seq<u8>>)
    requires
        blocks.len() > 0,
        collision_free(t, blocks),
    ensures
        collision_free(t, blocks.drop_last()),
{
    let front = blocks.drop_last();
    assert forall|i: int|
        0 <= i < front.len() && t.chunks.contains_key(
            crate::digest::blake3_digest(#[trigger] front[i]),
        ) implies crate::codec::zstd_decoded(
        t.chunks[crate::digest::blake3_digest(front[i])].data,
    ) == Some(front[i]) by {
        assert(front[i] == blocks[i]);
    }
    assert forall|i: int, j: int|
        0 <= i < front.len() && 0 <= j < front.len() && crate::digest::blake3_digest(
            #[trigger] front[i],
        ) == crate::digest::blake3_digest(#[trigger] front[j]) implies front[i]
        == front[j] by {
        assert(front[i] == blocks[i] && front[j] == blocks[j]);
    }
}

/// The placing of all blocks of a file.
proof fn lemma_place_all(
    t: Tables,
    file_id: Uuid,
    blocks: Seq<Seq<u8>>,
    frames: Seq<Seq<u8>>,
) -> (u: Tables)
    requires
        t.files.contains_key(file_id),
        crate::tables::block_count(t, file_id, 0),
        packed(blocks, frames),
    ensures
        with_blocks(t, file_id, blocks, frames) == Some(
            (u, crate::tables::lengths(crate::tables::stored_blocks(u, file_id, blocks.len()))),
        ),
        u.files == t.files,
        u.folders == t.folders,
        u.totals == t.totals,
        in_place(u, file_id, blocks),
        store_grew(t, u),
        other_links_kept(t, u, file_id),
        forall|h: Seq<u8>| #[trigger]
            u.chunks.contains_key(h) ==> t.chunks.contains_key(h) || exists|i: int|
                0 <= i < blocks.len() && h == crate::digest::blake3_digest(#[trigger] blocks[i]),
        crate::tables::linked(t) ==> crate::tables::linked(u),
        crate::tables::sound(t) ==> crate::tables::sound(u),
        crate::tables::references_cover(t) && crate::tables::linked(t)
            ==> crate::tables::references_cover(u),
        collision_free(t, blocks) ==> decodable(u, blocks),
        forall|h: Seq<u8>| #[trigger]
            crate::tables::references(u, h) == crate::tables::references(t, h) + occurrences(
                blocks,
                h,
            ),
        t.links.dom().finite() ==> u.links.dom().finite(),
        t.links.dom().finite() ==> forall|h: Seq<u8>| #[trigger]
            crate::tables::links_to(u, h).len() == crate::tables::links_to(t, h).len()
                + occurrences(blocks, h),
    decreases blocks.len(),
{
    if blocks.len() == 0 {
        assert(crate::tables::stored_blocks(t, file_id, 0) =~= Seq::empty());
        t
    } else {
        let front = blocks.drop_last();
        let front_frames = frames.drop_last();
        let hash = crate::digest::blake3_digest(blocks.last());
        assert(packed(front, front_frames)) by {
            assert forall|i: int| 0 <= i < front.len() implies crate::codec::zstd_decoded(
                #[trigger] front_frames[i],
            ) == Some(front[i]) by {
                assert(front_frames[i] == frames[i]);
            }
        }
        let s = lemma_place_all(t, file_id, front, front_frames);
        if collision_free(t, blocks) {
            lemma_collision_free_front(t, blocks);
            if s.chunks.contains_key(hash) {
                if t.chunks.contains_key(hash) {
                    assert(hash == crate::digest::blake3_digest(blocks[blocks.len() - 1]));
                } else {
                    let i = choose|i: int|
                        0 <= i < front.len() && hash == crate::digest::blake3_digest(
                            #[trigger] front[i],
                        );
                    assert(front[i] == blocks[i]);
                    assert(blocks[i] == blocks[blocks.len() - 1]);
                }
            }
        }
        assert(frames[frames.len() - 1] == frames.last());
        let u = lemma_place_one(s, file_id, blocks, frames.last());
        let before = crate::tables::stored_blocks(s, file_id, front.len());
        let after = crate::tables::stored_blocks(u, file_id, blocks.len());
        assert(after.drop_last() =~= before) by {
            assert forall|i: int| 0 <= i < front.len() implies after[i] == before[i] by {
                assert(front[i] == blocks[i]);
            }
        }
        assert(blocks[blocks.len() - 1] == blocks.last());
        assert(after.last() == u.chunks[hash].data);
        assert forall|h: Seq<u8>| #[trigger] u.chunks.contains_key(h) implies t.chunks.contains_key(
            h,
        ) || exists|i: int|
            0 <= i < blocks.len() && h == crate::digest::blake3_digest(#[trigger] blocks[i]) by {
            if h == hash {
                assert(h == crate::digest::blake3_digest(blocks[blocks.len() - 1]));
            } else if !t.chunks.contains_key(h) {
                let i = choose|i: int|
                    0 <= i < front.len() && h == crate::digest::blake3_digest(#[trigger] front[i]);
                assert(front[i] == blocks[i]);
            }
        }
        u
    }
}

/// Blocks that are in place decompress to the content they were cut from.
proof fn lemma_in_place_decompresses(u: Tables, file_id: Uuid, blocks: Seq<Seq<u8>>, n: nat)
    requires
        n <= blocks.len(),
        in_place(u, file_id, blocks),
        decodable(u, blocks),
    ensures
        crate::tables::decompressed(crate::tables::stored_blocks(u, file_id, n)) == Some(
            crate::tables::joined(blocks.subrange(0, n as int)),
        ),
    decreases n,
{
    if n > 0 {
        lemma_in_place_decompresses(u, file_id, blocks, (n - 1) as nat);
        let stored = crate::tables::stored_blocks(u, file_id, n);
        assert(stored.drop_last() =~= crate::tables::stored_blocks(u, file_id, (n - 1) as nat));
        assert(blocks.subrange(0, n as int).drop_last() =~= blocks.subrange(0, n - 1));
        assert(u.links[(file_id, n - 1)] == crate::digest::blake3_digest(blocks[n - 1]));
    }
}

/// A file keeps its stored blocks where its links are kept and the data of its blocks is.
proof fn lemma_blocks_kept(t: Tables, u: Tables, file_id: Uuid, n: nat)
    requires
        crate::tables::block_count(t, file_id, n),
        forall|i: int| #[trigger]
            u.links.contains_key((file_id, i)) <==> t.links.contains_key((file_id, i)),
        forall|i: int| #[trigger]
            t.links.contains_key((file_id, i)) ==> u.links[(file_id, i)] == t.links[(file_id, i)],
        forall|i: int| #[trigger]
            t.links.contains_key((file_id, i)) ==> u.chunks[t.links[(file_id, i)]].data
                == t.chunks[t.links[(file_id, i)]].data,
    ensures
        crate::tables::block_count(u, file_id, n),
        crate::tables::stored_blocks(u, file_id, n) == crate::tables::stored_blocks(t, file_id, n),
{
    assert forall|i: int| #[trigger] u.links.contains_key((file_id, i)) <==> 0 <= i < n by {
        assert(t.links.contains_key((file_id, i)) <==> 0 <= i < n);
    }
    assert(crate::tables::stored_blocks(u, file_id, n) =~= crate::tables::stored_blocks(
        t,
        file_id,
        n,
    )) by {
        assert forall|i: int| 0 <= i < n implies crate::tables::stored_blocks(u, file_id, n)[i]
            == crate::tables::stored_blocks(t, file_id, n)[i] by {
            assert(t.links.contains_key((file_id, i)));
        }
    }
}

/// A file keeps its content, and its compressed size stays right, where its links are kept and the
/// data of its blocks is.
proof fn lemma_file_kept(t: Tables, u: Tables, file_id: Uuid)
    requires
        u.files[file_id].compressed_size == t.files[file_id].compressed_size,
        forall|i: int| #[trigger]
            u.links.contains_key((file_id, i)) <==> t.links.contains_key((file_id, i)),
        forall|i: int| #[trigger]
            t.links.contains_key((file_id, i)) ==> u.links[(file_id, i)] == t.links[(file_id, i)],
        forall|i: int| #[trigger]
            t.links.contains_key((file_id, i)) ==> u.chunks[t.links[(file_id, i)]].data
                == t.chunks[t.links[(file_id, i)]].data,
    ensures
        forall|content: Seq<u8>| #[trigger]
            crate::tables::holds(t, file_id, content) ==> crate::tables::holds(
                u,
                file_id,
                content,
            ),
        crate::tables::measured(t, file_id) ==> crate::tables::measured(u, file_id),
{
    assert forall|content: Seq<u8>| #[trigger]
        crate::tables::holds(t, file_id, content) implies crate::tables::holds(
        u,
        file_id,
        content,
    ) by {
        let n = choose|n: nat| #[trigger]
            crate::tables::block_count(t, file_id, n) && crate::tables::decompressed(
                crate::tables::stored_blocks(t, file_id, n),
            ) == Some(content);
        lemma_blocks_kept(t, u, file_id, n);
    }
    if crate::tables::measured(t, file_id) {
        let n = choose|n: nat| #[trigger]
            crate::tables::block_count(t, file_id, n) && t.files[file_id].compressed_size
                == crate::tables::lengths(crate::tables::stored_blocks(t, file_id, n));
        lemma_blocks_kept(t, u, file_id, n);
    }
}

/// The row of a file that was imported.
pub open spec fn imported_row(file: NewFile, content: Seq<u8>, compressed_size: int) -> FileRow {
    FileRow {
        name: file.name,
        size: file.size,
        compressed_size,
        created_at: file.created_at,
        folder_id: file.folder_id,
        checksum: crate::digest::blake3_digest(content),
    }
}

/// The import of a file as a whole.
pub(crate) proof fn lemma_imported(
    t: Tables,
    file: NewFile,
    blocks: Seq<Seq<u8>>,
    frames: Seq<Seq<u8>>,
) -> (u: Tables)
    requires
        crate::tables::linked(t),
        addable(t, file),
        packed(blocks, frames),
    ensures
        imported(t, file, blocks, frames) == Some(u),
        u.folders == t.folders,
        ({
            let compressed = crate::tables::lengths(crate::tables::stored_blocks(u, file.id, blocks.len()));
            &&& u.files == t.files.insert(
                file.id,
                imported_row(file, crate::tables::joined(blocks), compressed),
            )
            &&& u.totals == (Totals {
                files: t.totals.files + 1,
                bytes: t.totals.bytes + file.size,
                compressed: t.totals.compressed + compressed,
            })
        }),
        in_place(u, file.id, blocks),
        store_grew(t, u),
        other_links_kept(t, u, file.id),
        forall|h: Seq<u8>| #[trigger]
            u.chunks.contains_key(h) ==> t.chunks.contains_key(h) || exists|i: int|
                0 <= i < blocks.len() && h == crate::digest::blake3_digest(#[trigger] blocks[i]),
        crate::tables::linked(u),
        crate::tables::sound(t) ==> crate::tables::sound(u),
        crate::tables::references_cover(t) ==> crate::tables::references_cover(u),
        crate::tables::sized(t) ==> crate::tables::sized(u),
        collision_free(t, blocks) ==> decodable(u, blocks),
        forall|h: Seq<u8>| #[trigger]
            crate::tables::references(u, h) == crate::tables::references(t, h) + occurrences(
                blocks,
                h,
            ),
        t.links.dom().finite() ==> u.links.dom().finite(),
        t.links.dom().finite() ==> forall|h: Seq<u8>| #[trigger]
            crate::tables::links_to(u, h).len() == crate::tables::links_to(t, h).len()
                + occurrences(blocks, h),
{
    let s = crate::tables::effect(
        t,
        Change::InsertFile {
            id: file.id,
            name: file.name,
            size: file.size,
            created_at: file.created_at,
            folder_id: file.folder_id,
        },
    )->Some_0;
    assert(crate::tables::block_count(s, file.id, 0)) by {
        assert forall|i: int| !(#[trigger] s.links.contains_key((file.id, i))) by {
            if t.links.contains_key((file.id, i)) {
                assert(t.files.contains_key((file.id, i).0));
            }
        }
    }
    assert(crate::tables::linked(s));
    if crate::tables::references_cover(t) {
        assert forall|h: Seq<u8>| #[trigger] s.chunks.contains_key(h) implies
            crate::tables::links_to(s, h).len() <= s.chunks[h].refs && s.chunks[h].refs > 0 by {
            assert(crate::tables::links_to(s, h) =~= crate::tables::links_to(t, h));
        }
    }
    let v = lemma_place_all(s, file.id, blocks, frames);
    let compressed = crate::tables::lengths(crate::tables::stored_blocks(v, file.id, blocks.len()));
    let view = ImportView {
        file_id: file.id,
        total_size: file.size,
        content: crate::tables::joined(blocks),
        blocks: blocks.len() as int,
        compressed,
    };
    lemma_run_two(v, crate::ingest::completion(view));
    let u = imported(t, file, blocks, frames)->Some_0;
    assert(u.links == v.links && u.chunks == v.chunks && u.folders == v.folders);
    assert(crate::tables::stored_blocks(u, file.id, blocks.len())
        =~= crate::tables::stored_blocks(v, file.id, blocks.len()));
    assert(u.files =~= t.files.insert(
        file.id,
        imported_row(file, crate::tables::joined(blocks), compressed),
    ));
    assert(crate::tables::block_count(u, file.id, blocks.len()));
    assert(crate::tables::linked(u));
    if crate::tables::references_cover(t) {
        assert forall|h: Seq<u8>| #[trigger] u.chunks.contains_key(h) implies
            crate::tables::links_to(u, h).len() <= u.chunks[h].refs && u.chunks[h].refs > 0 by {
            assert(crate::tables::links_to(u, h) =~= crate::tables::links_to(v, h));
        }
    }
    assert forall|h: Seq<u8>| #[trigger]
        crate::tables::references(u, h) == crate::tables::references(t, h) + occurrences(
            blocks,
            h,
        ) by {
        assert(crate::tables::references(v, h) == crate::tables::references(s, h) + occurrences(
            blocks,
            h,
        ));
    }
    if t.links.dom().finite() {
        assert forall|h: Seq<u8>| #[trigger]
            crate::tables::links_to(u, h).len() == crate::tables::links_to(t, h).len()
                + occurrences(blocks, h) by {
            assert(crate::tables::links_to(u, h) =~= crate::tables::links_to(v, h));
            assert(crate::tables::links_to(s, h) =~= crate::tables::links_to(t, h));
        }
    }
    if crate::tables::sized(t) {
        assert forall|id: Uuid| #[trigger]
            u.files.contains_key(id) implies crate::tables::measured(u, id) by {
            if id == file.id {
                assert(crate::tables::block_count(u, id, blocks.len()));
            } else {
                assert(crate::tables::measured(t, id));
                assert forall|i: int| #[trigger]
                    u.links.contains_key((id, i)) <==> t.links.contains_key((id, i)) by {
                    assert((id, i).0 != file.id);
                }
                assert forall|i: int| #[trigger]
                    t.links.contains_key((id, i)) implies u.links[(id, i)] == t.links[(id, i)] by {
                    assert((id, i).0 != file.id);
                    assert(u.links.contains_key((id, i)));
                }
                assert forall|i: int| #[trigger]
                    t.links.contains_key((id, i)) implies u.chunks[t.links[(id, i)]].data
                    == t.chunks[t.links[(id, i)]].data by {
                    assert(t.chunks.contains_key(t.links[(id, i)]));
                }
                lemma_file_kept(t, u, id);
            }
        }
    }
    u
}

/// What an import writes, an export reads: the file has the content that its blocks make up, with
/// the digest of that content as its checksum and the length of its stored blocks as its compressed
/// size. Every other file has the content it had. Digests that collide are left out.
pub proof fn law_export_returns_import(
    t: Tables,
    file: NewFile,
    blocks: Seq<Seq<u8>>,
    frames: Seq<Seq<u8>>,
)
    requires
        crate::tables::linked(t),
        addable(t, file),
        packed(blocks, frames),
        collision_free(t, blocks),
    ensures
        imported(t, file, blocks, frames) matches Some(u) && {
            &&& crate::tables::holds(u, file.id, crate::tables::joined(blocks))
            &&& u.files == t.files.insert(
                file.id,
                imported_row(
                    file,
                    crate::tables::joined(blocks),
                    crate::tables::lengths(crate::tables::stored_blocks(u, file.id, blocks.len())),
                ),
            )
            &&& forall|id: Uuid, content: Seq<u8>|
                t.files.contains_key(id) && #[trigger] crate::tables::holds(t, id, content)
                    ==> crate::tables::holds(u, id, content)
        },
{
    let u = lemma_imported(t, file, blocks, frames);
    lemma_in_place_decompresses(u, file.id, blocks, blocks.len());
    assert(blocks.subrange(0, blocks.len() as int) =~= blocks);
    assert(crate::tables::block_count(u, file.id, blocks.len()));
    assert forall|id: Uuid, content: Seq<u8>|
        t.files.contains_key(id) && #[trigger] crate::tables::holds(
            t,
            id,
            content,
        ) implies crate::tables::holds(u, id, content) by {
        assert forall|i: int| #[trigger]
            u.links.contains_key((id, i)) <==> t.links.contains_key((id, i)) by {
            assert((id, i).0 != file.id);
        }
        assert forall|i: int| #[trigger] t.links.contains_key((id, i)) implies u.links[(id, i)]
            == t.links[(id, i)] by {
            assert((id, i).0 != file.id);
            assert(u.links.contains_key((id, i)));
        }
        lemma_file_kept(t, u, id);
    }
}

/// The total with one file taken out.
proof fn lemma_total_remove(m: Measure, files: Map<Uuid, FileRow>, id: Uuid)
    requires
        files.dom().finite(),
        files.contains_key(id),
    ensures
        crate::tables::total(m, files) == crate::tables::measure(m, files[id])
            + crate::tables::total(m, files.remove(id)),
    decreases files.dom().len(),
{
    let first = files.dom().choose();
    if first != id {
        let rest = files.remove(first);
        let other = files.remove(id);
        lemma_total_remove(m, rest, id);
        lemma_total_remove(m, other, first);
        assert(rest.remove(id) =~= other.remove(first));
    }
}

/// The total with one file put in.
proof fn lemma_total_insert(m: Measure, files: Map<Uuid, FileRow>, id: Uuid, row: FileRow)
    requires
        files.dom().finite(),
    ensures
        crate::tables::total(m, files.insert(id, row)) == crate::tables::measure(m, row)
            + crate::tables::total(m, files.remove(id)),
{
    lemma_total_remove(m, files.insert(id, row), id);
    assert(files.insert(id, row).remove(id) =~= files.remove(id));
}

/// The total of some files is that of one part and that of the other.
proof fn lemma_total_split(
    m: Measure,
    files: Map<Uuid, FileRow>,
    left: Map<Uuid, FileRow>,
    right: Map<Uuid, FileRow>,
)
    requires
        files.dom().finite(),
        forall|id: Uuid| #[trigger]
            files.contains_key(id) <==> left.contains_key(id) || right.contains_key(id),
        forall|id: Uuid| !(#[trigger] left.contains_key(id) && right.contains_key(id)),
        forall|id: Uuid| #[trigger] left.contains_key(id) ==> left[id] == files[id],
        forall|id: Uuid| #[trigger] right.contains_key(id) ==> right[id] == files[id],
    ensures
        left.dom().finite(),
        right.dom().finite(),
        crate::tables::total(m, files) == crate::tables::total(m, left) + crate::tables::total(
            m,
            right,
        ),
    decreases files.dom().len(),
{
    assert(left.dom().subset_of(files.dom()));
    assert(right.dom().subset_of(files.dom()));
    vstd::set_lib::lemma_len_subset(left.dom(), files.dom());
    vstd::set_lib::lemma_len_subset(right.dom(), files.dom());
    if files.dom().is_empty() {
        assert(left.dom() =~= Set::empty());
        assert(right.dom() =~= Set::empty());
    } else {
        let id = files.dom().choose();
        assert(files.contains_key(id));
        lemma_total_remove(m, files, id);
        if left.contains_key(id) {
            lemma_total_split(m, files.remove(id), left.remove(id), right);
            lemma_total_remove(m, left, id);
        } else {
            lemma_total_split(m, files.remove(id), left, right.remove(id));
            lemma_total_remove(m, right, id);
        }
    }
}

/// An import keeps an archive consistent.
pub proof fn law_import_keeps_consistent(
    t: Tables,
    file: NewFile,
    blocks: Seq<Seq<u8>>,
    frames: Seq<Seq<u8>>,
)
    requires
        crate::tables::consistent(t),
        addable(t, file),
        packed(blocks, frames),
    ensures
        imported(t, file, blocks, frames) matches Some(u) && crate::tables::consistent(u),
{
    let u = lemma_imported(t, file, blocks, frames);
    let row = u.files[file.id];
    assert(t.files.remove(file.id) =~= t.files);
    lemma_total_insert(Measure::Files, t.files, file.id, row);
    lemma_total_insert(Measure::Bytes, t.files, file.id, row);
    lemma_total_insert(Measure::Compressed, t.files, file.id, row);
}

/// Whether the blocks of a file decompress to content with the file's checksum.
pub open spec fn passes_check(t: Tables, file_id: Uuid) -> bool {
    exists|content: Seq<u8>| #[trigger]
        crate::tables::holds(t, file_id, content) && crate::digest::blake3_digest(content)
            == t.files[file_id].checksum
}

/// A file that was imported passes the check of its content. Digests that collide are left out.
pub proof fn law_import_passes_check(
    t: Tables,
    file: NewFile,
    blocks: Seq<Seq<u8>>,
    frames: Seq<Seq<u8>>,
)
    requires
        crate::tables::linked(t),
        addable(t, file),
        packed(blocks, frames),
        collision_free(t, blocks),
    ensures
        imported(t, file, blocks, frames) matches Some(u) && passes_check(u, file.id),
{
    law_export_returns_import(t, file, blocks, frames);
}

/// Whether the blocks are the ones that there were, with the data they had, each with a reference
/// more for every one of some blocks that has its digest.
pub open spec fn only_references_grew(t: Tables, u: Tables, blocks: Seq<Seq<u8>>) -> bool {
    &&& u.chunks.dom() == t.chunks.dom()
    &&& forall|h: Seq<u8>| #[trigger]
        t.chunks.contains_key(h) ==> u.chunks[h] == (ChunkRow {
            refs: t.chunks[h].refs + occurrences(blocks, h),
            ..t.chunks[h]
        })
}

/// The import of a file whose blocks are all stored already, as that of a duplicate, adds no block
/// and changes the data of none: all that grows is the count of references, by one for every place of
/// a block in the file.
pub proof fn law_duplicate_stores_nothing(
    t: Tables,
    file: NewFile,
    blocks: Seq<Seq<u8>>,
    frames: Seq<Seq<u8>>,
)
    requires
        crate::tables::linked(t),
        addable(t, file),
        packed(blocks, frames),
        forall|i: int|
            0 <= i < blocks.len() ==> t.chunks.contains_key(
                crate::digest::blake3_digest(#[trigger] blocks[i]),
            ),
    ensures
        imported(t, file, blocks, frames) matches Some(u) && only_references_grew(t, u, blocks),
{
    let u = lemma_imported(t, file, blocks, frames);
    assert(u.chunks.dom() =~= t.chunks.dom());
    assert forall|h: Seq<u8>| #[trigger] t.chunks.contains_key(h) implies u.chunks[h] == (ChunkRow {
        refs: t.chunks[h].refs + occurrences(blocks, h),
        ..t.chunks[h]
    }) by {
        assert(crate::tables::references(u, h) == crate::tables::references(t, h) + occurrences(
            blocks,
            h,
        ));
    }
}

/// A file has one content at most.
proof fn lemma_one_content(t: Tables, file_id: Uuid, a: Seq<u8>, b: Seq<u8>)
    requires
        crate::tables::holds(t, file_id, a),
        crate::tables::holds(t, file_id, b),
    ensures
        a == b,
{
    let n = choose|n: nat| #[trigger]
        crate::tables::block_count(t, file_id, n) && crate::tables::decompressed(
            crate::tables::stored_blocks(t, file_id, n),
        ) == Some(a);
    let m = choose|m: nat| #[trigger]
        crate::tables::block_count(t, file_id, m) && crate::tables::decompressed(
            crate::tables::stored_blocks(t, file_id, m),
        ) == Some(b);
    lemma_one_count(t, file_id, n, m);
}

/// The links of a file are numbered up to one number only.
proof fn lemma_one_count(t: Tables, file_id: Uuid, n: nat, m: nat)
    requires
        crate::tables::block_count(t, file_id, n),
        crate::tables::block_count(t, file_id, m),
    ensures
        n == m,
{
    if n < m {
        assert(t.links.contains_key((file_id, n as int)));
    }
    if m < n {
        assert(t.links.contains_key((file_id, m as int)));
    }
}

/// The import of a duplicate of a file, that is of content made up of the same blocks, adds no block
/// and overwrites none: only references grow. It makes a row of its own under another identifier,
/// with the size that was announced, and with the compressed size and the checksum of the file that
/// was there, whose own row stays.
pub proof fn law_duplicate_is_like_its_copy(
    t: Tables,
    copy: Uuid,
    file: NewFile,
    blocks: Seq<Seq<u8>>,
    frames: Seq<Seq<u8>>,
)
    requires
        crate::tables::linked(t),
        t.files.contains_key(copy),
        crate::tables::measured(t, copy),
        passes_check(t, copy),
        in_place(t, copy, blocks),
        decodable(t, blocks),
        addable(t, file),
        packed(blocks, frames),
    ensures
        file.id != copy,
        imported(t, file, blocks, frames) matches Some(u) && {
            &&& only_references_grew(t, u, blocks)
            &&& u.files.dom() == t.files.dom().insert(file.id)
            &&& u.files[copy] == t.files[copy]
            &&& u.files[file.id] == (FileRow {
                name: file.name,
                size: file.size,
                created_at: file.created_at,
                folder_id: file.folder_id,
                ..t.files[copy]
            })
        },
{
    assert forall|i: int| 0 <= i < blocks.len() implies t.chunks.contains_key(
        crate::digest::blake3_digest(#[trigger] blocks[i]),
    ) by {
    }
    law_duplicate_stores_nothing(t, file, blocks, frames);
    let u = lemma_imported(t, file, blocks, frames);
    assert(u.files.dom() =~= t.files.dom().insert(file.id));
    let n = blocks.len();
    lemma_in_place_decompresses(t, copy, blocks, n);
    assert(blocks.subrange(0, n as int) =~= blocks);
    assert(crate::tables::holds(t, copy, crate::tables::joined(blocks)));
    let content = choose|content: Seq<u8>| #[trigger]
        crate::tables::holds(t, copy, content) && crate::digest::blake3_digest(content)
            == t.files[copy].checksum;
    lemma_one_content(t, copy, content, crate::tables::joined(blocks));
    let m = choose|m: nat| #[trigger]
        crate::tables::block_count(t, copy, m) && t.files[copy].compressed_size
            == crate::tables::lengths(crate::tables::stored_blocks(t, copy, m));
    lemma_one_count(t, copy, n, m);
    assert(crate::tables::stored_blocks(u, file.id, n) =~= crate::tables::stored_blocks(
        t,
        copy,
        n,
    )) by {
        assert forall|i: int| 0 <= i < n implies crate::tables::stored_blocks(u, file.id, n)[i]
            == crate::tables::stored_blocks(t, copy, n)[i] by {
            assert(t.links[(copy, i)] == crate::digest::blake3_digest(blocks[i]));
        }
    }
}

/// Whether some blocks are content as it is cut: every block is full but the last, which may be
/// shorter, and none is empty.
pub open spec fn cut(blocks: Seq<Seq<u8>>) -> bool {
    &&& forall|i: int|
        0 <= i < blocks.len() - 1 ==> (#[trigger] blocks[i]).len() == crate::CHUNK_SIZE
    &&& blocks.len() > 0 ==> 0 < blocks.last().len() <= crate::CHUNK_SIZE
}

/// Each block of content that was cut is at its place in the content.
proof fn lemma_cut_places(blocks: Seq<Seq<u8>>)
    requires
        cut(blocks),
    ensures
        blocks.len() == 0 ==> crate::tables::joined(blocks).len() == 0,
        blocks.len() > 0 ==> crate::tables::joined(blocks).len() == (blocks.len() - 1)
            * crate::CHUNK_SIZE + blocks.last().len(),
        forall|i: int|
            0 <= i < blocks.len() ==> #[trigger] blocks[i] == crate::tables::joined(
                blocks,
            ).subrange(i * crate::CHUNK_SIZE, i * crate::CHUNK_SIZE + blocks[i].len()),
    decreases blocks.len(),
{
    if blocks.len() > 0 {
        let front = blocks.drop_last();
        let content = crate::tables::joined(blocks);
        assert forall|i: int| 0 <= i < front.len() implies (#[trigger] front[i]).len()
            == crate::CHUNK_SIZE by {
            assert(front[i] == blocks[i]);
        }
        if front.len() > 0 {
            assert(front.last() == front[front.len() - 1]);
        }
        lemma_cut_places(front);
        assert forall|i: int| 0 <= i < blocks.len() implies #[trigger] blocks[i]
            == content.subrange(i * crate::CHUNK_SIZE, i * crate::CHUNK_SIZE + blocks[i].len()) by {
            if i < front.len() {
                assert(front[i] == blocks[i]);
                assert(content.subrange(i * crate::CHUNK_SIZE, i * crate::CHUNK_SIZE + front[i].len())
                    =~= crate::tables::joined(front).subrange(
                    i * crate::CHUNK_SIZE,
                    i * crate::CHUNK_SIZE + front[i].len(),
                ));
            } else {
                assert(content.subrange(i * crate::CHUNK_SIZE, i * crate::CHUNK_SIZE + blocks[i].len())
                    =~= blocks[i]);
            }
        }
    }
}

/// The same content is always cut into the same blocks, of one megabyte each but for the last.
pub proof fn law_cut_is_determined(one: Seq<Seq<u8>>, other: Seq<Seq<u8>>)
    requires
        cut(one),
        cut(other),
        crate::tables::joined(one) == crate::tables::joined(other),
    ensures
        one == other,
        one.len() > 1 ==> one[0].len() == 1024 * 1024,
        forall|i: int| 0 <= i < one.len() ==> 0 < (#[trigger] one[i]).len() <= 1024 * 1024,
{
    lemma_cut_places(one);
    lemma_cut_places(other);
    assert(one.len() == other.len());
    assert forall|i: int| 0 <= i < one.len() implies one[i] == other[i] by {
        if i < one.len() - 1 {
            assert(one[i].len() == crate::CHUNK_SIZE);
            assert(other[i].len() == crate::CHUNK_SIZE);
        } else {
            assert(one[i] == one.last());
            assert(other[i] == other.last());
        }
    }
    assert(one =~= other);
}

/// The same content imported a second time, under whatever name and whatever frames its blocks are
/// compressed to, adds no block, overwrites none, and gives a file with the compressed size and the
/// checksum of the first. Digests that collide are left out.
pub proof fn law_second_import_is_like_the_first(
    t: Tables,
    first: NewFile,
    second: NewFile,
    blocks: Seq<Seq<u8>>,
    first_frames: Seq<Seq<u8>>,
    second_frames: Seq<Seq<u8>>,
)
    requires
        crate::tables::linked(t),
        addable(t, first),
        addable(t, second),
        first.id != second.id,
        packed(blocks, first_frames),
        packed(blocks, second_frames),
        collision_free(t, blocks),
    ensures
        imported(t, first, blocks, first_frames) matches Some(u) && imported(
            u,
            second,
            blocks,
            second_frames,
        ) matches Some(w) && {
            &&& only_references_grew(u, w, blocks)
            &&& w.files[first.id] == u.files[first.id]
            &&& w.files[second.id] == (FileRow {
                name: second.name,
                size: second.size,
                created_at: second.created_at,
                folder_id: second.folder_id,
                ..w.files[first.id]
            })
        },
{
    let u = lemma_imported(t, first, blocks, first_frames);
    law_import_passes_check(t, first, blocks, first_frames);
    assert(crate::tables::block_count(u, first.id, blocks.len()));
    assert(crate::tables::measured(u, first.id));
    law_duplicate_is_like_its_copy(u, first.id, second, blocks, second_frames);
}

/// The empty archive is consistent.
pub proof fn law_new_archive_consistent()
    ensures
        crate::tables::consistent(crate::tables::new_tables()),
{
}

/// The deletion of a file, seen as a whole: whether the schema lets it happen, and what it leaves.
pub(crate) proof fn lemma_file_deleted(t: Tables, id: Uuid, sizes: (usize, usize))
    requires
        crate::tables::linked(t),
        crate::tables::all_referenced(t),
    ensures
        match crate::tables::run(t, crate::db::file_deletion(id, sizes)) {
            None => exists|h: Seq<u8>| #[trigger]
                crate::tables::uses(t, id, h) && t.chunks[h].refs <= 1,
            Some(u) => {
                &&& forall|h: Seq<u8>| #[trigger]
                    crate::tables::uses(t, id, h) ==> t.chunks[h].refs >= 2
                &&& u.files == t.files.remove(id)
                &&& u.folders == t.folders
                &&& u.links == crate::tables::links_among(t.links, u.files)
                &&& u.totals == (Totals {
                    files: t.totals.files - 1,
                    bytes: t.totals.bytes - sizes.0,
                    compressed: t.totals.compressed - sizes.1,
                })
                &&& u.chunks == crate::tables::referenced(
                    crate::tables::released(
                        t.chunks,
                        |h: Seq<u8>| crate::tables::uses(t, id, h),
                    ),
                )
            },
        },
{
    let changes = crate::db::file_deletion(id, sizes);
    lemma_run_four(t, changes);
    let used = |h: Seq<u8>| crate::tables::uses(t, id, h);
    let s = crate::tables::effect(t, changes[0])->Some_0;
    assert(s.chunks =~= crate::tables::released(t.chunks, used));
    match crate::tables::effect(s, changes[1]) {
        None => {
            let k = choose|k: (Uuid, int)| #[trigger]
                s.links.contains_key(k) && s.chunks.contains_key(s.links[k])
                    && s.chunks[s.links[k]].refs <= 0;
            let h = t.links[k];
            assert(crate::tables::uses(t, id, h) && t.chunks[h].refs <= 1);
        },
        Some(v) => {
            assert forall|h: Seq<u8>| #[trigger] crate::tables::uses(t, id, h) implies
                t.chunks[h].refs >= 2 by {
                let i = choose|i: int| #[trigger]
                    t.links.contains_key((id, i)) && t.links[(id, i)] == h;
                assert(s.links.contains_key((id, i)));
            }
        },
    }
}

/// The links to a block are finitely many where all links are.
proof fn lemma_links_finite(t: Tables, h: Seq<u8>)
    requires
        t.links.dom().finite(),
    ensures
        crate::tables::links_to(t, h).finite(),
{
    assert(crate::tables::links_to(t, h).subset_of(t.links.dom()));
    vstd::set_lib::lemma_len_subset(crate::tables::links_to(t, h), t.links.dom());
}

/// What a removal of files keeps, where the blocks they used lose one reference each and no block
/// with a link is dropped.
proof fn lemma_removal(t: Tables, u: Tables, used: spec_fn(Seq<u8>) -> bool)
    requires
        crate::tables::linked(t),
        crate::tables::references_cover(t),
        forall|id: Uuid| #[trigger]
            u.files.contains_key(id) ==> t.files.contains_key(id) && u.files[id] == t.files[id],
        u.links == crate::tables::links_among(t.links, u.files),
        u.chunks == crate::tables::referenced(crate::tables::released(t.chunks, used)),
        forall|h: Seq<u8>| #[trigger]
            used(h) ==> exists|k: (Uuid, int)| #[trigger]
                t.links.contains_key(k) && t.links[k] == h && !u.files.contains_key(k.0),
        forall|h: Seq<u8>| #[trigger] used(h) ==> t.chunks[h].refs >= 2,
    ensures
        crate::tables::references_cover(u),
        crate::tables::sound(t) ==> crate::tables::sound(u),
        forall|k: (Uuid, int)| #[trigger]
            u.links.contains_key(k) ==> u.files.contains_key(k.0) && u.chunks.contains_key(
                u.links[k],
            ),
        forall|id: Uuid, content: Seq<u8>|
            u.files.contains_key(id) && #[trigger] crate::tables::holds(t, id, content)
                ==> crate::tables::holds(u, id, content),
        crate::tables::sized(t) ==> crate::tables::sized(u),
{
    assert(u.links.dom().subset_of(t.links.dom()));
    vstd::set_lib::lemma_len_subset(u.links.dom(), t.links.dom());
    assert forall|h: Seq<u8>| #[trigger] u.chunks.contains_key(h) implies crate::tables::links_to(
        u,
        h,
    ).len() <= u.chunks[h].refs && u.chunks[h].refs > 0 by {
        let before = crate::tables::links_to(t, h);
        let after = crate::tables::links_to(u, h);
        lemma_links_finite(t, h);
        assert(after.subset_of(before));
        if used(h) {
            let k = choose|k: (Uuid, int)| #[trigger]
                t.links.contains_key(k) && t.links[k] == h && !u.files.contains_key(k.0);
            assert(before.contains(k));
            assert(after.subset_of(before.remove(k)));
            vstd::set_lib::lemma_len_subset(after, before.remove(k));
        } else {
            vstd::set_lib::lemma_len_subset(after, before);
        }
    }
    assert forall|k: (Uuid, int)| #[trigger] t.links.contains_key(k) implies u.chunks.contains_key(
        t.links[k],
    ) && u.chunks[t.links[k]].data == t.chunks[t.links[k]].data by {
        let h = t.links[k];
        lemma_links_finite(t, h);
        assert(crate::tables::links_to(t, h).contains(k));
        assert(t.chunks.contains_key(h));
    }
    assert forall|id: Uuid, content: Seq<u8>|
        u.files.contains_key(id) && #[trigger] crate::tables::holds(
            t,
            id,
            content,
        ) implies crate::tables::holds(u, id, content) by {
        lemma_file_kept(t, u, id);
    }
    if crate::tables::sized(t) {
        assert forall|id: Uuid| #[trigger]
            u.files.contains_key(id) implies crate::tables::measured(u, id) by {
            assert(crate::tables::measured(t, id));
            lemma_file_kept(t, u, id);
        }
    }
}

/// A file is deleted if and only if each of its blocks has a reference besides its own; where one
/// has not, the store would drop a block that the file is still linked to, and nothing is changed.
pub proof fn law_delete_needs_spare_references(t: Tables, id: Uuid, sizes: (usize, usize))
    requires
        crate::tables::linked(t),
        crate::tables::all_referenced(t),
    ensures
        crate::tables::run(t, crate::db::file_deletion(id, sizes)) is Some <==> forall|h: Seq<u8>|
            #[trigger]
            crate::tables::uses(t, id, h) ==> t.chunks[h].refs >= 2,
{
    lemma_file_deleted(t, id, sizes);
}

/// Whether tables are others without some of their files, and without blocks that no file needs:
/// what is left is sound, and every file that is left has the row and the content it had.
pub open spec fn shrunk(t: Tables, u: Tables) -> bool {
    &&& crate::tables::linked(u)
    &&& crate::tables::references_cover(u)
    &&& forall|id: Uuid| #[trigger]
        u.files.contains_key(id) ==> t.files.contains_key(id) && u.files[id] == t.files[id]
    &&& forall|h: Seq<u8>| #[trigger]
        u.chunks.contains_key(h) ==> t.chunks.contains_key(h) && u.chunks[h].data
            == t.chunks[h].data
    &&& forall|id: Uuid, content: Seq<u8>|
        u.files.contains_key(id) && #[trigger] crate::tables::holds(t, id, content)
            ==> crate::tables::holds(u, id, content)
    &&& crate::tables::sized(t) ==> crate::tables::sized(u)
    &&& u.links == crate::tables::links_among(t.links, u.files)
}

/// The deletion of a file only takes away.
pub(crate) proof fn lemma_file_deletion_shrinks(t: Tables, id: Uuid, sizes: (usize, usize))
    requires
        crate::tables::linked(t),
        crate::tables::references_cover(t),
    ensures
        crate::tables::run(t, crate::db::file_deletion(id, sizes)) matches Some(u) ==> {
            &&& shrunk(t, u)
            &&& u.files == t.files.remove(id)
        },
{
    lemma_file_deleted(t, id, sizes);
    if let Some(u) = crate::tables::run(t, crate::db::file_deletion(id, sizes)) {
        let used = |h: Seq<u8>| crate::tables::uses(t, id, h);
        assert forall|h: Seq<u8>| #[trigger] used(h) implies exists|k: (Uuid, int)| #[trigger]
            t.links.contains_key(k) && t.links[k] == h && !u.files.contains_key(k.0) by {
            let i = choose|i: int| #[trigger]
                t.links.contains_key((id, i)) && t.links[(id, i)] == h;
            assert(t.links.contains_key((id, i)) && !u.files.contains_key((id, i).0));
        }
        assert forall|h: Seq<u8>| #[trigger] used(h) implies t.chunks[h].refs >= 2 by {
            assert(crate::tables::uses(t, id, h));
        }
        lemma_removal(t, u, used);
    }
}

/// The deletion of a file takes out that file and nothing else: every other file has the row and
/// the content it had, and the archive stays consistent. The sizes are those of the file's row.
pub proof fn law_delete_keeps_others(t: Tables, id: Uuid, sizes: (usize, usize))
    requires
        crate::tables::consistent(t),
        t.files.contains_key(id),
        t.files[id].size == sizes.0,
        t.files[id].compressed_size == sizes.1,
    ensures
        crate::tables::run(t, crate::db::file_deletion(id, sizes)) matches Some(u) ==> {
            &&& u.files == t.files.remove(id)
            &&& u.folders == t.folders
            &&& crate::tables::consistent(u)
            &&& forall|other: Uuid, content: Seq<u8>|
                other != id && t.files.contains_key(other) && #[trigger] crate::tables::holds(
                    t,
                    other,
                    content,
                ) ==> crate::tables::holds(u, other, content)
        },
{
    lemma_file_deleted(t, id, sizes);
    lemma_file_deletion_shrinks(t, id, sizes);
    if let Some(u) = crate::tables::run(t, crate::db::file_deletion(id, sizes)) {
        lemma_total_remove(Measure::Files, t.files, id);
        lemma_total_remove(Measure::Bytes, t.files, id);
        lemma_total_remove(Measure::Compressed, t.files, id);
    }
}

/// A folder whose parent is in a tree is in the tree.
proof fn lemma_tree_child(t: Tables, root: Uuid, parent: Uuid, child: Uuid)
    requires
        crate::tables::in_tree(t, root, parent),
        t.folders.contains_key(child),
        t.folders[child].parent_id == Some(parent),
    ensures
        crate::tables::in_tree(t, root, child),
{
    let path = choose|path: Seq<Uuid>| crate::tables::descent(t, path, root, parent);
    assert(crate::tables::descent(t, path.push(child), root, child));
}

/// A tree depends on the folders alone.
proof fn lemma_same_tree(t: Tables, s: Tables, root: Uuid, folder: Uuid)
    requires
        s.folders == t.folders,
    ensures
        crate::tables::in_tree(s, root, folder) == crate::tables::in_tree(t, root, folder),
{
    if crate::tables::in_tree(t, root, folder) {
        let path = choose|path: Seq<Uuid>| crate::tables::descent(t, path, root, folder);
        assert(crate::tables::descent(s, path, root, folder));
    }
    if crate::tables::in_tree(s, root, folder) {
        let path = choose|path: Seq<Uuid>| crate::tables::descent(s, path, root, folder);
        assert(crate::tables::descent(t, path, root, folder));
    }
}

/// Whether a file in a tree uses a block.
pub open spec fn tree_uses(t: Tables, root: Uuid, hash: Seq<u8>) -> bool {
    exists|f: Uuid|
        crate::tables::file_in_tree(t, root, f) && #[trigger] crate::tables::uses(t, f, hash)
}

/// The deletion of a folder, seen as a whole: whether the schema lets it happen, and what it
/// leaves.
pub(crate) proof fn lemma_folder_deleted(t: Tables, id: Uuid)
    requires
        crate::tables::linked(t),
        crate::tables::all_referenced(t),
    ensures
        match crate::tables::run(t, crate::db::folder_deletion(id)) {
            None => exists|h: Seq<u8>| #[trigger]
                tree_uses(t, id, h) && t.chunks[h].refs <= 1,
            Some(u) => {
                &&& forall|h: Seq<u8>| #[trigger]
                    tree_uses(t, id, h) ==> t.chunks[h].refs >= 2
                &&& u.files == crate::tables::files_outside_tree(t, id)
                &&& u.folders == Map::new(
                    |f: Uuid| t.folders.contains_key(f) && !crate::tables::in_tree(t, id, f),
                    |f: Uuid| t.folders[f],
                )
                &&& u.links == crate::tables::links_among(t.links, u.files)
                &&& u.totals == (Totals {
                    files: t.totals.files - crate::tables::total(
                        Measure::Files,
                        crate::tables::files_in_tree(t, id),
                    ),
                    bytes: t.totals.bytes - crate::tables::total(
                        Measure::Bytes,
                        crate::tables::files_in_tree(t, id),
                    ),
                    compressed: t.totals.compressed - crate::tables::total(
                        Measure::Compressed,
                        crate::tables::files_in_tree(t, id),
                    ),
                })
                &&& u.chunks == crate::tables::referenced(
                    crate::tables::released(t.chunks, |h: Seq<u8>| tree_uses(t, id, h)),
                )
            },
        },
{
    let changes = crate::db::folder_deletion(id);
    lemma_run_four(t, changes);
    let used = |h: Seq<u8>| tree_uses(t, id, h);
    let r = crate::tables::effect(t, changes[0])->Some_0;
    let s = crate::tables::effect(r, changes[1])->Some_0;
    assert forall|root: Uuid, f: Uuid|
        crate::tables::in_tree(r, root, f) == crate::tables::in_tree(t, root, f) by {
        lemma_same_tree(t, r, root, f);
    }
    assert(s.chunks =~= crate::tables::released(t.chunks, used)) by {
        assert forall|h: Seq<u8>| t.chunks.contains_key(h) implies s.chunks[h]
            == crate::tables::released(t.chunks, used)[h] by {
            if tree_uses(t, id, h) {
                let f = choose|f: Uuid|
                    crate::tables::file_in_tree(t, id, f) && #[trigger] crate::tables::uses(
                        t,
                        f,
                        h,
                    );
                let i = choose|i: int| #[trigger]
                    t.links.contains_key((f, i)) && t.links[(f, i)] == h;
                assert(r.links.contains_key((f, i)));
                assert(crate::tables::file_in_tree(r, id, f) && crate::tables::uses(r, f, h));
            }
            if exists|f: Uuid|
                crate::tables::file_in_tree(r, id, f) && #[trigger] crate::tables::uses(r, f, h) {
                let f = choose|f: Uuid|
                    crate::tables::file_in_tree(r, id, f) && #[trigger] crate::tables::uses(
                        r,
                        f,
                        h,
                    );
                let i = choose|i: int| #[trigger]
                    r.links.contains_key((f, i)) && r.links[(f, i)] == h;
                assert(t.links.contains_key((f, i)));
                assert(crate::tables::file_in_tree(t, id, f) && crate::tables::uses(t, f, h));
            }
        }
    }
    match crate::tables::effect(s, changes[2]) {
        None => {
            let k = choose|k: (Uuid, int)| #[trigger]
                s.links.contains_key(k) && s.chunks.contains_key(s.links[k])
                    && s.chunks[s.links[k]].refs <= 0;
            let h = t.links[k];
            assert(tree_uses(t, id, h) && t.chunks[h].refs <= 1);
        },
        Some(v) => {
            assert forall|h: Seq<u8>| #[trigger] tree_uses(t, id, h) implies t.chunks[h].refs
                >= 2 by {
                let f = choose|f: Uuid|
                    crate::tables::file_in_tree(t, id, f) && #[trigger] crate::tables::uses(
                        t,
                        f,
                        h,
                    );
                let i = choose|i: int| #[trigger]
                    t.links.contains_key((f, i)) && t.links[(f, i)] == h;
                assert(s.links.contains_key((f, i)));
            }
            assert forall|root: Uuid, f: Uuid|
                crate::tables::in_tree(v, root, f) == crate::tables::in_tree(t, root, f) by {
                lemma_same_tree(t, v, root, f);
            }
            let u = crate::tables::effect(v, changes[3])->Some_0;
            assert(u.files =~= crate::tables::files_outside_tree(t, id));
            assert(u.folders =~= Map::new(
                |f: Uuid| t.folders.contains_key(f) && !crate::tables::in_tree(t, id, f),
                |f: Uuid| t.folders[f],
            ));
            assert(u.chunks =~= crate::tables::referenced(
                crate::tables::released(t.chunks, |h: Seq<u8>| tree_uses(t, id, h)),
            ));
        },
    }
}

/// A folder is deleted if and only if each block of a file in it or below it has a reference
/// besides those that the deletion takes back; otherwise nothing is changed.
pub proof fn law_folder_delete_needs_spare_references(t: Tables, id: Uuid)
    requires
        crate::tables::linked(t),
        crate::tables::all_referenced(t),
    ensures
        crate::tables::run(t, crate::db::folder_deletion(id)) is Some <==> forall|h: Seq<u8>|
            #[trigger]
            tree_uses(t, id, h) ==> t.chunks[h].refs >= 2,
{
    lemma_folder_deleted(t, id);
}

/// The deletion of a folder only takes away.
pub(crate) proof fn lemma_folder_deletion_shrinks(t: Tables, id: Uuid)
    requires
        crate::tables::linked(t),
        crate::tables::references_cover(t),
    ensures
        crate::tables::run(t, crate::db::folder_deletion(id)) matches Some(u) ==> {
            &&& shrunk(t, u)
            &&& u.files == crate::tables::files_outside_tree(t, id)
        },
{
    lemma_folder_deleted(t, id);
    if let Some(u) = crate::tables::run(t, crate::db::folder_deletion(id)) {
        let used = |h: Seq<u8>| tree_uses(t, id, h);
        assert forall|h: Seq<u8>| #[trigger] used(h) implies exists|k: (Uuid, int)| #[trigger]
            t.links.contains_key(k) && t.links[k] == h && !u.files.contains_key(k.0) by {
            let f = choose|f: Uuid|
                crate::tables::file_in_tree(t, id, f) && #[trigger] crate::tables::uses(t, f, h);
            let i = choose|i: int| #[trigger] t.links.contains_key((f, i)) && t.links[(f, i)] == h;
            assert(t.links.contains_key((f, i)) && !u.files.contains_key((f, i).0));
        }
        assert forall|h: Seq<u8>| #[trigger] used(h) implies t.chunks[h].refs >= 2 by {
            assert(tree_uses(t, id, h));
        }
        lemma_removal(t, u, used);
        assert forall|f: Uuid| #[trigger] u.folders.contains_key(f) implies (
        u.folders[f].parent_id matches Some(p) ==> u.folders.contains_key(p)) by {
            if let Some(p) = t.folders[f].parent_id {
                if crate::tables::in_tree(t, id, p) {
                    lemma_tree_child(t, id, p, f);
                }
            }
        }
    }
}

/// The deletion of a folder takes out the folder, those below it and the files in them, and nothing
/// else: every other file has the row and the content it had, and the archive stays consistent.
pub proof fn law_folder_delete_keeps_others(t: Tables, id: Uuid)
    requires
        crate::tables::consistent(t),
    ensures
        crate::tables::run(t, crate::db::folder_deletion(id)) matches Some(u) ==> {
            &&& u.files == crate::tables::files_outside_tree(t, id)
            &&& forall|f: Uuid| #[trigger]
                u.folders.contains_key(f) <==> t.folders.contains_key(f)
                    && !crate::tables::in_tree(t, id, f)
            &&& forall|f: Uuid| #[trigger]
                u.folders.contains_key(f) ==> u.folders[f] == t.folders[f]
            &&& crate::tables::consistent(u)
            &&& forall|other: Uuid, content: Seq<u8>|
                u.files.contains_key(other) && #[trigger] crate::tables::holds(t, other, content)
                    ==> crate::tables::holds(u, other, content)
        },
{
    lemma_folder_deleted(t, id);
    lemma_folder_deletion_shrinks(t, id);
    if let Some(u) = crate::tables::run(t, crate::db::folder_deletion(id)) {
        let gone = crate::tables::files_in_tree(t, id);
        lemma_total_split(Measure::Files, t.files, gone, u.files);
        lemma_total_split(Measure::Bytes, t.files, gone, u.files);
        lemma_total_split(Measure::Compressed, t.files, gone, u.files);
    }
}

/// A file keeps its content where the links and the blocks are as they were.
pub(crate) proof fn lemma_same_content(t: Tables, u: Tables, file_id: Uuid, content: Seq<u8>)
    requires
        u.links == t.links,
        u.chunks == t.chunks,
        crate::tables::holds(t, file_id, content),
    ensures
        crate::tables::holds(u, file_id, content),
{
    let n = choose|n: nat| #[trigger]
        crate::tables::block_count(t, file_id, n) && crate::tables::decompressed(
            crate::tables::stored_blocks(t, file_id, n),
        ) == Some(content);
    assert(crate::tables::block_count(u, file_id, n));
    assert(crate::tables::stored_blocks(u, file_id, n) =~= crate::tables::stored_blocks(
        t,
        file_id,
        n,
    ));
}

/// Compressed sizes stay right where the links, the blocks and the sizes are as they were.
pub(crate) proof fn lemma_same_sizes(t: Tables, u: Tables)
    requires
        u.links == t.links,
        u.chunks == t.chunks,
        forall|id: Uuid| #[trigger]
            u.files.contains_key(id) ==> t.files.contains_key(id) && u.files[id].compressed_size
                == t.files[id].compressed_size,
        crate::tables::sized(t),
    ensures
        crate::tables::sized(u),
{
    assert forall|id: Uuid| #[trigger]
        u.files.contains_key(id) implies crate::tables::measured(u, id) by {
        assert(crate::tables::measured(t, id));
        lemma_file_kept(t, u, id);
    }
}

/// References are covered where the links and the blocks are as they were.
pub(crate) proof fn lemma_same_references(t: Tables, u: Tables)
    requires
        u.links == t.links,
        u.chunks == t.chunks,
        crate::tables::references_cover(t),
    ensures
        crate::tables::references_cover(u),
{
    assert forall|h: Seq<u8>| #[trigger] u.chunks.contains_key(h) implies crate::tables::links_to(
        u,
        h,
    ).len() <= u.chunks[h].refs && u.chunks[h].refs > 0 by {
        assert(crate::tables::links_to(u, h) =~= crate::tables::links_to(t, h));
    }
}

/// A file that is renamed has its new name, and all else of it and of the archive stays.
pub proof fn law_rename_keeps_content(t: Tables, id: Uuid, name: Seq<char>)
    requires
        crate::tables::consistent(t),
        t.files.contains_key(id),
    ensures
        crate::tables::effect(t, Change::RenameFile { id, name }) matches Some(u) && {
            &&& u.files == t.files.insert(id, FileRow { name, ..t.files[id] })
            &&& u.folders == t.folders
            &&& crate::tables::consistent(u)
            &&& forall|file_id: Uuid, content: Seq<u8>| #[trigger]
                crate::tables::holds(t, file_id, content) ==> crate::tables::holds(
                    u,
                    file_id,
                    content,
                )
        },
{
    let u = crate::tables::effect(t, Change::RenameFile { id, name })->Some_0;
    let row = FileRow { name, ..t.files[id] };
    lemma_same_references(t, u);
    lemma_same_sizes(t, u);
    lemma_total_insert(Measure::Files, t.files, id, row);
    lemma_total_insert(Measure::Bytes, t.files, id, row);
    lemma_total_insert(Measure::Compressed, t.files, id, row);
    lemma_total_remove(Measure::Files, t.files, id);
    lemma_total_remove(Measure::Bytes, t.files, id);
    lemma_total_remove(Measure::Compressed, t.files, id);
    assert forall|file_id: Uuid, content: Seq<u8>| #[trigger]
        crate::tables::holds(t, file_id, content) implies crate::tables::holds(
        u,
        file_id,
        content,
    ) by {
        lemma_same_content(t, u, file_id, content);
    }
}

/// A folder that is renamed has its new name and its old place, and the files stay as they are.
pub proof fn law_folder_rename_keeps_files(t: Tables, id: Uuid, name: Seq<char>)
    requires
        crate::tables::consistent(t),
        t.folders.contains_key(id),
    ensures
        crate::tables::effect(t, Change::RenameFolder { id, name }) matches Some(u) && {
            &&& u.folders == t.folders.insert(id, FolderRow { name, ..t.folders[id] })
            &&& u.files == t.files
            &&& crate::tables::consistent(u)
            &&& forall|file_id: Uuid, content: Seq<u8>| #[trigger]
                crate::tables::holds(t, file_id, content) ==> crate::tables::holds(
                    u,
                    file_id,
                    content,
                )
        },
{
    let u = crate::tables::effect(t, Change::RenameFolder { id, name })->Some_0;
    lemma_same_references(t, u);
    lemma_same_sizes(t, u);
    assert forall|file_id: Uuid, content: Seq<u8>| #[trigger]
        crate::tables::holds(t, file_id, content) implies crate::tables::holds(
        u,
        file_id,
        content,
    ) by {
        lemma_same_content(t, u, file_id, content);
    }
}

/// A folder is made where its identifier is free and its parent is there, and the files stay as
/// they are.
pub proof fn law_new_folder_keeps_files(
    t: Tables,
    id: Uuid,
    name: Seq<char>,
    parent_id: Option<Uuid>,
)
    requires
        crate::tables::consistent(t),
        !t.folders.contains_key(id),
        parent_id matches Some(p) ==> t.folders.contains_key(p),
    ensures
        crate::tables::effect(t, Change::InsertFolder { id, name, parent_id }) matches Some(u) && {
            &&& u.folders == t.folders.insert(id, FolderRow { name, parent_id })
            &&& u.files == t.files
            &&& crate::tables::consistent(u)
            &&& forall|file_id: Uuid, content: Seq<u8>| #[trigger]
                crate::tables::holds(t, file_id, content) ==> crate::tables::holds(
                    u,
                    file_id,
                    content,
                )
        },
{
    let u = crate::tables::effect(t, Change::InsertFolder { id, name, parent_id })->Some_0;
    lemma_same_references(t, u);
    lemma_same_sizes(t, u);
    assert forall|file_id: Uuid, content: Seq<u8>| #[trigger]
        crate::tables::holds(t, file_id, content) implies crate::tables::holds(
        u,
        file_id,
        content,
    ) by {
        lemma_same_content(t, u, file_id, content);
    }
}

/// Rows that hold some blocks give what the blocks decompress to.
pub(crate) proof fn lemma_rows_decompress(rows: Seq<Vec<Cell>>, blocks: Seq<Seq<u8>>)
    requires
        rows.len() == blocks.len(),
        forall|i: int|
            0 <= i < rows.len() ==> crate::sql::blob_in(#[trigger] rows[i]@, 0) == Ok::<
                Seq<u8>,
                DbError,
            >(blocks[i]),
    ensures
        crate::export::read_back(rows) == crate::tables::decompressed(blocks),
    decreases rows.len(),
{
    if rows.len() > 0 {
        let front = rows.drop_last();
        assert forall|i: int| 0 <= i < front.len() implies crate::sql::blob_in(
            #[trigger] front[i]@,
            0,
        ) == Ok::<Seq<u8>, DbError>(blocks.drop_last()[i]) by {
            assert(front[i] == rows[i]);
        }
        lemma_rows_decompress(front, blocks.drop_last());
        assert(rows.last() == rows[rows.len() - 1]);
    }
}

/// The rows of the stored blocks of a file, in order, give the content of the file.
pub proof fn law_rows_give_content(
    t: Tables,
    file_id: Uuid,
    n: nat,
    rows: Seq<Vec<Cell>>,
    content: Seq<u8>,
)
    requires
        crate::tables::block_count(t, file_id, n),
        crate::tables::holds(t, file_id, content),
        rows.len() == n,
        forall|i: int|
            0 <= i < n ==> crate::sql::blob_in(#[trigger] rows[i]@, 0) == Ok::<Seq<u8>, DbError>(
                crate::tables::stored_blocks(t, file_id, n)[i],
            ),
    ensures
        crate::export::read_back(rows) == Some(content),
{
    let m = choose|m: nat| #[trigger]
        crate::tables::block_count(t, file_id, m) && crate::tables::decompressed(
            crate::tables::stored_blocks(t, file_id, m),
        ) == Some(content);
    assert(t.links.contains_key((file_id, n as int)) <==> n < m);
    assert(t.links.contains_key((file_id, m as int)) <==> m < n);
    assert(n == m);
    lemma_rows_decompress(rows, crate::tables::stored_blocks(t, file_id, n));
}

/// An import counts a reference for every occurrence of a block: what is counted of each block grows
/// by as many as the file has blocks of its digest. Where references were exactly the links, they
/// stay so.
pub proof fn law_import_counts_references(
    t: Tables,
    file: NewFile,
    blocks: Seq<Seq<u8>>,
    frames: Seq<Seq<u8>>,
)
    requires
        crate::tables::linked(t),
        addable(t, file),
        packed(blocks, frames),
    ensures
        imported(t, file, blocks, frames) matches Some(u) && {
            &&& forall|h: Seq<u8>| #[trigger]
                crate::tables::references(u, h) == crate::tables::references(t, h) + occurrences(
                    blocks,
                    h,
                )
            &&& crate::tables::references_exact(t) ==> crate::tables::references_exact(u)
        },
{
    let u = lemma_imported(t, file, blocks, frames);
    if crate::tables::references_exact(t) {
        assert forall|h: Seq<u8>| crate::tables::references(u, h)
            == #[trigger] crate::tables::links_to(u, h).len() by {
            assert(crate::tables::references(t, h) == crate::tables::links_to(t, h).len());
        }
    }
}

/// Whether no two blocks have the same digest.
pub open spec fn digests_differ(blocks: Seq<Seq<u8>>) -> bool {
    forall|i: int, j: int|
        0 <= i < j < blocks.len() ==> crate::digest::blake3_digest(#[trigger] blocks[i])
            != crate::digest::blake3_digest(#[trigger] blocks[j])
}

/// Among blocks with different digests each digest occurs once.
proof fn lemma_occurs_once(blocks: Seq<Seq<u8>>, hash: Seq<u8>)
    requires
        digests_differ(blocks),
    ensures
        occurrences(blocks, hash) == (if exists|i: int|
            0 <= i < blocks.len() && crate::digest::blake3_digest(#[trigger] blocks[i]) == hash {
            1nat
        } else {
            0nat
        }),
    decreases blocks.len(),
{
    if blocks.len() > 0 {
        let front = blocks.drop_last();
        assert forall|i: int, j: int| 0 <= i < j < front.len() implies crate::digest::blake3_digest(
            #[trigger] front[i],
        ) != crate::digest::blake3_digest(#[trigger] front[j]) by {
            assert(front[i] == blocks[i] && front[j] == blocks[j]);
        }
        lemma_occurs_once(front, hash);
        let last = blocks.len() - 1;
        if crate::digest::blake3_digest(blocks[last]) == hash {
            if exists|i: int|
                0 <= i < front.len() && crate::digest::blake3_digest(#[trigger] front[i]) == hash {
                let i = choose|i: int|
                    0 <= i < front.len() && crate::digest::blake3_digest(#[trigger] front[i])
                        == hash;
                assert(front[i] == blocks[i]);
                assert(crate::digest::blake3_digest(blocks[i]) != crate::digest::blake3_digest(
                    blocks[last],
                ));
            }
        } else {
            if exists|i: int|
                0 <= i < blocks.len() && crate::digest::blake3_digest(#[trigger] blocks[i])
                    == hash {
                let i = choose|i: int|
                    0 <= i < blocks.len() && crate::digest::blake3_digest(#[trigger] blocks[i])
                        == hash;
                assert(front[i] == blocks[i]);
            }
            if exists|i: int|
                0 <= i < front.len() && crate::digest::blake3_digest(#[trigger] front[i]) == hash {
                let i = choose|i: int|
                    0 <= i < front.len() && crate::digest::blake3_digest(#[trigger] front[i])
                        == hash;
                assert(front[i] == blocks[i]);
            }
        }
    }
}

/// The deletion of a duplicate undoes its import: where every block of the file was stored before,
/// and no two of them have the same digest, the tables are as they were. The sizes are those of the
/// file's row.
pub proof fn law_delete_undoes_duplicate(
    t: Tables,
    file: NewFile,
    blocks: Seq<Seq<u8>>,
    frames: Seq<Seq<u8>>,
    sizes: (usize, usize),
)
    requires
        crate::tables::linked(t),
        crate::tables::all_referenced(t),
        addable(t, file),
        packed(blocks, frames),
        digests_differ(blocks),
        forall|i: int|
            0 <= i < blocks.len() ==> t.chunks.contains_key(
                crate::digest::blake3_digest(#[trigger] blocks[i]),
            ),
        imported(t, file, blocks, frames) matches Some(u) && {
            &&& u.files[file.id].size == sizes.0
            &&& u.files[file.id].compressed_size == sizes.1
        },
    ensures
        imported(t, file, blocks, frames) matches Some(u) && crate::tables::run(
            u,
            crate::db::file_deletion(file.id, sizes),
        ) == Some(t),
{
    let u = lemma_imported(t, file, blocks, frames);
    assert forall|h: Seq<u8>| #[trigger] crate::tables::uses(u, file.id, h) <==> occurrences(
        blocks,
        h,
    ) == 1 by {
        lemma_occurs_once(blocks, h);
        if crate::tables::uses(u, file.id, h) {
            let i = choose|i: int| #[trigger]
                u.links.contains_key((file.id, i)) && u.links[(file.id, i)] == h;
            assert(crate::digest::blake3_digest(blocks[i]) == h);
        }
        if occurrences(blocks, h) == 1 {
            let i = choose|i: int|
                0 <= i < blocks.len() && crate::digest::blake3_digest(#[trigger] blocks[i]) == h;
            assert(u.links.contains_key((file.id, i)) && u.links[(file.id, i)] == h);
        }
    }
    assert forall|h: Seq<u8>| occurrences(blocks, h) <= 1 by {
        lemma_occurs_once(blocks, h);
    }
    assert forall|h: Seq<u8>| #[trigger] u.chunks.contains_key(h) <==> t.chunks.contains_key(h) by {
    }
    assert forall|h: Seq<u8>| #[trigger] t.chunks.contains_key(h) implies u.chunks[h].refs
        == t.chunks[h].refs + occurrences(blocks, h) by {
        assert(crate::tables::references(u, h) == crate::tables::references(t, h) + occurrences(
            blocks,
            h,
        ));
    }
    assert(crate::tables::all_referenced(u));
    lemma_file_deleted(u, file.id, sizes);
    match crate::tables::run(u, crate::db::file_deletion(file.id, sizes)) {
        None => {
            let h = choose|h: Seq<u8>| #[trigger]
                crate::tables::uses(u, file.id, h) && u.chunks[h].refs <= 1;
            let i = choose|i: int| #[trigger]
                u.links.contains_key((file.id, i)) && u.links[(file.id, i)] == h;
            assert(crate::digest::blake3_digest(blocks[i]) == h);
            assert(t.chunks.contains_key(h));
        },
        Some(w) => {
            assert(w.files =~= t.files);
            assert(w.links =~= t.links) by {
                assert forall|k: (Uuid, int)| #[trigger]
                    w.links.contains_key(k) <==> t.links.contains_key(k) by {
                    if k.0 != file.id {
                        assert(u.links.contains_key(k) <==> t.links.contains_key(k));
                    }
                }
                assert forall|k: (Uuid, int)| #[trigger] t.links.contains_key(k) implies w.links[k]
                    == t.links[k] by {
                    assert(k.0 != file.id);
                    assert(u.links.contains_key(k));
                }
            }
            assert(w.chunks =~= t.chunks) by {
                assert forall|h: Seq<u8>| #[trigger] t.chunks.contains_key(h) implies
                    w.chunks.contains_key(h) && w.chunks[h] == t.chunks[h] by {
                    assert(occurrences(blocks, h) <= 1);
                    assert(crate::tables::uses(u, file.id, h) <==> occurrences(blocks, h) == 1);
                }
            }
        },
    }
}

} // verus!
