//! The laws of an archive over any run of its operations.
use crate::changes::Change;
use crate::ident::Uuid;
use crate::laws::NewFile;
use crate::tables::{FileRow, Tables};
use vstd::prelude::*;

verus! {

/// One operation on an archive.
pub enum Step {
    Import { file: NewFile, blocks: Seq<Seq<u8>>, frames: Seq<Seq<u8>> },
    NewFolder { id: Uuid, name: Seq<char>, parent_id: Option<Uuid> },
    RenameFile { id: Uuid, name: Seq<char> },
    RenameFolder { id: Uuid, name: Seq<char> },
    DeleteFile { id: Uuid, sizes: (usize, usize) },
    DeleteFolder { id: Uuid },
}

/// The tables after an operation, or nothing where it is refused.
pub open spec fn outcome(t: Tables, step: Step) -> Option<Tables> {
    match step {
        Step::Import { file, blocks, frames } => crate::laws::imported(t, file, blocks, frames),
        Step::NewFolder { id, name, parent_id } => crate::tables::effect(
            t,
            Change::InsertFolder { id, name, parent_id },
        ),
        Step::RenameFile { id, name } => crate::tables::effect(t, Change::RenameFile { id, name }),
        Step::RenameFolder { id, name } => crate::tables::effect(
            t,
            Change::RenameFolder { id, name },
        ),
        Step::DeleteFile { id, sizes } => crate::tables::run(
            t,
            crate::db::file_deletion(id, sizes),
        ),
        Step::DeleteFolder { id } => crate::tables::run(t, crate::db::folder_deletion(id)),
    }
}

/// The tables after an operation was tried: one that is refused changes nothing.
pub open spec fn after(t: Tables, step: Step) -> Tables {
    match outcome(t, step) {
        Some(u) => u,
        None => t,
    }
}

/// The tables after some operations were tried, one after the other.
pub open spec fn after_all(t: Tables, steps: Seq<Step>) -> Tables
    decreases steps.len(),
{
    if steps.len() == 0 {
        t
    } else {
        after(after_all(t, steps.drop_last()), steps.last())
    }
}

/// Whether the blocks that an operation imports are from a pool, each with a frame that decompresses
/// to it.
pub open spec fn draws_from(step: Step, pool: Set<Seq<u8>>) -> bool {
    match step {
        Step::Import { file, blocks, frames } => {
            &&& crate::laws::packed(blocks, frames)
            &&& forall|i: int| 0 <= i < blocks.len() ==> pool.contains(#[trigger] blocks[i])
        },
        _ => true,
    }
}

/// Whether no two blocks of a pool have the same digest.
pub open spec fn told_apart(pool: Set<Seq<u8>>) -> bool {
    forall|a: Seq<u8>, b: Seq<u8>|
        #![trigger pool.contains(a), pool.contains(b)]
        pool.contains(a) && pool.contains(b) && crate::digest::blake3_digest(a)
            == crate::digest::blake3_digest(b) ==> a == b
}

/// Whether every stored block decompresses to the block of a pool that has its digest.
pub open spec fn stored_from(t: Tables, pool: Set<Seq<u8>>) -> bool {
    forall|h: Seq<u8>| #[trigger]
        t.chunks.contains_key(h) ==> (crate::codec::zstd_decoded(t.chunks[h].data) matches Some(
            raw,
        ) && crate::digest::blake3_digest(raw) == h && pool.contains(raw))
}

/// Whether every file passes the check of its content.
pub open spec fn all_pass(t: Tables) -> bool {
    forall|id: Uuid| #[trigger] t.files.contains_key(id) ==> crate::laws::passes_check(t, id)
}

/// What holds of an archive whose blocks are from a pool, whatever was done to it.
pub open spec fn intact(t: Tables, pool: Set<Seq<u8>>) -> bool {
    &&& crate::tables::linked(t)
    &&& crate::tables::references_cover(t)
    &&& crate::tables::sized(t)
    &&& stored_from(t, pool)
    &&& all_pass(t)
}

/// Whether the files that both tables have kept their contents, their checksums and their sizes.
pub open spec fn contents_kept(t: Tables, u: Tables) -> bool {
    forall|id: Uuid, content: Seq<u8>|
        t.files.contains_key(id) && u.files.contains_key(id) && #[trigger] crate::tables::holds(
            t,
            id,
            content,
        ) ==> {
            &&& crate::tables::holds(u, id, content)
            &&& u.files[id].checksum == t.files[id].checksum
            &&& u.files[id].size == t.files[id].size
        }
}

/// Whether the files that both tables have kept their blocks in their places.
pub open spec fn places_kept(t: Tables, u: Tables) -> bool {
    forall|id: Uuid, blocks: Seq<Seq<u8>>|
        t.files.contains_key(id) && u.files.contains_key(id) && #[trigger] crate::laws::in_place(
            t,
            id,
            blocks,
        ) ==> crate::laws::in_place(u, id, blocks)
}

/// Files keep their places where their links are as they were.
proof fn lemma_places_kept(t: Tables, u: Tables)
    requires
        crate::tables::linked(u),
        forall|k: (Uuid, int)|
            t.files.contains_key(k.0) && u.files.contains_key(k.0) ==> (
            #[trigger] u.links.contains_key(k) <==> t.links.contains_key(k)),
        forall|k: (Uuid, int)| #[trigger]
            u.links.contains_key(k) && t.links.contains_key(k) ==> u.links[k] == t.links[k],
    ensures
        places_kept(t, u),
{
    assert forall|id: Uuid, blocks: Seq<Seq<u8>>|
        t.files.contains_key(id) && u.files.contains_key(id) && #[trigger] crate::laws::in_place(
            t,
            id,
            blocks,
        ) implies crate::laws::in_place(u, id, blocks) by {
        assert forall|i: int| #[trigger]
            u.links.contains_key((id, i)) <==> 0 <= i < blocks.len() by {
            assert(u.files.contains_key((id, i).0));
            assert(t.links.contains_key((id, i)) <==> 0 <= i < blocks.len());
        }
        assert forall|i: int| 0 <= i < blocks.len() implies {
            let hash = crate::digest::blake3_digest(#[trigger] blocks[i]);
            &&& u.links[(id, i)] == hash
            &&& u.chunks.contains_key(hash)
        } by {
            assert(t.links[(id, i)] == crate::digest::blake3_digest(blocks[i]));
            assert(u.links.contains_key((id, i)) && t.links.contains_key((id, i)));
        }
    }
}

/// Whether an operation is the deletion of a file, or that of a folder it lies in.
pub open spec fn deletes(t: Tables, step: Step, file_id: Uuid) -> bool {
    match step {
        Step::DeleteFile { id, .. } => id == file_id,
        Step::DeleteFolder { id } => crate::tables::file_in_tree(t, id, file_id),
        _ => false,
    }
}

/// Whether an operation imports a file under an identifier.
pub open spec fn imports(step: Step, file_id: Uuid) -> bool {
    step matches Step::Import { file, .. } && file.id == file_id
}

/// Files that keep their contents and checksums pass their checks as they did.
proof fn lemma_kept_pass(t: Tables, u: Tables)
    requires
        all_pass(t),
        contents_kept(t, u),
        forall|id: Uuid| #[trigger] u.files.contains_key(id) ==> t.files.contains_key(id),
    ensures
        all_pass(u),
{
    assert forall|id: Uuid| #[trigger] u.files.contains_key(id) implies crate::laws::passes_check(
        u,
        id,
    ) by {
        assert(crate::laws::passes_check(t, id));
        let content = choose|content: Seq<u8>| #[trigger]
            crate::tables::holds(t, id, content) && crate::digest::blake3_digest(content)
                == t.files[id].checksum;
        assert(crate::tables::holds(u, id, content));
    }
}

/// An import keeps an archive intact.
proof fn lemma_import_intact(
    t: Tables,
    pool: Set<Seq<u8>>,
    file: NewFile,
    blocks: Seq<Seq<u8>>,
    frames: Seq<Seq<u8>>,
)
    requires
        intact(t, pool),
        told_apart(pool),
        crate::laws::addable(t, file),
        draws_from(Step::Import { file, blocks, frames }, pool),
    ensures
        crate::laws::imported(t, file, blocks, frames) matches Some(u) && {
            &&& intact(u, pool)
            &&& contents_kept(t, u)
            &&& places_kept(t, u)
            &&& crate::laws::in_place(u, file.id, blocks)
            &&& u.files.dom() == t.files.dom().insert(file.id)
            &&& u.files[file.id].size == file.size
            &&& crate::tables::holds(u, file.id, crate::tables::joined(blocks))
        },
{
    assert(crate::laws::collision_free(t, blocks)) by {
        assert forall|i: int|
            0 <= i < blocks.len() && t.chunks.contains_key(
                crate::digest::blake3_digest(#[trigger] blocks[i]),
            ) implies crate::codec::zstd_decoded(
            t.chunks[crate::digest::blake3_digest(blocks[i])].data,
        ) == Some(blocks[i]) by {
            let h = crate::digest::blake3_digest(blocks[i]);
            let raw = crate::codec::zstd_decoded(t.chunks[h].data)->Some_0;
            assert(pool.contains(raw) && pool.contains(blocks[i]));
        }
        assert forall|i: int, j: int|
            0 <= i < blocks.len() && 0 <= j < blocks.len() && crate::digest::blake3_digest(
                #[trigger] blocks[i],
            ) == crate::digest::blake3_digest(#[trigger] blocks[j]) implies blocks[i]
            == blocks[j] by {
            assert(pool.contains(blocks[i]) && pool.contains(blocks[j]));
        }
    }
    let u = crate::laws::lemma_imported(t, file, blocks, frames);
    crate::laws::law_export_returns_import(t, file, blocks, frames);
    crate::laws::law_import_passes_check(t, file, blocks, frames);
    assert(u.files.dom() =~= t.files.dom().insert(file.id));
    assert(contents_kept(t, u));
    lemma_places_kept(t, u);
    assert forall|h: Seq<u8>| #[trigger] u.chunks.contains_key(h) implies (
    crate::codec::zstd_decoded(u.chunks[h].data) matches Some(raw)
        && crate::digest::blake3_digest(raw) == h && pool.contains(raw)) by {
        if !t.chunks.contains_key(h) {
            let i = choose|i: int|
                0 <= i < blocks.len() && h == crate::digest::blake3_digest(#[trigger] blocks[i]);
            assert(crate::codec::zstd_decoded(
                u.chunks[crate::digest::blake3_digest(blocks[i])].data,
            ) == Some(blocks[i]));
            assert(pool.contains(blocks[i]));
        }
    }
    assert forall|id: Uuid| #[trigger] u.files.contains_key(id) implies crate::laws::passes_check(
        u,
        id,
    ) by {
        if id != file.id {
            assert(t.files.contains_key(id));
            assert(crate::laws::passes_check(t, id));
            let content = choose|content: Seq<u8>| #[trigger]
                crate::tables::holds(t, id, content) && crate::digest::blake3_digest(content)
                    == t.files[id].checksum;
            assert(crate::tables::holds(u, id, content));
        }
    }
}

/// Every operation, done or refused, keeps an archive intact and the contents of its files, and only
/// a deletion takes a file away.
proof fn lemma_step(t: Tables, pool: Set<Seq<u8>>, step: Step)
    requires
        intact(t, pool),
        told_apart(pool),
        draws_from(step, pool),
    ensures
        intact(after(t, step), pool),
        contents_kept(t, after(t, step)),
        places_kept(t, after(t, step)),
        forall|id: Uuid| #[trigger]
            after(t, step).files.contains_key(id) ==> t.files.contains_key(id) || imports(step, id),
        forall|id: Uuid| #[trigger]
            t.files.contains_key(id) && !deletes(t, step, id) ==> after(
                t,
                step,
            ).files.contains_key(id),
{
    let u = after(t, step);
    match step {
        Step::Import { file, blocks, frames } => {
            if crate::laws::addable(t, file) {
                lemma_import_intact(t, pool, file, blocks, frames);
                assert forall|id: Uuid| #[trigger] u.files.contains_key(id) implies
                    t.files.contains_key(id) || imports(step, id) by {
                    assert(u.files.dom().contains(id));
                }
                assert forall|id: Uuid| #[trigger] t.files.contains_key(id) implies
                    u.files.contains_key(id) by {
                    assert(u.files.dom().contains(id));
                }
            }
        },
        Step::DeleteFile { id, sizes } => {
            crate::laws::lemma_file_deletion_shrinks(t, id, sizes);
            lemma_kept_pass(t, u);
            lemma_places_kept(t, u);
        },
        Step::DeleteFolder { id } => {
            crate::laws::lemma_folder_deletion_shrinks(t, id);
            lemma_kept_pass(t, u);
            lemma_places_kept(t, u);
        },
        _ => {
            assert(u.links == t.links && u.chunks == t.chunks);
            crate::laws::lemma_same_references(t, u);
            crate::laws::lemma_same_sizes(t, u);
            assert forall|id: Uuid, content: Seq<u8>|
                t.files.contains_key(id) && u.files.contains_key(id)
                    && #[trigger] crate::tables::holds(t, id, content) implies {
                &&& crate::tables::holds(u, id, content)
                &&& u.files[id].checksum == t.files[id].checksum
                &&& u.files[id].size == t.files[id].size
            } by {
                crate::laws::lemma_same_content(t, u, id, content);
            }
            lemma_kept_pass(t, u);
            lemma_places_kept(t, u);
        },
    }
}

/// Whether all operations of a run draw their blocks from a pool.
pub open spec fn all_draw_from(steps: Seq<Step>, pool: Set<Seq<u8>>) -> bool {
    forall|i: int| 0 <= i < steps.len() ==> draws_from(#[trigger] steps[i], pool)
}

/// A run keeps an archive intact.
proof fn lemma_run_intact(t: Tables, pool: Set<Seq<u8>>, steps: Seq<Step>)
    requires
        intact(t, pool),
        told_apart(pool),
        all_draw_from(steps, pool),
    ensures
        intact(after_all(t, steps), pool),
    decreases steps.len(),
{
    if steps.len() > 0 {
        let front = steps.drop_last();
        assert forall|i: int| 0 <= i < front.len() implies draws_from(
            #[trigger] front[i],
            pool,
        ) by {
            assert(front[i] == steps[i]);
        }
        lemma_run_intact(t, pool, front);
        assert(draws_from(steps[steps.len() - 1], pool));
        lemma_step(after_all(t, front), pool, steps.last());
    }
}

/// In every archive that some operations, each done or refused, made of a new one, every file passes
/// the check of its content: no import, rename or deletion of one file makes another fail, though
/// they share blocks. Blocks whose digests collide are left out.
pub proof fn law_every_file_passes(steps: Seq<Step>, pool: Set<Seq<u8>>)
    requires
        told_apart(pool),
        all_draw_from(steps, pool),
    ensures
        forall|id: Uuid| #[trigger]
            after_all(crate::tables::new_tables(), steps).files.contains_key(id)
                ==> crate::laws::passes_check(after_all(crate::tables::new_tables(), steps), id),
{
    lemma_run_intact(crate::tables::new_tables(), pool, steps);
}

/// Whether a run neither deletes a file itself nor imports another under its identifier.
pub open spec fn leaves_alone(steps: Seq<Step>, file_id: Uuid) -> bool {
    forall|i: int|
        0 <= i < steps.len() ==> !imports(#[trigger] steps[i], file_id) && !(
        steps[i] matches Step::DeleteFile { id, .. } && id == file_id)
}

/// Whether a run, on some tables, never tries to delete a folder that a file lies in.
pub open spec fn spares_folders(t: Tables, steps: Seq<Step>, file_id: Uuid) -> bool {
    forall|i: int|
        0 <= i < steps.len() ==> !(#[trigger] steps[i] matches Step::DeleteFolder { id }
            && crate::tables::file_in_tree(
            after_all(t, steps.subrange(0, i)),
            id,
            file_id,
        ))
}

/// A file keeps its content through a run that leaves it alone.
proof fn lemma_run_keeps_content(
    t: Tables,
    pool: Set<Seq<u8>>,
    steps: Seq<Step>,
    file_id: Uuid,
    content: Seq<u8>,
)
    requires
        intact(t, pool),
        told_apart(pool),
        all_draw_from(steps, pool),
        leaves_alone(steps, file_id),
        t.files.contains_key(file_id),
        crate::tables::holds(t, file_id, content),
    ensures
        intact(after_all(t, steps), pool),
        after_all(t, steps).files.contains_key(file_id) ==> {
            &&& crate::tables::holds(after_all(t, steps), file_id, content)
            &&& after_all(t, steps).files[file_id].size == t.files[file_id].size
        },
        forall|blocks: Seq<Seq<u8>>| #[trigger]
            crate::laws::in_place(t, file_id, blocks) && after_all(t, steps).files.contains_key(
                file_id,
            ) ==> crate::laws::in_place(after_all(t, steps), file_id, blocks),
        spares_folders(t, steps, file_id) ==> after_all(t, steps).files.contains_key(file_id),
    decreases steps.len(),
{
    if steps.len() > 0 {
        let front = steps.drop_last();
        let last = steps[steps.len() - 1];
        assert forall|i: int| 0 <= i < front.len() implies draws_from(
            #[trigger] front[i],
            pool,
        ) by {
            assert(front[i] == steps[i]);
        }
        assert forall|i: int| 0 <= i < front.len() implies !imports(#[trigger] front[i], file_id)
            && !(front[i] matches Step::DeleteFile { id, .. } && id == file_id) by {
            assert(front[i] == steps[i]);
        }
        lemma_run_keeps_content(t, pool, front, file_id, content);
        let s = after_all(t, front);
        assert(draws_from(last, pool));
        assert(!imports(last, file_id));
        lemma_step(s, pool, last);
        if spares_folders(t, steps, file_id) {
            assert forall|i: int| 0 <= i < front.len() implies !(
            #[trigger] front[i] matches Step::DeleteFolder { id } && crate::tables::file_in_tree(
                after_all(t, front.subrange(0, i)),
                id,
                file_id,
            )) by {
                assert(front[i] == steps[i]);
                assert(front.subrange(0, i) =~= steps.subrange(0, i));
            }
            assert(steps.subrange(0, steps.len() - 1) =~= front);
            assert(!deletes(s, last, file_id));
        }
    }
}

/// A file is exported as it was imported after any run of other operations, each done or refused:
/// for as long as it is in the archive its content is that of its blocks. It stays there unless it
/// is deleted itself or with a folder that it lies in. Blocks whose digests collide are left out.
pub proof fn law_export_returns_import_later(
    t: Tables,
    pool: Set<Seq<u8>>,
    file: NewFile,
    blocks: Seq<Seq<u8>>,
    frames: Seq<Seq<u8>>,
    steps: Seq<Step>,
)
    requires
        intact(t, pool),
        told_apart(pool),
        crate::laws::addable(t, file),
        draws_from(Step::Import { file, blocks, frames }, pool),
        all_draw_from(steps, pool),
        leaves_alone(steps, file.id),
    ensures
        crate::laws::imported(t, file, blocks, frames) matches Some(u) && {
            let w = after_all(u, steps);
            &&& w.files.contains_key(file.id) ==> crate::tables::holds(
                w,
                file.id,
                crate::tables::joined(blocks),
            )
            &&& spares_folders(u, steps, file.id) ==> w.files.contains_key(file.id)
        },
{
    lemma_import_intact(t, pool, file, blocks, frames);
    let u = crate::laws::imported(t, file, blocks, frames)->Some_0;
    assert(u.files.dom().contains(file.id));
    lemma_run_keeps_content(u, pool, steps, file.id, crate::tables::joined(blocks));
}

/// What is stored of a file's blocks decompresses to them in an archive that is intact.
proof fn lemma_decodable(t: Tables, pool: Set<Seq<u8>>, file_id: Uuid, blocks: Seq<Seq<u8>>)
    requires
        intact(t, pool),
        told_apart(pool),
        crate::laws::in_place(t, file_id, blocks),
        forall|i: int| 0 <= i < blocks.len() ==> pool.contains(#[trigger] blocks[i]),
    ensures
        crate::laws::decodable(t, blocks),
{
    assert forall|i: int| 0 <= i < blocks.len() implies crate::codec::zstd_decoded(
        t.chunks[crate::digest::blake3_digest(#[trigger] blocks[i])].data,
    ) == Some(blocks[i]) by {
        let h = crate::digest::blake3_digest(blocks[i]);
        assert(t.chunks.contains_key(h));
        let raw = crate::codec::zstd_decoded(t.chunks[h].data)->Some_0;
        assert(pool.contains(raw) && pool.contains(blocks[i]));
    }
}

/// The content of a file imported again, after any run of other operations, each done or refused, that
/// left the file there, adds no block and overwrites none: only references grow. The new file has a row
/// of its own, with the compressed size and the checksum of the first, and with the size that was
/// announced for it, as the first has. Blocks whose digests collide are left out.
pub proof fn law_later_duplicate_is_like_its_copy(
    t: Tables,
    pool: Set<Seq<u8>>,
    copy: NewFile,
    pieces: Seq<Seq<u8>>,
    copy_frames: Seq<Seq<u8>>,
    steps: Seq<Step>,
    file: NewFile,
    blocks: Seq<Seq<u8>>,
    frames: Seq<Seq<u8>>,
)
    requires
        intact(t, pool),
        told_apart(pool),
        crate::laws::addable(t, copy),
        crate::laws::cut(pieces),
        draws_from(Step::Import { file: copy, blocks: pieces, frames: copy_frames }, pool),
        all_draw_from(steps, pool),
        leaves_alone(steps, copy.id),
        crate::laws::imported(t, copy, pieces, copy_frames) matches Some(u) && {
            &&& after_all(u, steps).files.contains_key(copy.id)
            &&& crate::laws::addable(after_all(u, steps), file)
        },
        crate::laws::cut(blocks),
        crate::laws::packed(blocks, frames),
        crate::tables::joined(blocks) == crate::tables::joined(pieces),
    ensures
        file.id != copy.id,
        crate::laws::imported(t, copy, pieces, copy_frames) matches Some(u) && {
            let s = after_all(u, steps);
            crate::laws::imported(s, file, blocks, frames) matches Some(w) && {
                &&& s.files[copy.id].size == copy.size
                &&& crate::laws::only_references_grew(s, w, blocks)
                &&& w.files.dom() == s.files.dom().insert(file.id)
                &&& w.files[copy.id] == s.files[copy.id]
                &&& w.files[file.id] == (FileRow {
                    name: file.name,
                    size: file.size,
                    created_at: file.created_at,
                    folder_id: file.folder_id,
                    ..s.files[copy.id]
                })
            }
        },
{
    lemma_import_intact(t, pool, copy, pieces, copy_frames);
    let u = crate::laws::imported(t, copy, pieces, copy_frames)->Some_0;
    assert(u.files.dom().contains(copy.id));
    lemma_run_keeps_content(u, pool, steps, copy.id, crate::tables::joined(pieces));
    crate::laws::law_cut_is_determined(blocks, pieces);
    let s = after_all(u, steps);
    lemma_decodable(s, pool, copy.id, blocks);
    assert(crate::tables::measured(s, copy.id));
    assert(crate::laws::passes_check(s, copy.id));
    crate::laws::law_duplicate_is_like_its_copy(s, copy.id, file, blocks, frames);
}

/// Whether every frame that a run imports decompresses to its block.
pub open spec fn all_packed(steps: Seq<Step>) -> bool {
    forall|i: int|
        0 <= i < steps.len() ==> (#[trigger] steps[i] matches Step::Import { blocks, frames, .. }
            ==> crate::laws::packed(blocks, frames))
}

/// Whether an operation, if it deletes a file, deletes one that is there, with the sizes of its row.
pub open spec fn deletes_known(t: Tables, step: Step) -> bool {
    step matches Step::DeleteFile { id, sizes } ==> {
        &&& t.files.contains_key(id)
        &&& t.files[id].size == sizes.0
        &&& t.files[id].compressed_size == sizes.1
    }
}

/// Whether a run, on some tables, deletes only files that are there.
pub open spec fn all_delete_known(t: Tables, steps: Seq<Step>) -> bool {
    forall|i: int|
        0 <= i < steps.len() ==> deletes_known(
            after_all(t, steps.subrange(0, i)),
            #[trigger] steps[i],
        )
}

/// Every operation, done or refused, keeps an archive consistent.
proof fn lemma_step_consistent(t: Tables, step: Step)
    requires
        crate::tables::consistent(t),
        step matches Step::Import { blocks, frames, .. } ==> crate::laws::packed(blocks, frames),
        deletes_known(t, step),
    ensures
        crate::tables::consistent(after(t, step)),
{
    let u = after(t, step);
    match step {
        Step::Import { file, blocks, frames } => {
            if crate::laws::addable(t, file) {
                crate::laws::law_import_keeps_consistent(t, file, blocks, frames);
            }
        },
        Step::DeleteFile { id, sizes } => {
            crate::laws::law_delete_keeps_others(t, id, sizes);
        },
        Step::DeleteFolder { id } => {
            crate::laws::law_folder_delete_keeps_others(t, id);
        },
        Step::RenameFile { id, name } => {
            if t.files.contains_key(id) {
                crate::laws::law_rename_keeps_content(t, id, name);
            }
        },
        _ => {
            assert(u.links == t.links && u.chunks == t.chunks && u.files == t.files);
            crate::laws::lemma_same_references(t, u);
            crate::laws::lemma_same_sizes(t, u);
        },
    }
}

/// A run keeps an archive consistent.
proof fn lemma_run_consistent(t: Tables, steps: Seq<Step>)
    requires
        crate::tables::consistent(t),
        all_packed(steps),
        all_delete_known(t, steps),
    ensures
        crate::tables::consistent(after_all(t, steps)),
    decreases steps.len(),
{
    if steps.len() > 0 {
        let front = steps.drop_last();
        let last = steps[steps.len() - 1];
        assert forall|i: int| 0 <= i < front.len() implies (
        #[trigger] front[i] matches Step::Import { blocks, frames, .. } ==> crate::laws::packed(
            blocks,
            frames,
        )) by {
            assert(front[i] == steps[i]);
        }
        assert forall|i: int| 0 <= i < front.len() implies deletes_known(
            after_all(t, front.subrange(0, i)),
            #[trigger] front[i],
        ) by {
            assert(front[i] == steps[i]);
            assert(front.subrange(0, i) =~= steps.subrange(0, i));
        }
        lemma_run_consistent(t, front);
        assert(steps.subrange(0, steps.len() - 1) =~= front);
        assert(deletes_known(after_all(t, front), last));
        lemma_step_consistent(after_all(t, front), last);
    }
}

/// In every archive that some operations, each done or refused, made of a new one, the totals are
/// those of the files: as many as there are, and the sums of their sizes and of their compressed
/// sizes. The references, the blocks and the compressed sizes are in order too. The deletion of a
/// file that is not there is left out: it uncounts a file all the same.
pub proof fn law_totals_are_those_of_the_files(steps: Seq<Step>)
    requires
        all_packed(steps),
        all_delete_known(crate::tables::new_tables(), steps),
    ensures
        crate::tables::counted(after_all(crate::tables::new_tables(), steps)),
        crate::tables::consistent(after_all(crate::tables::new_tables(), steps)),
{
    crate::laws::law_new_archive_consistent();
    lemma_run_consistent(crate::tables::new_tables(), steps);
}

} // verus!
