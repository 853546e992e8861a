//! The laws that tie the steps of an import, an export, a preview and a check to the whole.
use crate::changes::Change;
use crate::export::{ArchiveCheckView, ExportView};
use crate::ident::Uuid;
use crate::ingest::ImportView;
use crate::laws::NewFile;
use crate::sql::{Cell, DbError};
use crate::tables::Tables;
use vstd::prelude::*;

verus! {

/// The tables and the import after some blocks went through it, each by `FileImport::take_block` and
/// `FileImport::store_block`, with the row that the lookup of the block finds in the tables.
pub open spec fn stepped(
    t: Tables,
    import: ImportView,
    blocks: Seq<Seq<u8>>,
    frames: Seq<Seq<u8>>,
) -> Option<(Tables, ImportView)>
    decreases blocks.len(),
{
    if blocks.len() == 0 {
        Some((t, import))
    } else {
        match stepped(t, import, blocks.drop_last(), frames.drop_last()) {
            None => None,
            Some((s, before)) => {
                let taken = crate::ingest::took(before, blocks.last());
                match crate::tables::run(
                    s,
                    crate::ingest::placement(
                        taken.file_id,
                        taken.blocks,
                        crate::digest::blake3_digest(blocks.last()),
                        crate::laws::sent_data(s, blocks.last(), frames.last()),
                    ),
                ) {
                    None => None,
                    Some(u) => Some(
                        (
                            u,
                            crate::ingest::placed(
                                taken,
                                crate::laws::stored_len(s, blocks.last(), frames.last()),
                            ),
                        ),
                    ),
                }
            },
        }
    }
}

/// The steps of an import lead to the tables, and to the state of the import, that its blocks do as
/// a whole.
proof fn lemma_stepped(
    t: Tables,
    file_id: Uuid,
    total_size: int,
    blocks: Seq<Seq<u8>>,
    frames: Seq<Seq<u8>>,
)
    ensures
        stepped(t, crate::ingest::begun(file_id, total_size), blocks, frames) == (
        match crate::laws::with_blocks(t, file_id, blocks, frames) {
            None => None,
            Some((u, compressed)) => Some(
                (
                    u,
                    ImportView {
                        file_id,
                        total_size,
                        content: crate::tables::joined(blocks),
                        blocks: blocks.len() as int,
                        compressed,
                    },
                ),
            ),
        }),
    decreases blocks.len(),
{
    if blocks.len() > 0 {
        lemma_stepped(t, file_id, total_size, blocks.drop_last(), frames.drop_last());
    }
}

/// An import is made of its steps: the change of `FileImport::begin`, those of the blocks one after
/// the other, and those of `FileImport::finish`.
pub proof fn law_steps_make_import(
    t: Tables,
    file: NewFile,
    blocks: Seq<Seq<u8>>,
    frames: Seq<Seq<u8>>,
)
    ensures
        crate::laws::imported(t, file, blocks, frames) == (match crate::tables::effect(
            t,
            Change::InsertFile {
                id: file.id,
                name: file.name,
                size: file.size,
                created_at: file.created_at,
                folder_id: file.folder_id,
            },
        ) {
            None => None,
            Some(s) => match stepped(
                s,
                crate::ingest::begun(file.id, file.size),
                blocks,
                frames,
            ) {
                None => None,
                Some((u, import)) => crate::tables::run(u, crate::ingest::completion(import)),
            },
        }),
{
    if let Some(s) = crate::tables::effect(
        t,
        Change::InsertFile {
            id: file.id,
            name: file.name,
            size: file.size,
            created_at: file.created_at,
            folder_id: file.folder_id,
        },
    ) {
        lemma_stepped(s, file.id, file.size, blocks, frames);
    }
}

/// Pieces that are the blocks of some rows are, together, what the rows give.
proof fn lemma_pieces_read_back(rows: Seq<Vec<Cell>>, pieces: Seq<Seq<u8>>)
    requires
        rows.len() == pieces.len(),
        forall|i: int|
            0 <= i < rows.len() ==> crate::export::block_in(#[trigger] rows[i]@) == Some(pieces[i]),
    ensures
        crate::export::read_back(rows) == Some(crate::tables::joined(pieces)),
    decreases rows.len(),
{
    if rows.len() > 0 {
        let front = rows.drop_last();
        assert forall|i: int| 0 <= i < front.len() implies crate::export::block_in(
            #[trigger] front[i]@,
        ) == Some(pieces.drop_last()[i]) by {
            assert(front[i] == rows[i]);
        }
        lemma_pieces_read_back(front, pieces.drop_last());
        assert(rows.last() == rows[rows.len() - 1]);
    }
}

/// An export that goes from row to row by `FileExport::next_block` writes, in the pieces it gives
/// out, what the rows hold, and counts all of it.
pub proof fn law_export_steps(
    rows: Seq<Vec<Cell>>,
    pieces: Seq<Seq<u8>>,
    states: Seq<ExportView>,
    total_size: int,
)
    requires
        pieces.len() == rows.len(),
        states.len() == rows.len() + 1,
        states[0] == crate::export::export_begun(total_size),
        forall|i: int|
            0 <= i < rows.len() ==> crate::export::block_in(#[trigger] rows[i]@) == Some(pieces[i]),
        forall|i: int|
            0 <= i < pieces.len() ==> states[i + 1] == crate::export::wrote(
                states[i],
                (#[trigger] pieces[i]).len() as int,
            ),
    ensures
        crate::export::read_back(rows) == Some(crate::tables::joined(pieces)),
        states.last().written == crate::tables::joined(pieces).len(),
{
    lemma_pieces_read_back(rows, pieces);
    lemma_written(pieces, states, pieces.len(), total_size);
    assert(pieces.subrange(0, pieces.len() as int) =~= pieces);
}

/// What an export counted after some pieces is their length.
proof fn lemma_written(pieces: Seq<Seq<u8>>, states: Seq<ExportView>, n: nat, total_size: int)
    requires
        n <= pieces.len(),
        states.len() == pieces.len() + 1,
        states[0] == crate::export::export_begun(total_size),
        forall|i: int|
            0 <= i < pieces.len() ==> states[i + 1] == crate::export::wrote(
                states[i],
                (#[trigger] pieces[i]).len() as int,
            ),
    ensures
        states[n as int].written == crate::tables::joined(pieces.subrange(0, n as int)).len(),
    decreases n,
{
    if n > 0 {
        lemma_written(pieces, states, (n - 1) as nat, total_size);
        assert(pieces.subrange(0, n as int).drop_last() =~= pieces.subrange(0, n - 1));
        assert(states[n - 1 + 1] == crate::export::wrote(
            states[n - 1],
            pieces[n - 1].len() as int,
        ));
    }
}

/// Once nothing is seen, nothing is seen any more.
proof fn lemma_lost(rows: Seq<Vec<Cell>>, n: int)
    requires
        0 <= n <= rows.len(),
        crate::export::read_back(rows.subrange(0, n)) is None,
    ensures
        crate::export::read_back(rows) is None,
    decreases rows.len() - n,
{
    if n < rows.len() {
        assert(rows.subrange(0, n + 1).drop_last() =~= rows.subrange(0, n));
        lemma_lost(rows, n + 1);
    } else {
        assert(rows.subrange(0, n) =~= rows);
    }
}

/// A check that goes from row to row by `IntegrityCheck::next_block`, to the end or to the first
/// block that is unsound, has seen what all the rows give.
pub proof fn law_check_steps(rows: Seq<Vec<Cell>>, states: Seq<Option<Seq<u8>>>)
    requires
        1 <= states.len() <= rows.len() + 1,
        states[0] == Some(Seq::<u8>::empty()),
        forall|i: int|
            1 <= i < states.len() ==> #[trigger] states[i] == crate::export::seen_on(
                states[i - 1],
                rows[i - 1]@,
            ),
        states.len() == rows.len() + 1 || states.last() is None,
    ensures
        states.last() == crate::export::read_back(rows),
{
    lemma_check_states(rows, states, (states.len() - 1) as nat);
    let n = states.len() - 1;
    if n < rows.len() {
        lemma_lost(rows, n);
    } else {
        assert(rows.subrange(0, n) =~= rows);
    }
}

/// The state of a check after some rows is what the rows give.
proof fn lemma_check_states(rows: Seq<Vec<Cell>>, states: Seq<Option<Seq<u8>>>, n: nat)
    requires
        n < states.len() <= rows.len() + 1,
        states[0] == Some(Seq::<u8>::empty()),
        forall|i: int|
            1 <= i < states.len() ==> #[trigger] states[i] == crate::export::seen_on(
                states[i - 1],
                rows[i - 1]@,
            ),
    ensures
        states[n as int] == crate::export::read_back(rows.subrange(0, n as int)),
    decreases n,
{
    if n > 0 {
        lemma_check_states(rows, states, (n - 1) as nat);
        assert(rows.subrange(0, n as int).drop_last() =~= rows.subrange(0, n - 1));
    }
}

/// The verdict on the rows of a file's blocks is whether the file passes its check.
pub proof fn law_verdict_decides(t: Tables, file_id: Uuid, n: nat, rows: Seq<Vec<Cell>>)
    requires
        crate::tables::block_count(t, file_id, n),
        rows.len() == n,
        forall|i: int|
            0 <= i < n ==> crate::sql::blob_in(#[trigger] rows[i]@, 0) == Ok::<Seq<u8>, DbError>(
                crate::tables::stored_blocks(t, file_id, n)[i],
            ),
    ensures
        crate::export::sound_content(crate::export::read_back(rows), t.files[file_id].checksum)
            <==> crate::laws::passes_check(t, file_id),
{
    crate::laws::lemma_rows_decompress(rows, crate::tables::stored_blocks(t, file_id, n));
    if let Some(content) = crate::export::read_back(rows) {
        assert(crate::tables::holds(t, file_id, content));
    }
    if crate::laws::passes_check(t, file_id) {
        let content = choose|content: Seq<u8>| #[trigger]
            crate::tables::holds(t, file_id, content) && crate::digest::blake3_digest(content)
                == t.files[file_id].checksum;
        crate::laws::law_rows_give_content(t, file_id, n, rows, content);
    }
}

/// A preview that collects pieces by `FilePreview::collect`, to the end or until it is full, holds
/// the front of all the content.
pub proof fn law_preview_steps(pieces: Seq<Seq<u8>>, states: Seq<Seq<u8>>, max_bytes: int)
    requires
        max_bytes >= 0,
        1 <= states.len() <= pieces.len() + 1,
        states[0] == Seq::<u8>::empty(),
        forall|i: int|
            1 <= i < states.len() ==> #[trigger] states[i] == crate::export::front_of(
                states[i - 1] + pieces[i - 1],
                max_bytes,
            ),
        forall|i: int|
            1 <= i < states.len() - 1 ==> (#[trigger] states[i - 1] + pieces[i - 1]).len()
                < max_bytes,
        states.len() == pieces.len() + 1 || (states.len() > 1 && (states[states.len() - 2]
            + pieces[states.len() - 2]).len() >= max_bytes),
    ensures
        states.last() == crate::export::front_of(crate::tables::joined(pieces), max_bytes),
{
    let n = states.len() - 1;
    if n == 0 {
        assert(pieces.len() == 0);
    } else {
        lemma_preview_states(pieces, states, max_bytes, n - 1);
        let content = crate::tables::joined(pieces.subrange(0, n));
        assert(pieces.subrange(0, n).drop_last() =~= pieces.subrange(0, n - 1));
        assert(states[n] == crate::export::front_of(states[n - 1] + pieces[n - 1], max_bytes));
        assert(states[n] == crate::export::front_of(content, max_bytes));
        if n < pieces.len() {
            lemma_front_grows(pieces, n, max_bytes);
        } else {
            assert(pieces.subrange(0, n) =~= pieces);
        }
    }
}

/// A preview that is not full holds all the content so far.
proof fn lemma_preview_states(
    pieces: Seq<Seq<u8>>,
    states: Seq<Seq<u8>>,
    max_bytes: int,
    n: int,
)
    requires
        max_bytes >= 0,
        0 <= n < states.len() - 1,
        states.len() <= pieces.len() + 1,
        states[0] == Seq::<u8>::empty(),
        forall|i: int|
            1 <= i < states.len() ==> #[trigger] states[i] == crate::export::front_of(
                states[i - 1] + pieces[i - 1],
                max_bytes,
            ),
        forall|i: int|
            1 <= i < states.len() - 1 ==> (#[trigger] states[i - 1] + pieces[i - 1]).len()
                < max_bytes,
    ensures
        states[n] == crate::tables::joined(pieces.subrange(0, n)),
    decreases n,
{
    if n > 0 {
        lemma_preview_states(pieces, states, max_bytes, n - 1);
        assert(pieces.subrange(0, n).drop_last() =~= pieces.subrange(0, n - 1));
        assert((states[n - 1] + pieces[n - 1]).len() < max_bytes);
    }
}

/// Content that is long enough for a preview has the front that all the content has.
proof fn lemma_front_grows(pieces: Seq<Seq<u8>>, n: int, max_bytes: int)
    requires
        0 <= n <= pieces.len(),
        0 <= max_bytes <= crate::tables::joined(pieces.subrange(0, n)).len(),
    ensures
        crate::tables::joined(pieces).len() >= max_bytes,
        crate::tables::joined(pieces).subrange(0, max_bytes) == crate::tables::joined(
            pieces.subrange(0, n),
        ).subrange(0, max_bytes),
    decreases pieces.len() - n,
{
    if n < pieces.len() {
        let longer = pieces.subrange(0, n + 1);
        assert(longer.drop_last() =~= pieces.subrange(0, n));
        assert(crate::tables::joined(longer).subrange(0, max_bytes) =~= crate::tables::joined(
            pieces.subrange(0, n),
        ).subrange(0, max_bytes));
        lemma_front_grows(pieces, n + 1, max_bytes);
    } else {
        assert(pieces.subrange(0, n) =~= pieces);
    }
}

/// A check of an archive that goes from file to file by `ArchiveCheck::record` pairs every file's name
/// with the verdict on what was seen of that file, in the order of the files.
pub proof fn law_archive_check_steps(
    rows: Seq<Vec<Cell>>,
    states: Seq<ArchiveCheckView>,
    seen: Seq<Option<Seq<u8>>>,
)
    requires
        states.len() == seen.len() + 1,
        seen.len() <= crate::export::checks_in(rows).len(),
        states[0] == crate::export::check_begun(rows),
        forall|i: int|
            0 <= i < seen.len() ==> states[i + 1] == crate::export::check_recorded(
                states[i],
                #[trigger] seen[i],
            ),
    ensures
        states.last().items == crate::export::checks_in(rows),
        states.last().results.len() == seen.len(),
        forall|i: int|
            0 <= i < seen.len() ==> #[trigger] states.last().results[i] == (
                crate::export::checks_in(rows)[i].name,
                crate::export::sound_content(seen[i], crate::export::checks_in(rows)[i].checksum),
            ),
    decreases seen.len(),
{
    if seen.len() > 0 {
        let n = seen.len() - 1;
        let before = states.drop_last();
        assert forall|i: int| 0 <= i < n implies before[i + 1] == crate::export::check_recorded(
            before[i],
            #[trigger] seen.drop_last()[i],
        ) by {
            assert(seen.drop_last()[i] == seen[i]);
        }
        law_archive_check_steps(rows, before, seen.drop_last());
        assert(states[n + 1] == crate::export::check_recorded(states[n], seen[n]));
        assert(before.last() == states[n]);
        assert forall|i: int| 0 <= i < seen.len() implies #[trigger] states.last().results[i] == (
            crate::export::checks_in(rows)[i].name,
            crate::export::sound_content(seen[i], crate::export::checks_in(rows)[i].checksum),
        ) by {
            if i < n {
                assert(states.last().results[i] == before.last().results[i]);
                assert(seen.drop_last()[i] == seen[i]);
            }
        }
    }
}

} // verus!
