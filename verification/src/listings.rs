//! What the queries of an archive give, and what follows from it for its listings.
use crate::changes::Change;
use crate::db::{FileView, FolderView, SortColumn, SortDirection, VaultStats};
use crate::ident::Uuid;
use crate::laws::NewFile;
use crate::sql::{Cell, DbError};
use crate::tables::{FileRow, FolderRow, Measure, Tables, Totals};
use vstd::prelude::*;

verus! {

/// Whether some bytes come before others: they differ first in a smaller byte, or end first.
pub open spec fn bytes_before(a: Seq<u8>, b: Seq<u8>) -> bool
    decreases a.len(),
{
    if b.len() == 0 {
        false
    } else if a.len() == 0 {
        true
    } else if a[0] != b[0] {
        a[0] < b[0]
    } else {
        bytes_before(a.drop_first(), b.drop_first())
    }
}

/// Whether a name comes before another: its bytes do.
pub open spec fn name_before(a: Seq<char>, b: Seq<char>) -> bool {
    bytes_before(vstd::utf8::encode_utf8(a), vstd::utf8::encode_utf8(b))
}

/// Whether a row has less in a column than another.
pub open spec fn less_in(column: SortColumn, a: FileRow, b: FileRow) -> bool {
    match column {
        SortColumn::Name => name_before(a.name, b.name),
        SortColumn::Size => a.size < b.size,
        SortColumn::EncryptedSize => a.compressed_size < b.compressed_size,
        SortColumn::Modified => a.created_at < b.created_at,
    }
}

/// Whether a row goes before another in a listing.
pub open spec fn goes_before(
    column: SortColumn,
    direction: SortDirection,
    a: FileRow,
    b: FileRow,
) -> bool {
    match direction {
        SortDirection::Asc => less_in(column, a, b),
        SortDirection::Desc => less_in(column, b, a),
    }
}

/// Whether a file is among those that a listing is about: those whose name matches the search,
/// whatever their folder, or else those in the folder.
pub open spec fn selected(
    t: Tables,
    folder_id: Option<Uuid>,
    filter: Option<Seq<char>>,
    id: Uuid,
) -> bool {
    t.files.contains_key(id) && match filter {
        Some(query) => crate::search::like(crate::db::search_pattern(query), t.files[id].name),
        None => t.files[id].folder_id == folder_id,
    }
}

/// The files that a listing is about.
pub open spec fn selection(
    t: Tables,
    folder_id: Option<Uuid>,
    filter: Option<Seq<char>>,
) -> Set<Uuid> {
    Set::new(|id: Uuid| selected(t, folder_id, filter, id))
}

/// Whether the query of `EncryptedDb::list_files_query` can give these, in this order: files of the
/// selection, none twice, sorted by the column, as many as there are up to the limit, and none of those
/// left out goes before one that is listed. Files that are equal in the column may come in any order.
/// This is a reading of the query; that the database answers so is not proved.
pub open spec fn lists_files(
    t: Tables,
    folder_id: Option<Uuid>,
    filter: Option<Seq<char>>,
    column: SortColumn,
    direction: SortDirection,
    limit: nat,
    ids: Seq<Uuid>,
) -> bool {
    &&& ids.no_duplicates()
    &&& ids.len() <= limit
    &&& forall|i: int|
        0 <= i < ids.len() ==> selected(t, folder_id, filter, #[trigger] ids[i])
    &&& forall|i: int, j: int|
        0 <= i < j < ids.len() ==> !goes_before(
            column,
            direction,
            t.files[#[trigger] ids[j]],
            t.files[#[trigger] ids[i]],
        )
    &&& forall|id: Uuid| #[trigger]
        selected(t, folder_id, filter, id) && !ids.contains(id) ==> {
            &&& ids.len() == limit
            &&& forall|i: int|
                0 <= i < ids.len() ==> !goes_before(
                    column,
                    direction,
                    t.files[id],
                    t.files[#[trigger] ids[i]],
                )
        }
}

/// Whether the query of `EncryptedDb::list_folders` can give these, in this order: all that have the
/// folder as their parent, none twice, sorted by name. This is a reading of the query; that the database
/// answers so is not proved.
pub open spec fn lists_folders(t: Tables, parent_id: Option<Uuid>, ids: Seq<Uuid>) -> bool {
    &&& ids.no_duplicates()
    &&& forall|id: Uuid| #[trigger]
        ids.contains(id) <==> t.folders.contains_key(id) && t.folders[id].parent_id == parent_id
    &&& forall|i: int, j: int|
        0 <= i < j < ids.len() ==> !name_before(
            t.folders[#[trigger] ids[j]].name,
            t.folders[#[trigger] ids[i]].name,
        )
}

/// Whether the query of `EncryptedDb::find_existing_file_by_hash` can give this name, or none: that of a
/// file with the checksum, and none only where no file has it. This is a reading of the query; that the
/// database answers so is not proved.
pub open spec fn finds_name(t: Tables, checksum: Seq<u8>, name: Option<Seq<char>>) -> bool {
    match name {
        Some(text) => exists|id: Uuid| #[trigger]
            t.files.contains_key(id) && t.files[id].checksum == checksum && t.files[id].name
                == text,
        None => forall|id: Uuid| #[trigger]
            t.files.contains_key(id) ==> t.files[id].checksum != checksum,
    }
}

/// Whether a cell holds an identifier that may be absent.
pub open spec fn id_cell(cell: Cell, id: Option<Uuid>) -> bool {
    match id {
        Some(u) => cell matches Cell::Blob(b) && b@ == u.bytes@,
        None => cell is Null,
    }
}

/// Whether a cell holds a text.
pub open spec fn text_cell(cell: Cell, text: Seq<char>) -> bool {
    cell matches Cell::Text(b) && b@ == vstd::utf8::encode_utf8(text)
}

/// Whether a cell holds an integer.
pub open spec fn integer_cell(cell: Cell, n: int) -> bool {
    cell matches Cell::Integer(v) && v == n
}

/// Whether some cells are those of a file in a listing.
pub open spec fn file_cells(cells: Seq<Cell>, id: Uuid, row: FileRow) -> bool {
    &&& cells.len() == 7
    &&& cells[0] matches Cell::Blob(b) && b@ == id.bytes@
    &&& text_cell(cells[1], row.name)
    &&& integer_cell(cells[2], row.size)
    &&& integer_cell(cells[3], row.compressed_size)
    &&& integer_cell(cells[4], row.created_at)
    &&& id_cell(cells[5], row.folder_id)
    &&& cells[6] matches Cell::Blob(b) && b@ == row.checksum
}

/// Whether some cells are those of a folder in a listing.
pub open spec fn folder_cells(cells: Seq<Cell>, id: Uuid, row: FolderRow) -> bool {
    &&& cells.len() == 3
    &&& cells[0] matches Cell::Blob(b) && b@ == id.bytes@
    &&& text_cell(cells[1], row.name)
    &&& id_cell(cells[2], row.parent_id)
}

/// Whether some cells are the one row that the query of `EncryptedDb::get_vault_stats` gives.
pub open spec fn totals_cells(cells: Seq<Cell>, totals: Totals) -> bool {
    &&& cells.len() == 3
    &&& integer_cell(cells[0], totals.files)
    &&& integer_cell(cells[1], totals.bytes)
    &&& integer_cell(cells[2], totals.compressed)
}

/// Whether the counts of a file can be shown: none is negative or larger than a size can be.
pub open spec fn showable(row: FileRow) -> bool {
    0 <= row.size <= usize::MAX && 0 <= row.compressed_size <= usize::MAX
}

/// What is shown of a file.
pub open spec fn shown_file(id: Uuid, row: FileRow) -> FileView {
    FileView {
        id: id.bytes@,
        name: row.name,
        size: row.size as usize,
        compressed_size: row.compressed_size as usize,
        created_at: row.created_at as i64,
        folder_id: crate::db::id_bytes(row.folder_id),
        checksum: crate::text::hex(row.checksum),
    }
}

/// What is shown of a folder.
pub open spec fn shown_folder(id: Uuid, row: FolderRow) -> FolderView {
    FolderView { id: id.bytes@, name: row.name, parent_id: crate::db::id_bytes(row.parent_id) }
}

/// The row of a file in a listing reads as that file.
proof fn lemma_file_row(cells: Seq<Cell>, id: Uuid, row: FileRow)
    requires
        file_cells(cells, id, row),
        showable(row),
    ensures
        crate::db::file_in(cells) == Ok::<FileView, DbError>(shown_file(id, row)),
{
    broadcast use vstd::utf8::encode_utf8_valid_utf8;
    broadcast use vstd::utf8::encode_utf8_decode_utf8;

    assert(id.bytes@.len() == 16);
    if let Some(f) = row.folder_id {
        assert(f.bytes@.len() == 16);
    }
}

/// The row of a folder in a listing reads as that folder.
proof fn lemma_folder_row(cells: Seq<Cell>, id: Uuid, row: FolderRow)
    requires
        folder_cells(cells, id, row),
    ensures
        crate::db::folder_in(cells) == Ok::<FolderView, DbError>(shown_folder(id, row)),
{
    broadcast use vstd::utf8::encode_utf8_valid_utf8;
    broadcast use vstd::utf8::encode_utf8_decode_utf8;

    assert(id.bytes@.len() == 16);
    if let Some(p) = row.parent_id {
        assert(p.bytes@.len() == 16);
    }
}

/// The rows of a listing read as its files, in its order, with all that the archive has of each.
pub proof fn law_rows_read_as_files(t: Tables, ids: Seq<Uuid>, rows: Seq<Vec<Cell>>)
    requires
        rows.len() == ids.len(),
        forall|i: int|
            0 <= i < ids.len() ==> file_cells(rows[i]@, #[trigger] ids[i], t.files[ids[i]])
                && showable(t.files[ids[i]]),
    ensures
        crate::db::files_in(rows) == Ok::<Seq<FileView>, DbError>(
            Seq::new(ids.len(), |i: int| shown_file(ids[i], t.files[ids[i]])),
        ),
    decreases rows.len(),
{
    let shown = Seq::new(ids.len(), |i: int| shown_file(ids[i], t.files[ids[i]]));
    if rows.len() == 0 {
        assert(shown =~= Seq::empty());
    } else {
        let front = ids.drop_last();
        let last = ids[ids.len() - 1];
        assert forall|i: int| 0 <= i < front.len() implies file_cells(
            rows.drop_last()[i]@,
            #[trigger] front[i],
            t.files[front[i]],
        ) && showable(t.files[front[i]]) by {
            assert(front[i] == ids[i]);
        }
        law_rows_read_as_files(t, front, rows.drop_last());
        assert(file_cells(rows[rows.len() - 1]@, last, t.files[last]));
        lemma_file_row(rows.last()@, last, t.files[last]);
        let before = Seq::new(front.len(), |i: int| shown_file(front[i], t.files[front[i]]));
        assert(shown =~= before.push(shown_file(last, t.files[last])));
    }
}

/// The rows of the folders in a folder read as those folders, in their order.
pub proof fn law_rows_read_as_folders(t: Tables, ids: Seq<Uuid>, rows: Seq<Vec<Cell>>)
    requires
        rows.len() == ids.len(),
        forall|i: int|
            0 <= i < ids.len() ==> folder_cells(rows[i]@, #[trigger] ids[i], t.folders[ids[i]]),
    ensures
        crate::db::folders_in(rows) == Ok::<Seq<FolderView>, DbError>(
            Seq::new(ids.len(), |i: int| shown_folder(ids[i], t.folders[ids[i]])),
        ),
    decreases rows.len(),
{
    let shown = Seq::new(ids.len(), |i: int| shown_folder(ids[i], t.folders[ids[i]]));
    if rows.len() == 0 {
        assert(shown =~= Seq::empty());
    } else {
        let front = ids.drop_last();
        let last = ids[ids.len() - 1];
        assert forall|i: int| 0 <= i < front.len() implies folder_cells(
            rows.drop_last()[i]@,
            #[trigger] front[i],
            t.folders[front[i]],
        ) by {
            assert(front[i] == ids[i]);
        }
        law_rows_read_as_folders(t, front, rows.drop_last());
        assert(folder_cells(rows[rows.len() - 1]@, last, t.folders[last]));
        lemma_folder_row(rows.last()@, last, t.folders[last]);
        let before = Seq::new(front.len(), |i: int| shown_folder(front[i], t.folders[front[i]]));
        assert(shown =~= before.push(shown_folder(last, t.folders[last])));
    }
}

/// The total number of some files is how many there are.
proof fn lemma_total_files(files: Map<Uuid, FileRow>)
    requires
        files.dom().finite(),
    ensures
        crate::tables::total(Measure::Files, files) == files.dom().len(),
    decreases files.dom().len(),
{
    if !files.dom().is_empty() {
        let id = files.dom().choose();
        assert(files.dom().contains(id));
        assert(files.remove(id).dom() =~= files.dom().remove(id));
        lemma_total_files(files.remove(id));
    }
}

/// The row of totals of an archive in order reads as the number of its files and the sums of their
/// sizes and compressed sizes.
pub proof fn law_totals_read_as_counted(t: Tables, cells: Seq<Cell>)
    requires
        crate::tables::counted(t),
        totals_cells(cells, t.totals),
        0 <= t.totals.bytes <= usize::MAX,
        0 <= t.totals.compressed <= usize::MAX,
        t.totals.files <= usize::MAX,
    ensures
        crate::db::stats_in(cells) == Ok::<VaultStats, DbError>(
            VaultStats {
                total_files: t.files.dom().len() as usize,
                total_bytes: crate::tables::total(Measure::Bytes, t.files) as usize,
                compressed_bytes: crate::tables::total(Measure::Compressed, t.files) as usize,
            },
        ),
        t.totals.files == t.files.dom().len(),
{
    lemma_total_files(t.files);
}

/// A listing is as long as its selection, or as the limit where that is less.
pub proof fn law_listing_is_full(
    t: Tables,
    folder_id: Option<Uuid>,
    filter: Option<Seq<char>>,
    column: SortColumn,
    direction: SortDirection,
    limit: nat,
    ids: Seq<Uuid>,
)
    requires
        t.files.dom().finite(),
        lists_files(t, folder_id, filter, column, direction, limit, ids),
    ensures
        ids.len() == (if selection(t, folder_id, filter).len() <= limit {
            selection(t, folder_id, filter).len()
        } else {
            limit
        }),
        selection(t, folder_id, filter).len() <= limit ==> forall|id: Uuid| #[trigger]
            selected(t, folder_id, filter, id) ==> ids.contains(id),
{
    let all = selection(t, folder_id, filter);
    assert(all.subset_of(t.files.dom()));
    vstd::set_lib::lemma_len_subset(all, t.files.dom());
    ids.unique_seq_to_set();
    let listed = ids.to_set();
    assert(listed.subset_of(all)) by {
        assert forall|id: Uuid| #[trigger] listed.contains(id) implies all.contains(id) by {
            assert(ids.contains(id));
            let i = choose|i: int| 0 <= i < ids.len() && ids[i] == id;
            assert(selected(t, folder_id, filter, ids[i]));
        }
    }
    vstd::set_lib::lemma_len_subset(listed, all);
    if exists|id: Uuid| #[trigger] selected(t, folder_id, filter, id) && !ids.contains(id) {
        let id = choose|id: Uuid| #[trigger]
            selected(t, folder_id, filter, id) && !ids.contains(id);
        assert(listed.subset_of(all.remove(id))) by {
            assert forall|other: Uuid| #[trigger] listed.contains(other) implies all.remove(
                id,
            ).contains(other) by {
                assert(ids.contains(other));
            }
        }
        vstd::set_lib::lemma_len_subset(listed, all.remove(id));
    } else {
        assert(all =~= listed) by {
            assert forall|id: Uuid| #[trigger] all.contains(id) implies listed.contains(id) by {
                assert(selected(t, folder_id, filter, id));
            }
        }
    }
}

/// Where no two files of the selection are equal in the column, there is one listing only.
pub proof fn law_listing_is_determined(
    t: Tables,
    folder_id: Option<Uuid>,
    filter: Option<Seq<char>>,
    column: SortColumn,
    direction: SortDirection,
    limit: nat,
    one: Seq<Uuid>,
    other: Seq<Uuid>,
)
    requires
        t.files.dom().finite(),
        forall|a: Uuid, b: Uuid|
            #![trigger selected(t, folder_id, filter, a), selected(t, folder_id, filter, b)]
            a != b && selected(t, folder_id, filter, a) && selected(t, folder_id, filter, b)
                ==> goes_before(column, direction, t.files[a], t.files[b]) || goes_before(
                column,
                direction,
                t.files[b],
                t.files[a],
            ),
        lists_files(t, folder_id, filter, column, direction, limit, one),
        lists_files(t, folder_id, filter, column, direction, limit, other),
    ensures
        one == other,
{
    law_listing_is_full(t, folder_id, filter, column, direction, limit, one);
    law_listing_is_full(t, folder_id, filter, column, direction, limit, other);
    lemma_same_front(t, folder_id, filter, column, direction, limit, one, other, one.len());
    assert(one =~= other);
}

/// Two listings begin alike where no two files of the selection are equal in the column.
proof fn lemma_same_front(
    t: Tables,
    folder_id: Option<Uuid>,
    filter: Option<Seq<char>>,
    column: SortColumn,
    direction: SortDirection,
    limit: nat,
    one: Seq<Uuid>,
    other: Seq<Uuid>,
    n: nat,
)
    requires
        forall|a: Uuid, b: Uuid|
            #![trigger selected(t, folder_id, filter, a), selected(t, folder_id, filter, b)]
            a != b && selected(t, folder_id, filter, a) && selected(t, folder_id, filter, b)
                ==> goes_before(column, direction, t.files[a], t.files[b]) || goes_before(
                column,
                direction,
                t.files[b],
                t.files[a],
            ),
        lists_files(t, folder_id, filter, column, direction, limit, one),
        lists_files(t, folder_id, filter, column, direction, limit, other),
        n <= one.len(),
        one.len() == other.len(),
    ensures
        forall|i: int| 0 <= i < n ==> one[i] == other[i],
    decreases n,
{
    if n > 0 {
        let k = n - 1;
        lemma_same_front(
            t,
            folder_id,
            filter,
            column,
            direction,
            limit,
            one,
            other,
            k as nat,
        );
        lemma_not_before(t, folder_id, filter, column, direction, limit, one, other, k);
        lemma_not_before(t, folder_id, filter, column, direction, limit, other, one, k);
        assert(selected(t, folder_id, filter, one[k]));
        assert(selected(t, folder_id, filter, other[k]));
    }
}

/// What a listing has at a place does not go before what another has there that begins alike.
proof fn lemma_not_before(
    t: Tables,
    folder_id: Option<Uuid>,
    filter: Option<Seq<char>>,
    column: SortColumn,
    direction: SortDirection,
    limit: nat,
    one: Seq<Uuid>,
    other: Seq<Uuid>,
    k: int,
)
    requires
        lists_files(t, folder_id, filter, column, direction, limit, one),
        lists_files(t, folder_id, filter, column, direction, limit, other),
        0 <= k < one.len(),
        k < other.len(),
        forall|i: int| 0 <= i < k ==> one[i] == other[i],
    ensures
        one[k] == other[k] || !goes_before(column, direction, t.files[one[k]], t.files[other[k]]),
{
    let id = one[k];
    assert(selected(t, folder_id, filter, id));
    if other.contains(id) {
        let j = choose|j: int| 0 <= j < other.len() && other[j] == id;
        if j < k {
            assert(one[j] == one[k]);
        }
        if j > k {
            assert(!goes_before(column, direction, t.files[other[j]], t.files[other[k]]));
        }
    }
}

/// A search lists files by the text of their names: for a query without percent signs and underscores
/// only files whose name holds it, without the white space around it and without regard to the case of
/// ASCII letters, and all of those unless the limit is reached. The folder that is shown makes no
/// difference.
pub proof fn law_search_lists_names_with_text(
    t: Tables,
    folder_id: Option<Uuid>,
    query: Seq<char>,
    column: SortColumn,
    direction: SortDirection,
    limit: nat,
    ids: Seq<Uuid>,
)
    requires
        crate::search::is_literal(crate::text::trimmed(query)),
        lists_files(t, folder_id, Some(query), column, direction, limit, ids),
    ensures
        forall|id: Uuid| #[trigger]
            ids.contains(id) ==> t.files.contains_key(id) && crate::search::holds_text(
                t.files[id].name,
                crate::text::trimmed(query),
            ),
        forall|id: Uuid| #[trigger]
            t.files.contains_key(id) && crate::search::holds_text(
                t.files[id].name,
                crate::text::trimmed(query),
            ) ==> ids.contains(id) || ids.len() == limit,
{
    assert forall|id: Uuid| #[trigger] ids.contains(id) implies t.files.contains_key(id)
        && crate::search::holds_text(t.files[id].name, crate::text::trimmed(query)) by {
        crate::search::law_search_finds_text(query, t.files[id].name);
        let i = choose|i: int| 0 <= i < ids.len() && ids[i] == id;
        assert(selected(t, folder_id, Some(query), ids[i]));
    }
    assert forall|id: Uuid| #[trigger]
        t.files.contains_key(id) && crate::search::holds_text(
            t.files[id].name,
            crate::text::trimmed(query),
        ) implies ids.contains(id) || ids.len() == limit by {
        crate::search::law_search_finds_text(query, t.files[id].name);
        assert(selected(t, folder_id, Some(query), id));
    }
}

/// A search gives the same listings whatever folder is shown.
pub proof fn law_search_lists_all_folders(
    t: Tables,
    one: Option<Uuid>,
    other: Option<Uuid>,
    query: Seq<char>,
    column: SortColumn,
    direction: SortDirection,
    limit: nat,
    ids: Seq<Uuid>,
)
    requires
        lists_files(t, one, Some(query), column, direction, limit, ids),
    ensures
        lists_files(t, other, Some(query), column, direction, limit, ids),
{
    assert forall|i: int| 0 <= i < ids.len() implies selected(
        t,
        other,
        Some(query),
        #[trigger] ids[i],
    ) by {
        assert(selected(t, one, Some(query), ids[i]));
    }
    assert forall|id: Uuid| #[trigger]
        selected(t, other, Some(query), id) && !ids.contains(id) implies {
        &&& ids.len() == limit
        &&& forall|i: int|
            0 <= i < ids.len() ==> !goes_before(
                column,
                direction,
                t.files[id],
                t.files[#[trigger] ids[i]],
            )
    } by {
        assert(selected(t, one, Some(query), id));
    }
}

/// A file that was imported is listed in its folder, and found by the digest of its content. Where no
/// file had that content, it is this one's name that is found.
pub proof fn law_import_is_found(
    t: Tables,
    file: NewFile,
    blocks: Seq<Seq<u8>>,
    frames: Seq<Seq<u8>>,
    column: SortColumn,
    direction: SortDirection,
    limit: nat,
    ids: Seq<Uuid>,
    name: Option<Seq<char>>,
)
    requires
        crate::tables::linked(t),
        t.files.dom().finite(),
        crate::laws::addable(t, file),
        crate::laws::packed(blocks, frames),
        crate::laws::imported(t, file, blocks, frames) matches Some(u) && {
            &&& selection(u, file.folder_id, None).len() <= limit
            &&& lists_files(u, file.folder_id, None, column, direction, limit, ids)
            &&& finds_name(u, crate::digest::blake3_digest(crate::tables::joined(blocks)), name)
        },
    ensures
        ids.contains(file.id),
        name is Some,
        (forall|id: Uuid| #[trigger]
            t.files.contains_key(id) ==> t.files[id].checksum != crate::digest::blake3_digest(
                crate::tables::joined(blocks),
            )) ==> name == Some(file.name),
{
    let u = crate::laws::lemma_imported(t, file, blocks, frames);
    assert(u.files.contains_key(file.id));
    assert(u.files.dom() =~= t.files.dom().insert(file.id));
    assert(selected(u, file.folder_id, None, file.id));
    law_listing_is_full(u, file.folder_id, None, column, direction, limit, ids);
}

/// A folder that was made is listed in its parent, under its name.
pub proof fn law_new_folder_is_listed(
    t: Tables,
    id: Uuid,
    name: Seq<char>,
    parent_id: Option<Uuid>,
    ids: Seq<Uuid>,
)
    requires
        crate::tables::effect(t, Change::InsertFolder { id, name, parent_id }) matches Some(u)
            && lists_folders(u, parent_id, ids),
    ensures
        ids.contains(id),
        crate::tables::effect(t, Change::InsertFolder { id, name, parent_id }) matches Some(u)
            && u.folders[id].name == name,
{
}

/// A file that was deleted is in no listing.
pub proof fn law_deleted_file_is_not_listed(
    t: Tables,
    id: Uuid,
    sizes: (usize, usize),
    folder_id: Option<Uuid>,
    filter: Option<Seq<char>>,
    column: SortColumn,
    direction: SortDirection,
    limit: nat,
    ids: Seq<Uuid>,
)
    requires
        crate::tables::linked(t),
        crate::tables::all_referenced(t),
        crate::tables::run(t, crate::db::file_deletion(id, sizes)) matches Some(u) && lists_files(
            u,
            folder_id,
            filter,
            column,
            direction,
            limit,
            ids,
        ),
    ensures
        !ids.contains(id),
{
    crate::laws::lemma_file_deleted(t, id, sizes);
    let u = crate::tables::run(t, crate::db::file_deletion(id, sizes))->Some_0;
    if ids.contains(id) {
        let i = choose|i: int| 0 <= i < ids.len() && ids[i] == id;
        assert(selected(u, folder_id, filter, ids[i]));
    }
}

/// A folder that was deleted is in no listing of folders, and no file that was in it or below it is in
/// any listing of files.
pub proof fn law_deleted_folder_is_not_listed(
    t: Tables,
    id: Uuid,
    parent_id: Option<Uuid>,
    folders: Seq<Uuid>,
    folder_id: Option<Uuid>,
    filter: Option<Seq<char>>,
    column: SortColumn,
    direction: SortDirection,
    limit: nat,
    files: Seq<Uuid>,
)
    requires
        crate::tables::linked(t),
        crate::tables::all_referenced(t),
        crate::tables::run(t, crate::db::folder_deletion(id)) matches Some(u) && {
            &&& lists_folders(u, parent_id, folders)
            &&& lists_files(u, folder_id, filter, column, direction, limit, files)
        },
    ensures
        !folders.contains(id),
        forall|file_id: Uuid| #[trigger]
            files.contains(file_id) ==> !crate::tables::file_in_tree(t, id, file_id),
{
    crate::laws::lemma_folder_deleted(t, id);
    let u = crate::tables::run(t, crate::db::folder_deletion(id))->Some_0;
    if t.folders.contains_key(id) {
        assert(crate::tables::descent(t, seq![id], id, id));
    }
    assert forall|file_id: Uuid| #[trigger]
        files.contains(file_id) implies !crate::tables::file_in_tree(t, id, file_id) by {
        let i = choose|i: int| 0 <= i < files.len() && files[i] == file_id;
        assert(selected(u, folder_id, filter, files[i]));
    }
}

} // verus!
