//! What the text of a query asks for, and what the database gives for it.
use crate::db::{SortColumn, SortDirection};
use crate::ident::Uuid;
use crate::sql::Bound;
use crate::tables::Tables;
use vstd::prelude::*;

verus! {

/// A condition on the rows of a query. The first parameter is what a column is held against.
pub enum Condition {
    Any,
    Equal(Seq<char>),
    Absent(Seq<char>),
    Like(Seq<char>),
}

/// How many rows a query gives at most: all there are, as many as the parameter of a number says, or
/// one.
pub enum Limit {
    All,
    Parameter(nat),
    One,
}

/// A query: its columns, where its rows are from, which of them it is about, the column they are
/// sorted by with the direction, and how many it gives.
pub struct Query {
    pub columns: Seq<Seq<char>>,
    pub source: Seq<char>,
    pub condition: Condition,
    pub order: Option<(Seq<char>, SortDirection)>,
    pub limit: Limit,
}

/// Some columns as they stand in a query.
pub open spec fn columns_text(columns: Seq<Seq<char>>) -> Seq<char>
    decreases columns.len(),
{
    if columns.len() == 0 {
        Seq::empty()
    } else if columns.len() == 1 {
        columns[0]
    } else {
        columns_text(columns.drop_last()) + ", "@ + columns.last()
    }
}

/// A condition as it stands in a query.
pub open spec fn condition_text(condition: Condition) -> Seq<char> {
    match condition {
        Condition::Any => Seq::empty(),
        Condition::Equal(column) => " WHERE "@ + column + " = ?1"@,
        Condition::Absent(column) => " WHERE "@ + column + " IS NULL"@,
        Condition::Like(column) => " WHERE "@ + column + " LIKE ?1"@,
    }
}

/// An order as it stands in a query.
pub open spec fn order_text(order: Option<(Seq<char>, SortDirection)>) -> Seq<char> {
    match order {
        None => Seq::empty(),
        Some((column, direction)) => " ORDER BY "@ + column + (match direction {
            SortDirection::Asc => " ASC"@,
            SortDirection::Desc => " DESC"@,
        }),
    }
}

/// A limit as it stands in a query.
pub open spec fn limit_text(limit: Limit) -> Seq<char> {
    match limit {
        Limit::All => Seq::empty(),
        Limit::Parameter(n) => " LIMIT ?"@ + crate::text::decimal(n),
        Limit::One => " LIMIT 1"@,
    }
}

/// The text of a query.
pub open spec fn query_text(q: Query) -> Seq<char> {
    "SELECT "@ + columns_text(q.columns) + " FROM "@ + q.source + condition_text(q.condition)
        + order_text(q.order) + limit_text(q.limit)
}

/// Whether a row, given by what it has in each column, meets a condition.
pub open spec fn meets(
    condition: Condition,
    params: Seq<Bound>,
    row: spec_fn(Seq<char>) -> Bound,
) -> bool {
    match condition {
        Condition::Any => true,
        Condition::Equal(column) => row(column) != Bound::Null && row(column) == params[0],
        Condition::Absent(column) => row(column) == Bound::Null,
        Condition::Like(column) => match (row(column), params[0]) {
            (Bound::Text(name), Bound::Text(pattern)) => crate::search::like(pattern, name),
            _ => false,
        },
    }
}

/// Whether a value sorts before another of its kind.
pub open spec fn sorts_before(a: Bound, b: Bound) -> bool {
    match (a, b) {
        (Bound::Integer(m), Bound::Integer(n)) => m < n,
        (Bound::Text(m), Bound::Text(n)) => crate::listings::bytes_before(
            vstd::utf8::encode_utf8(m),
            vstd::utf8::encode_utf8(n),
        ),
        (Bound::Blob(m), Bound::Blob(n)) => crate::listings::bytes_before(m, n),
        _ => false,
    }
}

/// Whether a row comes before another in an order.
pub open spec fn comes_first(
    order: Option<(Seq<char>, SortDirection)>,
    a: spec_fn(Seq<char>) -> Bound,
    b: spec_fn(Seq<char>) -> Bound,
) -> bool {
    match order {
        None => false,
        Some((column, direction)) => match direction {
            SortDirection::Asc => sorts_before(a(column), b(column)),
            SortDirection::Desc => sorts_before(b(column), a(column)),
        },
    }
}

/// How many rows a limit lets through, if it is one.
pub open spec fn most(limit: Limit, params: Seq<Bound>) -> Option<nat> {
    match limit {
        Limit::All => None,
        Limit::Parameter(n) => match params[n - 1] {
            Bound::Integer(m) => Some(m as nat),
            _ => None,
        },
        Limit::One => Some(1),
    }
}

/// The row of a source that has a key.
pub open spec fn row_at<K>(
    value: spec_fn(K, Seq<char>) -> Bound,
    key: K,
) -> spec_fn(Seq<char>) -> Bound {
    |column: Seq<char>| value(key, column)
}

/// Whether a query can give these rows of a source, in this order: rows that meet the condition, none
/// twice, sorted, no more than the limit, and all of them unless the limit is reached, in which case
/// none that is left out comes before one that is given. A row is known by a key. This is a reading of
/// what the database documents of `SELECT`; that it does so is not proved.
pub open spec fn gives<K>(
    source: Set<K>,
    value: spec_fn(K, Seq<char>) -> Bound,
    q: Query,
    params: Seq<Bound>,
    keys: Seq<K>,
) -> bool {
    &&& keys.no_duplicates()
    &&& most(q.limit, params) matches Some(n) ==> keys.len() <= n
    &&& forall|i: int|
        0 <= i < keys.len() ==> source.contains(#[trigger] keys[i]) && meets(
            q.condition,
            params,
            row_at(value, keys[i]),
        )
    &&& forall|i: int, j: int|
        0 <= i < j < keys.len() ==> !comes_first(
            q.order,
            row_at(value, #[trigger] keys[j]),
            row_at(value, #[trigger] keys[i]),
        )
    &&& forall|k: K| #[trigger]
        source.contains(k) && meets(q.condition, params, row_at(value, k)) && !keys.contains(k) ==> {
            &&& most(q.limit, params) == Some(keys.len())
            &&& forall|i: int|
                0 <= i < keys.len() ==> !comes_first(q.order, row_at(value, k), row_at(value, #[trigger] keys[i]))
        }
}

/// What a file has in each column of the table of files.
pub open spec fn file_value(t: Tables) -> spec_fn(Uuid, Seq<char>) -> Bound {
    |id: Uuid, column: Seq<char>|
        {
            let row = t.files[id];
            if column == "id"@ {
                Bound::Blob(id.bytes@)
            } else if column == "name"@ {
                Bound::Text(row.name)
            } else if column == "size"@ {
                Bound::Integer(row.size)
            } else if column == "compressed_size"@ {
                Bound::Integer(row.compressed_size)
            } else if column == "created_at"@ {
                Bound::Integer(row.created_at)
            } else if column == "folder_id"@ {
                crate::changes::bound_id(row.folder_id)
            } else if column == "checksum"@ {
                Bound::Blob(row.checksum)
            } else {
                Bound::Null
            }
        }
}

/// What a folder has in each column of the table of folders.
pub open spec fn folder_value(t: Tables) -> spec_fn(Uuid, Seq<char>) -> Bound {
    |id: Uuid, column: Seq<char>|
        {
            let row = t.folders[id];
            if column == "id"@ {
                Bound::Blob(id.bytes@)
            } else if column == "name"@ {
                Bound::Text(row.name)
            } else if column == "parent_id"@ {
                crate::changes::bound_id(row.parent_id)
            } else {
                Bound::Null
            }
        }
}

/// What a link has in each column of the links joined with their blocks.
pub open spec fn link_value(t: Tables) -> spec_fn((Uuid, int), Seq<char>) -> Bound {
    |k: (Uuid, int), column: Seq<char>|
        {
            if column == "fc.file_id"@ {
                Bound::Blob(k.0.bytes@)
            } else if column == "fc.chunk_index"@ {
                Bound::Integer(k.1)
            } else if column == "c.data"@ {
                Bound::Blob(t.chunks[t.links[k]].data)
            } else {
                Bound::Null
            }
        }
}

/// The names of the columns are told apart.
proof fn lemma_column_names()
    ensures
        "id"@.len() == 2,
        "name"@.len() == 4,
        "size"@.len() == 4,
        "name"@[0] == 'n',
        "size"@[0] == 's',
        "compressed_size"@.len() == 15,
        "created_at"@.len() == 10,
        "folder_id"@.len() == 9,
        "parent_id"@.len() == 9,
        "checksum"@.len() == 8,
        "fc.file_id"@.len() == 10,
        "fc.chunk_index"@.len() == 14,
        "c.data"@.len() == 6,
{
    reveal_strlit("id");
    reveal_strlit("name");
    reveal_strlit("size");
    reveal_strlit("compressed_size");
    reveal_strlit("created_at");
    reveal_strlit("folder_id");
    reveal_strlit("parent_id");
    reveal_strlit("checksum");
    reveal_strlit("fc.file_id");
    reveal_strlit("fc.chunk_index");
    reveal_strlit("c.data");
}

/// The columns of a listing of files.
pub open spec fn file_columns() -> Seq<Seq<char>> {
    seq![
        "id"@,
        "name"@,
        "size"@,
        "compressed_size"@,
        "created_at"@,
        "folder_id"@,
        "checksum"@,
    ]
}

/// The front of a listing of files.
proof fn lemma_files_front()
    ensures
        crate::db::SELECT_FILES@ == "SELECT "@ + columns_text(file_columns()) + " FROM "@ + "files"@
            + " "@,
{
    let c = file_columns();
    reveal_with_fuel(columns_text, 8);
    assert(c.drop_last().drop_last().drop_last().drop_last().drop_last().drop_last() =~= seq![
        "id"@,
    ]);
    reveal_strlit("id");
    reveal_strlit("name");
    reveal_strlit("size");
    reveal_strlit("compressed_size");
    reveal_strlit("created_at");
    reveal_strlit("folder_id");
    reveal_strlit("checksum");
    reveal_strlit(", ");
    reveal_strlit("SELECT ");
    reveal_strlit(" FROM ");
    reveal_strlit("files");
    reveal_strlit(" ");
    reveal_strlit(
        "SELECT id, name, size, compressed_size, created_at, folder_id, checksum FROM files ",
    );
    assert(crate::db::SELECT_FILES@ =~= "SELECT "@ + columns_text(c) + " FROM "@ + "files"@ + " "@);
}

/// The query of a listing of files.
spec fn listing_query(
    folder_id: Option<Uuid>,
    filter: Option<Seq<char>>,
    column: SortColumn,
    direction: SortDirection,
) -> Query {
    Query {
        columns: file_columns(),
        source: "files"@,
        condition: match filter {
            Some(_) => Condition::Like("name"@),
            None => match folder_id {
                Some(_) => Condition::Equal("folder_id"@),
                None => Condition::Absent("folder_id"@),
            },
        },
        order: Some((crate::db::column_name(column), direction)),
        limit: if filter is Some || folder_id is Some {
            Limit::Parameter(2)
        } else {
            Limit::Parameter(1)
        },
    }
}

/// The text of a listing is that of its query.
proof fn lemma_listing_text(
    folder_id: Option<Uuid>,
    filter: Option<Seq<char>>,
    column: SortColumn,
    direction: SortDirection,
    limit: int,
)
    ensures
        crate::db::listing(folder_id, filter, column, direction, limit).sql == query_text(
            listing_query(folder_id, filter, column, direction),
        ),
{
    lemma_files_front();
    let q = listing_query(folder_id, filter, column, direction);
    let sql = crate::db::listing(folder_id, filter, column, direction, limit).sql;
    let front = "SELECT "@ + columns_text(file_columns()) + " FROM "@ + "files"@;
    let name = crate::db::column_name(column);
    let order = name + " "@ + crate::db::direction_word(direction);
    reveal_strlit(" ");
    reveal_strlit("ASC");
    reveal_strlit("DESC");
    reveal_strlit(" ASC");
    reveal_strlit(" DESC");
    reveal_strlit(" ORDER BY ");
    reveal_strlit(" LIMIT ?");
    reveal_strlit(" LIMIT ?1");
    reveal_strlit(" LIMIT ?2");
    reveal_strlit(" WHERE ");
    reveal_strlit(" = ?1");
    reveal_strlit(" IS NULL");
    reveal_strlit(" LIKE ?1");
    reveal_strlit("name");
    reveal_strlit("folder_id");
    reveal_strlit("WHERE name LIKE ?1 ORDER BY ");
    reveal_strlit("WHERE folder_id = ?1 ORDER BY ");
    reveal_strlit("WHERE folder_id IS NULL ORDER BY ");
    assert(" "@ + crate::db::direction_word(direction) =~= (match direction {
        SortDirection::Asc => " ASC"@,
        SortDirection::Desc => " DESC"@,
    }));
    assert(order =~= name + (" "@ + crate::db::direction_word(direction)));
    assert(" LIMIT ?2"@ =~= limit_text(Limit::Parameter(2)));
    assert(" LIMIT ?1"@ =~= limit_text(Limit::Parameter(1)));
    if filter is Some {
        assert(" "@ + "WHERE name LIKE ?1 ORDER BY "@ =~= condition_text(q.condition)
            + " ORDER BY "@);
    } else if folder_id is Some {
        assert(" "@ + "WHERE folder_id = ?1 ORDER BY "@ =~= condition_text(q.condition)
            + " ORDER BY "@);
    } else {
        assert(" "@ + "WHERE folder_id IS NULL ORDER BY "@ =~= condition_text(q.condition)
            + " ORDER BY "@);
    }
    let condition = condition_text(q.condition);
    let middle = if filter is Some {
        "WHERE name LIKE ?1 ORDER BY "@
    } else if folder_id is Some {
        "WHERE folder_id = ?1 ORDER BY "@
    } else {
        "WHERE folder_id IS NULL ORDER BY "@
    };
    let end = limit_text(q.limit);
    assert(sql == crate::db::SELECT_FILES@ + middle + order + end);
    assert(crate::db::SELECT_FILES@ + middle =~= front + (" "@ + middle));
    assert(front + (condition + " ORDER BY "@) + order + end =~= front + condition + order_text(
        q.order,
    ) + end);
}

/// What a listing's query gives is what is said of listings.
proof fn lemma_gives_listing(
    t: Tables,
    folder_id: Option<Uuid>,
    filter: Option<Seq<char>>,
    column: SortColumn,
    direction: SortDirection,
    limit: nat,
    ids: Seq<Uuid>,
)
    ensures
        gives(
            t.files.dom(),
            file_value(t),
            listing_query(folder_id, filter, column, direction),
            crate::db::listing(folder_id, filter, column, direction, limit as int).params,
            ids,
        ) <==> crate::listings::lists_files(
            t,
            folder_id,
            filter,
            column,
            direction,
            limit,
            ids,
        ),
{
    let q = listing_query(folder_id, filter, column, direction);
    let params = crate::db::listing(folder_id, filter, column, direction, limit as int).params;
    let value = file_value(t);
    lemma_column_names();
    assert(most(q.limit, params) == Some(limit));
    assert forall|id: Uuid| #[trigger] t.files.contains_key(id) implies meets(
        q.condition,
        params,
        row_at(value, id),
    ) == crate::listings::selected(t, folder_id, filter, id) by {
        if let (Some(f), Some(g)) = (t.files[id].folder_id, folder_id) {
            if f.bytes@ == g.bytes@ {
                assert(f.bytes =~= g.bytes);
            }
        }
    }
    assert forall|a: Uuid, b: Uuid|
        #![trigger row_at(value, a), row_at(value, b)]
        comes_first(q.order, row_at(value, a), row_at(value, b)) == crate::listings::goes_before(
            column,
            direction,
            t.files[a],
            t.files[b],
        ) by {
    }
    if gives(t.files.dom(), value, q, params, ids) {
        assert forall|i: int| 0 <= i < ids.len() implies crate::listings::selected(
            t,
            folder_id,
            filter,
            #[trigger] ids[i],
        ) by {
            assert(t.files.dom().contains(ids[i]));
            assert(t.files.contains_key(ids[i]));
        }
        assert forall|i: int, j: int| 0 <= i < j < ids.len() implies !crate::listings::goes_before(
            column,
            direction,
            t.files[#[trigger] ids[j]],
            t.files[#[trigger] ids[i]],
        ) by {
            assert(!comes_first(q.order, row_at(value, ids[j]), row_at(value, ids[i])));
        }
        assert forall|id: Uuid| #[trigger]
            crate::listings::selected(t, folder_id, filter, id) && !ids.contains(id) implies {
            &&& ids.len() == limit
            &&& forall|i: int|
                0 <= i < ids.len() ==> !crate::listings::goes_before(
                    column,
                    direction,
                    t.files[id],
                    t.files[#[trigger] ids[i]],
                )
        } by {
            assert(t.files.contains_key(id) && t.files.dom().contains(id));
            assert forall|i: int| 0 <= i < ids.len() implies !crate::listings::goes_before(
                column,
                direction,
                t.files[id],
                t.files[#[trigger] ids[i]],
            ) by {
                assert(!comes_first(q.order, row_at(value, id), row_at(value, ids[i])));
            }
        }
    }
    if crate::listings::lists_files(t, folder_id, filter, column, direction, limit, ids) {
        assert forall|i: int| 0 <= i < ids.len() implies t.files.dom().contains(#[trigger] ids[i])
            && meets(q.condition, params, row_at(value, ids[i])) by {
            assert(crate::listings::selected(t, folder_id, filter, ids[i]));
            assert(t.files.contains_key(ids[i]));
        }
        assert forall|i: int, j: int| 0 <= i < j < ids.len() implies !comes_first(
            q.order,
            row_at(value, #[trigger] ids[j]),
            row_at(value, #[trigger] ids[i]),
        ) by {
        }
        assert forall|k: Uuid| #[trigger]
            t.files.dom().contains(k) && meets(q.condition, params, row_at(value, k))
                && !ids.contains(k) implies {
            &&& most(q.limit, params) == Some(ids.len())
            &&& forall|i: int|
                0 <= i < ids.len() ==> !comes_first(
                    q.order,
                    row_at(value, k),
                    row_at(value, #[trigger] ids[i]),
                )
        } by {
            assert(t.files.contains_key(k));
            assert(crate::listings::selected(t, folder_id, filter, k));
        }
    }
}

/// A listing of files is sorted by the column and in the direction that were asked for, in a folder,
/// at the top and in a search alike. Its text is that of a query, for the seven columns of a file, and
/// what the database gives for it are the files of the folder, or those whose name matches the search
/// in any folder; none twice, no more than the limit, and all of them unless the limit is reached.
pub proof fn law_listing_gives_sorted_files(
    t: Tables,
    folder_id: Option<Uuid>,
    filter: Option<Seq<char>>,
    column: SortColumn,
    direction: SortDirection,
    limit: nat,
)
    ensures
        ({
            let statement = crate::db::listing(
                folder_id,
                filter,
                column,
                direction,
                limit as int,
            );
            exists|q: Query|
                #![trigger query_text(q)]
                {
                    &&& query_text(q) == statement.sql
                    &&& q.columns == file_columns()
                    &&& q.source == "files"@
                    &&& forall|ids: Seq<Uuid>| #[trigger]
                        gives(t.files.dom(), file_value(t), q, statement.params, ids) ==> {
                            &&& ids.no_duplicates()
                            &&& ids.len() <= limit
                            &&& forall|i: int|
                                0 <= i < ids.len() ==> t.files.contains_key(#[trigger] ids[i])
                                    && match filter {
                                    Some(query) => crate::search::like(
                                        "%"@ + crate::text::trimmed(query) + "%"@,
                                        t.files[ids[i]].name,
                                    ),
                                    None => t.files[ids[i]].folder_id == folder_id,
                                }
                            &&& forall|id: Uuid| #[trigger]
                                t.files.contains_key(id) && !ids.contains(id) && (match filter {
                                    Some(query) => crate::search::like(
                                        "%"@ + crate::text::trimmed(query) + "%"@,
                                        t.files[id].name,
                                    ),
                                    None => t.files[id].folder_id == folder_id,
                                }) ==> ids.len() == limit
                            &&& forall|i: int, j: int|
                                0 <= i < j < ids.len() ==> {
                                    let a = t.files[#[trigger] ids[i]];
                                    let b = t.files[#[trigger] ids[j]];
                                    match (column, direction) {
                                        (SortColumn::Size, SortDirection::Asc) => a.size <= b.size,
                                        (SortColumn::Size, SortDirection::Desc) => a.size >= b.size,
                                        (SortColumn::EncryptedSize, SortDirection::Asc) =>
                                            a.compressed_size <= b.compressed_size,
                                        (SortColumn::EncryptedSize, SortDirection::Desc) =>
                                            a.compressed_size >= b.compressed_size,
                                        (SortColumn::Modified, SortDirection::Asc) => a.created_at
                                            <= b.created_at,
                                        (SortColumn::Modified, SortDirection::Desc) => a.created_at
                                            >= b.created_at,
                                        (SortColumn::Name, SortDirection::Asc) =>
                                            !crate::listings::bytes_before(
                                            vstd::utf8::encode_utf8(b.name),
                                            vstd::utf8::encode_utf8(a.name),
                                        ),
                                        (SortColumn::Name, SortDirection::Desc) =>
                                            !crate::listings::bytes_before(
                                            vstd::utf8::encode_utf8(a.name),
                                            vstd::utf8::encode_utf8(b.name),
                                        ),
                                    }
                                }
                        }
                    &&& forall|ids: Seq<Uuid>| #[trigger]
                        gives(t.files.dom(), file_value(t), q, statement.params, ids)
                            <==> crate::listings::lists_files(
                            t,
                            folder_id,
                            filter,
                            column,
                            direction,
                            limit,
                            ids,
                        )
                }
        }),
{
    let statement = crate::db::listing(folder_id, filter, column, direction, limit as int);
    let q = listing_query(folder_id, filter, column, direction);
    lemma_listing_text(folder_id, filter, column, direction, limit as int);
    lemma_column_names();
    assert(query_text(q) == statement.sql);
    assert forall|ids: Seq<Uuid>| #[trigger]
        gives(t.files.dom(), file_value(t), q, statement.params, ids)
            <==> crate::listings::lists_files(
            t,
            folder_id,
            filter,
            column,
            direction,
            limit,
            ids,
        ) by {
        lemma_gives_listing(t, folder_id, filter, column, direction, limit, ids);
    }
    assert forall|id: Uuid| #[trigger] t.files.contains_key(id) implies crate::listings::selected(
        t,
        folder_id,
        filter,
        id,
    ) == (match filter {
        Some(query) => crate::search::like(
            "%"@ + crate::text::trimmed(query) + "%"@,
            t.files[id].name,
        ),
        None => t.files[id].folder_id == folder_id,
    }) by {
    }
}

/// Where the rows of the blocks of files are from: the links, each with the block it leads to.
pub open spec fn joined_links(t: Tables) -> Set<(Uuid, int)> {
    Set::new(|k: (Uuid, int)| t.links.contains_key(k) && t.chunks.contains_key(t.links[k]))
}

/// The query for the blocks of a file.
spec fn blocks_asked() -> Query {
    Query {
        columns: seq!["c.data"@],
        source: "file_chunks fc JOIN chunks c ON fc.chunk_hash = c.chunk_hash"@,
        condition: Condition::Equal("fc.file_id"@),
        order: Some(("fc.chunk_index"@, SortDirection::Asc)),
        limit: Limit::All,
    }
}

/// The text of the query for the blocks of a file.
proof fn lemma_blocks_text(file_id: Uuid)
    ensures
        crate::export::blocks_query(file_id).sql == query_text(blocks_asked()),
{
    let q = blocks_asked();
    reveal_with_fuel(columns_text, 2);
    reveal_strlit("c.data");
    reveal_strlit("file_chunks fc JOIN chunks c ON fc.chunk_hash = c.chunk_hash");
    reveal_strlit("fc.file_id");
    reveal_strlit("fc.chunk_index");
    reveal_strlit("SELECT ");
    reveal_strlit(" FROM ");
    reveal_strlit(" WHERE ");
    reveal_strlit(" = ?1");
    reveal_strlit(" ORDER BY ");
    reveal_strlit(" ASC");
    reveal_strlit(
        "SELECT c.data FROM file_chunks fc JOIN chunks c ON fc.chunk_hash = c.chunk_hash WHERE fc.file_id = ?1 ORDER BY fc.chunk_index ASC",
    );
    assert(crate::db::SELECT_FILE_CHUNKS@ =~= query_text(q));
}

/// What the query for the blocks of a file has at a place is the link of that number.
proof fn lemma_block_places(t: Tables, file_id: Uuid, n: nat, keys: Seq<(Uuid, int)>, upto: nat)
    requires
        crate::tables::linked(t),
        crate::tables::block_count(t, file_id, n),
        gives(
            joined_links(t),
            link_value(t),
            blocks_asked(),
            crate::export::blocks_query(file_id).params,
            keys,
        ),
        upto <= n,
    ensures
        keys.len() >= upto,
        forall|i: int| 0 <= i < upto ==> #[trigger] keys[i] == (file_id, i),
        forall|i: int| 0 <= i < keys.len() ==> (#[trigger] keys[i]).0 == file_id && 0 <= keys[i].1 < n,
        forall|i: int, j: int|
            0 <= i < j < keys.len() ==> (#[trigger] keys[i]).1 < (#[trigger] keys[j]).1,
    decreases upto,
{
    let q = blocks_asked();
    let params = crate::export::blocks_query(file_id).params;
    let value = link_value(t);
    lemma_column_names();
    reveal_strlit("fc.file_id");
    reveal_strlit("fc.chunk_index");
    assert forall|i: int| 0 <= i < keys.len() implies (#[trigger] keys[i]).0 == file_id && 0
        <= keys[i].1 < n by {
        let k = keys[i];
        assert(joined_links(t).contains(k) && meets(q.condition, params, row_at(value, k)));
        assert(k.0.bytes =~= file_id.bytes);
        assert(t.links.contains_key((file_id, k.1)));
    }
    assert forall|i: int, j: int| 0 <= i < j < keys.len() implies (#[trigger] keys[i]).1 < (
    #[trigger] keys[j]).1 by {
        assert(!comes_first(q.order, row_at(value, keys[j]), row_at(value, keys[i])));
        assert(keys[i] != keys[j]);
    }
    if upto > 0 {
        let last = upto - 1;
        lemma_block_places(t, file_id, n, keys, last as nat);
        let k = (file_id, last);
        assert(t.links.contains_key(k));
        assert(joined_links(t).contains(k));
        assert(meets(q.condition, params, row_at(value, k)));
        assert(keys.contains(k));
        let p = choose|p: int| 0 <= p < keys.len() && keys[p] == k;
        if p < last {
            assert(keys[p] == (file_id, p));
        }
        if last > 0 {
            assert(keys[last - 1] == (file_id, last - 1));
            assert(keys[last - 1].1 < keys[last].1);
        }
        if p > last {
            assert(keys[last].1 < keys[p].1);
        }
    }
}

/// The query for the blocks of a file, which an export and a preview read, gives every block of the
/// file, however many there are: as many rows as the file has links, in the order of the links, each
/// with the whole data of its block.
pub proof fn law_export_gives_every_block(t: Tables, file_id: Uuid, n: nat)
    requires
        crate::tables::linked(t),
        crate::tables::block_count(t, file_id, n),
    ensures
        exists|q: Query|
            #![trigger query_text(q)]
            {
                &&& query_text(q) == crate::export::blocks_query(file_id).sql
                &&& q.columns == seq!["c.data"@]
                &&& q.source == "file_chunks fc JOIN chunks c ON fc.chunk_hash = c.chunk_hash"@
                &&& forall|keys: Seq<(Uuid, int)>| #[trigger]
                    gives(
                        joined_links(t),
                        link_value(t),
                        q,
                        crate::export::blocks_query(file_id).params,
                        keys,
                    ) ==> {
                        &&& keys.len() == n
                        &&& forall|i: int|
                            0 <= i < n ==> {
                                &&& #[trigger] keys[i] == (file_id, i)
                                &&& link_value(t)(keys[i], "c.data"@) == Bound::Blob(
                                    t.chunks[t.links[(file_id, i)]].data,
                                )
                            }
                    }
            },
{
    lemma_blocks_text(file_id);
    let q = blocks_asked();
    let params = crate::export::blocks_query(file_id).params;
    assert(query_text(q) == crate::export::blocks_query(file_id).sql);
    assert forall|keys: Seq<(Uuid, int)>| #[trigger]
        gives(joined_links(t), link_value(t), q, params, keys) implies {
        &&& keys.len() == n
        &&& forall|i: int|
            0 <= i < n ==> {
                &&& #[trigger] keys[i] == (file_id, i)
                &&& link_value(t)(keys[i], "c.data"@) == Bound::Blob(
                    t.chunks[t.links[(file_id, i)]].data,
                )
            }
    } by {
        lemma_block_places(t, file_id, n, keys, n);
        lemma_column_names();
        if keys.len() > n {
            if n > 0 {
                assert(keys[n - 1].1 < keys[n as int].1);
            }
            assert(0 <= keys[n as int].1 < n);
        }
    }
}

/// The query for the folders in a folder.
spec fn folders_asked(parent_id: Option<Uuid>) -> Query {
    Query {
        columns: seq!["id"@, "name"@, "parent_id"@],
        source: "folders"@,
        condition: if parent_id is Some {
            Condition::Equal("parent_id"@)
        } else {
            Condition::Absent("parent_id"@)
        },
        order: Some(("name"@, SortDirection::Asc)),
        limit: Limit::All,
    }
}

/// The query for a listing of folders, with its bound values.
pub open spec fn folders_query(parent_id: Option<Uuid>) -> crate::sql::StatementView {
    match parent_id {
        Some(id) => crate::sql::StatementView {
            sql: crate::db::SELECT_SUBFOLDERS@,
            params: seq![Bound::Blob(id.bytes@)],
        },
        None => crate::sql::StatementView { sql: crate::db::SELECT_TOP_FOLDERS@, params: seq![] },
    }
}

/// The text of the query for the folders in a folder.
proof fn lemma_folders_text(parent_id: Option<Uuid>)
    ensures
        folders_query(parent_id).sql == query_text(folders_asked(parent_id)),
{
    let q = folders_asked(parent_id);
    reveal_with_fuel(columns_text, 4);
    assert(q.columns.drop_last().drop_last() =~= seq!["id"@]);
    reveal_strlit("id");
    reveal_strlit("name");
    reveal_strlit("parent_id");
    reveal_strlit(", ");
    reveal_strlit("folders");
    reveal_strlit("SELECT ");
    reveal_strlit(" FROM ");
    reveal_strlit(" WHERE ");
    reveal_strlit(" = ?1");
    reveal_strlit(" IS NULL");
    reveal_strlit(" ORDER BY ");
    reveal_strlit(" ASC");
    reveal_strlit(
        "SELECT id, name, parent_id FROM folders WHERE parent_id = ?1 ORDER BY name ASC",
    );
    reveal_strlit(
        "SELECT id, name, parent_id FROM folders WHERE parent_id IS NULL ORDER BY name ASC",
    );
    if parent_id is Some {
        assert(crate::db::SELECT_SUBFOLDERS@ =~= query_text(q));
    } else {
        assert(crate::db::SELECT_TOP_FOLDERS@ =~= query_text(q));
    }
}

/// The query for the folders in a folder, or at the top, gives just those, all of them and none twice,
/// in the order of the bytes of their names.
pub proof fn law_folder_listing_gives_children(t: Tables, parent_id: Option<Uuid>)
    ensures
        exists|q: Query|
            #![trigger query_text(q)]
            {
                &&& query_text(q) == folders_query(parent_id).sql
                &&& q.columns == seq!["id"@, "name"@, "parent_id"@]
                &&& q.source == "folders"@
                &&& forall|ids: Seq<Uuid>| #[trigger]
                    gives(
                        t.folders.dom(),
                        folder_value(t),
                        q,
                        folders_query(parent_id).params,
                        ids,
                    ) ==> {
                        &&& ids.no_duplicates()
                        &&& forall|id: Uuid| #[trigger]
                            ids.contains(id) <==> t.folders.contains_key(id)
                                && t.folders[id].parent_id == parent_id
                        &&& forall|i: int, j: int|
                            0 <= i < j < ids.len() ==> !crate::listings::bytes_before(
                                vstd::utf8::encode_utf8(t.folders[#[trigger] ids[j]].name),
                                vstd::utf8::encode_utf8(t.folders[#[trigger] ids[i]].name),
                            )
                    }
            },
{
    lemma_folders_text(parent_id);
    lemma_column_names();
    reveal_strlit("parent_id");
    let q = folders_asked(parent_id);
    let params = folders_query(parent_id).params;
    let value = folder_value(t);
    assert(query_text(q) == folders_query(parent_id).sql);
    assert forall|id: Uuid| #[trigger] t.folders.dom().contains(id) implies meets(
        q.condition,
        params,
        row_at(value, id),
    ) == (t.folders[id].parent_id == parent_id) by {
        if let (Some(f), Some(g)) = (t.folders[id].parent_id, parent_id) {
            if f.bytes@ == g.bytes@ {
                assert(f.bytes =~= g.bytes);
            }
        }
    }
    assert forall|ids: Seq<Uuid>| #[trigger]
        gives(t.folders.dom(), value, q, params, ids) implies {
        &&& ids.no_duplicates()
        &&& forall|id: Uuid| #[trigger]
            ids.contains(id) <==> t.folders.contains_key(id) && t.folders[id].parent_id
                == parent_id
        &&& forall|i: int, j: int|
            0 <= i < j < ids.len() ==> !crate::listings::bytes_before(
                vstd::utf8::encode_utf8(t.folders[#[trigger] ids[j]].name),
                vstd::utf8::encode_utf8(t.folders[#[trigger] ids[i]].name),
            )
    } by {
        assert forall|id: Uuid| #[trigger] ids.contains(id) <==> t.folders.contains_key(id)
            && t.folders[id].parent_id == parent_id by {
            if ids.contains(id) {
                let i = choose|i: int| 0 <= i < ids.len() && ids[i] == id;
                assert(t.folders.dom().contains(ids[i]));
            }
            if t.folders.contains_key(id) {
                assert(t.folders.dom().contains(id));
            }
        }
        assert forall|i: int, j: int| 0 <= i < j < ids.len() implies !crate::listings::bytes_before(
            vstd::utf8::encode_utf8(t.folders[#[trigger] ids[j]].name),
            vstd::utf8::encode_utf8(t.folders[#[trigger] ids[i]].name),
        ) by {
            assert(!comes_first(q.order, row_at(value, ids[j]), row_at(value, ids[i])));
        }
    }
}

/// The query for the files to be checked.
spec fn checks_asked() -> Query {
    Query {
        columns: seq!["id"@, "name"@, "checksum"@],
        source: "files"@,
        condition: Condition::Any,
        order: None,
        limit: Limit::All,
    }
}

/// The query of a check of the archive gives every file, none twice: no file goes unchecked.
pub proof fn law_check_asks_for_every_file(t: Tables)
    ensures
        exists|q: Query|
            #![trigger query_text(q)]
            {
                &&& query_text(q) == crate::db::SELECT_ALL_CHECKSUMS@
                &&& q.columns == seq!["id"@, "name"@, "checksum"@]
                &&& q.source == "files"@
                &&& forall|ids: Seq<Uuid>| #[trigger]
                    gives(t.files.dom(), file_value(t), q, seq![], ids) ==> {
                        &&& ids.no_duplicates()
                        &&& forall|id: Uuid| #[trigger]
                            ids.contains(id) <==> t.files.contains_key(id)
                    }
            },
{
    let q = checks_asked();
    reveal_with_fuel(columns_text, 4);
    assert(q.columns.drop_last().drop_last() =~= seq!["id"@]);
    reveal_strlit("id");
    reveal_strlit("name");
    reveal_strlit("checksum");
    reveal_strlit(", ");
    reveal_strlit("files");
    reveal_strlit("SELECT ");
    reveal_strlit(" FROM ");
    reveal_strlit("SELECT id, name, checksum FROM files");
    assert(crate::db::SELECT_ALL_CHECKSUMS@ =~= query_text(q));
    assert forall|ids: Seq<Uuid>| #[trigger]
        gives(t.files.dom(), file_value(t), q, seq![], ids) implies {
        &&& ids.no_duplicates()
        &&& forall|id: Uuid| #[trigger] ids.contains(id) <==> t.files.contains_key(id)
    } by {
        assert forall|id: Uuid| #[trigger] ids.contains(id) <==> t.files.contains_key(id) by {
            if ids.contains(id) {
                let i = choose|i: int| 0 <= i < ids.len() && ids[i] == id;
                assert(t.files.dom().contains(ids[i]));
            }
            if t.files.contains_key(id) {
                assert(t.files.dom().contains(id));
            }
        }
    }
}

/// The query for a file with a checksum.
spec fn checksum_asked() -> Query {
    Query {
        columns: seq!["name"@],
        source: "files"@,
        condition: Condition::Equal("checksum"@),
        order: None,
        limit: Limit::One,
    }
}

/// The query for a file with a checksum gives the name of one that has it, and nothing if and only if
/// no file has it.
pub proof fn law_checksum_finds_file(t: Tables, checksum: Seq<u8>)
    ensures
        exists|q: Query|
            #![trigger query_text(q)]
            {
                &&& query_text(q) == crate::db::SELECT_BY_CHECKSUM@
                &&& q.columns == seq!["name"@]
                &&& q.source == "files"@
                &&& forall|ids: Seq<Uuid>| #[trigger]
                    gives(t.files.dom(), file_value(t), q, seq![Bound::Blob(checksum)], ids) ==> {
                        &&& ids.len() <= 1
                        &&& ids.len() == 1 ==> t.files.contains_key(ids[0])
                            && t.files[ids[0]].checksum == checksum
                        &&& ids.len() == 0 ==> forall|id: Uuid| #[trigger]
                            t.files.contains_key(id) ==> t.files[id].checksum != checksum
                    }
            },
{
    let q = checksum_asked();
    let params = seq![Bound::Blob(checksum)];
    reveal_with_fuel(columns_text, 2);
    lemma_column_names();
    reveal_strlit("name");
    reveal_strlit("checksum");
    reveal_strlit("files");
    reveal_strlit("SELECT ");
    reveal_strlit(" FROM ");
    reveal_strlit(" WHERE ");
    reveal_strlit(" = ?1");
    reveal_strlit(" LIMIT 1");
    reveal_strlit("SELECT name FROM files WHERE checksum = ?1 LIMIT 1");
    assert(crate::db::SELECT_BY_CHECKSUM@ =~= query_text(q));
    assert forall|id: Uuid| #[trigger] t.files.dom().contains(id) implies meets(
        q.condition,
        params,
        row_at(file_value(t), id),
    ) == (t.files[id].checksum == checksum) by {
    }
    assert forall|ids: Seq<Uuid>| #[trigger]
        gives(t.files.dom(), file_value(t), q, params, ids) implies {
        &&& ids.len() <= 1
        &&& ids.len() == 1 ==> t.files.contains_key(ids[0]) && t.files[ids[0]].checksum == checksum
        &&& ids.len() == 0 ==> forall|id: Uuid| #[trigger]
            t.files.contains_key(id) ==> t.files[id].checksum != checksum
    } by {
        if ids.len() == 1 {
            assert(t.files.dom().contains(ids[0]));
        }
        if ids.len() == 0 {
            assert forall|id: Uuid| #[trigger] t.files.contains_key(id) implies t.files[id].checksum
                != checksum by {
                assert(t.files.dom().contains(id));
                assert(!ids.contains(id));
            }
        }
    }
}

} // verus!
