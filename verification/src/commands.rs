//! What the text of a statement that writes asks for, and what the database does on it.
use crate::changes::Change;
use crate::ident::Uuid;
use crate::sql::Bound;
use crate::tables::Tables;
use vstd::prelude::*;

verus! {

/// A value that a statement names: the parameter of a number, or a number.
pub enum Operand {
    Parameter(nat),
    Number(nat),
}

/// A value that a statement puts into a column.
pub enum Term {
    Just(Operand),
    NoBytes,
    Plus(Seq<char>, Operand),
    Minus(Seq<char>, Operand),
}

/// Which rows a statement is about.
pub enum Filter {
    Equal(Seq<char>, Operand),
    AtMost(Seq<char>, nat),
}

/// A statement that writes. An addition may say what becomes of a row that is there already under its
/// key.
pub enum Command {
    Add { table: Seq<char>, columns: Seq<Seq<char>>, values: Seq<Term> },
    AddOr {
        table: Seq<char>,
        columns: Seq<Seq<char>>,
        values: Seq<Term>,
        key: Seq<char>,
        column: Seq<char>,
        value: Term,
    },
    Put { table: Seq<char>, columns: Seq<Seq<char>>, values: Seq<Term>, filter: Filter },
    Remove { table: Seq<char>, filter: Filter },
}

/// A named value as it stands in a statement.
pub open spec fn operand_text(operand: Operand) -> Seq<char> {
    match operand {
        Operand::Parameter(n) => "?"@ + crate::text::decimal(n),
        Operand::Number(n) => crate::text::decimal(n),
    }
}

/// A value as it stands in a statement.
pub open spec fn term_text(term: Term) -> Seq<char> {
    match term {
        Term::Just(operand) => operand_text(operand),
        Term::NoBytes => "X''"@,
        Term::Plus(column, operand) => column + " + "@ + operand_text(operand),
        Term::Minus(column, operand) => column + " - "@ + operand_text(operand),
    }
}

/// Some values as they stand in a statement.
pub open spec fn terms_text(terms: Seq<Term>) -> Seq<char>
    decreases terms.len(),
{
    if terms.len() == 0 {
        Seq::empty()
    } else if terms.len() == 1 {
        term_text(terms[0])
    } else {
        terms_text(terms.drop_last()) + ", "@ + term_text(terms.last())
    }
}

/// Some columns with their new values as they stand in a statement.
pub open spec fn settings_text(columns: Seq<Seq<char>>, values: Seq<Term>) -> Seq<char>
    decreases columns.len(),
{
    if columns.len() == 0 {
        Seq::empty()
    } else if columns.len() == 1 {
        columns[0] + " = "@ + term_text(values[0])
    } else {
        settings_text(columns.drop_last(), values.drop_last()) + ", "@ + columns.last() + " = "@
            + term_text(values.last())
    }
}

/// A filter as it stands in a statement.
pub open spec fn filter_text(filter: Filter) -> Seq<char> {
    match filter {
        Filter::Equal(column, operand) => column + " = "@ + operand_text(operand),
        Filter::AtMost(column, n) => column + " <= "@ + crate::text::decimal(n),
    }
}

/// The text of a statement that writes.
pub open spec fn command_text(c: Command) -> Seq<char> {
    match c {
        Command::Add { table, columns, values } => "INSERT INTO "@ + table + " ("@
            + crate::queries::columns_text(columns) + ") VALUES ("@ + terms_text(values) + ")"@,
        Command::AddOr { table, columns, values, key, column, value } => "INSERT INTO "@ + table
            + " ("@ + crate::queries::columns_text(columns) + ") VALUES ("@ + terms_text(values)
            + ") ON CONFLICT("@ + key + ") DO UPDATE SET "@ + column + " = "@ + term_text(value),
        Command::Put { table, columns, values, filter } => "UPDATE "@ + table + " SET "@
            + settings_text(columns, values) + " WHERE "@ + filter_text(filter),
        Command::Remove { table, filter } => "DELETE FROM "@ + table + " WHERE "@ + filter_text(
            filter,
        ),
    }
}

/// What a named value is.
pub open spec fn operand_value(operand: Operand, params: Seq<Bound>) -> Bound {
    match operand {
        Operand::Parameter(n) => params[n - 1],
        Operand::Number(n) => Bound::Integer(n as int),
    }
}

/// What a value is, on a row.
pub open spec fn term_value(
    term: Term,
    params: Seq<Bound>,
    row: spec_fn(Seq<char>) -> Bound,
) -> Bound {
    match term {
        Term::Just(operand) => operand_value(operand, params),
        Term::NoBytes => Bound::Blob(Seq::empty()),
        Term::Plus(column, operand) => match (row(column), operand_value(operand, params)) {
            (Bound::Integer(a), Bound::Integer(b)) => Bound::Integer(a + b),
            _ => Bound::Null,
        },
        Term::Minus(column, operand) => match (row(column), operand_value(operand, params)) {
            (Bound::Integer(a), Bound::Integer(b)) => Bound::Integer(a - b),
            _ => Bound::Null,
        },
    }
}

/// What some columns with their values put into a column, or what is there already.
pub open spec fn put_value(
    columns: Seq<Seq<char>>,
    values: Seq<Term>,
    params: Seq<Bound>,
    row: spec_fn(Seq<char>) -> Bound,
    column: Seq<char>,
) -> Bound
    decreases columns.len(),
{
    if columns.len() == 0 {
        row(column)
    } else if columns.last() == column {
        term_value(values.last(), params, row)
    } else {
        put_value(columns.drop_last(), values.drop_last(), params, row, column)
    }
}

/// Whether a row is one that a filter is about.
pub open spec fn passes(
    filter: Filter,
    params: Seq<Bound>,
    row: spec_fn(Seq<char>) -> Bound,
) -> bool {
    match filter {
        Filter::Equal(column, operand) => row(column) != Bound::Null && row(column)
            == operand_value(operand, params),
        Filter::AtMost(column, n) => row(column) matches Bound::Integer(m) && m <= n,
    }
}

/// A row without values.
pub open spec fn empty_row() -> spec_fn(Seq<char>) -> Bound {
    |column: Seq<char>| Bound::Null
}

/// Whether rows are others after an addition under a new key: the new row has the values, and the
/// others are as they were. This is a reading of what the database documents; that it does so is not
/// proved.
pub open spec fn added<K>(
    before: spec_fn(K, Seq<char>) -> Bound,
    after: spec_fn(K, Seq<char>) -> Bound,
    keys: Set<K>,
    key: K,
    c: Command,
    params: Seq<Bound>,
) -> bool {
    match c {
        Command::Add { columns, values, .. } => {
            &&& !keys.contains(key)
            &&& forall|column: Seq<char>| #[trigger]
                after(key, column) == put_value(columns, values, params, empty_row(), column)
            &&& forall|k: K, column: Seq<char>|
                keys.contains(k) ==> #[trigger] after(k, column) == before(k, column)
        },
        _ => false,
    }
}

/// Whether rows are others after a statement that puts values into those that pass its filter: these
/// have the values, and the rest is as it was.
pub open spec fn put<K>(
    before: spec_fn(K, Seq<char>) -> Bound,
    after: spec_fn(K, Seq<char>) -> Bound,
    keys: Set<K>,
    c: Command,
    params: Seq<Bound>,
) -> bool {
    match c {
        Command::Put { columns, values, filter, .. } => forall|k: K, column: Seq<char>|
            keys.contains(k) ==> #[trigger] after(k, column) == (if passes(
                filter,
                params,
                crate::queries::row_at(before, k),
            ) {
                put_value(columns, values, params, crate::queries::row_at(before, k), column)
            } else {
                before(k, column)
            }),
        _ => false,
    }
}

/// What a block has in each column of the table of blocks.
pub open spec fn chunk_value(t: Tables) -> spec_fn(Seq<u8>, Seq<char>) -> Bound {
    |hash: Seq<u8>, column: Seq<char>|
        {
            if column == "chunk_hash"@ {
                Bound::Blob(hash)
            } else if column == "data"@ {
                Bound::Blob(t.chunks[hash].data)
            } else if column == "ref_count"@ {
                Bound::Integer(t.chunks[hash].refs)
            } else {
                Bound::Null
            }
        }
}

/// What a link has in each column of the table of links.
pub open spec fn place_value(t: Tables) -> spec_fn((Uuid, int), Seq<char>) -> Bound {
    |k: (Uuid, int), column: Seq<char>|
        {
            if column == "file_id"@ {
                Bound::Blob(k.0.bytes@)
            } else if column == "chunk_index"@ {
                Bound::Integer(k.1)
            } else if column == "chunk_hash"@ {
                Bound::Blob(t.links[k])
            } else {
                Bound::Null
            }
        }
}

/// What the row of totals has in each column.
pub open spec fn totals_value(t: Tables) -> spec_fn(int, Seq<char>) -> Bound {
    |k: int, column: Seq<char>|
        {
            if column == "id"@ {
                Bound::Integer(1)
            } else if column == "total_files"@ {
                Bound::Integer(t.totals.files)
            } else if column == "total_bytes"@ {
                Bound::Integer(t.totals.bytes)
            } else if column == "compressed_bytes"@ {
                Bound::Integer(t.totals.compressed)
            } else {
                Bound::Null
            }
        }
}

/// The statement that adds a folder writes the row that the folder has afterwards, and leaves the other
/// folders as they are.
pub proof fn law_folder_is_added(t: Tables, id: Uuid, name: Seq<char>, parent_id: Option<Uuid>)
    requires
        crate::tables::effect(t, Change::InsertFolder { id, name, parent_id }) is Some,
    ensures
        ({
            let change = Change::InsertFolder { id, name, parent_id };
            let s = crate::changes::change_statement(change);
            let u = crate::tables::effect(t, change)->Some_0;
            exists|c: Command| #[trigger]
                command_text(c) == s.sql && (c matches Command::Add { table, .. } && table
                    == "folders"@) && added(
                    crate::queries::folder_value(t),
                    crate::queries::folder_value(u),
                    t.folders.dom(),
                    id,
                    c,
                    s.params,
                )
        }),
{
    let change = Change::InsertFolder { id, name, parent_id };
    let s = crate::changes::change_statement(change);
    let u = crate::tables::effect(t, change)->Some_0;
    let columns = seq!["id"@, "name"@, "parent_id"@];
    let values = seq![
        Term::Just(Operand::Parameter(1)),
        Term::Just(Operand::Parameter(2)),
        Term::Just(Operand::Parameter(3)),
    ];
    let c = Command::Add { table: "folders"@, columns, values };
    reveal_with_fuel(crate::queries::columns_text, 4);
    reveal_with_fuel(terms_text, 4);
    reveal_with_fuel(put_value, 4);
    assert(columns.drop_last().drop_last() =~= seq!["id"@]);
    assert(values.drop_last().drop_last() =~= seq![values[0]]);
    assert(columns.drop_last().drop_last().drop_last() =~= Seq::empty());
    reveal_strlit("id");
    reveal_strlit("name");
    reveal_strlit("parent_id");
    reveal_strlit("folders");
    reveal_strlit(", ");
    reveal_strlit("?");
    reveal_strlit("INSERT INTO ");
    reveal_strlit(" (");
    reveal_strlit(") VALUES (");
    reveal_strlit(")");
    reveal_strlit("INSERT INTO folders (id, name, parent_id) VALUES (?1, ?2, ?3)");
    assert(s.sql =~= command_text(c));
    assert("id"@.len() == 2 && "name"@.len() == 4 && "parent_id"@.len() == 9);
    let after = crate::queries::folder_value(u);
    assert forall|column: Seq<char>| #[trigger]
        after(id, column) == put_value(columns, values, s.params, empty_row(), column) by {
    }
    assert(added(crate::queries::folder_value(t), after, t.folders.dom(), id, c, s.params));
}

/// The statement that adds a file writes the row that the file has afterwards, without blocks and
/// without a checksum yet, and leaves the other files as they are.
pub proof fn law_file_is_added(
    t: Tables,
    id: Uuid,
    name: Seq<char>,
    size: int,
    created_at: int,
    folder_id: Option<Uuid>,
)
    requires
        crate::tables::effect(t, Change::InsertFile { id, name, size, created_at, folder_id }) is Some,
    ensures
        ({
            let change = Change::InsertFile { id, name, size, created_at, folder_id };
            let s = crate::changes::change_statement(change);
            let u = crate::tables::effect(t, change)->Some_0;
            exists|c: Command| #[trigger]
                command_text(c) == s.sql && (c matches Command::Add { table, .. } && table
                    == "files"@) && added(
                    crate::queries::file_value(t),
                    crate::queries::file_value(u),
                    t.files.dom(),
                    id,
                    c,
                    s.params,
                )
        }),
{
    let change = Change::InsertFile { id, name, size, created_at, folder_id };
    let s = crate::changes::change_statement(change);
    let u = crate::tables::effect(t, change)->Some_0;
    let columns = seq!["id"@, "name"@, "size"@, "compressed_size"@, "created_at"@, "folder_id"@, "checksum"@];
    let values = seq![
        Term::Just(Operand::Parameter(1)),
        Term::Just(Operand::Parameter(2)),
        Term::Just(Operand::Parameter(3)),
        Term::Just(Operand::Number(0)),
        Term::Just(Operand::Parameter(4)),
        Term::Just(Operand::Parameter(5)),
        Term::NoBytes,
    ];
    let c = Command::Add { table: "files"@, columns, values };
    reveal_with_fuel(crate::queries::columns_text, 8);
    reveal_with_fuel(terms_text, 8);
    reveal_with_fuel(put_value, 8);
    assert(columns.drop_last().drop_last().drop_last().drop_last().drop_last().drop_last() =~= seq!["id"@]);
    assert(columns.drop_last().drop_last().drop_last().drop_last().drop_last().drop_last().drop_last() =~= Seq::empty());
    assert(values.drop_last().drop_last().drop_last().drop_last().drop_last().drop_last() =~= seq![values[0]]);
    reveal_strlit("id");
    reveal_strlit("name");
    reveal_strlit("size");
    reveal_strlit("compressed_size");
    reveal_strlit("created_at");
    reveal_strlit("folder_id");
    reveal_strlit("checksum");
    reveal_strlit("files");
    reveal_strlit("INSERT INTO ");
    reveal_strlit(" (");
    reveal_strlit(") VALUES (");
    reveal_strlit(")");
    reveal_strlit(", ");
    reveal_strlit("?");
    reveal_strlit("X''");
    reveal_strlit(
        "INSERT INTO files (id, name, size, compressed_size, created_at, folder_id, checksum) VALUES (?1, ?2, ?3, 0, ?4, ?5, X'')",
    );
    assert(s.sql =~= command_text(c));
    assert("id"@.len() == 2 && "id"@[0] == 'i');
    assert("name"@.len() == 4 && "name"@[0] == 'n');
    assert("size"@.len() == 4 && "size"@[0] == 's');
    assert("compressed_size"@.len() == 15 && "compressed_size"@[0] == 'c');
    assert("created_at"@.len() == 10 && "created_at"@[0] == 'c');
    assert("folder_id"@.len() == 9 && "folder_id"@[0] == 'f');
    assert("checksum"@.len() == 8 && "checksum"@[0] == 'c');
    let after = crate::queries::file_value(u);
    assert forall|column: Seq<char>| #[trigger]
        after(id, column) == put_value(columns, values, s.params, empty_row(), column) by {
    }
    assert(added(crate::queries::file_value(t), after, t.files.dom(), id, c, s.params));
}

/// The statement that links a block to a place in a file writes that link, and leaves the others as
/// they are.
pub proof fn law_link_is_added(t: Tables, file_id: Uuid, index: int, hash: Seq<u8>)
    requires
        crate::tables::effect(t, Change::LinkChunk { file_id, index, hash }) is Some,
    ensures
        ({
            let change = Change::LinkChunk { file_id, index, hash };
            let s = crate::changes::change_statement(change);
            let u = crate::tables::effect(t, change)->Some_0;
            exists|c: Command| #[trigger]
                command_text(c) == s.sql && (c matches Command::Add { table, .. } && table
                    == "file_chunks"@) && added(
                    place_value(t),
                    place_value(u),
                    t.links.dom(),
                    (file_id, index),
                    c,
                    s.params,
                )
        }),
{
    let change = Change::LinkChunk { file_id, index, hash };
    let s = crate::changes::change_statement(change);
    let u = crate::tables::effect(t, change)->Some_0;
    let columns = seq!["file_id"@, "chunk_index"@, "chunk_hash"@];
    let values = seq![
        Term::Just(Operand::Parameter(1)),
        Term::Just(Operand::Parameter(2)),
        Term::Just(Operand::Parameter(3)),
    ];
    let c = Command::Add { table: "file_chunks"@, columns, values };
    reveal_with_fuel(crate::queries::columns_text, 4);
    reveal_with_fuel(terms_text, 4);
    reveal_with_fuel(put_value, 4);
    assert(columns.drop_last().drop_last() =~= seq!["file_id"@]);
    assert(columns.drop_last().drop_last().drop_last() =~= Seq::empty());
    assert(values.drop_last().drop_last() =~= seq![values[0]]);
    reveal_strlit("file_id");
    reveal_strlit("chunk_index");
    reveal_strlit("chunk_hash");
    reveal_strlit("file_chunks");
    reveal_strlit("INSERT INTO ");
    reveal_strlit(" (");
    reveal_strlit(") VALUES (");
    reveal_strlit(")");
    reveal_strlit(", ");
    reveal_strlit("?");
    reveal_strlit(
        "INSERT INTO file_chunks (file_id, chunk_index, chunk_hash) VALUES (?1, ?2, ?3)",
    );
    assert(s.sql =~= command_text(c));
    assert("file_id"@.len() == 7 && "file_id"@[0] == 'f');
    assert("chunk_index"@.len() == 11 && "chunk_index"@[0] == 'c');
    assert("chunk_hash"@.len() == 10 && "chunk_hash"@[0] == 'c');
    let after = place_value(u);
    assert forall|column: Seq<char>| #[trigger]
        after((file_id, index), column) == put_value(columns, values, s.params, empty_row(), column) by {
    }
    assert(added(place_value(t), after, t.links.dom(), (file_id, index), c, s.params));
}

/// The statement that completes a file records its compressed size and its checksum with that file,
/// and changes nothing else of any.
pub proof fn law_file_is_sealed(t: Tables, id: Uuid, compressed_size: int, checksum: Seq<u8>)
    ensures
        ({
            let change = Change::SealFile { id, compressed_size, checksum };
            let s = crate::changes::change_statement(change);
            crate::tables::effect(t, change) matches Some(u) && exists|c: Command| #[trigger]
                command_text(c) == s.sql && (c matches Command::Put { table, .. } && table
                    == "files"@) && put(crate::queries::file_value(t), crate::queries::file_value(u), t.files.dom(), c, s.params)
        }),
{
    let change = Change::SealFile { id, compressed_size, checksum };
    let s = crate::changes::change_statement(change);
    let u = crate::tables::effect(t, change)->Some_0;
    let columns = seq!["compressed_size"@, "checksum"@];
    let values = seq![
        Term::Just(Operand::Parameter(1)),
        Term::Just(Operand::Parameter(2)),
    ];
    let c = Command::Put { table: "files"@, columns, values, filter: Filter::Equal("id"@, Operand::Parameter(3)) };
    reveal_with_fuel(settings_text, 3);
    reveal_with_fuel(put_value, 3);
    assert(columns.drop_last() =~= seq!["compressed_size"@]);
    assert(columns.drop_last().drop_last() =~= Seq::empty());
    assert(values.drop_last() =~= seq![values[0]]);
    reveal_strlit("compressed_size");
    reveal_strlit("checksum");
    reveal_strlit("files");
    reveal_strlit("UPDATE ");
    reveal_strlit(" SET ");
    reveal_strlit(" WHERE ");
    reveal_strlit(" = ");
    reveal_strlit("?");
    reveal_strlit(", ");
    reveal_strlit("id");
    reveal_strlit("name");
    reveal_strlit("size");
    reveal_strlit("created_at");
    reveal_strlit("folder_id");
    reveal_strlit(
        "UPDATE files SET compressed_size = ?1, checksum = ?2 WHERE id = ?3",
    );
    assert(s.sql =~= command_text(c));
    assert("id"@.len() == 2 && "id"@[0] == 'i');
    assert("name"@.len() == 4 && "name"@[0] == 'n');
    assert("size"@.len() == 4 && "size"@[0] == 's');
    assert("compressed_size"@.len() == 15 && "compressed_size"@[0] == 'c');
    assert("created_at"@.len() == 10 && "created_at"@[0] == 'c');
    assert("folder_id"@.len() == 9 && "folder_id"@[0] == 'f');
    assert("checksum"@.len() == 8 && "checksum"@[0] == 'c');
    let before = crate::queries::file_value(t);
    let after = crate::queries::file_value(u);
    let filter = Filter::Equal("id"@, Operand::Parameter(3));
    assert forall|k: Uuid, column: Seq<char>| t.files.dom().contains(k) implies #[trigger] after(
        k,
        column,
    ) == (if passes(filter, s.params, crate::queries::row_at(before, k)) {
        put_value(columns, values, s.params, crate::queries::row_at(before, k), column)
    } else {
        before(k, column)
    }) by {
        if k.bytes@ == id.bytes@ {
            assert(k.bytes =~= id.bytes);
        }
    }
    assert(put(before, after, t.files.dom(), c, s.params));
}

/// The statement that renames a file gives its name to that file, and changes nothing else of any.
pub proof fn law_file_is_renamed(t: Tables, id: Uuid, name: Seq<char>)
    ensures
        ({
            let change = Change::RenameFile { id, name };
            let s = crate::changes::change_statement(change);
            crate::tables::effect(t, change) matches Some(u) && exists|c: Command| #[trigger]
                command_text(c) == s.sql && (c matches Command::Put { table, .. } && table
                    == "files"@) && put(crate::queries::file_value(t), crate::queries::file_value(u), t.files.dom(), c, s.params)
        }),
{
    let change = Change::RenameFile { id, name };
    let s = crate::changes::change_statement(change);
    let u = crate::tables::effect(t, change)->Some_0;
    let columns = seq!["name"@];
    let values = seq![
        Term::Just(Operand::Parameter(1)),
    ];
    let c = Command::Put { table: "files"@, columns, values, filter: Filter::Equal("id"@, Operand::Parameter(2)) };
    reveal_with_fuel(settings_text, 2);
    reveal_with_fuel(put_value, 2);
    assert(columns.drop_last() =~= Seq::empty());
    reveal_strlit("name");
    reveal_strlit("files");
    reveal_strlit("UPDATE ");
    reveal_strlit(" SET ");
    reveal_strlit(" WHERE ");
    reveal_strlit(" = ");
    reveal_strlit("?");
    reveal_strlit("id");
    reveal_strlit("size");
    reveal_strlit("compressed_size");
    reveal_strlit("created_at");
    reveal_strlit("folder_id");
    reveal_strlit("checksum");
    reveal_strlit(
        "UPDATE files SET name = ?1 WHERE id = ?2",
    );
    assert(s.sql =~= command_text(c));
    assert("id"@.len() == 2 && "id"@[0] == 'i');
    assert("name"@.len() == 4 && "name"@[0] == 'n');
    assert("size"@.len() == 4 && "size"@[0] == 's');
    assert("compressed_size"@.len() == 15 && "compressed_size"@[0] == 'c');
    assert("created_at"@.len() == 10 && "created_at"@[0] == 'c');
    assert("folder_id"@.len() == 9 && "folder_id"@[0] == 'f');
    assert("checksum"@.len() == 8 && "checksum"@[0] == 'c');
    let before = crate::queries::file_value(t);
    let after = crate::queries::file_value(u);
    let filter = Filter::Equal("id"@, Operand::Parameter(2));
    assert forall|k: Uuid, column: Seq<char>| t.files.dom().contains(k) implies #[trigger] after(
        k,
        column,
    ) == (if passes(filter, s.params, crate::queries::row_at(before, k)) {
        put_value(columns, values, s.params, crate::queries::row_at(before, k), column)
    } else {
        before(k, column)
    }) by {
        if k.bytes@ == id.bytes@ {
            assert(k.bytes =~= id.bytes);
        }
    }
    assert(put(before, after, t.files.dom(), c, s.params));
}

/// The statement that renames a folder gives its name to that folder, and changes nothing else of any.
pub proof fn law_folder_is_renamed(t: Tables, id: Uuid, name: Seq<char>)
    ensures
        ({
            let change = Change::RenameFolder { id, name };
            let s = crate::changes::change_statement(change);
            crate::tables::effect(t, change) matches Some(u) && exists|c: Command| #[trigger]
                command_text(c) == s.sql && (c matches Command::Put { table, .. } && table
                    == "folders"@) && put(crate::queries::folder_value(t), crate::queries::folder_value(u), t.folders.dom(), c, s.params)
        }),
{
    let change = Change::RenameFolder { id, name };
    let s = crate::changes::change_statement(change);
    let u = crate::tables::effect(t, change)->Some_0;
    let columns = seq!["name"@];
    let values = seq![
        Term::Just(Operand::Parameter(1)),
    ];
    let c = Command::Put { table: "folders"@, columns, values, filter: Filter::Equal("id"@, Operand::Parameter(2)) };
    reveal_with_fuel(settings_text, 2);
    reveal_with_fuel(put_value, 2);
    assert(columns.drop_last() =~= Seq::empty());
    reveal_strlit("name");
    reveal_strlit("folders");
    reveal_strlit("UPDATE ");
    reveal_strlit(" SET ");
    reveal_strlit(" WHERE ");
    reveal_strlit(" = ");
    reveal_strlit("?");
    reveal_strlit("id");
    reveal_strlit("parent_id");
    reveal_strlit(
        "UPDATE folders SET name = ?1 WHERE id = ?2",
    );
    assert(s.sql =~= command_text(c));
    assert("id"@.len() == 2 && "id"@[0] == 'i');
    assert("name"@.len() == 4 && "name"@[0] == 'n');
    assert("parent_id"@.len() == 9 && "parent_id"@[0] == 'p');
    let before = crate::queries::folder_value(t);
    let after = crate::queries::folder_value(u);
    let filter = Filter::Equal("id"@, Operand::Parameter(2));
    assert forall|k: Uuid, column: Seq<char>| t.folders.dom().contains(k) implies #[trigger] after(
        k,
        column,
    ) == (if passes(filter, s.params, crate::queries::row_at(before, k)) {
        put_value(columns, values, s.params, crate::queries::row_at(before, k), column)
    } else {
        before(k, column)
    }) by {
        if k.bytes@ == id.bytes@ {
            assert(k.bytes =~= id.bytes);
        }
    }
    assert(put(before, after, t.folders.dom(), c, s.params));
}

/// The statement that counts a file adds one to the files of the totals, and its sizes to theirs.
pub proof fn law_file_is_counted(t: Tables, size: int, compressed_size: int)
    ensures
        ({
            let change = Change::CountFile { size, compressed_size };
            let s = crate::changes::change_statement(change);
            crate::tables::effect(t, change) matches Some(u) && exists|c: Command| #[trigger]
                command_text(c) == s.sql && (c matches Command::Put { table, .. } && table
                    == "vault_stats"@) && put(totals_value(t), totals_value(u), set![1int], c, s.params)
        }),
{
    let change = Change::CountFile { size, compressed_size };
    let s = crate::changes::change_statement(change);
    let u = crate::tables::effect(t, change)->Some_0;
    let columns = seq!["total_files"@, "total_bytes"@, "compressed_bytes"@];
    let values = seq![
        Term::Plus("total_files"@, Operand::Number(1)),
        Term::Plus("total_bytes"@, Operand::Parameter(1)),
        Term::Plus("compressed_bytes"@, Operand::Parameter(2)),
    ];
    let c = Command::Put { table: "vault_stats"@, columns, values, filter: Filter::Equal("id"@, Operand::Number(1)) };
    reveal_with_fuel(settings_text, 4);
    reveal_with_fuel(put_value, 4);
    assert(columns.drop_last().drop_last() =~= seq!["total_files"@]);
    assert(columns.drop_last().drop_last().drop_last() =~= Seq::empty());
    assert(values.drop_last().drop_last() =~= seq![values[0]]);
    reveal_strlit("total_files");
    reveal_strlit("total_bytes");
    reveal_strlit("compressed_bytes");
    reveal_strlit("vault_stats");
    reveal_strlit("UPDATE ");
    reveal_strlit(" SET ");
    reveal_strlit(" WHERE ");
    reveal_strlit(" = ");
    reveal_strlit("?");
    reveal_strlit(", ");
    reveal_strlit(" + ");
    reveal_strlit("id");
    reveal_strlit(
        "UPDATE vault_stats SET total_files = total_files + 1, total_bytes = total_bytes + ?1, compressed_bytes = compressed_bytes + ?2 WHERE id = 1",
    );
    assert(s.sql =~= command_text(c));
    assert("id"@.len() == 2 && "id"@[0] == 'i');
    assert("total_files"@.len() == 11 && "total_files"@[0] == 't');
    assert("total_bytes"@.len() == 11 && "total_bytes"@[0] == 't');
    assert("compressed_bytes"@.len() == 16 && "compressed_bytes"@[0] == 'c');
    assert("total_files"@[6] == 'f' && "total_bytes"@[6] == 'b');
    let before = totals_value(t);
    let after = totals_value(u);
    let filter = Filter::Equal("id"@, Operand::Number(1));
    assert forall|k: int, column: Seq<char>| set![1int].contains(k) implies #[trigger] after(
        k,
        column,
    ) == (if passes(filter, s.params, crate::queries::row_at(before, k)) {
        put_value(columns, values, s.params, crate::queries::row_at(before, k), column)
    } else {
        before(k, column)
    }) by {
    }
    assert(put(before, after, set![1int], c, s.params));
}

/// The statement that takes a file out of the totals takes one from the files and its sizes from
/// theirs.
pub proof fn law_file_is_uncounted(t: Tables, size: int, compressed_size: int)
    ensures
        ({
            let change = Change::UncountFile { size, compressed_size };
            let s = crate::changes::change_statement(change);
            crate::tables::effect(t, change) matches Some(u) && exists|c: Command| #[trigger]
                command_text(c) == s.sql && (c matches Command::Put { table, .. } && table
                    == "vault_stats"@) && put(totals_value(t), totals_value(u), set![1int], c, s.params)
        }),
{
    let change = Change::UncountFile { size, compressed_size };
    let s = crate::changes::change_statement(change);
    let u = crate::tables::effect(t, change)->Some_0;
    let columns = seq!["total_files"@, "total_bytes"@, "compressed_bytes"@];
    let values = seq![
        Term::Minus("total_files"@, Operand::Number(1)),
        Term::Minus("total_bytes"@, Operand::Parameter(1)),
        Term::Minus("compressed_bytes"@, Operand::Parameter(2)),
    ];
    let c = Command::Put { table: "vault_stats"@, columns, values, filter: Filter::Equal("id"@, Operand::Number(1)) };
    reveal_with_fuel(settings_text, 4);
    reveal_with_fuel(put_value, 4);
    assert(columns.drop_last().drop_last() =~= seq!["total_files"@]);
    assert(columns.drop_last().drop_last().drop_last() =~= Seq::empty());
    assert(values.drop_last().drop_last() =~= seq![values[0]]);
    reveal_strlit("total_files");
    reveal_strlit("total_bytes");
    reveal_strlit("compressed_bytes");
    reveal_strlit("vault_stats");
    reveal_strlit("UPDATE ");
    reveal_strlit(" SET ");
    reveal_strlit(" WHERE ");
    reveal_strlit(" = ");
    reveal_strlit("?");
    reveal_strlit(", ");
    reveal_strlit(" - ");
    reveal_strlit("id");
    reveal_strlit(
        "UPDATE vault_stats SET total_files = total_files - 1, total_bytes = total_bytes - ?1, compressed_bytes = compressed_bytes - ?2 WHERE id = 1",
    );
    assert(s.sql =~= command_text(c));
    assert("id"@.len() == 2 && "id"@[0] == 'i');
    assert("total_files"@.len() == 11 && "total_files"@[0] == 't');
    assert("total_bytes"@.len() == 11 && "total_bytes"@[0] == 't');
    assert("compressed_bytes"@.len() == 16 && "compressed_bytes"@[0] == 'c');
    assert("total_files"@[6] == 'f' && "total_bytes"@[6] == 'b');
    let before = totals_value(t);
    let after = totals_value(u);
    let filter = Filter::Equal("id"@, Operand::Number(1));
    assert forall|k: int, column: Seq<char>| set![1int].contains(k) implies #[trigger] after(
        k,
        column,
    ) == (if passes(filter, s.params, crate::queries::row_at(before, k)) {
        put_value(columns, values, s.params, crate::queries::row_at(before, k), column)
    } else {
        before(k, column)
    }) by {
    }
    assert(put(before, after, set![1int], c, s.params));
}

/// The statement that stores a block adds it with all of its data and one reference where its digest is
/// new. Where the digest is there already only its references grow, by one, and its data stays; the other
/// blocks stay as they are.
pub proof fn law_block_is_stored(t: Tables, hash: Seq<u8>, data: Seq<u8>)
    ensures
        ({
            let change = Change::StoreChunk { hash, data };
            let s = crate::changes::change_statement(change);
            let before = chunk_value(t);
            crate::tables::effect(t, change) matches Some(u) && exists|c: Command| #[trigger]
                command_text(c) == s.sql && (c matches Command::AddOr {
                    table,
                    columns,
                    values,
                    key,
                    column,
                    value,
                } && {
                    let after = chunk_value(u);
                    &&& table == "chunks"@
                    &&& key == "chunk_hash"@
                    &&& !t.chunks.contains_key(hash) ==> forall|name: Seq<char>| #[trigger]
                        after(hash, name) == put_value(columns, values, s.params, empty_row(), name)
                    &&& t.chunks.contains_key(hash) ==> forall|name: Seq<char>| #[trigger]
                        after(hash, name) == (if name == column {
                            term_value(value, s.params, crate::queries::row_at(before, hash))
                        } else {
                            before(hash, name)
                        })
                    &&& forall|other: Seq<u8>, name: Seq<char>|
                        other != hash ==> #[trigger] after(other, name) == before(other, name)
                })
        }),
{
    let change = Change::StoreChunk { hash, data };
    let s = crate::changes::change_statement(change);
    let u = crate::tables::effect(t, change)->Some_0;
    let columns = seq!["chunk_hash"@, "data"@, "ref_count"@];
    let values = seq![
        Term::Just(Operand::Parameter(1)),
        Term::Just(Operand::Parameter(2)),
        Term::Just(Operand::Number(1)),
    ];
    let c = Command::AddOr {
        table: "chunks"@,
        columns,
        values,
        key: "chunk_hash"@,
        column: "ref_count"@,
        value: Term::Plus("ref_count"@, Operand::Number(1)),
    };
    reveal_with_fuel(crate::queries::columns_text, 4);
    reveal_with_fuel(terms_text, 4);
    reveal_with_fuel(put_value, 4);
    assert(columns.drop_last().drop_last() =~= seq!["chunk_hash"@]);
    assert(columns.drop_last().drop_last().drop_last() =~= Seq::empty());
    assert(values.drop_last().drop_last() =~= seq![values[0]]);
    reveal_strlit("chunk_hash");
    reveal_strlit("data");
    reveal_strlit("ref_count");
    reveal_strlit("chunks");
    reveal_strlit("INSERT INTO ");
    reveal_strlit(" (");
    reveal_strlit(") VALUES (");
    reveal_strlit(", ");
    reveal_strlit("?");
    reveal_strlit(") ON CONFLICT(");
    reveal_strlit(") DO UPDATE SET ");
    reveal_strlit(" = ");
    reveal_strlit(" + ");
    reveal_strlit(
        "INSERT INTO chunks (chunk_hash, data, ref_count) VALUES (?1, ?2, 1) ON CONFLICT(chunk_hash) DO UPDATE SET ref_count = ref_count + 1",
    );
    assert(s.sql =~= command_text(c));
    assert("chunk_hash"@.len() == 10 && "chunk_hash"@[0] == 'c');
    assert("data"@.len() == 4 && "data"@[0] == 'd');
    assert("ref_count"@.len() == 9 && "ref_count"@[0] == 'r');
    let before = chunk_value(t);
    let after = chunk_value(u);
    if !t.chunks.contains_key(hash) {
        assert forall|name: Seq<char>| #[trigger]
            after(hash, name) == put_value(columns, values, s.params, empty_row(), name) by {
        }
    }
}

/// The statement that removes a file takes out the row of that file and of no other.
pub proof fn law_file_is_removed(t: Tables, id: Uuid)
    requires
        crate::tables::effect(t, Change::DeleteFile { id }) is Some,
    ensures
        ({
            let change = Change::DeleteFile { id };
            let s = crate::changes::change_statement(change);
            let u = crate::tables::effect(t, change)->Some_0;
            exists|c: Command| #[trigger]
                command_text(c) == s.sql && (c matches Command::Remove { table, filter } && table
                    == "files"@ && forall|k: Uuid|
                    t.files.contains_key(k) ==> (#[trigger] u.files.contains_key(k) <==> !passes(
                        filter,
                        s.params,
                        crate::queries::row_at(crate::queries::file_value(t), k),
                    )) && (u.files.contains_key(k) ==> u.files[k] == t.files[k]))
        }),
{
    let change = Change::DeleteFile { id };
    let s = crate::changes::change_statement(change);
    let u = crate::tables::effect(t, change)->Some_0;
    let c = Command::Remove { table: "files"@, filter: Filter::Equal("id"@, Operand::Parameter(1)) };
    reveal_strlit("files");
    reveal_strlit("DELETE FROM ");
    reveal_strlit(" WHERE ");
    reveal_strlit("id");
    reveal_strlit(" = ");
    reveal_strlit("?");
    reveal_strlit(
        "DELETE FROM files WHERE id = ?1",
    );
    assert(s.sql =~= command_text(c));
    assert("id"@.len() == 2 && "id"@[0] == 'i');
    assert forall|k: Uuid| t.files.contains_key(k) implies (#[trigger] u.files.contains_key(k)
        <==> !passes(Filter::Equal("id"@, Operand::Parameter(1)), s.params, crate::queries::row_at(crate::queries::file_value(t), k))) && (
    u.files.contains_key(k) ==> u.files[k] == t.files[k]) by {
        if k.bytes@ == id.bytes@ {
            assert(k.bytes =~= id.bytes);
        }
    }
}

/// The statement that removes blocks takes out those without references and no others.
pub proof fn law_unreferenced_blocks_are_removed(t: Tables)
    requires
        crate::tables::effect(t, Change::DropUnreferencedChunks) is Some,
    ensures
        ({
            let change = Change::DropUnreferencedChunks;
            let s = crate::changes::change_statement(change);
            let u = crate::tables::effect(t, change)->Some_0;
            exists|c: Command| #[trigger]
                command_text(c) == s.sql && (c matches Command::Remove { table, filter } && table
                    == "chunks"@ && forall|k: Seq<u8>|
                    t.chunks.contains_key(k) ==> (#[trigger] u.chunks.contains_key(k) <==> !passes(
                        filter,
                        s.params,
                        crate::queries::row_at(chunk_value(t), k),
                    )) && (u.chunks.contains_key(k) ==> u.chunks[k] == t.chunks[k]))
        }),
{
    let change = Change::DropUnreferencedChunks;
    let s = crate::changes::change_statement(change);
    let u = crate::tables::effect(t, change)->Some_0;
    let c = Command::Remove { table: "chunks"@, filter: Filter::AtMost("ref_count"@, 0) };
    reveal_strlit("chunks");
    reveal_strlit("DELETE FROM ");
    reveal_strlit(" WHERE ");
    reveal_strlit("ref_count");
    reveal_strlit(" <= ");
    reveal_strlit("chunk_hash");
    reveal_strlit("data");
    reveal_strlit(
        "DELETE FROM chunks WHERE ref_count <= 0",
    );
    assert(s.sql =~= command_text(c));
    assert("chunk_hash"@.len() == 10 && "chunk_hash"@[0] == 'c');
    assert("data"@.len() == 4 && "data"@[0] == 'd');
    assert("ref_count"@.len() == 9 && "ref_count"@[0] == 'r');
    assert forall|k: Seq<u8>| t.chunks.contains_key(k) implies (#[trigger] u.chunks.contains_key(k)
        <==> !passes(Filter::AtMost("ref_count"@, 0), s.params, crate::queries::row_at(chunk_value(t), k))) && (
    u.chunks.contains_key(k) ==> u.chunks[k] == t.chunks[k]) by {
    }
}

} // verus!
