//! Statements with their parameters, and the cells of the rows that come back.
use crate::text::text_from_utf8;
use vstd::prelude::*;

verus! {

/// A value bound to a parameter of a statement.
#[derive(Debug)]
pub enum SqlValue {
    Null,
    Integer(i64),
    Text(String),
    Blob(Vec<u8>),
}

/// A bound value as a mathematical one.
pub enum Bound {
    Null,
    Integer(int),
    Text(Seq<char>),
    Blob(Seq<u8>),
}

impl View for SqlValue {
    type V = Bound;

    open spec fn view(&self) -> Bound {
        match *self {
            SqlValue::Null => Bound::Null,
            SqlValue::Integer(n) => Bound::Integer(n as int),
            SqlValue::Text(t) => Bound::Text(t@),
            SqlValue::Blob(b) => Bound::Blob(b@),
        }
    }
}

/// The views of a list of bound values.
pub open spec fn bound_values(values: Seq<SqlValue>) -> Seq<Bound> {
    Seq::new(values.len(), |i: int| values[i]@)
}

/// A statement and the values of its parameters, the first for `?1`.
#[derive(Debug)]
pub struct Statement {
    pub sql: String,
    pub params: Vec<SqlValue>,
}

/// A statement as a mathematical value.
#[verifier::ext_equal]
pub struct StatementView {
    pub sql: Seq<char>,
    pub params: Seq<Bound>,
}

impl View for Statement {
    type V = StatementView;

    open spec fn view(&self) -> StatementView {
        StatementView { sql: self.sql@, params: bound_values(self.params@) }
    }
}

/// A statement without parameters.
pub(crate) fn statement0(sql: &str) -> (statement: Statement)
    ensures
        statement@ == (StatementView { sql: sql@, params: seq![] }),
        statement.sql@ == sql@,
        statement.params@.len() == 0,
{
    let statement = Statement { sql: sql.to_string(), params: Vec::new() };
    proof {
        assert(bound_values(statement.params@) =~= seq![]);
    }
    statement
}

/// A statement with one parameter.
pub(crate) fn statement1(sql: &str, first: SqlValue) -> (statement: Statement)
    ensures
        statement@ == (StatementView { sql: sql@, params: seq![first@] }),
        statement.sql@ == sql@,
        statement.params@ == seq![first],
{
    let mut params: Vec<SqlValue> = Vec::new();
    params.push(first);
    proof {
        assert(bound_values(params@) =~= seq![first@]);
    }
    Statement { sql: sql.to_string(), params }
}

/// A statement with two parameters.
pub(crate) fn statement2(sql: &str, first: SqlValue, second: SqlValue) -> (statement: Statement)
    ensures
        statement@ == (StatementView { sql: sql@, params: seq![first@, second@] }),
        statement.sql@ == sql@,
        statement.params@ == seq![first, second],
{
    let mut params: Vec<SqlValue> = Vec::new();
    params.push(first);
    params.push(second);
    proof {
        assert(bound_values(params@) =~= seq![first@, second@]);
    }
    Statement { sql: sql.to_string(), params }
}

/// A statement with three parameters.
pub(crate) fn statement3(sql: &str, first: SqlValue, second: SqlValue, third: SqlValue) -> (statement:
    Statement)
    ensures
        statement@ == (StatementView { sql: sql@, params: seq![first@, second@, third@] }),
        statement.sql@ == sql@,
        statement.params@ == seq![first, second, third],
{
    let mut params: Vec<SqlValue> = Vec::new();
    params.push(first);
    params.push(second);
    params.push(third);
    proof {
        assert(bound_values(params@) =~= seq![first@, second@, third@]);
    }
    Statement { sql: sql.to_string(), params }
}

/// A statement with five parameters.
pub(crate) fn statement5(
    sql: &str,
    first: SqlValue,
    second: SqlValue,
    third: SqlValue,
    fourth: SqlValue,
    fifth: SqlValue,
) -> (statement: Statement)
    ensures
        statement@ == (StatementView {
            sql: sql@,
            params: seq![first@, second@, third@, fourth@, fifth@],
        }),
        statement.sql@ == sql@,
        statement.params@ == seq![first, second, third, fourth, fifth],
{
    let mut params: Vec<SqlValue> = Vec::new();
    params.push(first);
    params.push(second);
    params.push(third);
    params.push(fourth);
    params.push(fifth);
    proof {
        assert(bound_values(params@) =~= seq![first@, second@, third@, fourth@, fifth@]);
    }
    Statement { sql: sql.to_string(), params }
}

/// A cell of a row that the database returned. Text comes as its bytes. A floating-point cell has
/// no content here, since no column of the schema is read as one.
#[derive(Debug)]
pub enum Cell {
    Null,
    Integer(i64),
    Real,
    Text(Vec<u8>),
    Blob(Vec<u8>),
}

/// Why a statement could not be prepared or a row not be read.
#[derive(Debug)]
pub enum DbError {
    /// The row has no such column.
    MissingColumn { column: usize },
    /// The cell is of another storage class.
    WrongType { column: usize },
    /// The integer does not fit the field.
    OutOfRange { column: usize, value: i64 },
    /// The text is not valid UTF-8.
    NotUtf8 { column: usize },
    /// A size does not fit an integer of the database.
    IntegerTooLarge,
    /// A running total does not fit its field.
    SizeOverflow,
    /// A block could not be compressed or decompressed.
    Codec(String),
}

/// The bytes in a column.
pub open spec fn blob_in(row: Seq<Cell>, column: int) -> Result<Seq<u8>, DbError> {
    if column >= row.len() {
        Err(DbError::MissingColumn { column: column as usize })
    } else {
        match row[column] {
            Cell::Blob(b) => Ok(b@),
            _ => Err(DbError::WrongType { column: column as usize }),
        }
    }
}

/// The bytes in a column that may be null.
pub open spec fn optional_blob_in(row: Seq<Cell>, column: int) -> Result<
    Option<Seq<u8>>,
    DbError,
> {
    if column >= row.len() {
        Err(DbError::MissingColumn { column: column as usize })
    } else {
        match row[column] {
            Cell::Null => Ok(None),
            Cell::Blob(b) => Ok(Some(b@)),
            _ => Err(DbError::WrongType { column: column as usize }),
        }
    }
}

/// The text in a column.
pub open spec fn text_in(row: Seq<Cell>, column: int) -> Result<Seq<char>, DbError> {
    if column >= row.len() {
        Err(DbError::MissingColumn { column: column as usize })
    } else {
        match row[column] {
            Cell::Text(b) => if vstd::utf8::valid_utf8(b@) {
                Ok(vstd::utf8::decode_utf8(b@))
            } else {
                Err(DbError::NotUtf8 { column: column as usize })
            },
            _ => Err(DbError::WrongType { column: column as usize }),
        }
    }
}

/// The integer in a column.
pub open spec fn integer_in(row: Seq<Cell>, column: int) -> Result<i64, DbError> {
    if column >= row.len() {
        Err(DbError::MissingColumn { column: column as usize })
    } else {
        match row[column] {
            Cell::Integer(n) => Ok(n),
            _ => Err(DbError::WrongType { column: column as usize }),
        }
    }
}

/// The size in a column: an integer that fits.
pub open spec fn size_in(row: Seq<Cell>, column: int) -> Result<usize, DbError> {
    match integer_in(row, column) {
        Ok(n) => if 0 <= n <= usize::MAX {
            Ok(n as usize)
        } else {
            Err(DbError::OutOfRange { column: column as usize, value: n })
        },
        Err(e) => Err(e),
    }
}

/// Reads the bytes in a column.
pub fn read_blob(row: &[Cell], column: usize) -> (res: Result<Vec<u8>, DbError>)
    ensures
        match res {
            Ok(b) => blob_in(row@, column as int) == Ok::<Seq<u8>, DbError>(b@),
            Err(e) => blob_in(row@, column as int) == Err::<Seq<u8>, DbError>(e),
        },
        column >= row@.len() ==> res == Err::<Vec<u8>, DbError>(DbError::MissingColumn { column }),
        column < row@.len() ==> match row@[column as int] {
            Cell::Blob(b) => res is Ok && res->Ok_0@ == b@,
            _ => res == Err::<Vec<u8>, DbError>(DbError::WrongType { column }),
        },
{
    if column >= row.len() {
        return Err(DbError::MissingColumn { column });
    }
    match &row[column] {
        Cell::Blob(b) => Ok(vstd::slice::slice_to_vec(b.as_slice())),
        _ => Err(DbError::WrongType { column }),
    }
}

/// Reads the bytes in a column that may be null.
pub fn read_optional_blob(row: &[Cell], column: usize) -> (res: Result<Option<Vec<u8>>, DbError>)
    ensures
        match res {
            Ok(Some(b)) => optional_blob_in(row@, column as int) == Ok::<
                Option<Seq<u8>>,
                DbError,
            >(Some(b@)),
            Ok(None) => optional_blob_in(row@, column as int) == Ok::<Option<Seq<u8>>, DbError>(
                None,
            ),
            Err(e) => optional_blob_in(row@, column as int) == Err::<Option<Seq<u8>>, DbError>(e),
        },
        column >= row@.len() ==> res == Err::<Option<Vec<u8>>, DbError>(
            DbError::MissingColumn { column },
        ),
        column < row@.len() ==> match row@[column as int] {
            Cell::Null => res == Ok::<Option<Vec<u8>>, DbError>(None),
            Cell::Blob(b) => res matches Ok(Some(v)) && v@ == b@,
            _ => res == Err::<Option<Vec<u8>>, DbError>(DbError::WrongType { column }),
        },
{
    if column >= row.len() {
        return Err(DbError::MissingColumn { column });
    }
    match &row[column] {
        Cell::Null => Ok(None),
        Cell::Blob(b) => Ok(Some(vstd::slice::slice_to_vec(b.as_slice()))),
        _ => Err(DbError::WrongType { column }),
    }
}

/// Reads the text in a column.
pub fn read_text(row: &[Cell], column: usize) -> (res: Result<String, DbError>)
    ensures
        match res {
            Ok(t) => text_in(row@, column as int) == Ok::<Seq<char>, DbError>(t@),
            Err(e) => text_in(row@, column as int) == Err::<Seq<char>, DbError>(e),
        },
        column >= row@.len() ==> res == Err::<String, DbError>(DbError::MissingColumn { column }),
        column < row@.len() ==> match row@[column as int] {
            Cell::Text(b) => if vstd::utf8::valid_utf8(b@) {
                res matches Ok(t) && vstd::utf8::encode_utf8(t@) == b@
            } else {
                res == Err::<String, DbError>(DbError::NotUtf8 { column })
            },
            _ => res == Err::<String, DbError>(DbError::WrongType { column }),
        },
{
    if column >= row.len() {
        return Err(DbError::MissingColumn { column });
    }
    match &row[column] {
        Cell::Text(b) => match text_from_utf8(vstd::slice::slice_to_vec(b.as_slice())) {
            Some(t) => {
                proof {
                    vstd::utf8::decode_utf8_encode_utf8(b@);
                }
                Ok(t)
            },
            None => Err(DbError::NotUtf8 { column }),
        },
        _ => Err(DbError::WrongType { column }),
    }
}

/// Reads the integer in a column.
pub fn read_integer(row: &[Cell], column: usize) -> (res: Result<i64, DbError>)
    ensures
        res == integer_in(row@, column as int),
        column >= row@.len() ==> res == Err::<i64, DbError>(DbError::MissingColumn { column }),
        column < row@.len() ==> match row@[column as int] {
            Cell::Integer(n) => res == Ok::<i64, DbError>(n),
            _ => res == Err::<i64, DbError>(DbError::WrongType { column }),
        },
{
    if column >= row.len() {
        return Err(DbError::MissingColumn { column });
    }
    match &row[column] {
        Cell::Integer(n) => Ok(*n),
        _ => Err(DbError::WrongType { column }),
    }
}

/// Reads the size in a column.
pub fn read_size(row: &[Cell], column: usize) -> (res: Result<usize, DbError>)
    ensures
        res == size_in(row@, column as int),
        column >= row@.len() ==> res == Err::<usize, DbError>(DbError::MissingColumn { column }),
        column < row@.len() ==> match row@[column as int] {
            Cell::Integer(n) => if 0 <= n <= usize::MAX {
                res is Ok && res->Ok_0 == n
            } else {
                res == Err::<usize, DbError>(DbError::OutOfRange { column, value: n })
            },
            _ => res == Err::<usize, DbError>(DbError::WrongType { column }),
        },
{
    match read_integer(row, column) {
        Ok(n) => if n >= 0 && n as u64 <= usize::MAX as u64 {
            Ok(n as usize)
        } else {
            Err(DbError::OutOfRange { column, value: n })
        },
        Err(e) => Err(e),
    }
}

/// Whether a size fits an integer of the database.
pub open spec fn fits_integer(n: int) -> bool {
    n <= i64::MAX
}

/// Binds a size.
pub fn size_value(n: usize) -> (res: Result<SqlValue, DbError>)
    ensures
        res is Ok <==> fits_integer(n as int),
        res is Ok <==> n <= i64::MAX,
        res matches Ok(value) ==> value@ == Bound::Integer(n as int),
        res matches Ok(value) ==> (value matches SqlValue::Integer(i) && i == n),
        res matches Err(e) ==> e == DbError::IntegerTooLarge,
{
    if n as u64 <= 0x7FFF_FFFF_FFFF_FFFF {
        Ok(SqlValue::Integer(n as i64))
    } else {
        Err(DbError::IntegerTooLarge)
    }
}

} // verus!
