//! What the opening of a database makes of the file at its path.
use crate::db::StepView;
use crate::ident::Uuid;
use crate::tables::{ChunkRow, FileRow, FolderRow, Tables, Totals};
use vstd::prelude::*;

verus! {

/// What a database file holds: of each table its rows, or nothing where the table has not been made.
/// The table of totals may be there without its row.
#[verifier::ext_equal]
pub struct Stored {
    pub folders: Option<Map<Uuid, FolderRow>>,
    pub files: Option<Map<Uuid, FileRow>>,
    pub chunks: Option<Map<Seq<u8>, ChunkRow>>,
    pub links: Option<Map<(Uuid, int), Seq<u8>>>,
    pub totals: Option<Option<Totals>>,
}

/// What a file that is not there yet holds.
pub open spec fn nothing() -> Stored {
    Stored { folders: None, files: None, chunks: None, links: None, totals: None }
}

/// What the file of an archive holds.
pub open spec fn stored(t: Tables) -> Stored {
    Stored {
        folders: Some(t.folders),
        files: Some(t.files),
        chunks: Some(t.chunks),
        links: Some(t.links),
        totals: Some(Some(t.totals)),
    }
}

/// A table as it is, or an empty one where it has not been made.
pub open spec fn made<K, V>(table: Option<Map<K, V>>) -> Map<K, V> {
    match table {
        Some(rows) => rows,
        None => Map::empty(),
    }
}

/// What the file holds after the schema: every table is made that is not there, and so is the row of
/// totals, with zeros; what is there stays.
pub open spec fn with_schema(s: Stored) -> Tables {
    Tables {
        folders: made(s.folders),
        files: made(s.files),
        chunks: made(s.chunks),
        links: made(s.links),
        totals: match s.totals {
            Some(Some(totals)) => totals,
            _ => Totals { files: 0, bytes: 0, compressed: 0 },
        },
    }
}

/// What the file holds after a step of an opening, or nothing where the step fails. This is a reading
/// of the step's SQL, for a file that can be written and whose key is the one given: whether it is,
/// SQLCipher decides at the first step that reads the file. The pragmas of an opening set the
/// connection up and leave every row as it is.
pub open spec fn step_taken(s: Stored, step: StepView) -> Option<Stored> {
    match step {
        StepView::Pragma { .. } => Some(s),
        StepView::Batch { sql } => if sql == crate::db::SCHEMA@ {
            Some(stored(with_schema(s)))
        } else {
            Some(s)
        },
        StepView::Probe { .. } => if s.totals matches Some(Some(_)) {
            Some(s)
        } else {
            None
        },
    }
}

/// What the file holds after some steps, or nothing where one fails.
pub open spec fn steps_taken(s: Stored, steps: Seq<StepView>) -> Option<Stored>
    decreases steps.len(),
{
    if steps.len() == 0 {
        Some(s)
    } else {
        match steps_taken(s, steps.drop_last()) {
            Some(r) => step_taken(r, steps.last()),
            None => None,
        }
    }
}

/// What is at a path of a disk.
pub open spec fn found(disk: Map<Seq<char>, Stored>, path: Seq<char>) -> Stored {
    if disk.contains_key(path) {
        disk[path]
    } else {
        nothing()
    }
}

/// The disk after the database at a path was opened under its key, or nothing where that fails.
pub open spec fn opened(
    disk: Map<Seq<char>, Stored>,
    path: Seq<char>,
    key: Seq<char>,
) -> Option<Map<Seq<char>, Stored>> {
    let place = crate::paths::plain_path(path);
    match steps_taken(found(disk, place), crate::db::opening_steps(key)) {
        Some(s) => Some(disk.insert(place, s)),
        None => None,
    }
}

/// The steps of an opening make the tables that are not there and find the row of totals.
proof fn lemma_opening(s: Stored, key: Seq<char>)
    ensures
        steps_taken(s, crate::db::opening_steps(key)) == Some(stored(with_schema(s))),
{
    let steps = crate::db::opening_steps(key);
    let upto = |n: int| steps.subrange(0, n);
    assert(stored(with_schema(stored(with_schema(s)))) == stored(with_schema(s)));
    assert(steps_taken(s, upto(0)) == Some(s));
    assert forall|n: int| 0 < n <= 10 implies #[trigger] upto(n).drop_last() == upto(n - 1) && upto(
        n,
    ).last() == steps[n - 1] by {
        assert(upto(n).drop_last() =~= upto(n - 1));
    }
    assert(upto(1).drop_last() == upto(0));
    assert(upto(2).drop_last() == upto(1));
    assert(upto(3).drop_last() == upto(2));
    assert(upto(4).drop_last() == upto(3));
    assert(upto(5).drop_last() == upto(4));
    assert(upto(6).drop_last() == upto(5));
    assert(upto(7).drop_last() == upto(6));
    assert(upto(8).drop_last() == upto(7));
    assert(upto(9).drop_last() == upto(8));
    assert(upto(10).drop_last() == upto(9));
    let last = stored(with_schema(s));
    assert(steps_taken(s, upto(1)) == Some(s));
    assert(steps_taken(s, upto(2)) == Some(s) || steps_taken(s, upto(2)) == Some(last));
    assert(steps_taken(s, upto(8)) == steps_taken(s, upto(2))) by {
        assert(steps_taken(s, upto(3)) == steps_taken(s, upto(2)));
        assert(steps_taken(s, upto(4)) == steps_taken(s, upto(2)));
        assert(steps_taken(s, upto(5)) == steps_taken(s, upto(2)));
        assert(steps_taken(s, upto(6)) == steps_taken(s, upto(2)));
        assert(steps_taken(s, upto(7)) == steps_taken(s, upto(2)));
    }
    assert(steps_taken(s, upto(9)) == Some(last));
    assert(steps_taken(s, upto(10)) == Some(last));
    assert(upto(10) =~= steps);
}

/// A path where nothing is gets an empty archive with zero totals, which is consistent; every other
/// file of the disk stays as it is.
pub proof fn law_open_makes_empty_archive(
    disk: Map<Seq<char>, Stored>,
    path: Seq<char>,
    key: Seq<char>,
)
    requires
        !disk.contains_key(crate::paths::plain_path(path)),
    ensures
        opened(disk, path, key) == Some(
            disk.insert(crate::paths::plain_path(path), stored(crate::tables::new_tables())),
        ),
        crate::tables::consistent(crate::tables::new_tables()),
{
    lemma_opening(nothing(), key);
    crate::laws::law_new_archive_consistent();
}

/// An archive is opened as it is: not a row of it changes, nor any other file of the disk.
pub proof fn law_open_keeps_archive(
    disk: Map<Seq<char>, Stored>,
    path: Seq<char>,
    key: Seq<char>,
    t: Tables,
)
    requires
        disk.contains_key(crate::paths::plain_path(path)),
        disk[crate::paths::plain_path(path)] == stored(t),
    ensures
        opened(disk, path, key) == Some(disk),
{
    lemma_opening(stored(t), key);
    let place = crate::paths::plain_path(path);
    assert(with_schema(stored(t)) == t);
    assert(disk.insert(place, stored(t)) =~= disk);
}

/// An opening makes an archive of whatever part of one is there, and keeps that part: a table that
/// was made keeps its rows, and totals that were counted keep their counts.
pub proof fn law_open_completes_archive(
    disk: Map<Seq<char>, Stored>,
    path: Seq<char>,
    key: Seq<char>,
)
    ensures
        opened(disk, path, key) matches Some(after) && {
            let place = crate::paths::plain_path(path);
            let before = found(disk, place);
            &&& after == disk.insert(place, stored(with_schema(before)))
            &&& before.folders matches Some(rows) ==> with_schema(before).folders == rows
            &&& before.files matches Some(rows) ==> with_schema(before).files == rows
            &&& before.chunks matches Some(rows) ==> with_schema(before).chunks == rows
            &&& before.links matches Some(rows) ==> with_schema(before).links == rows
            &&& before.totals matches Some(Some(totals)) ==> with_schema(before).totals == totals
        },
{
    lemma_opening(found(disk, crate::paths::plain_path(path)), key);
}

/// To open a database again, under whatever form of its path, changes nothing.
pub proof fn law_open_again_changes_nothing(
    disk: Map<Seq<char>, Stored>,
    path: Seq<char>,
    other: Seq<char>,
    key: Seq<char>,
)
    requires
        crate::paths::plain_path(other) == crate::paths::plain_path(path),
    ensures
        opened(disk, path, key) matches Some(after) && opened(after, other, key) == Some(after),
{
    law_open_completes_archive(disk, path, key);
    let place = crate::paths::plain_path(path);
    let t = with_schema(found(disk, place));
    law_open_keeps_archive(disk.insert(place, stored(t)), other, key, t);
}

/// A path opens the same database with the front of an extended-length path and without it.
pub proof fn law_open_ignores_prefix(disk: Map<Seq<char>, Stored>, path: Seq<char>, key: Seq<char>)
    requires
        !crate::text::begins_with(path, crate::paths::VERBATIM_PREFIX@),
    ensures
        opened(disk, crate::paths::VERBATIM_PREFIX@ + path, key) == opened(disk, path, key),
{
    crate::paths::law_prefix_makes_no_difference(path);
}

} // verus!
