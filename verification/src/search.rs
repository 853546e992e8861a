//! What a search by name finds.
use crate::db::{SortColumn, SortDirection};
use crate::ident::Uuid;
use vstd::prelude::*;

verus! {

/// Whether a name matches a pattern of the database's `LIKE`: a percent sign stands for any
/// characters, an underscore for one, and ASCII letters match without regard to case. Neither text has
/// a zero character. This is a reading of the database's documentation.
pub open spec fn like(pattern: Seq<char>, name: Seq<char>) -> bool
    decreases pattern.len(), name.len(),
{
    if pattern.len() == 0 {
        name.len() == 0
    } else if pattern[0] == '%' {
        like(pattern.drop_first(), name) || (name.len() > 0 && like(pattern, name.drop_first()))
    } else {
        &&& name.len() > 0
        &&& pattern[0] == '_' || crate::text::small(pattern[0]) == crate::text::small(name[0])
        &&& like(pattern.drop_first(), name.drop_first())
    }
}

/// Whether a name holds a text at a place, without regard to the case of ASCII letters.
pub open spec fn holds_at(name: Seq<char>, text: Seq<char>, place: int) -> bool {
    &&& 0 <= place
    &&& place + text.len() <= name.len()
    &&& crate::text::all_small(name.subrange(place, place + text.len())) == crate::text::all_small(
        text,
    )
}

/// Whether a name holds a text anywhere, without regard to the case of ASCII letters.
pub open spec fn holds_text(name: Seq<char>, text: Seq<char>) -> bool {
    exists|place: int| holds_at(name, text, place)
}

/// Whether a text has neither of the characters that stand for others.
pub open spec fn is_literal(text: Seq<char>) -> bool {
    forall|i: int| 0 <= i < text.len() ==> #[trigger] text[i] != '%' && text[i] != '_'
}

/// A percent sign alone matches any name.
proof fn lemma_any(name: Seq<char>)
    ensures
        like(seq!['%'], name),
    decreases name.len(),
{
    let pattern = seq!['%'];
    assert(pattern.drop_first() =~= Seq::empty());
    assert(like(pattern.drop_first(), name) == (name.len() == 0));
    if name.len() > 0 {
        lemma_any(name.drop_first());
    }
}

/// A literal text before a percent sign matches the names that begin with it.
proof fn lemma_front(text: Seq<char>, name: Seq<char>)
    requires
        is_literal(text),
    ensures
        like(text.push('%'), name) <==> holds_at(name, text, 0),
    decreases text.len(),
{
    let pattern = text.push('%');
    if text.len() == 0 {
        assert(pattern =~= seq!['%']);
        lemma_any(name);
        assert(name.subrange(0, 0) =~= text);
    } else {
        let rest = text.drop_first();
        assert(pattern.drop_first() =~= rest.push('%'));
        assert(pattern[0] == text[0]);
        assert forall|i: int| 0 <= i < rest.len() implies #[trigger] rest[i] != '%' && rest[i]
            != '_' by {
            assert(rest[i] == text[i + 1]);
        }
        if name.len() > 0 {
            lemma_front(rest, name.drop_first());
            let shorter = name.drop_first();
            if holds_at(name, text, 0) {
                let left = crate::text::all_small(name.subrange(0, text.len() as int));
                let right = crate::text::all_small(text);
                assert(left[0] == right[0]);
                assert forall|i: int| 0 <= i < rest.len() implies crate::text::all_small(
                    shorter.subrange(0, rest.len() as int),
                )[i] == crate::text::all_small(rest)[i] by {
                    assert(left[i + 1] == right[i + 1]);
                }
                assert(crate::text::all_small(shorter.subrange(0, rest.len() as int))
                    =~= crate::text::all_small(rest));
            }
            if crate::text::small(text[0]) == crate::text::small(name[0]) && holds_at(
                shorter,
                rest,
                0,
            ) {
                let left = crate::text::all_small(shorter.subrange(0, rest.len() as int));
                let right = crate::text::all_small(rest);
                assert forall|i: int| 0 <= i < text.len() implies crate::text::all_small(
                    name.subrange(0, text.len() as int),
                )[i] == crate::text::all_small(text)[i] by {
                    if i > 0 {
                        assert(left[i - 1] == right[i - 1]);
                    }
                }
                assert(crate::text::all_small(name.subrange(0, text.len() as int))
                    =~= crate::text::all_small(text));
            }
        }
    }
}

/// A literal text between percent signs matches the names that hold it.
proof fn lemma_anywhere(text: Seq<char>, name: Seq<char>)
    requires
        is_literal(text),
    ensures
        like(seq!['%'] + text.push('%'), name) <==> holds_text(name, text),
    decreases name.len(),
{
    let pattern = seq!['%'] + text.push('%');
    assert(pattern.drop_first() =~= text.push('%'));
    lemma_front(text, name);
    if name.len() > 0 {
        let shorter = name.drop_first();
        lemma_anywhere(text, shorter);
        if holds_text(shorter, text) {
            let place = choose|place: int| holds_at(shorter, text, place);
            assert(shorter.subrange(place, place + text.len()) =~= name.subrange(
                place + 1,
                place + 1 + text.len(),
            ));
            assert(holds_at(name, text, place + 1));
        }
        if holds_text(name, text) && !holds_at(name, text, 0) {
            let place = choose|place: int| holds_at(name, text, place);
            assert(shorter.subrange(place - 1, place - 1 + text.len()) =~= name.subrange(
                place,
                place + text.len(),
            ));
            assert(holds_at(shorter, text, place - 1));
        }
    } else if holds_text(name, text) {
        let place = choose|place: int| holds_at(name, text, place);
        assert(place == 0);
    }
}

/// A search for a query without percent signs and underscores finds the names that hold the query,
/// without the white space around it and without regard to the case of ASCII letters; a blank query
/// finds every name.
pub proof fn law_search_finds_text(query: Seq<char>, name: Seq<char>)
    requires
        is_literal(crate::text::trimmed(query)),
    ensures
        like(crate::db::search_pattern(query), name) <==> holds_text(
            name,
            crate::text::trimmed(query),
        ),
        crate::text::trimmed(query).len() == 0 ==> like(crate::db::search_pattern(query), name),
{
    reveal_strlit("%");
    let text = crate::text::trimmed(query);
    assert("%"@ =~= seq!['%']);
    assert(crate::db::search_pattern(query) =~= seq!['%'] + text.push('%'));
    lemma_anywhere(text, name);
    if text.len() == 0 {
        assert(crate::text::all_small(name.subrange(0, 0)) =~= crate::text::all_small(text));
        assert(holds_at(name, text, 0));
    }
}

/// A search goes through the whole archive: the folder that is shown makes no difference to it.
pub proof fn law_search_ignores_folder(
    one: Option<Uuid>,
    other: Option<Uuid>,
    query: Seq<char>,
    column: SortColumn,
    direction: SortDirection,
    limit: int,
)
    ensures
        crate::db::listing(one, Some(query), column, direction, limit) == crate::db::listing(
            other,
            Some(query),
            column,
            direction,
            limit,
        ),
{
}

} // verus!
