//! Text: splitting, trimming, and the decimal and hexadecimal forms of numbers.
use vstd::prelude::*;
use vstd::string::StringExecFns;

verus! {

/// `String::push`: the character goes behind the text.
pub assume_specification[ String::push ](text: &mut String, c: char)
    ensures
        final(text)@ == old(text)@.push(c),
;

/// What `str::to_lowercase` makes of a text, by Unicode's lowercase mapping.
pub uninterp spec fn lowercase(text: Seq<char>) -> Seq<char>;

/// Whether a text has ASCII characters only.
pub open spec fn ascii(text: Seq<char>) -> bool {
    forall|i: int| 0 <= i < text.len() ==> (#[trigger] text[i]) <= '\u{7f}'
}

/// An ASCII capital as a small letter; any other character as it is.
pub open spec fn small(c: char) -> char {
    if 'A' <= c <= 'Z' {
        (c as int + 32) as char
    } else {
        c
    }
}

/// A small ASCII letter as a capital; any other character as it is.
pub open spec fn capital(c: char) -> char {
    if 'a' <= c <= 'z' {
        (c as int - 32) as char
    } else {
        c
    }
}

/// A text with its ASCII capitals made small.
pub open spec fn all_small(text: Seq<char>) -> Seq<char> {
    Seq::new(text.len(), |i: int| small(text[i]))
}

/// A text with its small ASCII letters made capitals.
pub open spec fn all_capital(text: Seq<char>) -> Seq<char> {
    Seq::new(text.len(), |i: int| capital(text[i]))
}

/// `str::to_lowercase`. What it returns depends on the text alone, not on a locale; in an ASCII text
/// it makes the capitals small and keeps the rest.
pub assume_specification[ str::to_lowercase ](text: &str) -> (lower: String)
    ensures
        lower@ == lowercase(text@),
        ascii(text@) ==> lower@ == all_small(text@),
;

/// `String::from_utf8`: the text that the bytes encode, where they are valid UTF-8.
#[verifier::external_body]
pub(crate) fn text_from_utf8(bytes: Vec<u8>) -> (text: Option<String>)
    ensures
        text is Some <==> vstd::utf8::valid_utf8(bytes@),
        text matches Some(t) ==> t@ == vstd::utf8::decode_utf8(bytes@),
{
    String::from_utf8(bytes).ok()
}

/// The views of a sequence of texts.
pub open spec fn texts(strings: Seq<String>) -> Seq<Seq<char>> {
    Seq::new(strings.len(), |i: int| strings[i]@)
}

/// The text of an optional string.
pub open spec fn option_text(text: Option<String>) -> Option<Seq<char>> {
    match text {
        Some(t) => Some(t@),
        None => None,
    }
}

/// A text cut at every separator; a text without one is a single segment.
pub open spec fn segments(text: Seq<char>, separator: char) -> Seq<Seq<char>>
    decreases text.len(),
{
    if text.len() == 0 {
        seq![Seq::<char>::empty()]
    } else {
        let before = segments(text.drop_last(), separator);
        if text.last() == separator {
            before.push(Seq::<char>::empty())
        } else {
            before.drop_last().push(before.last().push(text.last()))
        }
    }
}

/// There is at least one segment.
pub proof fn lemma_segments_nonempty(text: Seq<char>, separator: char)
    ensures
        segments(text, separator).len() >= 1,
    decreases text.len(),
{
    if text.len() > 0 {
        lemma_segments_nonempty(text.drop_last(), separator);
    }
}

/// The last segment of an ASCII text is ASCII.
pub proof fn lemma_last_segment_ascii(text: Seq<char>, separator: char)
    requires
        ascii(text),
    ensures
        ascii(segments(text, separator).last()),
    decreases text.len(),
{
    if text.len() > 0 {
        let front = text.drop_last();
        assert forall|i: int| 0 <= i < front.len() implies (#[trigger] front[i]) <= '\u{7f}' by {
            assert(front[i] == text[i]);
        }
        lemma_last_segment_ascii(front, separator);
        assert(text[text.len() - 1] <= '\u{7f}');
    }
}

/// The segments of a text in capitals are those of the text, in capitals, where the separator is no
/// letter.
pub proof fn lemma_segments_capital(text: Seq<char>, separator: char)
    requires
        !('a' <= separator <= 'z'),
        !('A' <= separator <= 'Z'),
    ensures
        segments(all_capital(text), separator).len() == segments(text, separator).len(),
        segments(all_capital(text), separator).last() == all_capital(
            segments(text, separator).last(),
        ),
    decreases text.len(),
{
    lemma_segments_nonempty(text, separator);
    if text.len() == 0 {
        assert(all_capital(text) =~= text);
        assert(all_capital(Seq::<char>::empty()) =~= Seq::<char>::empty());
    } else {
        let front = text.drop_last();
        lemma_segments_capital(front, separator);
        lemma_segments_nonempty(front, separator);
        assert(all_capital(text).drop_last() =~= all_capital(front));
        let before = segments(front, separator);
        if text.last() == separator {
            assert(all_capital(Seq::<char>::empty()) =~= Seq::<char>::empty());
        } else {
            assert(capital(text.last()) != separator);
            assert(all_capital(before.last().push(text.last())) =~= all_capital(
                before.last(),
            ).push(capital(text.last())));
        }
    }
}

/// The characters of a text.
pub fn chars_of(text: &str) -> (chars: Vec<char>)
    ensures
        chars@ == text@,
{
    let mut chars: Vec<char> = Vec::new();
    for c in it: text.chars()
        invariant
            it.seq() == text@,
            chars@ == text@.subrange(0, it.index() as int),
    {
        chars.push(c);
    }
    chars
}

/// The text made of some characters.
pub fn text_of(chars: &[char]) -> (text: String)
    ensures
        text@ == chars@,
{
    let mut text = String::new();
    let mut i: usize = 0;
    while i < chars.len()
        invariant
            i <= chars@.len(),
            text@ == chars@.subrange(0, i as int),
        decreases chars.len() - i,
    {
        text.push(chars[i]);
        i += 1;
    }
    text
}

/// Whether two texts are the same.
pub fn same_text(left: &str, right: &str) -> (same: bool)
    ensures
        same == (left@ == right@),
{
    left.to_string() == right.to_string()
}

/// Whether a text has no characters.
pub fn is_empty_text(text: &str) -> (empty: bool)
    ensures
        empty == (text@.len() == 0),
{
    proof {
        reveal_strlit("");
        assert(text@.len() == 0 ==> text@ =~= ""@);
    }
    same_text(text, "")
}

/// Cuts a text at every separator.
pub fn split_text(text: &str, separator: char) -> (parts: Vec<String>)
    ensures
        texts(parts@) == segments(text@, separator),
        parts@.len() == segments(text@, separator).len(),
        forall|i: int|
            0 <= i < parts@.len() ==> (#[trigger] parts@[i])@ == segments(text@, separator)[i],
{
    let chars = chars_of(text);
    let mut parts: Vec<String> = Vec::new();
    let mut current = String::new();
    let mut i: usize = 0;
    while i < chars.len()
        invariant
            i <= chars@.len(),
            chars@ == text@,
            segments(text@.subrange(0, i as int), separator) == texts(parts@).push(current@),
        decreases chars.len() - i,
    {
        let ghost before = text@.subrange(0, i as int);
        let ghost now = text@.subrange(0, i + 1);
        proof {
            assert(now.drop_last() =~= before);
        }
        let ghost old_parts = texts(parts@);
        if chars[i] == separator {
            parts.push(current);
            current = String::new();
            proof {
                assert(texts(parts@) =~= segments(before, separator));
            }
        } else {
            current.push(chars[i]);
            proof {
                assert(segments(before, separator).drop_last() =~= old_parts);
            }
        }
        i += 1;
    }
    proof {
        assert(text@.subrange(0, i as int) =~= text@);
    }
    let ghost old_parts = texts(parts@);
    parts.push(current);
    proof {
        assert(texts(parts@) =~= old_parts.push(current@));
        assert forall|i: int| 0 <= i < parts@.len() implies (#[trigger] parts@[i])@ == segments(
            text@,
            separator,
        )[i] by {
            assert(texts(parts@)[i] == parts@[i]@);
        }
    }
    parts
}

/// Unicode's white space characters.
pub open spec fn white_space(c: char) -> bool {
    ||| '\u{9}' <= c <= '\u{d}'
    ||| c == ' '
    ||| c == '\u{85}'
    ||| c == '\u{a0}'
    ||| c == '\u{1680}'
    ||| '\u{2000}' <= c <= '\u{200a}'
    ||| c == '\u{2028}'
    ||| c == '\u{2029}'
    ||| c == '\u{202f}'
    ||| c == '\u{205f}'
    ||| c == '\u{3000}'
}

/// Whether a character is white space.
pub fn is_white_space(c: char) -> (white: bool)
    ensures
        white == white_space(c),
        white <==> ('\u{9}' <= c <= '\u{d}' || c == ' ' || c == '\u{85}' || c == '\u{a0}' || c
            == '\u{1680}' || '\u{2000}' <= c <= '\u{200a}' || c == '\u{2028}' || c == '\u{2029}' || c
            == '\u{202f}' || c == '\u{205f}' || c == '\u{3000}'),
{
    ('\u{9}' <= c && c <= '\u{d}') || c == ' ' || c == '\u{85}' || c == '\u{a0}' || c == '\u{1680}'
        || ('\u{2000}' <= c && c <= '\u{200a}') || c == '\u{2028}' || c == '\u{2029}' || c
        == '\u{202f}' || c == '\u{205f}' || c == '\u{3000}'
}

/// A text without the white space at its front.
pub open spec fn trimmed_front(text: Seq<char>) -> Seq<char>
    decreases text.len(),
{
    if text.len() > 0 && white_space(text[0]) {
        trimmed_front(text.drop_first())
    } else {
        text
    }
}

/// A text without the white space at its back.
pub open spec fn trimmed_back(text: Seq<char>) -> Seq<char>
    decreases text.len(),
{
    if text.len() > 0 && white_space(text.last()) {
        trimmed_back(text.drop_last())
    } else {
        text
    }
}

/// A text without the white space at either end.
pub open spec fn trimmed(text: Seq<char>) -> Seq<char> {
    trimmed_back(trimmed_front(text))
}

/// Takes the white space off both ends of a text.
pub fn trim_text(text: &str) -> (inner: String)
    ensures
        inner@ == trimmed(text@),
{
    let chars = chars_of(text);
    let mut from: usize = 0;
    proof {
        assert(text@.subrange(0, text@.len() as int) =~= text@);
    }
    while from < chars.len() && is_white_space(chars[from])
        invariant
            from <= chars@.len(),
            chars@ == text@,
            trimmed_front(text@) == trimmed_front(text@.subrange(from as int, text@.len() as int)),
        ensures
            from <= chars@.len(),
            trimmed_front(text@) == text@.subrange(from as int, text@.len() as int),
        decreases chars.len() - from,
    {
        proof {
            assert(text@.subrange(from as int, text@.len() as int).drop_first() =~= text@.subrange(
                from + 1,
                text@.len() as int,
            ));
        }
        from += 1;
    }
    let mut to: usize = chars.len();
    let ghost front = trimmed_front(text@);
    while to > from && is_white_space(chars[to - 1])
        invariant
            from <= to <= chars@.len(),
            chars@ == text@,
            front == text@.subrange(from as int, text@.len() as int),
            trimmed_back(front) == trimmed_back(text@.subrange(from as int, to as int)),
        ensures
            from <= to <= chars@.len(),
            trimmed_back(front) == text@.subrange(from as int, to as int),
        decreases to,
    {
        proof {
            assert(text@.subrange(from as int, to as int).drop_last() =~= text@.subrange(
                from as int,
                to - 1,
            ));
        }
        to -= 1;
    }
    text_of(vstd::slice::slice_subrange(chars.as_slice(), from, to))
}

/// Whether a text begins with a prefix.
pub open spec fn begins_with(text: Seq<char>, prefix: Seq<char>) -> bool {
    prefix.len() <= text.len() && text.subrange(0, prefix.len() as int) == prefix
}

/// What is left of a text behind a prefix, where it begins with that prefix.
pub fn strip_prefix(text: &str, prefix: &str) -> (rest: Option<String>)
    ensures
        rest is Some <==> begins_with(text@, prefix@),
        rest matches Some(r) ==> r@ == text@.subrange(prefix@.len() as int, text@.len() as int),
        rest matches Some(r) ==> text@ == prefix@ + r@,
        rest is None ==> forall|r: Seq<char>| text@ != #[trigger] (prefix@ + r),
{
    let chars = chars_of(text);
    let head = chars_of(prefix);
    if chars.len() < head.len() {
        return None;
    }
    let mut i: usize = 0;
    while i < head.len()
        invariant
            i <= head@.len() <= chars@.len(),
            chars@ == text@,
            head@ == prefix@,
            forall|j: int| 0 <= j < i ==> text@[j] == prefix@[j],
        decreases head.len() - i,
    {
        if chars[i] != head[i] {
            proof {
                assert(text@.subrange(0, prefix@.len() as int)[i as int] != prefix@[i as int]);
            }
            return None;
        }
        i += 1;
    }
    proof {
        assert(text@.subrange(0, prefix@.len() as int) =~= prefix@);
    }
    Some(text_of(vstd::slice::slice_subrange(chars.as_slice(), head.len(), chars.len())))
}

/// The character for a digit below sixteen, in lower case.
pub open spec fn digit_char(digit: int) -> char {
    if digit < 10 {
        (48 + digit) as char
    } else {
        (87 + digit) as char
    }
}

/// The character for a digit below sixteen.
pub fn digit_to_char(digit: u8) -> (c: char)
    requires
        digit < 16,
    ensures
        c == digit_char(digit as int),
{
    if digit < 10 {
        (48u8 + digit) as char
    } else {
        (87u8 + digit) as char
    }
}

/// The decimal form of a number.
pub open spec fn decimal(n: nat) -> Seq<char>
    decreases n,
{
    if n < 10 {
        seq![digit_char(n as int)]
    } else {
        decimal(n / 10).push(digit_char((n % 10) as int))
    }
}

/// The decimal form of a number that may be negative.
pub open spec fn signed_decimal(n: int) -> Seq<char> {
    if n < 0 {
        seq!['-'] + decimal((-n) as nat)
    } else {
        decimal(n as nat)
    }
}

/// The decimal form of a number, with a zero put in front of a single digit.
pub open spec fn two_digits(n: int) -> Seq<char> {
    if 0 <= n < 10 {
        seq!['0'] + decimal(n as nat)
    } else {
        signed_decimal(n)
    }
}

/// Writes a number in decimal.
pub fn decimal_text(n: u64) -> (text: String)
    ensures
        text@ == decimal(n as nat),
    decreases n,
{
    let mut text = if n < 10 {
        String::new()
    } else {
        decimal_text(n / 10)
    };
    text.push(digit_to_char((n % 10) as u8));
    proof {
        assert(n < 10 ==> text@ =~= seq![digit_char(n as int)]);
    }
    text
}

/// Writes a number that may be negative in decimal.
pub fn signed_decimal_text(n: i64) -> (text: String)
    ensures
        text@ == signed_decimal(n as int),
{
    if n < 0 {
        let magnitude: u64 = (-(n as i128)) as u64;
        let mut text = "-".to_string();
        proof {
            reveal_strlit("-");
            assert("-"@ =~= seq!['-']);
        }
        text.append(decimal_text(magnitude).as_str());
        text
    } else {
        decimal_text(n as u64)
    }
}

/// Writes a number in decimal with at least two characters.
pub fn two_digit_text(n: i64) -> (text: String)
    ensures
        text@ == two_digits(n as int),
{
    if 0 <= n && n < 10 {
        let mut text = "0".to_string();
        proof {
            reveal_strlit("0");
            assert("0"@ =~= seq!['0']);
        }
        text.append(decimal_text(n as u64).as_str());
        text
    } else {
        signed_decimal_text(n)
    }
}

/// The lower-case hexadecimal form of some bytes, two characters for each.
pub open spec fn hex(bytes: Seq<u8>) -> Seq<char>
    decreases bytes.len(),
{
    if bytes.len() == 0 {
        Seq::empty()
    } else {
        hex(bytes.drop_last()).push(digit_char(bytes.last() as int / 16)).push(
            digit_char(bytes.last() as int % 16),
        )
    }
}

/// The hexadecimal form has two characters for every byte.
pub proof fn lemma_hex_len(bytes: Seq<u8>)
    ensures
        hex(bytes).len() == 2 * bytes.len(),
    decreases bytes.len(),
{
    if bytes.len() > 0 {
        lemma_hex_len(bytes.drop_last());
    }
}

/// Writes bytes in lower-case hexadecimal.
pub fn hex_text(bytes: &[u8]) -> (text: String)
    ensures
        text@ == hex(bytes@),
        text@.len() == 2 * bytes@.len(),
{
    let mut text = String::new();
    let mut i: usize = 0;
    while i < bytes.len()
        invariant
            i <= bytes@.len(),
            text@ == hex(bytes@.subrange(0, i as int)),
        decreases bytes.len() - i,
    {
        proof {
            assert(bytes@.subrange(0, i + 1).drop_last() =~= bytes@.subrange(0, i as int));
        }
        text.push(digit_to_char(bytes[i] / 16));
        text.push(digit_to_char(bytes[i] % 16));
        i += 1;
    }
    proof {
        assert(bytes@.subrange(0, i as int) =~= bytes@);
        lemma_hex_len(bytes@);
    }
    text
}

/// A trimmed text is what is left of a text between white space at its front and at its back: it
/// neither begins nor ends with white space, and it is empty just where all the text is white space.
pub proof fn law_trimmed(text: Seq<char>)
    ensures
        exists|from: int, to: int|
            #![trigger text.subrange(from, to)]
            {
                &&& 0 <= from <= to <= text.len()
                &&& trimmed(text) == text.subrange(from, to)
                &&& forall|i: int| 0 <= i < from ==> white_space(#[trigger] text[i])
                &&& forall|i: int| to <= i < text.len() ==> white_space(#[trigger] text[i])
            },
        trimmed(text).len() > 0 ==> !white_space(trimmed(text)[0]) && !white_space(
            trimmed(text).last(),
        ),
        trimmed(text).len() == 0 <==> forall|i: int|
            0 <= i < text.len() ==> white_space(#[trigger] text[i]),
{
    let from = lemma_trimmed_front(text);
    let front = trimmed_front(text);
    let len = lemma_trimmed_back(front);
    let to = from + len;
    assert(trimmed(text) =~= text.subrange(from, to));
    assert forall|i: int| to <= i < text.len() implies white_space(#[trigger] text[i]) by {
        assert(front[i - from] == text[i]);
    }
    if trimmed(text).len() > 0 {
        assert(trimmed(text)[0] == front[0]);
        assert(!white_space(text[from]));
    }
}

/// What is taken off the front of a text is white space, and all of it.
proof fn lemma_trimmed_front(text: Seq<char>) -> (from: int)
    ensures
        0 <= from <= text.len(),
        trimmed_front(text) == text.subrange(from, text.len() as int),
        forall|i: int| 0 <= i < from ==> white_space(#[trigger] text[i]),
        from < text.len() ==> !white_space(text[from]),
    decreases text.len(),
{
    if text.len() > 0 && white_space(text[0]) {
        let rest = text.drop_first();
        let n = lemma_trimmed_front(rest);
        assert(rest.subrange(n, rest.len() as int) =~= text.subrange(n + 1, text.len() as int));
        assert forall|i: int| 0 <= i < n + 1 implies white_space(#[trigger] text[i]) by {
            if i > 0 {
                assert(rest[i - 1] == text[i]);
            }
        }
        n + 1
    } else {
        assert(text.subrange(0, text.len() as int) =~= text);
        0
    }
}

/// What is taken off the back of a text is white space, and all of it.
proof fn lemma_trimmed_back(text: Seq<char>) -> (to: int)
    ensures
        0 <= to <= text.len(),
        trimmed_back(text) == text.subrange(0, to),
        forall|i: int| to <= i < text.len() ==> white_space(#[trigger] text[i]),
        to > 0 ==> !white_space(text[to - 1]),
    decreases text.len(),
{
    if text.len() > 0 && white_space(text.last()) {
        let rest = text.drop_last();
        let n = lemma_trimmed_back(rest);
        assert(rest.subrange(0, n) =~= text.subrange(0, n));
        assert forall|i: int| n <= i < text.len() implies white_space(#[trigger] text[i]) by {
            if i < rest.len() {
                assert(rest[i] == text[i]);
            }
        }
        n
    } else {
        assert(text.subrange(0, text.len() as int) =~= text);
        text.len() as int
    }
}

/// The value of a text of decimal digits.
pub open spec fn decimal_value(text: Seq<char>) -> int
    decreases text.len(),
{
    if text.len() == 0 {
        0
    } else {
        decimal_value(text.drop_last()) * 10 + (text.last() as int - '0' as int)
    }
}

/// The decimal form of a number is digits alone, whose value is the number, without a zero in front but
/// for zero itself.
pub proof fn law_decimal_reads_back(n: nat)
    ensures
        decimal(n).len() > 0,
        forall|i: int| 0 <= i < decimal(n).len() ==> '0' <= #[trigger] decimal(n)[i] <= '9',
        decimal_value(decimal(n)) == n,
        decimal(n)[0] == '0' ==> n == 0 && decimal(n).len() == 1,
        n < 10 <==> decimal(n).len() == 1,
        n < 100 <==> decimal(n).len() <= 2,
    decreases n,
{
    reveal_with_fuel(decimal, 3);
    if n < 10 {
        let text = decimal(n);
        assert(text.drop_last() =~= Seq::empty());
        assert(decimal_value(text.drop_last()) == 0);
    } else {
        law_decimal_reads_back(n / 10);
        let front = decimal(n / 10);
        let text = decimal(n);
        assert(text.drop_last() =~= front);
        assert forall|i: int| 0 <= i < text.len() implies '0' <= #[trigger] text[i] <= '9' by {
            if i < front.len() {
                assert(text[i] == front[i]);
            }
        }
        assert(text[0] == front[0]);
        assert(n == (n / 10) * 10 + n % 10);
    }
}

/// A number that may be negative is written as its magnitude, behind a minus sign just where it is
/// negative; a single digit that is to have two gets a zero in front.
pub proof fn law_signed_and_padded(n: int)
    ensures
        n >= 0 ==> signed_decimal(n) == decimal(n as nat),
        n < 0 ==> signed_decimal(n).len() == decimal((-n) as nat).len() + 1 && signed_decimal(n)[0]
            == '-' && signed_decimal(n).drop_first() == decimal((-n) as nat),
        0 <= n < 100 ==> two_digits(n).len() == 2 && decimal_value(two_digits(n)) == n,
        !(0 <= n < 10) ==> two_digits(n) == signed_decimal(n),
{
    if n < 0 {
        assert(signed_decimal(n).drop_first() =~= decimal((-n) as nat));
    } else {
        law_decimal_reads_back(n as nat);
        if n < 10 {
            let text = two_digits(n);
            assert(text =~= seq!['0', digit_char(n)]);
            assert(text.drop_last() =~= seq!['0']);
            assert(text.drop_last().drop_last() =~= Seq::empty());
            reveal_with_fuel(decimal_value, 3);
        } else if n < 100 {
            assert(decimal(n as nat).len() == 2);
        }
    }
}

/// The value of a hexadecimal digit in lower case.
pub open spec fn digit_value(c: char) -> int {
    if '0' <= c <= '9' {
        c as int - '0' as int
    } else {
        c as int - 'a' as int + 10
    }
}

/// The hexadecimal form of some bytes has two digits in lower case for each, in order, whose value is
/// that of the byte.
pub proof fn law_hex_reads_back(bytes: Seq<u8>)
    ensures
        hex(bytes).len() == 2 * bytes.len(),
        forall|i: int|
            0 <= i < hex(bytes).len() ==> '0' <= #[trigger] hex(bytes)[i] <= '9' || 'a' <= hex(
                bytes,
            )[i] <= 'f',
        forall|i: int|
            0 <= i < bytes.len() ==> #[trigger] bytes[i] == digit_value(hex(bytes)[2 * i]) * 16
                + digit_value(hex(bytes)[2 * i + 1]),
    decreases bytes.len(),
{
    lemma_hex_len(bytes);
    if bytes.len() > 0 {
        let front = bytes.drop_last();
        law_hex_reads_back(front);
        let last = bytes.len() - 1;
        assert forall|i: int| 0 <= i < bytes.len() implies #[trigger] bytes[i] == digit_value(
            hex(bytes)[2 * i],
        ) * 16 + digit_value(hex(bytes)[2 * i + 1]) by {
            if i < last {
                assert(front[i] == bytes[i]);
                assert(hex(bytes)[2 * i] == hex(front)[2 * i]);
                assert(hex(bytes)[2 * i + 1] == hex(front)[2 * i + 1]);
            }
        }
        assert forall|i: int| 0 <= i < hex(bytes).len() implies '0' <= #[trigger] hex(bytes)[i]
            <= '9' || 'a' <= hex(bytes)[i] <= 'f' by {
            if i < hex(front).len() {
                assert(hex(bytes)[i] == hex(front)[i]);
            }
        }
    }
}

/// Some pieces with a separator between each and the next.
pub open spec fn rejoined(pieces: Seq<Seq<char>>, separator: char) -> Seq<char>
    decreases pieces.len(),
{
    if pieces.len() == 0 {
        Seq::empty()
    } else if pieces.len() == 1 {
        pieces[0]
    } else {
        rejoined(pieces.drop_last(), separator).push(separator) + pieces.last()
    }
}

/// The segments of a text are what stands between its separators: none of them has one in it, and put
/// together again with the separator they are the text.
pub proof fn law_segments_make_text(text: Seq<char>, separator: char)
    ensures
        segments(text, separator).len() >= 1,
        rejoined(segments(text, separator), separator) == text,
        forall|i: int|
            0 <= i < segments(text, separator).len() ==> !(#[trigger] segments(
                text,
                separator,
            )[i]).contains(separator),
    decreases text.len(),
{
    let all = segments(text, separator);
    if text.len() == 0 {
        assert(rejoined(all, separator) =~= text);
    } else {
        let shorter = text.drop_last();
        law_segments_make_text(shorter, separator);
        let before = segments(shorter, separator);
        if text.last() == separator {
            assert(all.drop_last() =~= before);
            assert(rejoined(all, separator) =~= text);
        } else {
            let grown = before.last().push(text.last());
            assert(all.drop_last() =~= before.drop_last());
            assert(all.last() == grown);
            assert(text =~= shorter.push(text.last()));
            if before.len() > 1 {
                let head = rejoined(before.drop_last(), separator).push(separator);
                assert(shorter == head + before.last());
                assert(rejoined(all, separator) == head + grown);
                assert(head + grown =~= shorter.push(text.last()));
            }
            assert forall|i: int| 0 <= i < all.len() implies !(#[trigger] all[i]).contains(
                separator,
            ) by {
                if i < all.len() - 1 {
                    assert(all[i] == before[i]);
                } else {
                    assert(!before[before.len() - 1].contains(separator));
                    if grown.contains(separator) {
                        let j = choose|j: int| 0 <= j < grown.len() && grown[j] == separator;
                        if j < before.last().len() {
                            assert(before.last()[j] == separator);
                        }
                    }
                }
            }
        }
    }
}

} // verus!
