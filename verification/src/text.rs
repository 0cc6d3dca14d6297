//! Text operations over sequences of characters.
//!
//! Every function here is stated over `Seq<char>`, the view of `str` and
//! `String`. Byte lengths are those of UTF-8.

use vstd::arithmetic::power::pow;
use vstd::prelude::*;
use vstd::string::*;
use vstd::utf8::*;

verus! {

/// Appends one character: `String::push`.
pub assume_specification[ String::push ](text: &mut String, c: char)
    ensures
        final(text)@ == old(text)@.push(c),
;

/// The characters with the Unicode property `White_Space`.
pub open spec fn is_white_space(c: char) -> bool {
    let n = c as int;
    ||| 0x9 <= n <= 0xd
    ||| n == 0x20
    ||| n == 0x85
    ||| n == 0xa0
    ||| n == 0x1680
    ||| 0x2000 <= n <= 0x200a
    ||| n == 0x2028
    ||| n == 0x2029
    ||| n == 0x202f
    ||| n == 0x205f
    ||| n == 0x3000
}

/// `text` without its leading white space.
pub open spec fn trimmed_start(text: Seq<char>) -> Seq<char>
    decreases text.len(),
{
    if text.len() > 0 && is_white_space(text[0]) {
        trimmed_start(text.drop_first())
    } else {
        text
    }
}

/// `text` without its trailing white space.
pub open spec fn trimmed_end(text: Seq<char>) -> Seq<char>
    decreases text.len(),
{
    if text.len() > 0 && is_white_space(text.last()) {
        trimmed_end(text.drop_last())
    } else {
        text
    }
}

/// `text` without the white space around it.
pub open spec fn trimmed(text: Seq<char>) -> Seq<char> {
    trimmed_end(trimmed_start(text))
}

/// The pieces of `text` between the occurrences of `separator`.
pub open spec fn split_at(text: Seq<char>, separator: char) -> Seq<Seq<char>>
    decreases text.len(),
{
    if text.len() == 0 {
        seq![Seq::<char>::empty()]
    } else {
        let before = split_at(text.drop_last(), separator);
        if text.last() == separator {
            before.push(Seq::<char>::empty())
        } else {
            before.drop_last().push(before.last().push(text.last()))
        }
    }
}

/// The first of `pieces` that is more than white space, trimmed.
pub open spec fn first_non_blank(pieces: Seq<Seq<char>>) -> Option<Seq<char>>
    decreases pieces.len(),
{
    if pieces.len() == 0 {
        None
    } else if trimmed(pieces[0]).len() > 0 {
        Some(trimmed(pieces[0]))
    } else {
        first_non_blank(pieces.drop_first())
    }
}

/// The first `max_chars` characters of `text`, or all of it.
pub open spec fn char_prefix(text: Seq<char>, max_chars: int) -> Seq<char> {
    if text.len() <= max_chars {
        text
    } else {
        text.take(max_chars)
    }
}

/// The number of bytes that UTF-8 gives a character.
pub open spec fn char_width(c: char) -> nat {
    let n = c as int;
    if n <= 0x7f {
        1
    } else if n <= 0x7ff {
        2
    } else if n <= 0xffff {
        3
    } else {
        4
    }
}

/// The number of bytes that UTF-8 gives `text`.
pub open spec fn byte_len(text: Seq<char>) -> nat
    decreases text.len(),
{
    if text.len() == 0 {
        0
    } else {
        byte_len(text.drop_last()) + char_width(text.last())
    }
}

/// The number of characters of the longest prefix of `text` that is at least
/// `from` characters long and, beyond that, fits in `max_bytes` bytes.
pub open spec fn fitting_chars(text: Seq<char>, from: int, max_bytes: int) -> int
    decreases text.len() - from,
{
    if 0 <= from < text.len() && byte_len(text.take(from + 1)) <= max_bytes {
        fitting_chars(text, from + 1, max_bytes)
    } else {
        from
    }
}

/// The longest prefix of `text` of at most `max_bytes` bytes.
pub open spec fn byte_prefix(text: Seq<char>, max_bytes: int) -> Seq<char> {
    text.take(fitting_chars(text, 0, max_bytes))
}

/// `text` if it fits in `max_bytes` bytes. Otherwise its longest prefix that
/// leaves room for three dots, with the dots; and where not one character
/// leaves that room, the longest prefix that fits.
pub open spec fn ellipsized(text: Seq<char>, max_bytes: int) -> Seq<char> {
    if byte_len(text) <= max_bytes {
        text
    } else if fitting_chars(text, 0, max_bytes - 3) > 0 {
        byte_prefix(text, max_bytes - 3) + "..."@
    } else {
        byte_prefix(text, max_bytes)
    }
}

pub open spec fn is_prefix(prefix: Seq<char>, text: Seq<char>) -> bool {
    prefix.len() <= text.len() && text.take(prefix.len() as int) == prefix
}

/// Whether `needle` stands in `text` at `at`.
pub open spec fn occurs_at(needle: Seq<char>, text: Seq<char>, at: int) -> bool {
    0 <= at && at + needle.len() <= text.len() && text.subrange(at, at + needle.len()) == needle
}

pub open spec fn occurs_in(needle: Seq<char>, text: Seq<char>) -> bool {
    exists|at: int| occurs_at(needle, text, at)
}

/// `parts` with `separator` between each two.
pub open spec fn joined(parts: Seq<Seq<char>>, separator: Seq<char>) -> Seq<char>
    decreases parts.len(),
{
    if parts.len() == 0 {
        Seq::empty()
    } else if parts.len() == 1 {
        parts[0]
    } else {
        joined(parts.drop_last(), separator) + separator + parts.last()
    }
}

pub open spec fn digit_char(digit: int) -> char {
    (48 + digit) as char
}

/// `number` in decimal.
pub open spec fn decimal(number: int) -> Seq<char>
    decreases (if number < 0 { 1 - number } else { number }),
{
    if number < 0 {
        seq!['-'] + decimal(-number)
    } else if number < 10 {
        seq![digit_char(number)]
    } else {
        decimal(number / 10).push(digit_char(number % 10))
    }
}

/// The views of `texts`.
pub open spec fn views(texts: Seq<String>) -> Seq<Seq<char>> {
    texts.map_values(|text: String| text@)
}

/// The view of an optional text.
pub open spec fn str_view(text: Option<&str>) -> Option<Seq<char>> {
    match text {
        Some(value) => Some(value@),
        None => None,
    }
}

pub open spec fn view_of(text: Option<String>) -> Option<Seq<char>> {
    match text {
        Some(value) => Some(value@),
        None => None,
    }
}

/// `text`, unless it is absent or empty.
pub open spec fn non_empty(text: Option<Seq<char>>) -> Option<Seq<char>> {
    match text {
        Some(value) => if value.len() == 0 {
            None
        } else {
            text
        },
        None => None,
    }
}

/// Appending text adds its bytes.
pub proof fn lemma_byte_len_concat(a: Seq<char>, b: Seq<char>)
    ensures
        byte_len(a + b) == byte_len(a) + byte_len(b),
    decreases b.len(),
{
    if b.len() == 0 {
        assert(a + b =~= a);
    } else {
        assert((a + b).drop_last() =~= a + b.drop_last());
        lemma_byte_len_concat(a, b.drop_last());
    }
}

/// The byte length of text is the length of its UTF-8 encoding.
pub proof fn law_byte_len_is_utf8_length(text: Seq<char>)
    ensures
        byte_len(text) == encode_utf8(text).len(),
    decreases text.len(),
{
    if text.len() > 0 {
        let first = text.take(1);
        let rest = text.drop_first();
        assert(first + rest =~= text);
        lemma_byte_len_concat(first, rest);
        assert(first.drop_last() =~= Seq::<char>::empty());
        assert(byte_len(first.drop_last()) == 0);
        assert(byte_len(first) == char_width(text[0]));
        law_byte_len_is_utf8_length(rest);
        char_is_scalar(text[0]);
        let scalar = text[0] as u32;
        char_u32_cast(text[0], scalar);
        assert(scalar == text[0] as int);
        assert(encode_utf8(text) == encode_scalar(text[0] as u32) + encode_utf8(rest));
    }
}

proof fn lemma_byte_len_take(text: Seq<char>, count: int)
    requires
        0 <= count < text.len(),
    ensures
        byte_len(text.take(count + 1)) == byte_len(text.take(count)) + char_width(text[count]),
{
    assert(text.take(count + 1).drop_last() =~= text.take(count));
}

proof fn lemma_byte_len_monotonic(text: Seq<char>, i: int, j: int)
    requires
        0 <= i <= j <= text.len(),
    ensures
        byte_len(text.take(i)) + (j - i) <= byte_len(text.take(j)),
    decreases j - i,
{
    if i < j {
        lemma_byte_len_take(text, j - 1);
        lemma_byte_len_monotonic(text, i, j - 1);
    }
}

/// The longest fitting prefix fits, and one character more would not.
pub proof fn lemma_fitting_chars(text: Seq<char>, from: int, max_bytes: int)
    requires
        0 <= from <= text.len(),
    ensures
        from <= fitting_chars(text, from, max_bytes) <= text.len(),
        fitting_chars(text, from, max_bytes) > from ==> byte_len(
            text.take(fitting_chars(text, from, max_bytes)),
        ) <= max_bytes,
        fitting_chars(text, from, max_bytes) < text.len() ==> byte_len(
            text.take(fitting_chars(text, from, max_bytes) + 1),
        ) > max_bytes,
    decreases text.len() - from,
{
    if from < text.len() && byte_len(text.take(from + 1)) <= max_bytes {
        lemma_fitting_chars(text, from + 1, max_bytes);
    }
}

/// A byte-limited prefix is a prefix of the text and within the limit.
pub proof fn law_byte_prefix_fits(text: Seq<char>, max_bytes: int)
    requires
        0 <= max_bytes,
    ensures
        is_prefix(byte_prefix(text, max_bytes), text),
        byte_len(byte_prefix(text, max_bytes)) <= max_bytes,
{
    lemma_fitting_chars(text, 0, max_bytes);
    let count = fitting_chars(text, 0, max_bytes);
    assert(text.take(0) =~= Seq::<char>::empty());
    assert(text.take(count).len() == count);
}

/// An ellipsized text is never longer than the limit.
pub proof fn law_ellipsized_fits(text: Seq<char>, max_bytes: int)
    requires
        0 <= max_bytes,
    ensures
        byte_len(ellipsized(text, max_bytes)) <= max_bytes,
{
    reveal_strlit("...");
    lemma_fitting_chars(text, 0, max_bytes - 3);
    law_byte_prefix_fits(text, max_bytes);
    let dots = "..."@;
    assert(dots.drop_last().drop_last().drop_last() =~= Seq::<char>::empty());
    assert(byte_len(dots) == 3) by {
        reveal_with_fuel(byte_len, 4);
    }
    lemma_byte_len_concat(byte_prefix(text, max_bytes - 3), dots);
}

pub(crate) proof fn lemma_split_at_non_empty(text: Seq<char>, separator: char)
    ensures
        split_at(text, separator).len() > 0,
    decreases text.len(),
{
    if text.len() > 0 {
        lemma_split_at_non_empty(text.drop_last(), separator);
    }
}

/// Whether `c` is white space: `char::is_whitespace`.
pub fn is_whitespace(c: char) -> (result: bool)
    ensures
        result == is_white_space(c),
{
    let n: u32 = c as u32;
    (0x9 <= n && n <= 0xd) || n == 0x20 || n == 0x85 || n == 0xa0 || n == 0x1680 || (0x2000 <= n && n
        <= 0x200a) || n == 0x2028 || n == 0x2029 || n == 0x202f || n == 0x205f || n == 0x3000
}

/// The characters of `text`.
pub fn chars_of(text: &str) -> (chars: Vec<char>)
    ensures
        chars@ == text@,
{
    let mut chars: Vec<char> = Vec::new();
    for c in iter: text.chars()
        invariant
            chars@ == text@.take(iter.index() as int),
            iter.seq() == text@,
    {
        proof {
            assert(text@.take(iter.index() as int + 1) =~= text@.take(iter.index() as int).push(c));
        }
        chars.push(c);
    }
    assert(text@.take(text@.len() as int) =~= text@);
    chars
}

/// Whether two texts are the same.
pub fn text_eq(a: &str, b: &str) -> (same: bool)
    ensures
        same == (a@ == b@),
{
    a.to_owned() == b.to_owned()
}

/// `text` without the white space around it.
pub fn trim<'a>(text: &'a str) -> (result: &'a str)
    ensures
        result@ == trimmed(text@),
{
    let chars = chars_of(text);
    let mut start: usize = 0;
    assert(text@.subrange(0, text@.len() as int) =~= text@);
    while start < chars.len() && is_whitespace(chars[start])
        invariant
            start <= chars.len(),
            chars@ == text@,
            trimmed_start(text@) == trimmed_start(text@.subrange(start as int, text@.len() as int)),
        decreases chars.len() - start,
    {
        assert(text@.subrange(start as int, text@.len() as int).drop_first() =~= text@.subrange(
            start + 1,
            text@.len() as int,
        ));
        start = start + 1;
    }
    let ghost tail = text@.subrange(start as int, text@.len() as int);
    assert(trimmed_start(text@) == tail);
    let mut end: usize = chars.len();
    while end > start && is_whitespace(chars[end - 1])
        invariant
            start <= end <= chars.len(),
            chars@ == text@,
            tail == text@.subrange(start as int, text@.len() as int),
            trimmed_end(tail) == trimmed_end(text@.subrange(start as int, end as int)),
        decreases end,
    {
        assert(text@.subrange(start as int, end as int).drop_last() =~= text@.subrange(
            start as int,
            end - 1,
        ));
        end = end - 1;
    }
    text.substring_char(start, end)
}

/// The pieces of `text` between the occurrences of `separator`.
pub fn split<'a>(text: &'a str, separator: char) -> (pieces: Vec<&'a str>)
    ensures
        pieces@.len() == split_at(text@, separator).len(),
        forall|i: int| 0 <= i < pieces@.len() ==> (#[trigger] pieces@[i])@ == split_at(text@, separator)[i],
{
    let chars = chars_of(text);
    let mut pieces: Vec<&'a str> = Vec::new();
    let mut start: usize = 0;
    let mut i: usize = 0;
    assert(text@.take(0) =~= Seq::<char>::empty());
    assert(text@.subrange(0, 0) =~= Seq::<char>::empty());
    while i < chars.len()
        invariant
            start <= i <= chars.len(),
            chars@ == text@,
            split_at(text@.take(i as int), separator).len() == pieces@.len() + 1,
            split_at(text@.take(i as int), separator).last() == text@.subrange(start as int, i as int),
            forall|k: int|
                0 <= k < pieces@.len() ==> (#[trigger] pieces@[k])@ == split_at(
                    text@.take(i as int),
                    separator,
                )[k],
        decreases chars.len() - i,
    {
        assert(text@.take(i + 1).drop_last() =~= text@.take(i as int));
        if chars[i] == separator {
            pieces.push(text.substring_char(start, i));
            start = i + 1;
            assert(text@.subrange(start as int, i + 1) =~= Seq::<char>::empty());
        } else {
            assert(text@.subrange(start as int, i + 1) =~= text@.subrange(start as int, i as int).push(
                text@[i as int],
            ));
        }
        i = i + 1;
    }
    assert(text@.take(i as int) =~= text@);
    pieces.push(text.substring_char(start, i));
    pieces
}

/// The first line of `value` that is more than white space, trimmed.
pub fn first_non_blank_line<'a>(value: &'a str) -> (line: Option<&'a str>)
    ensures
        match line {
            Some(found) => first_non_blank(split_at(value@, '\n')) == Some(found@),
            None => first_non_blank(split_at(value@, '\n')) is None,
        },
{
    let pieces = split(value, '\n');
    let ghost all = split_at(value@, '\n');
    let mut i: usize = 0;
    assert(all.subrange(0, all.len() as int) =~= all);
    while i < pieces.len()
        invariant
            i <= pieces.len(),
            pieces@.len() == all.len(),
            forall|k: int| 0 <= k < pieces@.len() ==> (#[trigger] pieces@[k])@ == all[k],
            all == split_at(value@, '\n'),
            first_non_blank(all) == first_non_blank(all.subrange(i as int, all.len() as int)),
        decreases pieces.len() - i,
    {
        let line = trim(pieces[i]);
        if line.unicode_len() > 0 {
            return Some(line);
        }
        assert(all.subrange(i as int, all.len() as int).drop_first() =~= all.subrange(
            i + 1,
            all.len() as int,
        ));
        i = i + 1;
    }
    None
}

/// The first `max_chars` characters of `value`, or all of it.
pub fn truncate_to_chars<'a>(value: &'a str, max_chars: usize) -> (result: &'a str)
    ensures
        result@ == char_prefix(value@, max_chars as int),
{
    if value.unicode_len() <= max_chars {
        value
    } else {
        assert(value@.subrange(0, max_chars as int) =~= value@.take(max_chars as int));
        value.substring_char(0, max_chars)
    }
}

/// The number of bytes that UTF-8 gives `c`.
pub fn width_of(c: char) -> (width: usize)
    ensures
        width == char_width(c),
{
    let n: u32 = c as u32;
    if n <= 0x7f {
        1
    } else if n <= 0x7ff {
        2
    } else if n <= 0xffff {
        3
    } else {
        4
    }
}

/// The number of characters of the longest prefix of `chars` that fits in
/// `max_bytes` bytes.
pub fn count_fitting(chars: &Vec<char>, max_bytes: usize) -> (count: usize)
    ensures
        count == fitting_chars(chars@, 0, max_bytes as int),
        count <= chars@.len(),
{
    let mut used: usize = 0;
    let mut i: usize = 0;
    assert(chars@.take(0) =~= Seq::<char>::empty());
    while i < chars.len()
        invariant
            i <= chars.len(),
            used == byte_len(chars@.take(i as int)),
            used <= max_bytes,
            fitting_chars(chars@, 0, max_bytes as int) == fitting_chars(chars@, i as int, max_bytes as int),
        decreases chars.len() - i,
    {
        proof {
            lemma_byte_len_take(chars@, i as int);
        }
        let width: usize = width_of(chars[i]);
        if width > max_bytes - used {
            return i;
        }
        used = used + width;
        i = i + 1;
    }
    i
}

/// Whether `text` is longer than `max_bytes` bytes.
pub fn exceeds_bytes(text: &str, max_bytes: usize) -> (longer: bool)
    ensures
        longer == (byte_len(text@) > max_bytes),
{
    let chars = chars_of(text);
    let count: usize = count_fitting(&chars, max_bytes);
    proof {
        lemma_fitting_chars(text@, 0, max_bytes as int);
        assert(text@.take(text@.len() as int) =~= text@);
        assert(text@.take(0) =~= Seq::<char>::empty());
        if count < text@.len() {
            lemma_byte_len_monotonic(text@, count + 1, text@.len() as int);
        }
    }
    count < chars.len()
}

/// The longest prefix of `text` of at most `max_bytes` bytes.
pub fn truncate_to_bytes<'a>(text: &'a str, max_bytes: usize) -> (result: &'a str)
    ensures
        result@ == byte_prefix(text@, max_bytes as int),
{
    let chars = chars_of(text);
    let count: usize = count_fitting(&chars, max_bytes);
    assert(text@.subrange(0, count as int) =~= text@.take(count as int));
    text.substring_char(0, count)
}

/// `text` cut to `max_bytes` bytes, with three dots where it was cut and they
/// fit.
pub fn truncate_utf8_ellipsis(text: &str, max_bytes: usize) -> (result: String)
    ensures
        result@ == ellipsized(text@, max_bytes as int),
{
    if !exceeds_bytes(text, max_bytes) {
        return text.to_owned();
    }
    if max_bytes >= 3 {
        let chars = chars_of(text);
        let count: usize = count_fitting(&chars, max_bytes - 3);
        if count > 0 {
            return truncate_to_bytes(text, max_bytes - 3).to_owned().concat("...");
        }
    } else {
        proof {
            assert(fitting_chars(text@, 0, max_bytes - 3) == 0);
        }
    }
    truncate_to_bytes(text, max_bytes).to_owned()
}

/// Whether `text` begins with `prefix`.
pub fn starts_with(text: &str, prefix: &str) -> (result: bool)
    ensures
        result == is_prefix(prefix@, text@),
{
    let size: usize = prefix.unicode_len();
    if size > text.unicode_len() {
        return false;
    }
    assert(text@.subrange(0, size as int) =~= text@.take(size as int));
    text_eq(text.substring_char(0, size), prefix)
}

/// What follows `prefix` in `text`, if `text` begins with it.
pub fn strip_prefix<'a>(text: &'a str, prefix: &str) -> (rest: Option<&'a str>)
    ensures
        match rest {
            Some(found) => is_prefix(prefix@, text@) && found@ == text@.skip(prefix@.len() as int),
            None => !is_prefix(prefix@, text@),
        },
{
    if starts_with(text, prefix) {
        let size: usize = prefix.unicode_len();
        let total: usize = text.unicode_len();
        assert(text@.subrange(size as int, total as int) =~= text@.skip(size as int));
        Some(text.substring_char(size, total))
    } else {
        None
    }
}

/// Whether `needle` stands anywhere in `text`.
pub fn contains(text: &str, needle: &str) -> (result: bool)
    ensures
        result == occurs_in(needle@, text@),
{
    let size: usize = needle.unicode_len();
    let total: usize = text.unicode_len();
    if size > total {
        return false;
    }
    let mut at: usize = 0;
    while at <= total - size
        invariant
            size == needle@.len(),
            total == text@.len(),
            size <= total,
            at <= total - size + 1,
            forall|k: int| 0 <= k < at ==> !occurs_at(needle@, text@, k),
        decreases total - size + 1 - at,
    {
        if text_eq(text.substring_char(at, at + size), needle) {
            assert(occurs_at(needle@, text@, at as int));
            return true;
        }
        if at == total - size {
            assert forall|k: int| !occurs_at(needle@, text@, k) by {
                if 0 <= k < at {
                }
            }
            return false;
        }
        at = at + 1;
    }
    false
}

/// `parts` with `separator` between each two.
pub fn join(parts: &Vec<String>, separator: &str) -> (result: String)
    ensures
        result@ == joined(views(parts@), separator@),
{
    let mut result = String::new();
    let mut i: usize = 0;
    let ghost all = views(parts@);
    while i < parts.len()
        invariant
            i <= parts.len(),
            all == views(parts@),
            result@ == joined(all.take(i as int), separator@),
        decreases parts.len() - i,
    {
        assert(all.take(i + 1).drop_last() =~= all.take(i as int));
        if i > 0 {
            result.append(separator);
        } else {
            assert(all.take(1)[0] == all[0]);
            assert(Seq::<char>::empty() + all[0] =~= all[0]);
        }
        result.append(parts[i].as_str());
        i = i + 1;
    }
    assert(all.take(i as int) =~= all);
    result
}

fn digit_of(digit: u64) -> (c: char)
    requires
        digit < 10,
    ensures
        c == digit_char(digit as int),
{
    match digit {
        0 => '0',
        1 => '1',
        2 => '2',
        3 => '3',
        4 => '4',
        5 => '5',
        6 => '6',
        7 => '7',
        8 => '8',
        _ => '9',
    }
}

/// `number` in decimal.
pub fn u64_text(number: u64) -> (text: String)
    ensures
        text@ == decimal(number as int),
    decreases number,
{
    if number < 10 {
        let mut text = String::new();
        text.push(digit_of(number));
        assert(text@ =~= seq![digit_char(number as int)]);
        text
    } else {
        let mut text = u64_text(number / 10);
        text.push(digit_of(number % 10));
        text
    }
}

/// `number` in decimal.
pub fn i64_text(number: i64) -> (text: String)
    ensures
        text@ == decimal(number as int),
{
    if number >= 0 {
        u64_text(number as u64)
    } else {
        let mut text = String::new();
        text.push('-');
        let magnitude: u64 = (-(number as i128)) as u64;
        let digits = u64_text(magnitude);
        text.append(digits.as_str());
        assert(text@ =~= seq!['-'] + decimal(-(number as int)));
        text
    }
}

/// A copy of `text`.
pub fn clone_option(text: &Option<String>) -> (copy: Option<String>)
    ensures
        copy == *text,
{
    match text {
        Some(value) => Some(value.clone()),
        None => None,
    }
}

/// Whether two optional texts are the same.
pub fn option_text_eq(a: &Option<String>, b: &Option<String>) -> (same: bool)
    ensures
        same == (view_of(*a) == view_of(*b)),
{
    match (a, b) {
        (Some(left), Some(right)) => text_eq(left.as_str(), right.as_str()),
        (None, None) => true,
        _ => false,
    }
}

/// Whether `text` is one of `texts`.
pub fn is_one_of(text: &str, texts: &Vec<String>) -> (found: bool)
    ensures
        found == views(texts@).contains(text@),
{
    let mut i: usize = 0;
    while i < texts.len()
        invariant
            i <= texts.len(),
            forall|k: int| 0 <= k < i ==> views(texts@)[k] != text@,
        decreases texts.len() - i,
    {
        if text_eq(texts[i].as_str(), text) {
            assert(views(texts@)[i as int] == text@);
            return true;
        }
        i = i + 1;
    }
    false
}

/// A letter from A to Z in lower case, anything else as it is.
pub open spec fn ascii_lower(c: char) -> char {
    if 'A' <= c && c <= 'Z' {
        (c as int + 32) as char
    } else {
        c
    }
}

/// Whether two texts are the same but for the case of letters from A to Z.
pub open spec fn same_ascii(a: Seq<char>, b: Seq<char>) -> bool {
    a.len() == b.len() && forall|i: int|
        0 <= i < a.len() ==> ascii_lower(#[trigger] a[i]) == ascii_lower(b[i])
}

/// A letter from A to Z in lower case, anything else as it is.
pub fn to_ascii_lower(c: char) -> (result: char)
    ensures
        result == ascii_lower(c),
{
    match c {
        'A' => 'a',
        'B' => 'b',
        'C' => 'c',
        'D' => 'd',
        'E' => 'e',
        'F' => 'f',
        'G' => 'g',
        'H' => 'h',
        'I' => 'i',
        'J' => 'j',
        'K' => 'k',
        'L' => 'l',
        'M' => 'm',
        'N' => 'n',
        'O' => 'o',
        'P' => 'p',
        'Q' => 'q',
        'R' => 'r',
        'S' => 's',
        'T' => 't',
        'U' => 'u',
        'V' => 'v',
        'W' => 'w',
        'X' => 'x',
        'Y' => 'y',
        'Z' => 'z',
        _ => c,
    }
}

/// Whether two texts are the same but for the case of letters from A to Z.
pub fn eq_ignore_ascii_case(a: &str, b: &str) -> (same: bool)
    ensures
        same == same_ascii(a@, b@),
{
    let left = chars_of(a);
    let right = chars_of(b);
    if left.len() != right.len() {
        return false;
    }
    let mut i: usize = 0;
    while i < left.len()
        invariant
            i <= left.len() == right.len(),
            left@ == a@,
            right@ == b@,
            forall|k: int| 0 <= k < i ==> ascii_lower(#[trigger] a@[k]) == ascii_lower(b@[k]),
        decreases left.len() - i,
    {
        if to_ascii_lower(left[i]) != to_ascii_lower(right[i]) {
            assert(ascii_lower(a@[i as int]) != ascii_lower(b@[i as int]));
            return false;
        }
        i = i + 1;
    }
    true
}

proof fn lemma_trimmed_start(text: Seq<char>) -> (start: int)
    ensures
        0 <= start <= text.len(),
        trimmed_start(text) == text.skip(start),
        forall|i: int| 0 <= i < start ==> is_white_space(#[trigger] text[i]),
        start < text.len() ==> !is_white_space(text[start]),
    decreases text.len(),
{
    if text.len() > 0 && is_white_space(text[0]) {
        let rest = text.drop_first();
        let start = lemma_trimmed_start(rest);
        assert(rest.skip(start) =~= text.skip(start + 1));
        assert forall|i: int| 0 <= i < start + 1 implies is_white_space(#[trigger] text[i]) by {
            if i > 0 {
                assert(rest[i - 1] == text[i]);
            }
        }
        start + 1
    } else {
        assert(text.skip(0) =~= text);
        0
    }
}

proof fn lemma_trimmed_end(text: Seq<char>) -> (end: int)
    ensures
        0 <= end <= text.len(),
        trimmed_end(text) == text.take(end),
        forall|i: int| end <= i < text.len() ==> is_white_space(#[trigger] text[i]),
        end > 0 ==> !is_white_space(text[end - 1]),
    decreases text.len(),
{
    if text.len() > 0 && is_white_space(text.last()) {
        let rest = text.drop_last();
        let end = lemma_trimmed_end(rest);
        assert(rest.take(end) =~= text.take(end));
        assert forall|i: int| end <= i < text.len() implies is_white_space(#[trigger] text[i]) by {
            if i < rest.len() {
                assert(rest[i] == text[i]);
            }
        }
        end
    } else {
        assert(text.take(text.len() as int) =~= text);
        text.len() as int
    }
}

/// Whether a part of a text, from `start` up to `end`, is all but the white space
/// around it.
pub open spec fn is_middle(text: Seq<char>, start: int, end: int) -> bool {
    &&& 0 <= start <= end <= text.len()
    &&& forall|i: int| 0 <= i < start ==> is_white_space(#[trigger] text[i])
    &&& forall|i: int| end <= i < text.len() ==> is_white_space(#[trigger] text[i])
    &&& start < end ==> !is_white_space(text[start]) && !is_white_space(text[end - 1])
}

/// What trimming leaves is the part between the white space before and the white
/// space behind.
pub proof fn law_trimmed_is_the_middle(text: Seq<char>)
    ensures
        exists|start: int, end: int| #[trigger]
            is_middle(text, start, end) && trimmed(text) == text.subrange(start, end),
{
    let start = lemma_trimmed_start(text);
    let rest = text.skip(start);
    let length = lemma_trimmed_end(rest);
    assert(rest.take(length) =~= text.subrange(start, start + length));
    assert forall|i: int| start + length <= i < text.len() implies is_white_space(
        #[trigger] text[i],
    ) by {
        assert(rest[i - start] == text[i]);
    }
    if length > 0 {
        assert(rest[length - 1] == text[start + length - 1]);
    }
    assert(is_middle(text, start, start + length));
}

/// A text is blank, so that trimming leaves nothing of it, just where it is white
/// space throughout.
pub proof fn law_blank_is_white_space(text: Seq<char>)
    ensures
        trimmed(text).len() == 0 <==> forall|i: int|
            0 <= i < text.len() ==> is_white_space(#[trigger] text[i]),
{
    law_trimmed_is_the_middle(text);
    let (start, end) = choose|start: int, end: int| #[trigger]
        is_middle(text, start, end) && trimmed(text) == text.subrange(start, end);
    if start == end {
        assert forall|i: int| 0 <= i < text.len() implies is_white_space(#[trigger] text[i]) by {}
    } else {
        assert(!is_white_space(text[start]));
    }
}

/// Joining sets the parts one behind the other, in order, with the separator
/// between each two and nowhere else.
pub proof fn law_joined_keeps_every_part(parts: Seq<Seq<char>>, separator: Seq<char>, at: int)
    requires
        0 <= at < parts.len(),
    ensures
        joined(parts, separator) == joined(parts.take(at), separator) + (if at == 0 {
            Seq::empty()
        } else {
            separator
        }) + parts[at] + (if at == parts.len() - 1 {
            Seq::empty()
        } else {
            separator + joined(parts.skip(at + 1), separator)
        }),
    decreases parts.len(),
{
    let whole = joined(parts, separator);
    let none = Seq::<char>::empty();
    if at == parts.len() - 1 {
        assert(parts.take(at) =~= parts.drop_last());
        assert(whole =~= joined(parts.take(at), separator) + (if at == 0 {
            none
        } else {
            separator
        }) + parts[at] + none);
    } else {
        let shorter = parts.drop_last();
        law_joined_keeps_every_part(shorter, separator, at);
        assert(shorter.take(at) =~= parts.take(at));
        let tail = parts.skip(at + 1);
        let short_tail = shorter.skip(at + 1);
        assert(tail.drop_last() =~= short_tail);
        assert(tail.last() == parts.last());
        let head = joined(parts.take(at), separator) + (if at == 0 {
            none
        } else {
            separator
        }) + parts[at];
        if at == shorter.len() - 1 {
            assert(tail.len() == 1);
            assert(whole =~= head + (separator + joined(tail, separator)));
        } else {
            assert(joined(tail, separator) == joined(short_tail, separator) + separator + tail.last());
            assert(whole =~= head + (separator + joined(tail, separator)));
        }
    }
}

/// Nothing but the parts and the separators goes into a joined text.
pub proof fn law_joined_adds_nothing(parts: Seq<Seq<char>>, part: Seq<char>, separator: Seq<char>)
    ensures
        joined(parts.take(0), separator).len() == 0,
        joined(seq![part], separator) == part,
        parts.len() > 0 ==> joined(parts.push(part), separator).len() == joined(parts, separator).len()
            + separator.len() + part.len(),
{
    assert(parts.push(part).drop_last() =~= parts);
}

/// The pieces of a text put together again, with the separator between them, are
/// the text, and no piece holds the separator.
pub proof fn law_split_pieces_are_the_text(text: Seq<char>, separator: char)
    ensures
        split_at(text, separator).len() > 0,
        joined(split_at(text, separator), seq![separator]) == text,
        forall|i: int|
            0 <= i < split_at(text, separator).len() ==> !(#[trigger] split_at(
                text,
                separator,
            )[i]).contains(separator),
    decreases text.len(),
{
    let pieces = split_at(text, separator);
    if text.len() > 0 {
        let before = split_at(text.drop_last(), separator);
        law_split_pieces_are_the_text(text.drop_last(), separator);
        assert(text.drop_last().push(text.last()) =~= text);
        if text.last() == separator {
            assert(pieces.drop_last() =~= before);
            assert(joined(pieces, seq![separator]) =~= text);
            assert forall|i: int| 0 <= i < pieces.len() implies !(
            #[trigger] pieces[i]).contains(separator) by {
                if i < before.len() {
                    assert(pieces[i] == before[i]);
                }
            }
        } else {
            assert(pieces.drop_last() =~= before.drop_last());
            assert(pieces.last() == before.last().push(text.last()));
            assert(joined(pieces, seq![separator]) =~= text);
            assert forall|i: int| 0 <= i < pieces.len() implies !(
            #[trigger] pieces[i]).contains(separator) by {
                if i < before.len() - 1 {
                    assert(pieces[i] == before[i]);
                } else {
                    let last = before[before.len() - 1];
                    assert(!last.contains(separator));
                    if pieces[i].contains(separator) {
                        let k = choose|k: int| 0 <= k < pieces[i].len() && pieces[i][k] == separator;
                        if k < last.len() {
                            assert(last[k] == separator);
                        }
                    }
                }
            }
        }
    }
}

/// The first piece that is more than white space is found, whatever comes before
/// it, and is given without the white space around it.
pub proof fn law_first_non_blank_is_first(pieces: Seq<Seq<char>>)
    ensures
        match first_non_blank(pieces) {
            Some(found) => exists|at: int|
                0 <= at < pieces.len() && found == trimmed(#[trigger] pieces[at]) && found.len() > 0
                    && forall|i: int| 0 <= i < at ==> trimmed(#[trigger] pieces[i]).len() == 0,
            None => forall|i: int|
                0 <= i < pieces.len() ==> trimmed(#[trigger] pieces[i]).len() == 0,
        },
    decreases pieces.len(),
{
    if pieces.len() > 0 {
        let rest = pieces.drop_first();
        law_first_non_blank_is_first(rest);
        if trimmed(pieces[0]).len() == 0 {
            match first_non_blank(rest) {
                Some(found) => {
                    let at = choose|at: int|
                        0 <= at < rest.len() && found == trimmed(#[trigger] rest[at]) && found.len()
                            > 0 && forall|i: int|
                            0 <= i < at ==> trimmed(#[trigger] rest[i]).len() == 0;
                    assert(pieces[at + 1] == rest[at]);
                    assert forall|i: int| 0 <= i < at + 1 implies trimmed(
                        #[trigger] pieces[i],
                    ).len() == 0 by {
                        if i > 0 {
                            assert(rest[i - 1] == pieces[i]);
                        }
                    }
                },
                None => {
                    assert forall|i: int| 0 <= i < pieces.len() implies trimmed(
                        #[trigger] pieces[i],
                    ).len() == 0 by {
                        if i > 0 {
                            assert(rest[i - 1] == pieces[i]);
                        }
                    }
                },
            }
        } else {
            assert(trimmed(pieces[0]) == first_non_blank(pieces)->0);
        }
    }
}

/// A text cut to a number of characters is its beginning, and as long as it may
/// be.
pub proof fn law_char_prefix_is_the_beginning(text: Seq<char>, max_chars: int)
    requires
        0 <= max_chars,
    ensures
        char_prefix(text, max_chars).len() == if text.len() <= max_chars {
            text.len() as int
        } else {
            max_chars
        },
        forall|i: int|
            0 <= i < char_prefix(text, max_chars).len() ==> #[trigger] char_prefix(
                text,
                max_chars,
            )[i] == text[i],
{
}

/// No longer beginning of a text would fit into the bytes.
pub proof fn law_byte_prefix_is_longest(text: Seq<char>, max_bytes: int, count: int)
    requires
        0 <= max_bytes,
        0 <= count <= text.len(),
        byte_len(text.take(count)) <= max_bytes,
    ensures
        byte_prefix(text, max_bytes).len() >= count,
        byte_prefix(text, max_bytes).take(count) == text.take(count),
{
    lemma_fitting_chars(text, 0, max_bytes);
    let fitting = fitting_chars(text, 0, max_bytes);
    if fitting < count {
        lemma_byte_len_monotonic(text, fitting + 1, count);
    }
    assert(byte_prefix(text, max_bytes).take(count) =~= text.take(count));
}

/// A text that fits stays as it is. One that does not ends in three dots behind
/// its beginning, where a character fits beside them.
pub proof fn law_ellipsized_keeps_the_beginning(text: Seq<char>, max_bytes: int)
    requires
        0 <= max_bytes,
    ensures
        byte_len(text) <= max_bytes ==> ellipsized(text, max_bytes) == text,
        byte_len(text) > max_bytes && text.len() > 0 && char_width(text[0]) <= max_bytes - 3 ==> {
            let kept = ellipsized(text, max_bytes).len() - 3;
            &&& 0 < kept < text.len()
            &&& ellipsized(text, max_bytes) == text.take(kept) + seq!['.', '.', '.']
        },
{
    reveal_strlit("...");
    assert("..."@ =~= seq!['.', '.', '.']);
    if byte_len(text) > max_bytes && text.len() > 0 && char_width(text[0]) <= max_bytes - 3 {
        lemma_fitting_chars(text, 0, max_bytes - 3);
        lemma_byte_len_take(text, 0);
        assert(text.take(0) =~= Seq::<char>::empty());
        let kept = fitting_chars(text, 0, max_bytes - 3);
        assert(text.take(text.len() as int) =~= text);
        assert(ellipsized(text, max_bytes).len() - 3 == kept);
    }
}

/// The decimal form of a number has the digit for each power of ten in its place,
/// and does not begin with a zero unless the number is zero.
pub proof fn law_decimal_has_every_digit(number: int, place: int)
    requires
        0 <= number,
        0 <= place < decimal(number).len(),
    ensures
        decimal(number)[decimal(number).len() - 1 - place] as int == 48 + (number / pow(
            10,
            place as nat,
        )) % 10,
        number < pow(10, decimal(number).len()),
        number > 0 ==> pow(10, (decimal(number).len() - 1) as nat) <= number,
    decreases number,
{
    reveal(pow);
    assert(pow(10, 0) == 1);
    assert(pow(10, 1) == 10 * pow(10, 0));
    if number < 10 {
        assert(number / 1 == number);
    } else {
        let shorter = decimal(number / 10);
        assert(shorter.len() > 0) by {
            reveal_with_fuel(decimal, 2);
        }
        let whole = decimal(number);
        let length = shorter.len();
        law_decimal_has_every_digit(number / 10, if place == 0 {
            0
        } else {
            place - 1
        });
        assert(pow(10, (length + 1) as nat) == 10 * pow(10, length));
        assert(pow(10, length) == 10 * pow(10, (length - 1) as nat));
        if place == 0 {
            assert(whole.last() == digit_char(number % 10));
            assert(number / 1 == number);
        } else {
            let tens = pow(10, (place - 1) as nat);
            assert(pow(10, place as nat) == 10 * tens);
            vstd::arithmetic::power::lemma_pow_positive(10, (place - 1) as nat);
            vstd::arithmetic::div_mod::lemma_div_denominator(number, 10, tens);
            assert(whole[whole.len() - 1 - place] == shorter[length - 1 - (place - 1)]);
        }
    }
}

/// What comes before the first separator of a text is its first piece; a text
/// without one is its only piece.
pub proof fn law_first_piece_ends_at_separator(first: Seq<char>, separator: char, rest: Seq<char>)
    requires
        !first.contains(separator),
    ensures
        split_at(first + seq![separator] + rest, separator).len() > 0,
        split_at(first + seq![separator] + rest, separator)[0] == first,
    decreases rest.len(),
{
    let text = first + seq![separator] + rest;
    lemma_split_at_non_empty(text, separator);
    if rest.len() == 0 {
        assert(text.drop_last() =~= first);
        lemma_one_piece(first, separator);
    } else {
        assert(text.drop_last() =~= first + seq![separator] + rest.drop_last());
        law_first_piece_ends_at_separator(first, separator, rest.drop_last());
        let before = split_at(text.drop_last(), separator);
        lemma_two_pieces(first, separator, rest.drop_last());
        assert(before.len() > 1);
    }
}

proof fn lemma_one_piece(text: Seq<char>, separator: char)
    requires
        !text.contains(separator),
    ensures
        split_at(text, separator) == seq![text],
    decreases text.len(),
{
    if text.len() > 0 {
        assert(text.last() != separator) by {
            assert(text[text.len() - 1] == text.last());
        }
        assert forall|i: int| 0 <= i < text.drop_last().len() implies text.drop_last()[i]
            != separator by {
            assert(text[i] != separator);
        }
        lemma_one_piece(text.drop_last(), separator);
        assert(text.drop_last().push(text.last()) =~= text);
        assert(split_at(text, separator) =~= seq![text]);
    } else {
        assert(text =~= Seq::<char>::empty());
    }
}

proof fn lemma_two_pieces(first: Seq<char>, separator: char, rest: Seq<char>)
    ensures
        split_at(first + seq![separator] + rest, separator).len() > 1,
    decreases rest.len(),
{
    let text = first + seq![separator] + rest;
    if rest.len() == 0 {
        assert(text.drop_last() =~= first);
        lemma_split_at_non_empty(first, separator);
    } else {
        assert(text.drop_last() =~= first + seq![separator] + rest.drop_last());
        lemma_two_pieces(first, separator, rest.drop_last());
    }
}

/// An empty text counts as none, and any other as itself.
pub proof fn law_empty_text_is_none(text: Seq<char>)
    ensures
        text.len() == 0 ==> non_empty(Some(text)) is None,
        text.len() > 0 ==> non_empty(Some(text)) == Some(text),
        non_empty(None) is None,
{
}

/// Two texts are the same but for the case of letters where each character is the
/// same in both, or a capital letter in one and its small letter in the other.
pub proof fn law_case_is_set_aside(a: Seq<char>, b: Seq<char>, at: int)
    requires
        same_ascii(a, b),
        0 <= at < a.len(),
    ensures
        a.len() == b.len(),
        ({
            let x = a[at] as int;
            let y = b[at] as int;
            ||| x == y
            ||| 'A' as int <= x <= 'Z' as int && y == x + 32
            ||| 'A' as int <= y <= 'Z' as int && x == y + 32
        }),
        same_ascii(b, a),
{
    assert(ascii_lower(a[at]) == ascii_lower(b[at]));
    assert forall|i: int| 0 <= i < b.len() implies ascii_lower(#[trigger] b[i]) == ascii_lower(a[i]) by {
        assert(ascii_lower(a[i]) == ascii_lower(b[i]));
    }
}

/// The white space of ASCII is the tab, the line feed, the vertical tab, the form
/// feed, the carriage return and the space, and no character that prints.
pub proof fn law_white_space_of_ascii(c: char)
    requires
        c as int <= 0x7f,
    ensures
        is_white_space(c) <==> seq!['\t', '\n', '\u{b}', '\u{c}', '\r', ' '].contains(c),
{
    let listed = seq!['\t', '\n', '\u{b}', '\u{c}', '\r', ' '];
    assert(listed[0] == '\t' && listed[1] == '\n' && listed[2] == '\u{b}' && listed[3] == '\u{c}'
        && listed[4] == '\r' && listed[5] == ' ');
    if is_white_space(c) {
        assert(c == listed[0] || c == listed[1] || c == listed[2] || c == listed[3] || c
            == listed[4] || c == listed[5]);
    }
}

/// Outside ASCII, the white space is the next line, the spaces that print nothing
/// but have a width, and the two separators of lines and paragraphs.
pub proof fn law_white_space_beyond_ascii(c: char)
    requires
        c as int > 0x7f,
    ensures
        is_white_space(c) <==> seq![
            '\u{85}', '\u{a0}', '\u{1680}', '\u{2000}', '\u{2001}', '\u{2002}', '\u{2003}',
            '\u{2004}', '\u{2005}', '\u{2006}', '\u{2007}', '\u{2008}', '\u{2009}', '\u{200a}',
            '\u{2028}', '\u{2029}', '\u{202f}', '\u{205f}', '\u{3000}',
        ].contains(c),
{
    let listed = seq![
        '\u{85}', '\u{a0}', '\u{1680}', '\u{2000}', '\u{2001}', '\u{2002}', '\u{2003}',
        '\u{2004}', '\u{2005}', '\u{2006}', '\u{2007}', '\u{2008}', '\u{2009}', '\u{200a}',
        '\u{2028}', '\u{2029}', '\u{202f}', '\u{205f}', '\u{3000}',
    ];
    assert(listed[0] == '\u{85}' && listed[1] == '\u{a0}' && listed[2] == '\u{1680}');
    assert(forall|i: int| 0 <= i <= 10 ==> (#[trigger] listed[3 + i]) as int == 0x2000 + i);
    assert(listed[14] == '\u{2028}' && listed[15] == '\u{2029}' && listed[16] == '\u{202f}'
        && listed[17] == '\u{205f}' && listed[18] == '\u{3000}');
    let n = c as int;
    if 0x2000 <= n <= 0x200a {
        assert(listed[3 + (n - 0x2000)] as int == n);
    }
}

} // verus!
