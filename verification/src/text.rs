//! Small tools on text: comparing, endings, parts, fields between separators,
//! and decimal numbers. Text is taken as its sequence of characters.

use vstd::prelude::*;

verus! {

/// `part` stands in `text` from position `at` on.
pub open spec fn occurs_at(part: Seq<char>, text: Seq<char>, at: int) -> bool {
    &&& 0 <= at
    &&& at + part.len() <= text.len()
    &&& text.subrange(at, at + part.len()) =~= part
}

/// `part` stands somewhere in `text`.
pub open spec fn occurs_in(part: Seq<char>, text: Seq<char>) -> bool {
    exists|at: int| occurs_at(part, text, at)
}

/// The fields put back together, with `separator` between neighbours.
pub open spec fn joined(fields: Seq<Seq<char>>, separator: char) -> Seq<char>
    decreases fields.len(),
{
    if fields.len() == 0 {
        Seq::empty()
    } else if fields.len() == 1 {
        fields[0]
    } else {
        joined(fields.drop_last(), separator) + seq![separator] + fields.last()
    }
}

/// Joining with one more field puts the separator and the field behind the rest.
pub proof fn lemma_joined_push(fields: Seq<Seq<char>>, last: Seq<char>, separator: char)
    ensures
        joined(fields.push(last), separator) == if fields.len() == 0 {
            last
        } else {
            joined(fields, separator) + seq![separator] + last
        },
{
    assert(fields.push(last).drop_last() =~= fields);
}

/// `fields` are the stretches of `text` between its separators: put together they
/// give `text` back, and none of them holds a separator. A text without separator
/// is one field, an empty text one empty field.
pub open spec fn splits_into(text: Seq<char>, separator: char, fields: Seq<Seq<char>>) -> bool {
    &&& fields.len() > 0
    &&& joined(fields, separator) == text
    &&& forall|k: int| 0 <= k < fields.len() ==> !(#[trigger] fields[k]).contains(separator)
}

/// A text is cut into fields in one way only.
pub proof fn lemma_split_is_unique(
    text: Seq<char>,
    separator: char,
    first: Seq<Seq<char>>,
    second: Seq<Seq<char>>,
)
    requires
        splits_into(text, separator, first),
        splits_into(text, separator, second),
    ensures
        first == second,
    decreases first.len(),
{
    if first.len() == 1 && second.len() == 1 {
        assert(first =~= second);
    } else if first.len() == 1 {
        let q = joined(second.drop_last(), separator).len() as int;
        let by_second = joined(second.drop_last(), separator) + seq![separator] + second.last();
        assert(text == by_second);
        assert(by_second[q] == separator);
        assert(first[0][q] == separator);
        assert(first[0].contains(separator));
    } else if second.len() == 1 {
        let p = joined(first.drop_last(), separator).len() as int;
        let by_first = joined(first.drop_last(), separator) + seq![separator] + first.last();
        assert(text == by_first);
        assert(by_first[p] == separator);
        assert(second[0][p] == separator);
        assert(second[0].contains(separator));
    } else {
        let p = joined(first.drop_last(), separator).len() as int;
        let q = joined(second.drop_last(), separator).len() as int;
        let by_first = joined(first.drop_last(), separator) + seq![separator] + first.last();
        let by_second = joined(second.drop_last(), separator) + seq![separator] + second.last();
        assert(text == by_first);
        assert(text == by_second);
        assert(by_first[p] == separator);
        assert(by_second[q] == separator);
        if p < q {
            assert(by_first[q] == first.last()[q - p - 1]);
            assert(first.last().contains(separator));
        }
        if q < p {
            assert(by_second[p] == second.last()[p - q - 1]);
            assert(second.last().contains(separator));
        }
        assert(first.last() =~= text.skip(p + 1));
        assert(second.last() =~= text.skip(p + 1));
        assert(joined(first.drop_last(), separator) =~= text.take(p));
        assert(joined(second.drop_last(), separator) =~= text.take(p));
        lemma_split_is_unique(text.take(p), separator, first.drop_last(), second.drop_last());
        assert(first =~= first.drop_last().push(first.last()));
        assert(second =~= second.drop_last().push(second.last()));
    }
}

/// The fields of `text`: its stretches between separators, in order.
pub open spec fn fields_of(text: Seq<char>, separator: char) -> Seq<Seq<char>> {
    choose|fields: Seq<Seq<char>>| splits_into(text, separator, fields)
}

/// Whatever cuts `text` into fields gives the fields of `text`.
pub proof fn lemma_fields_of(text: Seq<char>, separator: char, fields: Seq<Seq<char>>)
    requires
        splits_into(text, separator, fields),
    ensures
        fields_of(text, separator) == fields,
{
    lemma_split_is_unique(text, separator, fields_of(text, separator), fields);
}

/// Every text is cut into fields in some way, and so has its fields.
pub proof fn lemma_split_exists(text: Seq<char>, separator: char) -> (fields: Seq<Seq<char>>)
    ensures
        splits_into(text, separator, fields),
        fields == fields_of(text, separator),
    decreases text.len(),
{
    let fields = if text.len() == 0 {
        seq![text]
    } else {
        let rest = lemma_split_exists(text.drop_last(), separator);
        let c = text.last();
        assert(text =~= text.drop_last().push(c));
        if c == separator {
            let grown = rest.push(Seq::empty());
            lemma_joined_push(rest, Seq::empty(), separator);
            assert(joined(rest, separator) + seq![separator] + Seq::<char>::empty() =~= text);
            grown
        } else {
            let longer = rest.last().push(c);
            let grown = rest.drop_last().push(longer);
            lemma_joined_push(rest.drop_last(), longer, separator);
            lemma_joined_push(rest.drop_last(), rest.last(), separator);
            assert(rest.drop_last().push(rest.last()) =~= rest);
            if rest.len() > 1 {
                assert(joined(rest.drop_last(), separator) + seq![separator] + longer =~= (joined(
                    rest.drop_last(),
                    separator,
                ) + seq![separator] + rest.last()).push(c));
            }
            assert forall|k: int| 0 <= k < grown.len() implies !(#[trigger] grown[k]).contains(
                separator,
            ) by {
                if k < grown.len() - 1 {
                    assert(grown[k] == rest[k]);
                } else {
                    assert(!rest[k].contains(separator));
                    assert forall|i: int| 0 <= i < longer.len() implies longer[i] != separator by {
                        if i < rest[k].len() {
                            assert(longer[i] == rest[k][i]);
                        }
                    }
                }
            }
            grown
        }
    };
    lemma_fields_of(text, separator, fields);
    fields
}

/// `c` is one of the ten decimal digits.
pub open spec fn is_digit(c: char) -> bool {
    '0' <= c <= '9'
}

/// The number that a decimal digit stands for.
pub open spec fn digit_value(c: char) -> int {
    c as int - '0' as int
}

/// The number that a row of decimal digits writes, the most significant first.
pub open spec fn digits_value(digits: Seq<char>) -> int
    decreases digits.len(),
{
    if digits.len() == 0 {
        0
    } else {
        10 * digits_value(digits.drop_last()) + digit_value(digits.last())
    }
}

/// Every character is a decimal digit.
pub open spec fn all_digits(digits: Seq<char>) -> bool {
    forall|i: int| 0 <= i < digits.len() ==> is_digit(#[trigger] digits[i])
}

/// The text without its leading `+`, if it has one.
pub open spec fn without_plus(text: Seq<char>) -> Seq<char> {
    if text.len() > 0 && text[0] == '+' {
        text.skip(1)
    } else {
        text
    }
}

/// The number that `text` writes in decimal, if it writes one that fits 32 bits:
/// at least one digit, nothing but digits, with or without a `+` in front.
pub open spec fn decimal_u32(text: Seq<char>) -> Option<u32> {
    let digits = without_plus(text);
    if digits.len() > 0 && all_digits(digits) && digits_value(digits) <= u32::MAX {
        Some(digits_value(digits) as u32)
    } else {
        None
    }
}

/// A row of digits is worth at least as much as any of its beginnings.
pub proof fn lemma_digits_value_grows(digits: Seq<char>, n: int)
    requires
        all_digits(digits),
        0 <= n <= digits.len(),
    ensures
        0 <= digits_value(digits.take(n)) <= digits_value(digits),
    decreases digits.len() - n,
{
    if n == digits.len() {
        assert(digits.take(n) =~= digits);
        lemma_digits_value_is_natural(digits);
    } else {
        lemma_digits_value_grows(digits, n + 1);
        let longer = digits.take(n + 1);
        assert(longer.drop_last() =~= digits.take(n));
        assert(is_digit(digits[n]));
        assert(longer.last() == digits[n]);
        lemma_digits_value_is_natural(digits.take(n));
    }
}

/// A row of digits never writes a negative number.
pub proof fn lemma_digits_value_is_natural(digits: Seq<char>)
    requires
        all_digits(digits),
    ensures
        0 <= digits_value(digits),
    decreases digits.len(),
{
    if digits.len() > 0 {
        lemma_digits_value_is_natural(digits.drop_last());
        assert(is_digit(digits[digits.len() - 1]));
    }
}

/// The character sequences of some texts.
pub open spec fn texts_of(fields: Seq<&str>) -> Seq<Seq<char>> {
    fields.map_values(|field: &str| field@)
}

/// The characters of `text`, one by one.
pub fn chars_of(text: &str) -> (chars: Vec<char>)
    ensures
        chars@ == text@,
{
    let mut chars: Vec<char> = Vec::new();
    for c in it: text.chars()
        invariant
            chars@ == it.seq().take(it.index()),
            it.seq() == text@,
    {
        chars.push(c);
    }
    chars
}

/// Whether two texts hold the same characters.
pub fn same_text(left: &str, right: &str) -> (same: bool)
    ensures
        same == (left@ == right@),
{
    left.to_owned() == right.to_owned()
}

/// Whether `part` stands in `whole` from position `at` on.
fn matches_at(whole: &Vec<char>, part: &Vec<char>, at: usize) -> (found: bool)
    requires
        at + part.len() <= whole.len(),
    ensures
        found == occurs_at(part@, whole@, at as int),
{
    let mut i: usize = 0;
    while i < part.len()
        invariant
            at + part.len() <= whole.len(),
            i <= part.len(),
            forall|k: int| 0 <= k < i ==> whole@[at + k] == part@[k],
        decreases part@.len() - i,
    {
        if whole[at + i] != part[i] {
            assert(whole@.subrange(at as int, at + part@.len())[i as int] == whole@[at + i]);
            return false;
        }
        i = i + 1;
    }
    true
}

/// Whether `text` ends with `ending`.
pub fn ends_with(text: &str, ending: &str) -> (found: bool)
    ensures
        found == ending@.is_suffix_of(text@),
{
    let whole: Vec<char> = chars_of(text);
    let tail: Vec<char> = chars_of(ending);
    if tail.len() > whole.len() {
        return false;
    }
    matches_at(&whole, &tail, whole.len() - tail.len())
}

/// Whether `part` stands somewhere in `text`.
pub fn contains(text: &str, part: &str) -> (found: bool)
    ensures
        found == occurs_in(part@, text@),
{
    let whole: Vec<char> = chars_of(text);
    let piece: Vec<char> = chars_of(part);
    if piece.len() > whole.len() {
        return false;
    }
    let last: usize = whole.len() - piece.len();
    let mut at: usize = 0;
    loop
        invariant
            last == whole@.len() - piece@.len(),
            at <= last,
            whole@ == text@,
            piece@ == part@,
            forall|k: int| 0 <= k < at ==> !occurs_at(piece@, whole@, k),
        decreases last - at,
    {
        if matches_at(&whole, &piece, at) {
            return true;
        }
        if at == last {
            return false;
        }
        at = at + 1;
    }
}

/// Cuts `text` at every `separator`. The fields come in the order in which they
/// stand in `text`, one more than there are separators.
pub fn split_fields<'a>(text: &'a str, separator: char) -> (fields: Vec<&'a str>)
    ensures
        splits_into(text@, separator, texts_of(fields@)),
        texts_of(fields@) == fields_of(text@, separator),
{
    let chars: Vec<char> = chars_of(text);
    let mut fields: Vec<&'a str> = Vec::new();
    let mut start: usize = 0;
    let mut i: usize = 0;
    while i < chars.len()
        invariant
            chars@ == text@,
            start <= i <= chars@.len(),
            fields@.len() == 0 ==> start == 0,
            joined(
                texts_of(fields@).push(text@.subrange(start as int, i as int)),
                separator,
            ) == text@.take(i as int),
            forall|k: int| 0 <= k < fields@.len() ==> !(#[trigger] fields@[k])@.contains(separator),
            forall|k: int| start <= k < i ==> text@[k] != separator,
        decreases chars@.len() - i,
    {
        let ghost before = fields@;
        let ghost done = texts_of(fields@);
        let ghost current = text@.subrange(start as int, i as int);
        if chars[i] == separator {
            let field: &'a str = text.substring_char(start, i);
            fields.push(field);
            proof {
                let now = texts_of(fields@);
                let empty = text@.subrange(i + 1, i + 1);
                assert(now =~= done.push(current));
                lemma_joined_push(now, empty, separator);
                assert(joined(now, separator) + seq![separator] + empty =~= text@.take(i + 1));
                assert forall|k: int| 0 <= k < fields@.len() implies !(#[trigger] fields@[k])@.contains(
                    separator,
                ) by {
                    if k < before.len() {
                        assert(fields@[k] == before[k]);
                    }
                }
            }
            start = i + 1;
        } else {
            proof {
                let longer = text@.subrange(start as int, i + 1);
                lemma_joined_push(done, current, separator);
                lemma_joined_push(done, longer, separator);
                assert(longer =~= current.push(text@[i as int]));
                assert(text@.take(i + 1) =~= text@.take(i as int).push(text@[i as int]));
                if done.len() > 0 {
                    assert(joined(done, separator) + seq![separator] + longer =~= (joined(
                        done,
                        separator,
                    ) + seq![separator] + current).push(text@[i as int]));
                }
            }
        }
        i = i + 1;
    }
    let ghost before = fields@;
    let ghost done = texts_of(fields@);
    let last: &'a str = text.substring_char(start, i);
    fields.push(last);
    proof {
        let now = texts_of(fields@);
        assert(now =~= done.push(text@.subrange(start as int, i as int)));
        assert(text@.take(i as int) =~= text@);
        assert forall|k: int| 0 <= k < now.len() implies !(#[trigger] now[k]).contains(separator) by {
            if k < before.len() {
                assert(fields@[k] == before[k]);
            }
            assert(now[k] == fields@[k]@);
        }
        lemma_fields_of(text@, separator, now);
    }
    fields
}

/// Reads a decimal number of 32 bits: digits only, a `+` in front allowed.
pub fn parse_u32(text: &str) -> (number: Option<u32>)
    ensures
        number == decimal_u32(text@),
{
    let chars: Vec<char> = chars_of(text);
    let first: usize = if chars.len() > 0 && chars[0] == '+' {
        1
    } else {
        0
    };
    if first == chars.len() {
        return None;
    }
    let ghost digits = without_plus(text@);
    assert(digits =~= text@.skip(first as int));
    let mut value: u64 = 0;
    let mut i: usize = first;
    while i < chars.len()
        invariant
            chars@ == text@,
            first <= i <= chars@.len(),
            digits == text@.skip(first as int),
            digits == without_plus(text@),
            all_digits(digits.take(i - first)),
            value == digits_value(digits.take(i - first)),
            value <= u32::MAX,
        decreases chars@.len() - i,
    {
        let c: char = chars[i];
        let ghost longer = digits.take(i - first + 1);
        proof {
            assert(longer.drop_last() =~= digits.take(i - first));
            assert(longer.last() == c);
        }
        if c < '0' || c > '9' {
            assert(!is_digit(digits[i - first]));
            return None;
        }
        let digit: u64 = (c as u32 - '0' as u32) as u64;
        value = value * 10 + digit;
        proof {
            assert forall|k: int| 0 <= k < longer.len() implies is_digit(#[trigger] longer[k]) by {
                if k < i - first {
                    assert(longer[k] == digits.take(i - first)[k]);
                }
            }
        }
        if value > u32::MAX as u64 {
            proof {
                if all_digits(digits) {
                    lemma_digits_value_grows(digits, i - first + 1);
                }
            }
            return None;
        }
        i = i + 1;
    }
    assert(digits.take(i - first) =~= digits);
    Some(value as u32)
}

} // verus!
