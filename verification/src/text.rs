//! Text on the level of characters: the small operations that commands, addresses, error
//! messages and replies of remote programs are made of.

use vstd::arithmetic::power::{lemma_pow0, pow};
use vstd::prelude::*;

verus! {

/// `String::push` of the standard library appends one character to the text.
pub assume_specification[ String::push ](text: &mut String, character: char)
    ensures
        final(text)@ == old(text)@.push(character),
;

/// The decimal digit of value `d`.
pub open spec fn digit(d: nat) -> char
    recommends
        d < 10,
{
    (('0' as u32) + d) as char
}

/// `n` in decimal, without leading zeros.
pub open spec fn decimal(n: nat) -> Seq<char>
    decreases n,
{
    if n < 10 {
        seq![digit(n)]
    } else {
        decimal(n / 10).push(digit(n % 10))
    }
}

/// Whether `c` is one of the ten ASCII digits.
pub open spec fn is_digit(c: char) -> bool {
    '0' <= c <= '9'
}

/// The number that a sequence of ASCII digits denotes in decimal.
pub open spec fn digits_value(digits: Seq<char>) -> nat
    decreases digits.len(),
{
    if digits.len() == 0 {
        0
    } else {
        10 * digits_value(digits.drop_last()) + (digits.last() as nat - '0' as nat) as nat
    }
}

/// The characters of a string, one by one.
pub fn characters(text: &str) -> (result: Vec<char>)
    ensures
        result@ == text@,
{
    let mut result: Vec<char> = Vec::new();
    for c in it: text.chars()
        invariant
            result@ == it.seq().take(it.index()),
            it.seq() == text@,
    {
        result.push(c);
    }
    result
}

/// The string made of the characters `from..to` of `characters`.
pub fn string_of(characters: &Vec<char>, from: usize, to: usize) -> (result: String)
    requires
        from <= to <= characters@.len(),
    ensures
        result@ == characters@.subrange(from as int, to as int),
{
    let mut result = String::new();
    let mut i: usize = from;
    while i < to
        invariant
            from <= i <= to <= characters@.len(),
            result@ == characters@.subrange(from as int, i as int),
        decreases to - i,
    {
        result.push(characters[i]);
        i = i + 1;
    }
    result
}

/// Writes a number in decimal.
pub fn decimal_string(n: u64) -> (result: String)
    ensures
        result@ == decimal(n as nat),
    decreases n,
{
    let mut result = if n < 10 {
        String::new()
    } else {
        decimal_string(n / 10)
    };
    let d: u32 = (n % 10) as u32;
    result.push(digit_char(d));
    result
}

/// The decimal digit of value `d`.
fn digit_char(d: u32) -> (result: char)
    requires
        d < 10,
    ensures
        result == digit(d as nat),
{
    if d == 0 {
        '0'
    } else if d == 1 {
        '1'
    } else if d == 2 {
        '2'
    } else if d == 3 {
        '3'
    } else if d == 4 {
        '4'
    } else if d == 5 {
        '5'
    } else if d == 6 {
        '6'
    } else if d == 7 {
        '7'
    } else if d == 8 {
        '8'
    } else {
        '9'
    }
}

/// Whether two texts are the same.
pub fn same_text(a: &str, b: &str) -> (result: bool)
    ensures
        result == (a@ == b@),
{
    a.to_owned() == b.to_owned()
}

/// Whether `pattern` stands in `text` at some place.
pub open spec fn occurs_in(pattern: Seq<char>, text: Seq<char>) -> bool {
    exists|i: int| #[trigger] occurs_at(pattern, text, i)
}

/// Whether `pattern` stands in `text` at position `i`.
pub open spec fn occurs_at(pattern: Seq<char>, text: Seq<char>, i: int) -> bool {
    0 <= i && i + pattern.len() <= text.len() && text.subrange(i, i + pattern.len()) == pattern
}

/// `text` with every `from` replaced by `to`.
pub open spec fn replaced(text: Seq<char>, from: char, to: char) -> Seq<char> {
    text.map_values(
        |c: char|
            if c == from {
                to
            } else {
                c
            },
    )
}

/// `text` with every line feed and, where `and_cr` is set, every carriage return, taken out.
pub open spec fn without_breaks(text: Seq<char>, and_cr: bool) -> Seq<char> {
    text.filter(|c: char| c != '\n' && !(and_cr && c == '\r'))
}

/// What stands before the first `separator`, or the whole text where there is none.
pub open spec fn first_field(text: Seq<char>, separator: char) -> Seq<char>
    decreases text.len(),
{
    if text.len() == 0 || text[0] == separator {
        Seq::empty()
    } else {
        seq![text[0]] + first_field(text.drop_first(), separator)
    }
}

/// What stands behind the first `separator`, where there is one.
pub open spec fn rest_fields(text: Seq<char>, separator: char) -> Option<Seq<char>>
    decreases text.len(),
{
    if text.len() == 0 {
        None
    } else if text[0] == separator {
        Some(text.drop_first())
    } else {
        rest_fields(text.drop_first(), separator)
    }
}

/// The texts of `parts`, one behind the other, with `separator` between neighbours.
pub open spec fn joined(parts: Seq<Seq<char>>, separator: Seq<char>) -> Seq<char>
    decreases parts.len(),
{
    if parts.len() == 0 {
        Seq::empty()
    } else if parts.len() == 1 {
        parts[0]
    } else {
        joined(parts.drop_last(), separator) + separator + parts.last()
    }
}

/// `text` without the sign `+` that may stand before its digits.
pub open spec fn unsigned(text: Seq<char>) -> Seq<char> {
    if text.len() > 0 && text[0] == '+' {
        text.drop_first()
    } else {
        text
    }
}

/// Whether a text consists of ASCII digits.
pub open spec fn all_digits(text: Seq<char>) -> bool {
    forall|i: int| 0 <= i < text.len() ==> is_digit(#[trigger] text[i])
}

/// The number that a decimal text denotes, where it is one that 16 bits hold: a sign `+` may
/// stand before the digits, and there is at least one digit.
pub open spec fn port_value(text: Seq<char>) -> Option<u16> {
    let digits = unsigned(text);
    if digits.len() > 0 && all_digits(digits) && digits_value(digits) <= u16::MAX {
        Some(digits_value(digits) as u16)
    } else {
        None
    }
}

/// Reads a decimal number of 16 bits.
pub fn parse_u16(text: &str) -> (result: Option<u16>)
    ensures
        result == port_value(text@),
{
    let all = characters(text);
    let start: usize = if all.len() > 0 && all[0] == '+' {
        1
    } else {
        0
    };
    let ghost digits = text@.subrange(start as int, text@.len() as int);
    proof {
        if start == 1 {
            assert(digits == text@.drop_first());
        } else {
            assert(digits == text@);
        }
    }
    if start == all.len() {
        return None;
    }
    let mut i: usize = start;
    let mut value: u32 = 0;
    while i < all.len()
        invariant
            start <= i <= all@.len(),
            start < all@.len(),
            all@ == text@,
            digits == text@.subrange(start as int, text@.len() as int),
            digits == unsigned(text@),
            forall|k: int| 0 <= k < i - start ==> is_digit(#[trigger] digits[k]),
            value == digits_value(digits.take(i - start)),
            value <= u16::MAX,
        decreases all.len() - i,
    {
        let c = all[i];
        if c < '0' || c > '9' {
            assert(!is_digit(digits[i - start]));
            return None;
        }
        let d: u32 = c as u32 - 48;
        value = 10 * value + d;
        proof {
            assert(digits.take(i + 1 - start).drop_last() == digits.take(i - start));
            assert(digits.take(i + 1 - start).last() == c);
        }
        if value > 65535 {
            proof {
                lemma_value_grows(digits, i + 1 - start);
            }
            return None;
        }
        i = i + 1;
    }
    proof {
        assert(digits.take(all@.len() - start) == digits);
    }
    Some(value as u16)
}

proof fn lemma_value_grows(digits: Seq<char>, n: int)
    requires
        0 <= n <= digits.len(),
    ensures
        digits_value(digits.take(n)) <= digits_value(digits),
    decreases digits.len() - n,
{
    if n == digits.len() {
        assert(digits.take(n) == digits);
    } else {
        lemma_value_grows(digits, n + 1);
        assert(digits.take(n + 1).drop_last() == digits.take(n));
    }
}

/// A number in decimal consists of digits and denotes that number.
pub proof fn lemma_decimal(n: nat)
    ensures
        decimal(n).len() > 0,
        all_digits(decimal(n)),
        digits_value(decimal(n)) == n,
    decreases n,
{
    assert forall|d: nat| d < 10 implies is_digit(#[trigger] digit(d)) && digit(d) as nat == '0'
        as nat + d by {}
    if n < 10 {
        assert(decimal(n).drop_last() == Seq::<char>::empty());
        assert(digits_value(Seq::<char>::empty()) == 0);
        assert(is_digit(digit(n)));
    } else {
        lemma_decimal(n / 10);
        assert(decimal(n).drop_last() == decimal(n / 10));
        assert(is_digit(digit(n % 10)));
    }
}

/// Whether one text stands somewhere in another.
pub fn contains(text: &str, pattern: &str) -> (result: bool)
    ensures
        result == occurs_in(pattern@, text@),
{
    let all = characters(text);
    let part = characters(pattern);
    if part.len() > all.len() {
        return false;
    }
    let last: usize = all.len() - part.len();
    let mut i: usize = 0;
    loop
        invariant
            i <= last,
            last == all@.len() - part@.len(),
            all.len() == all@.len(),
            all@ == text@,
            part@ == pattern@,
            forall|k: int| 0 <= k < i ==> !#[trigger] occurs_at(pattern@, text@, k),
        decreases last - i,
    {
        let mut j: usize = 0;
        while j < part.len() && all[i + j] == part[j]
            invariant
                i <= last,
                j <= part@.len(),
                last == all@.len() - part@.len(),
                all.len() == all@.len(),
                all@ == text@,
                part@ == pattern@,
                forall|k: int| 0 <= k < j ==> all@[i + k] == #[trigger] part@[k],
            decreases part.len() - j,
        {
            j = j + 1;
        }
        if j == part.len() {
            assert(text@.subrange(i as int, i + pattern@.len()) == pattern@);
            assert(occurs_at(pattern@, text@, i as int));
            return true;
        }
        proof {
            if occurs_at(pattern@, text@, i as int) {
                assert(text@.subrange(i as int, i + pattern@.len())[j as int] == pattern@[j as int]);
            }
        }
        if i == last {
            return false;
        }
        i = i + 1;
    }
}

/// Replaces one character by another wherever it stands.
pub fn replace_char(text: &str, from: char, to: char) -> (result: String)
    ensures
        result@ == replaced(text@, from, to),
{
    let mut result = String::new();
    for c in it: text.chars()
        invariant
            it.seq() == text@,
            result@ == replaced(it.seq().take(it.index()), from, to),
    {
        proof {
            assert(replaced(it.seq().take(it.index() + 1), from, to) == replaced(
                it.seq().take(it.index()),
                from,
                to,
            ).push(
                if c == from {
                    to
                } else {
                    c
                },
            ));
        }
        if c == from {
            result.push(to);
        } else {
            result.push(c);
        }
    }
    proof {
        assert(text@.take(text@.len() as int) == text@);
    }
    result
}

/// Takes out the line feeds and, where `and_cr` is set, the carriage returns.
pub fn remove_breaks(text: &str, and_cr: bool) -> (result: String)
    ensures
        result@ == without_breaks(text@, and_cr),
{
    let mut result = String::new();
    proof {
        reveal(Seq::filter);
    }
    for c in it: text.chars()
        invariant
            it.seq() == text@,
            result@ == without_breaks(it.seq().take(it.index()), and_cr),
    {
        proof {
            reveal(Seq::filter);
            assert(it.seq().take(it.index() + 1).drop_last() == it.seq().take(it.index()));
        }
        if c != '\n' && !(and_cr && c == '\r') {
            result.push(c);
        }
    }
    proof {
        assert(text@.take(text@.len() as int) == text@);
    }
    result
}

/// Splits a text at the first `separator`: what stands before it, and what stands behind it
/// where there is one.
pub fn split_field(text: &str, separator: char) -> (result: (String, Option<String>))
    ensures
        result.0@ == first_field(text@, separator),
        match result.1 {
            Some(rest) => rest_fields(text@, separator) == Some(rest@),
            None => rest_fields(text@, separator) is None,
        },
{
    let all = characters(text);
    let mut i: usize = 0;
    proof {
        assert(text@.skip(0) == text@);
        assert(text@.take(0) + first_field(text@, separator) == first_field(text@, separator));
    }
    while i < all.len() && all[i] != separator
        invariant
            i <= all@.len(),
            all@ == text@,
            first_field(text@, separator) == text@.take(i as int) + first_field(
                text@.skip(i as int),
                separator,
            ),
            rest_fields(text@, separator) == rest_fields(text@.skip(i as int), separator),
        decreases all.len() - i,
    {
        proof {
            assert(text@.skip(i as int).drop_first() == text@.skip(i + 1));
            assert(text@.skip(i as int)[0] == text@[i as int]);
            assert(text@.take(i as int) + (seq![text@[i as int]] + first_field(
                text@.skip(i + 1),
                separator,
            )) == text@.take(i + 1) + first_field(text@.skip(i + 1), separator));
        }
        i = i + 1;
    }
    proof {
        assert(text@.take(i as int) + Seq::empty() == text@.take(i as int));
        assert(text@.subrange(0, i as int) == text@.take(i as int));
    }
    let head = string_of(&all, 0, i);
    if i < all.len() {
        proof {
            assert(text@.skip(i as int)[0] == separator);
            assert(text@.skip(i as int).drop_first() == text@.subrange(
                i + 1,
                text@.len() as int,
            ));
        }
        (head, Some(string_of(&all, i + 1, all.len())))
    } else {
        (head, None)
    }
}

/// A text is its first field, and behind it the separator and the rest, where there is one.
pub proof fn lemma_fields_make_text(text: Seq<char>, separator: char)
    ensures
        match rest_fields(text, separator) {
            Some(rest) => text == first_field(text, separator) + seq![separator] + rest,
            None => text == first_field(text, separator),
        },
    decreases text.len(),
{
    if text.len() > 0 && text[0] != separator {
        lemma_fields_make_text(text.drop_first(), separator);
        assert(text =~= seq![text[0]] + text.drop_first());
    }
    match rest_fields(text, separator) {
        Some(rest) => {
            assert(text =~= first_field(text, separator) + seq![separator] + rest);
        },
        None => {
            assert(text =~= first_field(text, separator));
        },
    }
}

/// A text without the separator is its own first field, and a separator behind it ends it.
pub proof fn lemma_first_field(field: Seq<char>, separator: char, rest: Seq<char>)
    requires
        !field.contains(separator),
    ensures
        first_field(field, separator) == field,
        rest_fields(field, separator) is None,
        first_field(field + seq![separator] + rest, separator) == field,
        rest_fields(field + seq![separator] + rest, separator) == Some(rest),
    decreases field.len(),
{
    let whole = field + seq![separator] + rest;
    if field.len() == 0 {
        assert(whole.drop_first() == rest);
    } else {
        let tail = field.drop_first();
        assert(!tail.contains(separator)) by {
            if tail.contains(separator) {
                let k = choose|k: int| 0 <= k < tail.len() && tail[k] == separator;
                assert(field[k + 1] == separator);
            }
        }
        lemma_first_field(tail, separator, rest);
        assert(field[0] != separator);
        assert(whole.drop_first() == tail + seq![separator] + rest);
        assert(seq![field[0]] + tail == field);
    }
}

/// Puts texts one behind the other, with `separator` between neighbours.
pub fn join(parts: &Vec<String>, separator: &str) -> (result: String)
    ensures
        result@ == joined(parts@.map_values(|part: String| part@), separator@),
{
    let mut result = String::new();
    let ghost views = parts@.map_values(|part: String| part@);
    let mut i: usize = 0;
    while i < parts.len()
        invariant
            i <= parts@.len(),
            views == parts@.map_values(|part: String| part@),
            result@ == joined(views.take(i as int), separator@),
        decreases parts.len() - i,
    {
        proof {
            assert(views.take(i + 1).drop_last() == views.take(i as int));
            assert(views.take(i + 1).last() == parts@[i as int]@);
        }
        if i > 0 {
            result.append(separator);
        }
        result.append(parts[i].as_str());
        i = i + 1;
    }
    proof {
        assert(views.take(parts@.len() as int) == views);
    }
    result
}

/// Texts that are joined stand in the result in their order: each between two separators, but for
/// the first, which begins it, and the last, which ends it.
pub proof fn law_joined_parts(parts: Seq<Seq<char>>, separator: Seq<char>, i: int)
    requires
        0 <= i < parts.len(),
        separator.len() > 0,
    ensures
        exists|before: Seq<char>, behind: Seq<char>|
            joined(parts, separator) == #[trigger] (before + parts[i] + behind) && (if i == 0 {
                before.len() == 0
            } else {
                before.len() >= separator.len() && before.skip(before.len() - separator.len())
                    == separator
            }) && (if i == parts.len() - 1 {
                behind.len() == 0
            } else {
                behind.len() >= separator.len() && behind.take(separator.len() as int) == separator
            }),
    decreases parts.len(),
{
    let whole = joined(parts, separator);
    let earlier = parts.drop_last();
    if parts.len() == 1 {
        assert(whole =~= Seq::empty() + parts[0] + Seq::empty());
    } else if i == parts.len() - 1 {
        let before = joined(earlier, separator) + separator;
        assert(whole =~= before + parts[i] + Seq::empty());
        assert(before.skip(before.len() - separator.len()) =~= separator);
    } else {
        law_joined_parts(earlier, separator, i);
        let (before, behind) = choose|before: Seq<char>, behind: Seq<char>|
            joined(earlier, separator) == #[trigger] (before + earlier[i] + behind) && (if i == 0 {
                before.len() == 0
            } else {
                before.len() >= separator.len() && before.skip(before.len() - separator.len())
                    == separator
            }) && (if i == earlier.len() - 1 {
                behind.len() == 0
            } else {
                behind.len() >= separator.len() && behind.take(separator.len() as int) == separator
            });
        let longer = behind + separator + parts.last();
        assert(whole =~= before + parts[i] + longer);
        assert(longer.take(separator.len() as int) =~= separator) by {
            if behind.len() >= separator.len() {
                assert(longer.take(separator.len() as int) =~= behind.take(
                    separator.len() as int,
                ));
            }
        }
    }
}

/// Joining adds nothing but the separators: one less than there are texts.
pub proof fn law_joined(first: Seq<Seq<char>>, second: Seq<Seq<char>>, separator: Seq<char>)
    requires
        first.len() > 0,
        second.len() > 0,
    ensures
        joined(first + second, separator) == joined(first, separator) + separator + joined(
            second,
            separator,
        ),
        joined(seq![first[0]], separator) == first[0],
        joined(Seq::empty(), separator) == Seq::<char>::empty(),
    decreases second.len(),
{
    let all = first + second;
    assert(all.drop_last() =~= first + second.drop_last());
    assert(all.last() == second.last());
    if second.len() == 1 {
        assert(first + second.drop_last() =~= first);
    } else {
        law_joined(first, second.drop_last(), separator);
        assert(joined(all, separator) =~= joined(first, separator) + separator + joined(
            second,
            separator,
        ));
    }
}

/// A number in decimal has no leading zeros, so that different numbers are written differently,
/// and a larger one is never shorter.
pub proof fn law_decimal(n: nat, m: nat)
    ensures
        decimal(n) == decimal(m) <==> n == m,
        decimal(n)[0] == '0' <==> n == 0,
        n <= m ==> decimal(n).len() <= decimal(m).len(),
        digits_value(decimal(n)) == n,
        all_digits(decimal(n)),
{
    lemma_decimal(n);
    lemma_decimal(m);
    lemma_first_digit(n);
    lemma_longer(n, m);
}

proof fn lemma_first_digit(n: nat)
    ensures
        decimal(n)[0] == '0' <==> n == 0,
    decreases n,
{
    if n >= 10 {
        lemma_first_digit(n / 10);
        lemma_decimal(n / 10);
    }
}

proof fn lemma_longer(n: nat, m: nat)
    ensures
        n <= m ==> decimal(n).len() <= decimal(m).len(),
    decreases m,
{
    if n <= m {
        if m >= 10 {
            lemma_longer(n / 10, m / 10);
            lemma_decimal(m / 10);
        }
    }
}

/// The digits of a number count by their places: those in front count ten times as much for each
/// digit that follows.
pub proof fn law_digits_value(first: Seq<char>, second: Seq<char>, c: char)
    requires
        is_digit(c),
    ensures
        digits_value(first + second) == digits_value(first) * pow(10, second.len())
            + digits_value(second),
        digits_value(seq![c]) == c as nat - '0' as nat,
    decreases second.len(),
{
    assert(seq![c].drop_last() =~= Seq::empty());
    assert(digits_value(seq![c].drop_last()) == 0);
    if second.len() == 0 {
        assert(first + second =~= first);
        lemma_pow0(10);
    } else {
        law_digits_value(first, second.drop_last(), c);
        assert((first + second).drop_last() =~= first + second.drop_last());
        let value = digits_value(first);
        let power = pow(10, (second.len() - 1) as nat);
        reveal(pow);
        assert(pow(10, second.len()) == 10 * power);
        assert(10 * (value * power) == value * (10 * power)) by (nonlinear_arith);
    }
}

/// A port is read exactly where a text is digits, with or without a `+`, of a number that 16 bits
/// hold; and it is that number.
pub proof fn law_parse_u16(text: &str, result: Option<u16>, i: int)
    requires
        call_ensures(parse_u16, (text,), result),
    ensures
        result matches Some(port) ==> text@.len() > 0 && (if text@[0] == '+' {
            digits_value(text@.drop_first()) == port
        } else {
            digits_value(text@) == port
        }),
        result is Some && 0 <= i < text@.len() ==> is_digit(text@[i]) || i == 0 && text@[0] == '+'
            && text@.len() > 1,
        text@.len() > 0 && all_digits(text@) ==> (result is Some <==> digits_value(text@)
            <= 65535),
{
    if result is Some && 0 <= i < text@.len() {
        let digits = unsigned(text@);
        if text@[0] == '+' {
            if i > 0 {
                assert(is_digit(digits[i - 1]));
            }
        } else {
            assert(is_digit(digits[i]));
        }
    }
    if text@.len() > 0 && all_digits(text@) {
        assert(is_digit(text@[0]));
    }
}

/// A number that is written is read again, where 16 bits hold it.
pub proof fn law_port_text(n: nat)
    ensures
        port_value(decimal(n)) == if n <= 65535 {
            Some(n as u16)
        } else {
            None
        },
{
    lemma_decimal(n);
    assert(is_digit(decimal(n)[0]));
}

/// Replacing a character changes every one of it, and nothing else.
pub proof fn law_replace_char(text: &str, from: char, to: char, result: String, i: int)
    requires
        call_ensures(replace_char, (text, from, to), result),
        0 <= i < text@.len(),
    ensures
        result@.len() == text@.len(),
        text@[i] == from ==> result@[i] == to,
        text@[i] != from ==> result@[i] == text@[i],
        from != to ==> result@[i] != from,
{
}

/// Line breaks go, and everything else stays, in its order: a text in two parts is the two parts
/// without their line breaks.
pub proof fn law_without_breaks(first: Seq<char>, second: Seq<char>, c: char, and_cr: bool)
    ensures
        without_breaks(first + second, and_cr) == without_breaks(first, and_cr) + without_breaks(
            second,
            and_cr,
        ),
        c == '\n' ==> without_breaks(seq![c], and_cr) == Seq::<char>::empty(),
        c == '\r' && and_cr ==> without_breaks(seq![c], and_cr) == Seq::<char>::empty(),
        c != '\n' && c != '\r' ==> without_breaks(seq![c], and_cr) == seq![c],
        c == '\r' && !and_cr ==> without_breaks(seq![c], and_cr) == seq![c],
        !without_breaks(first, and_cr).contains('\n'),
        and_cr ==> !without_breaks(first, and_cr).contains('\r'),
    decreases second.len(),
{
    broadcast use vstd::seq_lib::group_filter_ensures;

    reveal(Seq::filter);
    let keeps = |c: char| c != '\n' && !(and_cr && c == '\r');
    let kept = without_breaks(first, and_cr);
    assert(seq![c].drop_last() =~= Seq::empty());
    assert(without_breaks(Seq::empty(), and_cr) =~= Seq::empty());
    assert(seq![c].last() == c);
    assert(without_breaks(seq![c], and_cr) =~= if keeps(c) {
        seq![c]
    } else {
        Seq::empty()
    });
    if kept.contains('\n') {
        let i = choose|i: int| 0 <= i < kept.len() && kept[i] == '\n';
        assert(keeps(kept[i]));
    }
    if and_cr && kept.contains('\r') {
        let i = choose|i: int| 0 <= i < kept.len() && kept[i] == '\r';
        assert(keeps(kept[i]));
    }
    if second.len() == 0 {
        assert(first + second =~= first);
        assert(kept + without_breaks(second, and_cr) =~= kept);
    } else {
        law_without_breaks(first, second.drop_last(), c, and_cr);
        assert((first + second).drop_last() =~= first + second.drop_last());
        assert((first + second).last() == second.last());
        assert(without_breaks(first + second, and_cr) =~= kept + without_breaks(second, and_cr));
    }
}

/// A text occurs in another exactly where the other is made of it and of something before and
/// behind it.
pub proof fn law_contains(text: &str, pattern: &str, result: bool, before: Seq<char>, behind: Seq<char>)
    requires
        call_ensures(contains, (text, pattern), result),
    ensures
        text@ == before + pattern@ + behind ==> result,
        result ==> exists|before: Seq<char>, behind: Seq<char>|
            text@ == #[trigger] (before + pattern@ + behind),
{
    if text@ == before + pattern@ + behind {
        assert(text@.subrange(before.len() as int, 0int + before.len() + pattern@.len()) =~= pattern@);
        assert(occurs_at(pattern@, text@, before.len() as int));
    }
    if result {
        let i = choose|i: int| #[trigger] occurs_at(pattern@, text@, i);
        let start = text@.take(i);
        let end = text@.skip(i + pattern@.len());
        assert(text@ =~= start + text@.subrange(i, i + pattern@.len()) + end);
        assert(text@ == start + pattern@ + end);
    }
}

/// What is split at a separator makes up the text again, and the first field has no separator in
/// it.
pub proof fn law_split_field(text: &str, separator: char, result: (String, Option<String>))
    requires
        call_ensures(split_field, (text, separator), result),
    ensures
        !result.0@.contains(separator),
        result.1 matches Some(rest) ==> text@ == result.0@ + seq![separator] + rest@,
        result.1 is None ==> text@ == result.0@,
{
    lemma_fields_make_text(text@, separator);
    lemma_field_has_no_separator(text@, separator);
}

proof fn lemma_field_has_no_separator(text: Seq<char>, separator: char)
    ensures
        !first_field(text, separator).contains(separator),
    decreases text.len(),
{
    if text.len() > 0 && text[0] != separator {
        lemma_field_has_no_separator(text.drop_first(), separator);
        let field = first_field(text, separator);
        if field.contains(separator) {
            let i = choose|i: int| 0 <= i < field.len() && field[i] == separator;
            assert(i > 0);
            assert(first_field(text.drop_first(), separator)[i - 1] == separator);
        }
    }
}

/// The number that is written is the one that was given.
pub proof fn law_decimal_string(n: u64, text: String)
    requires
        call_ensures(decimal_string, (n,), text),
    ensures
        text@.len() > 0,
        all_digits(text@),
        digits_value(text@) == n,
        text@[0] == '0' ==> n == 0,
{
    law_decimal(n as nat, n as nat);
    lemma_decimal(n as nat);
}

/// Line breaks are removed from a text as from its parts.
pub proof fn law_remove_breaks(
    text: &str,
    and_cr: bool,
    result: String,
    first: Seq<char>,
    second: Seq<char>,
    i: int,
)
    requires
        call_ensures(remove_breaks, (text, and_cr), result),
        text@ == first + second,
    ensures
        result@ == without_breaks(first, and_cr) + without_breaks(second, and_cr),
        0 <= i < result@.len() ==> result@[i] != '\n' && (and_cr ==> result@[i] != '\r'),
        !text@.contains('\n') && !text@.contains('\r') ==> result@ == text@,
{
    law_without_breaks(first, second, ' ', and_cr);
    law_without_breaks(text@, Seq::empty(), ' ', and_cr);
    if !text@.contains('\n') && !text@.contains('\r') {
        lemma_nothing_removed(text@, and_cr);
    }
}

proof fn lemma_nothing_removed(text: Seq<char>, and_cr: bool)
    requires
        !text.contains('\n'),
        !text.contains('\r'),
    ensures
        without_breaks(text, and_cr) == text,
    decreases text.len(),
{
    reveal(Seq::filter);
    if text.len() > 0 {
        let earlier = text.drop_last();
        if earlier.contains('\n') {
            let i = choose|i: int| 0 <= i < earlier.len() && earlier[i] == '\n';
            assert(text[i] == '\n');
        }
        if earlier.contains('\r') {
            let i = choose|i: int| 0 <= i < earlier.len() && earlier[i] == '\r';
            assert(text[i] == '\r');
        }
        lemma_nothing_removed(earlier, and_cr);
        assert(text.last() == text[text.len() - 1]);
        assert(earlier.push(text.last()) =~= text);
    } else {
        assert(without_breaks(text, and_cr) =~= text);
    }
}

/// Texts are the same exactly where all their characters are.
pub proof fn law_same_text(a: &str, b: &str, result: bool)
    requires
        call_ensures(same_text, (a, b), result),
    ensures
        result <==> a@ == b@,
{
}

/// What is joined is the first text, and behind it the others, each with the separator before it.
pub proof fn law_join(parts: Vec<String>, separator: &str, result: String)
    requires
        call_ensures(join, (&parts, separator), result),
    ensures
        parts@.len() == 0 ==> result@.len() == 0,
        parts@.len() == 1 ==> result@ == parts@[0]@,
        parts@.len() == 2 ==> result@ == parts@[0]@ + separator@ + parts@[1]@,
{
    let views = parts@.map_values(|part: String| part@);
    if parts@.len() == 2 {
        assert(views.drop_last().len() == 1);
        assert(joined(views.drop_last(), separator@) == parts@[0]@);
    }
}

} // verus!
