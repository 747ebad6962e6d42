//! Text as sequences of characters: the small string toolkit the rest of the
//! library is written on.
//!
//! Every function here is stated over the view of a string, `Seq<char>`.

use vstd::prelude::*;
use vstd::std_specs::iter::IteratorSpec;

verus! {

/// `String::push` of the standard library: the character is appended to the
/// end of the string and nothing else changes.
pub assume_specification[ String::push ](text: &mut String, ch: char)
    ensures
        final(text)@ == old(text)@.push(ch),
;

/// What `str::to_uppercase` of the standard library makes of a text.
pub uninterp spec fn uppercased(text: Seq<char>) -> Seq<char>;

/// `str::to_uppercase` of the standard library: the upper-case form of a
/// text depends on the text alone.
pub assume_specification[ str::to_uppercase ](text: &str) -> (upper: String)
    ensures
        upper@ == uppercased(text@),
;

/// Whether `char::is_whitespace` of the standard library counts a character
/// as white space: whether it has the Unicode property `White_Space`.
pub uninterp spec fn is_white(c: char) -> bool;

/// `char::is_whitespace` of the standard library: the answer depends on the
/// character alone.
pub assume_specification[ char::is_whitespace ](c: char) -> (white: bool)
    ensures
        white == is_white(c),
;

/// `String::from_utf8` of the standard library: bytes that are UTF-8 give
/// the text they encode, any others give `None`.
#[verifier::external_body]
pub(crate) fn decode_text(bytes: Vec<u8>) -> (text: Option<String>)
    ensures
        match text {
            Some(t) => vstd::utf8::valid_utf8(bytes@) && t@ == vstd::utf8::decode_utf8(bytes@),
            None => !vstd::utf8::valid_utf8(bytes@),
        },
{
    String::from_utf8(bytes).ok()
}

/// The characters of `text`, in order.
pub fn chars_of(text: &str) -> (chars: Vec<char>)
    ensures
        chars@ == text@,
{
    broadcast use vstd::string::group_string_axioms;

    let mut chars: Vec<char> = Vec::new();
    let mut rest = text.chars();
    loop
        invariant
            chars@ + rest.remaining() == text@,
            rest.decrease() is Some,
        decreases rest.decrease()->0,
    {
        match rest.next() {
            Some(c) => {
                chars.push(c);
            },
            None => {
                return chars;
            },
        }
    }
}

/// The string made of `chars[from..to]`.
pub fn text_between(chars: &Vec<char>, from: usize, to: usize) -> (text: String)
    requires
        from <= to <= chars.len(),
    ensures
        text@ == chars@.subrange(from as int, to as int),
{
    let mut text = String::new();
    let mut i: usize = from;
    while i < to
        invariant
            from <= i <= to <= chars.len(),
            text@ == chars@.subrange(from as int, i as int),
        decreases to - i,
    {
        text.push(chars[i]);
        i += 1;
    }
    text
}

/// `a` followed by `b`.
pub fn join_text(a: &str, b: &str) -> (text: String)
    ensures
        text@ == a@ + b@,
{
    let mut text = a.to_owned();
    text.append(b);
    text
}

/// Whether two strings hold the same characters.
pub fn same_text(a: &str, b: &str) -> (same: bool)
    ensures
        same == (a@ == b@),
{
    let left: String = a.to_owned();
    let right: String = b.to_owned();
    left == right
}

// ---------------------------------------------------------------------------
// Decimal numbers
// ---------------------------------------------------------------------------

/// The character of the decimal digit `d`.
pub open spec fn digit_char(d: int) -> char {
    ((48 + d) as u8) as char
}

/// Whether `c` is one of `0` to `9`.
pub open spec fn is_digit(c: char) -> bool {
    48 <= c as u32 <= 57
}

/// The number that the digit `c` stands for.
pub open spec fn digit_value(c: char) -> int {
    c as u32 as int - 48
}

/// The decimal digits of `n`, most significant first, without leading zeros.
pub open spec fn decimal_digits(n: nat) -> Seq<char>
    decreases n,
{
    if n < 10 {
        seq![digit_char(n as int)]
    } else {
        decimal_digits(n / 10).push(digit_char((n % 10) as int))
    }
}

/// `n` written in decimal, with a leading `-` when it is negative.
pub open spec fn decimal(n: int) -> Seq<char> {
    if n < 0 {
        seq!['-'] + decimal_digits((-n) as nat)
    } else {
        decimal_digits(n as nat)
    }
}

/// The number that a run of decimal digits stands for.
pub open spec fn digits_value(s: Seq<char>) -> int
    decreases s.len(),
{
    if s.len() == 0 {
        0
    } else {
        digits_value(s.drop_last()) * 10 + digit_value(s.last())
    }
}

/// Whether every character of `s` is a decimal digit.
pub open spec fn all_digits(s: Seq<char>) -> bool {
    forall|i: int| 0 <= i < s.len() ==> is_digit(#[trigger] s[i])
}

/// Whether `s` starts with a sign.
pub open spec fn has_sign(s: Seq<char>) -> bool {
    s.len() > 0 && (s[0] == '-' || s[0] == '+')
}

/// The integer that `s` denotes: an optional `+` or `-`, then one or more
/// decimal digits and nothing else. `None` for any other text.
pub open spec fn parse_decimal(s: Seq<char>) -> Option<int> {
    let body = if has_sign(s) {
        s.skip(1)
    } else {
        s
    };
    if body.len() == 0 || !all_digits(body) {
        None
    } else if s[0] == '-' {
        Some(-digits_value(body))
    } else {
        Some(digits_value(body))
    }
}

/// The 8-bit number that `s` denotes, where it denotes one.
pub open spec fn parse_small(s: Seq<char>) -> Option<i8> {
    match parse_decimal(s) {
        Some(v) => if -128 <= v <= 127 {
            Some(v as i8)
        } else {
            None
        },
        None => None,
    }
}

fn push_digits(text: &mut String, n: u64)
    ensures
        final(text)@ == old(text)@ + decimal_digits(n as nat),
    decreases n,
{
    if n >= 10 {
        push_digits(text, n / 10);
    }
    let d: u8 = (n % 10) as u8;
    text.push((48u8 + d) as char);
    assert(final(text)@ =~= old(text)@ + decimal_digits(n as nat));
}

/// `n` written in decimal.
pub fn format_integer(n: i64) -> (text: String)
    ensures
        text@ == decimal(n as int),
{
    let mut text = String::new();
    if n < 0 {
        text.push('-');
        let magnitude: u64 = if n == i64::MIN {
            9223372036854775808u64
        } else {
            (-n) as u64
        };
        push_digits(&mut text, magnitude);
        assert(text@ =~= decimal(n as int));
    } else {
        push_digits(&mut text, n as u64);
        assert(text@ =~= decimal(n as int));
    }
    text
}

/// The digits of a number are digits, and stand for the number.
pub proof fn lemma_decimal_digits(n: nat)
    ensures
        decimal_digits(n).len() > 0,
        all_digits(decimal_digits(n)),
        digits_value(decimal_digits(n)) == n,
    decreases n,
{
    let digits = decimal_digits(n);
    if n < 10 {
        assert(digits.drop_last() =~= Seq::<char>::empty());
        assert(digits.last() == digit_char(n as int));
        assert(digits_value(digits.drop_last()) == 0);
    } else {
        lemma_decimal_digits(n / 10);
        let front = decimal_digits(n / 10);
        assert(digits.drop_last() =~= front);
        assert(digits.last() == digit_char((n % 10) as int));
        assert forall|i: int| 0 <= i < digits.len() implies is_digit(#[trigger] digits[i]) by {
            if i < front.len() {
                assert(digits[i] == front[i]);
            }
        }
    }
}

/// A number that is written in decimal reads back as itself.
pub proof fn lemma_decimal_round_trip(n: int)
    ensures
        parse_decimal(decimal(n)) == Some(n),
{
    if n < 0 {
        lemma_decimal_digits((-n) as nat);
        assert(decimal(n).skip(1) =~= decimal_digits((-n) as nat));
    } else {
        lemma_decimal_digits(n as nat);
        assert(is_digit(decimal(n)[0]));
    }
}

/// A node number that is written in decimal reads back as itself.
pub proof fn lemma_node_round_trip(node: i8)
    ensures
        parse_small(decimal(node as int)) == Some(node),
{
    lemma_decimal_round_trip(node as int);
}

proof fn lemma_digits_value_nonnegative(s: Seq<char>)
    requires
        all_digits(s),
    ensures
        0 <= digits_value(s),
    decreases s.len(),
{
    if s.len() > 0 {
        lemma_digits_value_nonnegative(s.drop_last());
        assert(is_digit(s[s.len() - 1]));
    }
}

/// Reads an 8-bit number: an optional sign, then decimal digits only.
pub fn parse_i8(text: &str) -> (number: Option<i8>)
    ensures
        number == parse_small(text@),
{
    let chars = chars_of(text);
    let len = chars.len();
    let signed = len > 0 && (chars[0] == '-' || chars[0] == '+');
    let start: usize = if signed {
        1
    } else {
        0
    };
    let ghost body = chars@.skip(start as int);
    proof {
        assert(signed == has_sign(text@));
        assert(chars@.skip(0) =~= chars@);
        assert(body == if has_sign(text@) {
            text@.skip(1)
        } else {
            text@
        });
    }
    if start == len {
        return None;
    }
    let mut i: usize = start;
    // The digits read so far, as long as they stay within reach of an i8.
    let mut value: i32 = 0;
    let mut large = false;
    while i < len
        invariant
            start <= i <= len,
            len == chars.len(),
            body == chars@.skip(start as int),
            body == if has_sign(text@) {
                text@.skip(1)
            } else {
                text@
            },
            all_digits(body.take(i - start)),
            !large ==> value == digits_value(body.take(i - start)) && 0 <= value <= 128,
            large ==> digits_value(body.take(i - start)) > 128,
        decreases len - i,
    {
        let c = chars[i];
        let code = c as u32;
        if code < 48 || code > 57 {
            assert(!is_digit(body[i - start]));
            return None;
        }
        let ghost before = body.take(i - start);
        let ghost after = body.take(i - start + 1);
        proof {
            assert(after.drop_last() =~= before);
            assert(after.last() == c);
            lemma_digits_value_nonnegative(before);
            assert forall|j: int| 0 <= j < after.len() implies is_digit(#[trigger] after[j]) by {
                if j < before.len() {
                    assert(after[j] == before[j]);
                }
            }
        }
        if !large {
            let next: i32 = value * 10 + (code as i32 - 48);
            if next > 128 {
                large = true;
            } else {
                value = next;
            }
        }
        i += 1;
    }
    proof {
        assert(body.take(i - start) =~= body);
    }
    let negative = chars[0] == '-';
    if large {
        None
    } else if negative {
        Some((0 - value) as i8)
    } else if value > 127 {
        None
    } else {
        Some(value as i8)
    }
}

// ---------------------------------------------------------------------------
// Finding and splitting
// ---------------------------------------------------------------------------

/// The index of the first `c` in `s`, or the length of `s` where there is
/// none.
pub open spec fn position(s: Seq<char>, c: char) -> int
    decreases s.len(),
{
    if s.len() == 0 || s[0] == c {
        0
    } else {
        1 + position(s.skip(1), c)
    }
}

/// `position` is the least index that holds `c`.
pub proof fn lemma_position(s: Seq<char>, c: char)
    ensures
        0 <= position(s, c) <= s.len(),
        position(s, c) < s.len() ==> s[position(s, c)] == c,
        forall|j: int| 0 <= j < position(s, c) ==> #[trigger] s[j] != c,
    decreases s.len(),
{
    if s.len() == 0 || s[0] == c {
    } else {
        let rest = s.skip(1);
        lemma_position(rest, c);
        assert forall|j: int| 0 <= j < position(s, c) implies #[trigger] s[j] != c by {
            if j > 0 {
                assert(rest[j - 1] == s[j]);
            }
        }
    }
}

/// Any index that holds the first `c` is `position`.
pub proof fn lemma_position_is(s: Seq<char>, c: char, i: int)
    requires
        0 <= i <= s.len(),
        i < s.len() ==> s[i] == c,
        forall|j: int| 0 <= j < i ==> #[trigger] s[j] != c,
    ensures
        position(s, c) == i,
{
    lemma_position(s, c);
    let p = position(s, c);
    if p < i {
        assert(s[p] != c);
    } else if i < p {
        assert(s[i] != c);
    }
}

/// A text without `c` has its first `c` at its end.
pub proof fn lemma_position_absent(s: Seq<char>, c: char)
    requires
        !s.contains(c),
    ensures
        position(s, c) == s.len(),
{
    assert forall|j: int| 0 <= j < s.len() implies #[trigger] s[j] != c by {
        if s[j] == c {
            assert(s.contains(c));
        }
    }
    lemma_position_is(s, c, s.len() as int);
}

/// A `c` that follows a text without `c` is the first one.
pub proof fn lemma_position_after(head: Seq<char>, c: char, tail: Seq<char>)
    requires
        !head.contains(c),
    ensures
        position(head + seq![c] + tail, c) == head.len(),
        before_first(head + seq![c] + tail, c) == head,
        after_first(head + seq![c] + tail, c) == tail,
{
    let s = head + seq![c] + tail;
    assert forall|j: int| 0 <= j < head.len() implies #[trigger] s[j] != c by {
        if head[j] == c {
            assert(head.contains(c));
        }
    }
    assert(s[head.len() as int] == c);
    lemma_position_is(s, c, head.len() as int);
    assert(s.take(head.len() as int) =~= head);
    assert(s.skip(head.len() as int + 1) =~= tail);
}

/// The index of the first `c` at or after `from`, or the length.
pub fn find_from(chars: &Vec<char>, c: char, from: usize) -> (at: usize)
    requires
        from <= chars.len(),
    ensures
        at == from + position(chars@.skip(from as int), c),
        from <= at <= chars.len(),
{
    let mut i: usize = from;
    while i < chars.len() && chars[i] != c
        invariant
            from <= i <= chars.len(),
            forall|j: int| from <= j < i ==> #[trigger] chars@[j] != c,
        decreases chars.len() - i,
    {
        i += 1;
    }
    proof {
        let rest = chars@.skip(from as int);
        assert forall|j: int| 0 <= j < i - from implies #[trigger] rest[j] != c by {
            assert(chars@[from + j] != c);
        }
        lemma_position_is(rest, c, i - from);
    }
    i
}

/// What stands before the first `c` of `s`: all of `s` where there is none.
pub open spec fn before_first(s: Seq<char>, c: char) -> Seq<char> {
    s.take(position(s, c))
}

/// What stands after the first `c` of `s`: nothing where there is none.
pub open spec fn after_first(s: Seq<char>, c: char) -> Seq<char> {
    if position(s, c) < s.len() {
        s.skip(position(s, c) + 1)
    } else {
        Seq::empty()
    }
}

/// Splits `text` at its first `c`, which is left out of both halves. Without
/// a `c` the first half is all of `text` and the second is empty.
pub fn split_once(text: &str, c: char) -> (halves: (String, String))
    ensures
        halves.0@ == before_first(text@, c),
        halves.1@ == after_first(text@, c),
{
    let chars = chars_of(text);
    let at = find_from(&chars, c, 0);
    proof {
        assert(chars@.skip(0) =~= chars@);
        lemma_position(chars@, c);
    }
    let first = text_between(&chars, 0, at);
    let second = if at < chars.len() {
        text_between(&chars, at + 1, chars.len())
    } else {
        String::new()
    };
    assert(first@ =~= before_first(text@, c));
    assert(second@ =~= after_first(text@, c));
    (first, second)
}

/// The pieces of `s` between its separators `c`. A text without separator is
/// one piece, the empty text too.
pub open spec fn pieces(s: Seq<char>, c: char) -> Seq<Seq<char>>
    decreases s.len(),
    via pieces_terminates
{
    if position(s, c) < s.len() {
        seq![before_first(s, c)] + pieces(s.skip(position(s, c) + 1), c)
    } else {
        seq![s]
    }
}

#[via_fn]
proof fn pieces_terminates(s: Seq<char>, c: char) {
    lemma_position(s, c);
}

/// The views of a list of strings.
pub open spec fn views(texts: Seq<String>) -> Seq<Seq<char>> {
    texts.map_values(|t: String| t@)
}

/// The views of a list of pairs of strings.
pub open spec fn pairs(entries: Seq<(String, String)>) -> Seq<(Seq<char>, Seq<char>)> {
    entries.map_values(|e: (String, String)| (e.0@, e.1@))
}

/// The view of a string that may be absent.
pub open spec fn opt_view(text: Option<String>) -> Option<Seq<char>> {
    match text {
        Some(t) => Some(t@),
        None => None,
    }
}

/// The value of the first entry whose key is `key`.
pub open spec fn first_value(entries: Seq<(Seq<char>, Seq<char>)>, key: Seq<char>) -> Option<
    Seq<char>,
>
    decreases entries.len(),
{
    if entries.len() == 0 {
        None
    } else if entries[0].0 == key {
        Some(entries[0].1)
    } else {
        first_value(entries.skip(1), key)
    }
}

/// The value of the last entry whose key is `key`.
pub open spec fn last_value(entries: Seq<(Seq<char>, Seq<char>)>, key: Seq<char>) -> Option<
    Seq<char>,
>
    decreases entries.len(),
{
    if entries.len() == 0 {
        None
    } else if entries.last().0 == key {
        Some(entries.last().1)
    } else {
        last_value(entries.drop_last(), key)
    }
}

/// Looks `key` up among entries, from the front.
pub fn find_first<'a>(entries: &'a Vec<(String, String)>, key: &str) -> (found: Option<&'a String>)
    ensures
        match found {
            Some(value) => first_value(pairs(entries@), key@) == Some(value@),
            None => first_value(pairs(entries@), key@) is None,
        },
{
    let ghost all = pairs(entries@);
    let mut i: usize = 0;
    assert(all.skip(0) =~= all);
    while i < entries.len()
        invariant
            i <= entries.len(),
            all == pairs(entries@),
            first_value(all, key@) == first_value(all.skip(i as int), key@),
        decreases entries.len() - i,
    {
        assert(all.skip(i as int)[0] == all[i as int]);
        if same_text(entries[i].0.as_str(), key) {
            return Some(&entries[i].1);
        }
        assert(all.skip(i as int).skip(1) =~= all.skip(i + 1));
        i += 1;
    }
    None
}

/// Looks `key` up among entries, from the back.
pub fn find_last<'a>(entries: &'a Vec<(String, String)>, key: &str) -> (found: Option<&'a String>)
    ensures
        match found {
            Some(value) => last_value(pairs(entries@), key@) == Some(value@),
            None => last_value(pairs(entries@), key@) is None,
        },
{
    let ghost all = pairs(entries@);
    let mut i: usize = entries.len();
    assert(all.take(i as int) =~= all);
    while i > 0
        invariant
            i <= entries.len(),
            all == pairs(entries@),
            last_value(all, key@) == last_value(all.take(i as int), key@),
        decreases i,
    {
        assert(all.take(i as int).last() == all[i - 1]);
        if same_text(entries[i - 1].0.as_str(), key) {
            return Some(&entries[i - 1].1);
        }
        assert(all.take(i as int).drop_last() =~= all.take(i - 1));
        i -= 1;
    }
    None
}

/// A copy of a string that may be absent.
pub fn clone_opt(text: &Option<String>) -> (copy: Option<String>)
    ensures
        copy == *text,
{
    match text {
        Some(t) => Some(t.clone()),
        None => None,
    }
}

/// Whether `wanted` is one of `texts`.
pub fn contains_text(texts: &Vec<String>, wanted: &str) -> (found: bool)
    ensures
        found == views(texts@).contains(wanted@),
{
    let mut i: usize = 0;
    while i < texts.len()
        invariant
            i <= texts.len(),
            forall|j: int| 0 <= j < i ==> #[trigger] views(texts@)[j] != wanted@,
        decreases texts.len() - i,
    {
        if same_text(texts[i].as_str(), wanted) {
            assert(views(texts@)[i as int] == wanted@);
            return true;
        }
        i += 1;
    }
    false
}

/// Splits `text` at every `c`.
pub fn split(text: &str, c: char) -> (parts: Vec<String>)
    ensures
        views(parts@) == pieces(text@, c),
{
    let chars = chars_of(text);
    let mut parts: Vec<String> = Vec::new();
    let mut start: usize = 0;
    proof {
        assert(chars@.skip(0) =~= chars@);
        assert(views(parts@) + pieces(chars@, c) =~= pieces(chars@, c));
    }
    loop
        invariant
            start <= chars.len(),
            chars@ == text@,
            pieces(text@, c) == views(parts@) + pieces(chars@.skip(start as int), c),
        decreases chars.len() - start,
    {
        let ghost rest = chars@.skip(start as int);
        let at = find_from(&chars, c, start);
        let piece = text_between(&chars, start, at);
        proof {
            lemma_position(rest, c);
            assert(piece@ =~= before_first(rest, c));
        }
        let ghost before = parts@;
        parts.push(piece);
        proof {
            assert(views(parts@) =~= views(before) + seq![piece@]);
        }
        if at < chars.len() {
            proof {
                assert(rest.skip(position(rest, c) + 1) =~= chars@.skip(at + 1));
                assert(pieces(rest, c) == seq![before_first(rest, c)] + pieces(
                    chars@.skip(at + 1),
                    c,
                ));
                assert(views(parts@) + pieces(chars@.skip(at + 1), c) =~= views(before)
                    + pieces(rest, c));
            }
            start = at + 1;
        } else {
            proof {
                assert(piece@ =~= rest);
                assert(pieces(rest, c) == seq![rest]);
                assert(views(parts@) =~= views(before) + pieces(rest, c));
            }
            return parts;
        }
    }
}

/// Whether `s` begins with `prefix`.
pub open spec fn starts_with(s: Seq<char>, prefix: Seq<char>) -> bool {
    prefix.len() <= s.len() && s.take(prefix.len() as int) == prefix
}

/// Whether `text` begins with `prefix`.
pub fn has_prefix(text: &str, prefix: &str) -> (found: bool)
    ensures
        found == starts_with(text@, prefix@),
{
    let chars = chars_of(text);
    let wanted = chars_of(prefix);
    if wanted.len() > chars.len() {
        return false;
    }
    let mut i: usize = 0;
    while i < wanted.len()
        invariant
            i <= wanted.len() <= chars.len(),
            chars@ == text@,
            wanted@ == prefix@,
            forall|j: int| 0 <= j < i ==> chars@[j] == wanted@[j],
        decreases wanted.len() - i,
    {
        if chars[i] != wanted[i] {
            proof {
                let head = text@.take(prefix@.len() as int);
                assert(head[i as int] == chars@[i as int]);
                assert(head != prefix@);
            }
            return false;
        }
        i += 1;
    }
    assert(chars@.take(wanted.len() as int) =~= wanted@);
    true
}

// ---------------------------------------------------------------------------
// Paths
// ---------------------------------------------------------------------------

/// `base` extended by `name`, as a path: an absolute `name` stands alone;
/// otherwise a `/` separates the two unless `base` is empty or ends in one.
pub open spec fn joined(base: Seq<char>, name: Seq<char>) -> Seq<char> {
    if name.len() > 0 && name[0] == '/' {
        name
    } else if base.len() == 0 || base.last() == '/' {
        base + name
    } else {
        base + seq!['/'] + name
    }
}

/// The path `name` inside the directory `base`.
pub fn join_path(base: &str, name: &str) -> (path: String)
    ensures
        path@ == joined(base@, name@),
{
    let head = chars_of(base);
    let tail = chars_of(name);
    if tail.len() > 0 && tail[0] == '/' {
        return name.to_owned();
    }
    let mut path = base.to_owned();
    if head.len() > 0 && head[head.len() - 1] != '/' {
        path.push('/');
    }
    path.append(name);
    assert(path@ =~= joined(base@, name@));
    path
}

// ---------------------------------------------------------------------------
// Lines
// ---------------------------------------------------------------------------

/// `s` without the carriage return at its end, where it has one.
pub open spec fn without_cr(s: Seq<char>) -> Seq<char> {
    if s.len() > 0 && s.last() == '\r' {
        s.drop_last()
    } else {
        s
    }
}

/// The lines of a text. A line ends with a line feed, or with a carriage
/// return and a line feed; neither belongs to the line. What follows the
/// last line feed is a line too, as it stands, unless it is empty.
pub open spec fn spec_lines(s: Seq<char>) -> Seq<Seq<char>>
    decreases s.len(),
    via spec_lines_terminates
{
    if s.len() == 0 {
        Seq::empty()
    } else if position(s, '\n') < s.len() {
        seq![without_cr(before_first(s, '\n'))] + spec_lines(s.skip(position(s, '\n') + 1))
    } else {
        seq![s]
    }
}

#[via_fn]
proof fn spec_lines_terminates(s: Seq<char>) {
    lemma_position(s, '\n');
}

/// The lines of a text.
pub fn lines(text: &str) -> (found: Vec<String>)
    ensures
        views(found@) == spec_lines(text@),
{
    let chars = chars_of(text);
    let mut found: Vec<String> = Vec::new();
    let mut start: usize = 0;
    proof {
        assert(chars@.skip(0) =~= chars@);
        assert(views(found@) + spec_lines(chars@) =~= spec_lines(chars@));
    }
    while start < chars.len()
        invariant
            start <= chars.len(),
            chars@ == text@,
            spec_lines(text@) == views(found@) + spec_lines(chars@.skip(start as int)),
        decreases chars.len() - start,
    {
        let ghost rest = chars@.skip(start as int);
        let ghost before = found@;
        let at = find_from(&chars, '\n', start);
        proof {
            lemma_position(rest, '\n');
        }
        if at < chars.len() {
            let end = if at > start && chars[at - 1] == '\r' {
                at - 1
            } else {
                at
            };
            let line = text_between(&chars, start, end);
            proof {
                assert(before_first(rest, '\n') =~= chars@.subrange(start as int, at as int));
                assert(line@ =~= without_cr(before_first(rest, '\n')));
                assert(rest.skip(position(rest, '\n') + 1) =~= chars@.skip(at + 1));
            }
            found.push(line);
            proof {
                assert(views(found@) =~= views(before) + seq![line@]);
                assert(views(found@) + spec_lines(chars@.skip(at + 1)) =~= views(before)
                    + spec_lines(rest));
            }
            start = at + 1;
        } else {
            let line = text_between(&chars, start, chars.len());
            proof {
                assert(line@ =~= rest);
            }
            found.push(line);
            proof {
                assert(views(found@) =~= views(before) + seq![line@]);
                assert(chars@.skip(chars.len() as int) =~= Seq::<char>::empty());
                assert(views(found@) + spec_lines(chars@.skip(chars.len() as int)) =~= views(
                    before,
                ) + spec_lines(rest));
            }
            start = chars.len();
        }
    }
    proof {
        assert(chars@.skip(start as int) =~= Seq::<char>::empty());
        assert(views(found@) + spec_lines(chars@.skip(start as int)) =~= views(found@));
    }
    found
}

// ---------------------------------------------------------------------------
// Order
// ---------------------------------------------------------------------------

/// Whether `a` stands before `b` or is `b`, in the order of a dictionary
/// whose alphabet is the code points: the order of Rust's strings.
pub open spec fn text_le(a: Seq<char>, b: Seq<char>) -> bool
    decreases a.len(),
{
    if a.len() == 0 {
        true
    } else if b.len() == 0 {
        false
    } else if a[0] as u32 != b[0] as u32 {
        (a[0] as u32) < (b[0] as u32)
    } else {
        text_le(a.skip(1), b.skip(1))
    }
}

/// Of two texts, one stands before the other or they are the same.
pub proof fn lemma_text_le_total(a: Seq<char>, b: Seq<char>)
    ensures
        text_le(a, b) || text_le(b, a),
    decreases a.len(),
{
    if a.len() > 0 && b.len() > 0 && a[0] as u32 == b[0] as u32 {
        lemma_text_le_total(a.skip(1), b.skip(1));
    }
}

/// Two texts that stand before each other are the same.
pub proof fn lemma_text_le_antisymmetric(a: Seq<char>, b: Seq<char>)
    requires
        text_le(a, b),
        text_le(b, a),
    ensures
        a == b,
    decreases a.len(),
{
    if a.len() == 0 || b.len() == 0 {
        assert(a =~= b);
    } else {
        lemma_text_le_antisymmetric(a.skip(1), b.skip(1));
        vstd::utf8::char_u32_cast(a[0], a[0] as u32);
        vstd::utf8::char_u32_cast(b[0], b[0] as u32);
        assert(a[0] == b[0]);
        assert(a =~= seq![a[0]] + a.skip(1));
        assert(b =~= seq![b[0]] + b.skip(1));
    }
}

/// The order of texts is transitive.
pub proof fn lemma_text_le_transitive(a: Seq<char>, b: Seq<char>, c: Seq<char>)
    requires
        text_le(a, b),
        text_le(b, c),
    ensures
        text_le(a, c),
    decreases a.len(),
{
    if a.len() > 0 && b.len() > 0 && c.len() > 0 {
        if a[0] as u32 == b[0] as u32 && b[0] as u32 == c[0] as u32 {
            lemma_text_le_transitive(a.skip(1), b.skip(1), c.skip(1));
        }
    }
}

/// Every text stands before itself.
pub proof fn lemma_text_le_reflexive(a: Seq<char>)
    ensures
        text_le(a, a),
    decreases a.len(),
{
    if a.len() > 0 {
        lemma_text_le_reflexive(a.skip(1));
    }
}

/// Whether `a` stands before `b` or is `b`.
pub fn text_before(a: &str, b: &str) -> (before: bool)
    ensures
        before == text_le(a@, b@),
{
    let left = chars_of(a);
    let right = chars_of(b);
    let mut i: usize = 0;
    assert(left@.skip(0) =~= left@);
    assert(right@.skip(0) =~= right@);
    while i < left.len() && i < right.len()
        invariant
            i <= left.len(),
            i <= right.len(),
            left@ == a@,
            right@ == b@,
            text_le(a@, b@) == text_le(left@.skip(i as int), right@.skip(i as int)),
        decreases left.len() - i,
    {
        let x = left[i] as u32;
        let y = right[i] as u32;
        assert(left@.skip(i as int)[0] == left@[i as int]);
        assert(right@.skip(i as int)[0] == right@[i as int]);
        if x != y {
            return x < y;
        }
        assert(left@.skip(i as int).skip(1) =~= left@.skip(i + 1));
        assert(right@.skip(i as int).skip(1) =~= right@.skip(i + 1));
        i += 1;
    }
    i == left.len()
}

// ---------------------------------------------------------------------------
// White space
// ---------------------------------------------------------------------------

/// The index of the first character at or after `from` that is no white
/// space, or the length of the text.
pub open spec fn white_end(s: Seq<char>, from: int) -> int
    decreases s.len() - from,
{
    if 0 <= from < s.len() && is_white(s[from]) {
        white_end(s, from + 1)
    } else {
        from
    }
}

/// The index behind the last character before `to` that is no white space,
/// but not less than `low`.
pub open spec fn white_start(s: Seq<char>, low: int, to: int) -> int
    decreases to - low,
{
    if low < to <= s.len() && is_white(s[to - 1]) {
        white_start(s, low, to - 1)
    } else {
        to
    }
}

/// A text without the white space at its two ends.
pub open spec fn trimmed(s: Seq<char>) -> Seq<char> {
    let from = white_end(s, 0);
    s.subrange(from, white_start(s, from, s.len() as int))
}

/// What is trimmed off a text is white space, and what is left neither
/// begins nor ends with white space.
pub proof fn lemma_trimmed(s: Seq<char>)
    ensures
        ({
            let from = white_end(s, 0);
            let to = white_start(s, from, s.len() as int);
            &&& 0 <= from <= to <= s.len()
            &&& trimmed(s) == s.subrange(from, to)
            &&& forall|i: int| 0 <= i < from ==> is_white(#[trigger] s[i])
            &&& forall|i: int| to <= i < s.len() ==> is_white(#[trigger] s[i])
            &&& from < to ==> !is_white(s[from]) && !is_white(s[to - 1])
        }),
{
    lemma_white_end(s, 0);
    lemma_white_start(s, white_end(s, 0), s.len() as int);
}

proof fn lemma_white_end(s: Seq<char>, from: int)
    requires
        0 <= from <= s.len(),
    ensures
        from <= white_end(s, from) <= s.len(),
        forall|i: int| from <= i < white_end(s, from) ==> is_white(#[trigger] s[i]),
        white_end(s, from) < s.len() ==> !is_white(s[white_end(s, from)]),
    decreases s.len() - from,
{
    if from < s.len() && is_white(s[from]) {
        lemma_white_end(s, from + 1);
    }
}

proof fn lemma_white_start(s: Seq<char>, low: int, to: int)
    requires
        0 <= low <= to <= s.len(),
    ensures
        low <= white_start(s, low, to) <= to,
        forall|i: int| white_start(s, low, to) <= i < to ==> is_white(#[trigger] s[i]),
        low < white_start(s, low, to) ==> !is_white(s[white_start(s, low, to) - 1]),
    decreases to - low,
{
    if low < to && is_white(s[to - 1]) {
        lemma_white_start(s, low, to - 1);
    }
}

/// A text without the white space at its two ends.
pub fn trim_text(text: &str) -> (rest: String)
    ensures
        rest@ == trimmed(text@),
{
    let chars = chars_of(text);
    let mut from: usize = 0;
    while from < chars.len() && chars[from].is_whitespace()
        invariant
            from <= chars.len(),
            white_end(chars@, 0) == white_end(chars@, from as int),
        decreases chars.len() - from,
    {
        from += 1;
    }
    let mut to: usize = chars.len();
    while to > from && chars[to - 1].is_whitespace()
        invariant
            from <= to <= chars.len(),
            white_start(chars@, from as int, chars@.len() as int) == white_start(
                chars@,
                from as int,
                to as int,
            ),
        decreases to - from,
    {
        to -= 1;
    }
    text_between(&chars, from, to)
}

} // verus!
