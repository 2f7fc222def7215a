//! Text helpers: trimming, splitting, searching, joining and decimal numbers.
//!
//! A string is seen as the sequence of its characters, `text@`.

use vstd::prelude::*;

verus! {

broadcast use vstd::seq_lib::group_seq_properties;

/// Appends one character to a string.
///
/// Trusted: `String::push` puts the character behind the last one and changes
/// nothing else.
pub assume_specification[ String::push ](text: &mut String, c: char)
    ensures
        final(text)@ == old(text)@.push(c),
;

/// What `str::to_lowercase` makes of a text.
pub uninterp spec fn lowercase(text: Seq<char>) -> Seq<char>;

/// An ASCII capital as its small letter; every other character as it is.
pub open spec fn ascii_small(c: char) -> char {
    if 'A' <= c && c <= 'Z' {
        ((c as u32) + 32) as char
    } else {
        c
    }
}

/// The text in lower case.
///
/// Trusted: `str::to_lowercase` depends on the text alone, and of a text in
/// ASCII it changes the letters `A` to `Z` into `a` to `z` and nothing else.
#[verifier::external_body]
pub(crate) fn to_lowercase(text: &str) -> (lower: String)
    ensures
        lower@ == lowercase(text@),
        vstd::utf8::is_ascii_chars(text@) ==> lower@ == text@.map_values(|c: char| ascii_small(c)),
{
    text.to_lowercase()
}

/// What the `{:?}` format makes of a text.
pub uninterp spec fn quoted(text: Seq<char>) -> Seq<char>;

/// The text in double quotes, with escapes, as it is shown to a reader.
///
/// Trusted: `str`'s `Debug` output depends on the text alone.
#[verifier::external_body]
pub(crate) fn quote(text: &str) -> (shown: String)
    ensures
        shown@ == quoted(text@),
{
    format!("{:?}", text)
}

/// What `String::from_utf8_lossy` makes of bytes.
pub uninterp spec fn lossy_text(bytes: Seq<u8>) -> Seq<char>;

/// Bytes as text, whatever they are.
///
/// Trusted: `String::from_utf8_lossy` depends on the bytes alone, and bytes in
/// UTF-8 it decodes as they are.
#[verifier::external_body]
pub(crate) fn decode_lossy(bytes: &[u8]) -> (text: String)
    ensures
        text@ == lossy_text(bytes@),
        vstd::utf8::valid_utf8(bytes@) ==> text@ == vstd::utf8::decode_utf8(bytes@),
{
    String::from_utf8_lossy(bytes).into_owned()
}

/// The characters of each text in a list.
pub open spec fn views(texts: Seq<String>) -> Seq<Seq<char>> {
    Seq::new(texts.len(), |i: int| texts[i]@)
}

/// The characters of a text that may be absent.
pub open spec fn opt_view(text: Option<String>) -> Option<Seq<char>> {
    match text {
        Some(t) => Some(t@),
        None => None,
    }
}

/// A copy of a text that may be absent.
pub fn copy_option(text: &Option<String>) -> (copy: Option<String>)
    ensures
        copy == *text,
{
    match text {
        Some(t) => Some(t.clone()),
        None => None,
    }
}

/// The characters of a string, one by one.
pub fn chars_of(text: &str) -> (chars: Vec<char>)
    ensures
        chars@ == text@,
{
    let mut chars: Vec<char> = Vec::new();
    for c in it: text.chars()
        invariant
            chars@ == it.seq().take(it.index() as int),
            it.seq() == text@,
    {
        chars.push(c);
    }
    chars
}

/// Whether two texts hold the same characters.
pub fn same_text(a: &str, b: &str) -> (same: bool)
    ensures
        same == (a@ == b@),
{
    a.to_owned() == b.to_owned()
}

/// Whether a text that may be absent is there and holds the given characters.
pub fn is_text(a: &Option<String>, b: &str) -> (same: bool)
    ensures
        same == (opt_view(*a) == Some(b@)),
{
    match a {
        Some(t) => same_text(t.as_str(), b),
        None => false,
    }
}

/// The characters that Unicode lists under `White_Space`.
pub open spec fn is_white_space(c: char) -> bool {
    let code = c as u32;
    ||| 0x09 <= code <= 0x0D
    ||| code == 0x20
    ||| code == 0x85
    ||| code == 0xA0
    ||| code == 0x1680
    ||| 0x2000 <= code <= 0x200A
    ||| code == 0x2028
    ||| code == 0x2029
    ||| code == 0x202F
    ||| code == 0x205F
    ||| code == 0x3000
}

fn white_space(c: char) -> (white: bool)
    ensures
        white == is_white_space(c),
{
    let code: u32 = c as u32;
    (0x09 <= code && code <= 0x0D) || code == 0x20 || code == 0x85 || code == 0xA0 || code
        == 0x1680 || (0x2000 <= code && code <= 0x200A) || code == 0x2028 || code == 0x2029
        || code == 0x202F || code == 0x205F || code == 0x3000
}

/// The text without the white space at its start.
pub open spec fn trimmed_start(text: Seq<char>) -> Seq<char>
    decreases text.len(),
{
    if text.len() > 0 && is_white_space(text[0]) {
        trimmed_start(text.drop_first())
    } else {
        text
    }
}

/// The text without the white space at its end.
pub open spec fn trimmed_end(text: Seq<char>) -> Seq<char>
    decreases text.len(),
{
    if text.len() > 0 && is_white_space(text.last()) {
        trimmed_end(text.drop_last())
    } else {
        text
    }
}

/// The text without the white space at its two ends.
pub open spec fn trimmed(text: Seq<char>) -> Seq<char> {
    trimmed_end(trimmed_start(text))
}

/// The text without the white space at its two ends.
pub fn trim(text: &str) -> (rest: &str)
    ensures
        rest@ == trimmed(text@),
{
    let chars: Vec<char> = chars_of(text);
    let mut start: usize = 0;
    while start < chars.len() && white_space(chars[start])
        invariant
            start <= chars.len(),
            chars@ == text@,
            trimmed_start(text@) == trimmed_start(text@.skip(start as int)),
        decreases chars.len() - start,
    {
        assert(text@.skip(start as int).drop_first() =~= text@.skip(start + 1));
        start = start + 1;
    }
    let mut end: usize = chars.len();
    assert(text@.subrange(start as int, end as int) =~= text@.skip(start as int));
    while start < end && white_space(chars[end - 1])
        invariant
            start <= end <= chars.len(),
            chars@ == text@,
            trimmed_end(text@.skip(start as int)) == trimmed_end(
                text@.subrange(start as int, end as int),
            ),
        decreases end - start,
    {
        assert(text@.subrange(start as int, end as int).drop_last() =~= text@.subrange(
            start as int,
            end - 1,
        ));
        end = end - 1;
    }
    text.substring_char(start, end)
}

/// Whether `needle` stands somewhere in `text`.
pub open spec fn has_text(text: Seq<char>, needle: Seq<char>) -> bool {
    exists|at: int| occurs_at(text, needle, at)
}

/// Whether `needle` stands in `text` with its first character at `at`.
pub open spec fn occurs_at(text: Seq<char>, needle: Seq<char>, at: int) -> bool {
    0 <= at && at + needle.len() <= text.len() && text.subrange(at, at + needle.len()) == needle
}

/// Whether `needle` stands somewhere in `text`.
pub fn contains_text(text: &str, needle: &str) -> (found: bool)
    ensures
        found == has_text(text@, needle@),
{
    let hay: Vec<char> = chars_of(text);
    let want: Vec<char> = chars_of(needle);
    if want.len() > hay.len() {
        return false;
    }
    let last: usize = hay.len() - want.len();
    let mut at: usize = 0;
    loop
        invariant
            hay@ == text@,
            want@ == needle@,
            last == hay.len() - want.len(),
            at <= last,
            forall|k: int| 0 <= k < at ==> !occurs_at(text@, needle@, k),
        decreases last - at,
    {
        let mut matched: usize = 0;
        while matched < want.len() && hay[at + matched] == want[matched]
            invariant
                hay@ == text@,
                want@ == needle@,
                last == hay.len() - want.len(),
                at <= last,
                matched <= want.len(),
                forall|k: int| 0 <= k < matched ==> text@[at + k] == needle@[k],
            decreases want.len() - matched,
        {
            matched = matched + 1;
        }
        if matched == want.len() {
            assert(text@.subrange(at as int, at + needle@.len()) =~= needle@);
            assert(occurs_at(text@, needle@, at as int));
            return true;
        }
        assert(!occurs_at(text@, needle@, at as int)) by {
            assert(text@.subrange(at as int, at + needle@.len())[matched as int] == text@[at
                + matched]);
        }
        if at == last {
            return false;
        }
        at = at + 1;
    }
}

/// The parts of a text between the separators; a text without a separator is
/// its own single part.
pub open spec fn parts(text: Seq<char>, separator: char) -> Seq<Seq<char>>
    decreases text.len(),
{
    if text.len() == 0 {
        seq![Seq::<char>::empty()]
    } else {
        let before = parts(text.drop_last(), separator);
        if text.last() == separator {
            before.push(Seq::<char>::empty())
        } else {
            before.drop_last().push(before.last().push(text.last()))
        }
    }
}

/// The parts of a text between the separators.
pub fn split(text: &str, separator: char) -> (list: Vec<String>)
    ensures
        views(list@) == parts(text@, separator),
        list@.len() > 0,
{
    let chars: Vec<char> = chars_of(text);
    let mut list: Vec<String> = Vec::new();
    let mut current: String = String::new();
    let mut next: usize = 0;
    assert(views(list@).push(current@) =~= parts(text@.take(0), separator));
    while next < chars.len()
        invariant
            chars@ == text@,
            next <= chars.len(),
            views(list@).push(current@) == parts(text@.take(next as int), separator),
        decreases chars.len() - next,
    {
        let ghost before = views(list@).push(current@);
        assert(text@.take(next + 1).drop_last() =~= text@.take(next as int));
        if chars[next] == separator {
            list.push(current);
            current = String::new();
            assert(views(list@) =~= before);
        } else {
            assert(before.drop_last() =~= views(list@));
            current.push(chars[next]);
        }
        next = next + 1;
    }
    assert(text@.take(next as int) =~= text@);
    let ghost before = views(list@).push(current@);
    list.push(current);
    assert(views(list@) =~= before);
    list
}

/// The text without the run of `c` at its end.
pub open spec fn without_end(text: Seq<char>, c: char) -> Seq<char>
    decreases text.len(),
{
    if text.len() > 0 && text.last() == c {
        without_end(text.drop_last(), c)
    } else {
        text
    }
}

/// The text without the run of `c` at its end.
pub fn trim_end_matches(text: &str, c: char) -> (rest: &str)
    ensures
        rest@ == without_end(text@, c),
{
    let chars: Vec<char> = chars_of(text);
    let mut end: usize = chars.len();
    assert(text@.take(end as int) =~= text@);
    while 0 < end && chars[end - 1] == c
        invariant
            end <= chars.len(),
            chars@ == text@,
            without_end(text@, c) == without_end(text@.take(end as int), c),
        decreases end,
    {
        assert(text@.take(end as int).drop_last() =~= text@.take(end - 1));
        end = end - 1;
    }
    assert(text@.subrange(0, end as int) =~= text@.take(end as int));
    text.substring_char(0, end)
}

/// The texts one behind the other, with `separator` between two of them.
pub open spec fn joined(texts: Seq<Seq<char>>, separator: Seq<char>) -> Seq<char>
    decreases texts.len(),
{
    if texts.len() == 0 {
        Seq::empty()
    } else if texts.len() == 1 {
        texts[0]
    } else {
        joined(texts.drop_last(), separator) + separator + texts.last()
    }
}

/// The texts one behind the other, with `separator` between two of them.
pub fn join(texts: &Vec<String>, separator: &str) -> (text: String)
    ensures
        text@ == joined(views(texts@), separator@),
{
    let mut text: String = String::new();
    let mut next: usize = 0;
    let ghost all = views(texts@);
    assert(text@ =~= joined(all.take(0), separator@));
    while next < texts.len()
        invariant
            next <= texts.len(),
            all == views(texts@),
            text@ == joined(all.take(next as int), separator@),
        decreases texts.len() - next,
    {
        assert(all.take(next + 1).drop_last() =~= all.take(next as int));
        if next > 0 {
            text.append(separator);
        } else {
            assert(text@ =~= Seq::<char>::empty());
        }
        text.append(texts[next].as_str());
        assert(text@ =~= joined(all.take(next + 1), separator@));
        next = next + 1;
    }
    assert(all.take(next as int) =~= all);
    text
}

/// The character of a decimal digit.
pub open spec fn digit_char(digit: nat) -> char {
    ((48 + digit) as u32) as char
}

/// Whether a character is one of `0` to `9`.
pub open spec fn is_digit(c: char) -> bool {
    '0' <= c && c <= '9'
}

/// The number that a decimal digit stands for.
pub open spec fn digit_value(c: char) -> nat {
    ((c as u32) - 48) as nat
}

/// A number in decimal, without leading zeros.
pub open spec fn decimal(n: nat) -> Seq<char>
    decreases n,
{
    if n < 10 {
        seq![digit_char(n)]
    } else {
        decimal(n / 10).push(digit_char(n % 10))
    }
}

/// A number in decimal, filled up with zeros on the left to at least `width`
/// characters.
pub open spec fn decimal_padded(n: nat, width: nat) -> Seq<char> {
    let digits = decimal(n);
    if digits.len() < width {
        Seq::new((width - digits.len()) as nat, |i: int| '0') + digits
    } else {
        digits
    }
}

fn digit(value: u64) -> (c: char)
    requires
        value < 10,
    ensures
        c == digit_char(value as nat),
{
    if value == 0 {
        '0'
    } else if value == 1 {
        '1'
    } else if value == 2 {
        '2'
    } else if value == 3 {
        '3'
    } else if value == 4 {
        '4'
    } else if value == 5 {
        '5'
    } else if value == 6 {
        '6'
    } else if value == 7 {
        '7'
    } else if value == 8 {
        '8'
    } else {
        '9'
    }
}

/// A number in decimal, without leading zeros.
pub fn to_decimal(n: u64) -> (text: String)
    ensures
        text@ == decimal(n as nat),
    decreases n,
{
    let mut text: String = String::new();
    if n >= 10 {
        text = to_decimal(n / 10);
    }
    text.push(digit(n % 10));
    assert(text@ =~= decimal(n as nat));
    text
}

/// A number in decimal, filled up with zeros on the left to at least `width`
/// characters.
pub fn to_decimal_padded(n: u64, width: usize) -> (text: String)
    ensures
        text@ == decimal_padded(n as nat, width as nat),
{
    let digits: String = to_decimal(n);
    let length: usize = digits.as_str().unicode_len();
    let mut text: String = String::new();
    let mut zeros: usize = 0;
    while length < width && zeros < width - length
        invariant
            length == digits@.len(),
            length >= width ==> zeros == 0,
            length < width ==> zeros <= width - length,
            text@ == Seq::new(zeros as nat, |i: int| '0'),
        decreases width - zeros,
    {
        text.push('0');
        zeros = zeros + 1;
        assert(text@ =~= Seq::new(zeros as nat, |i: int| '0'));
    }
    text.append(digits.as_str());
    assert(text@ =~= decimal_padded(n as nat, width as nat));
    text
}

/// Whether every character is a decimal digit.
pub open spec fn all_digits(text: Seq<char>) -> bool {
    forall|i: int| 0 <= i < text.len() ==> is_digit(#[trigger] text[i])
}

/// The number that a run of decimal digits stands for.
pub open spec fn digits_value(text: Seq<char>) -> nat
    decreases text.len(),
{
    if text.len() == 0 {
        0
    } else {
        digits_value(text.drop_last()) * 10 + digit_value(text.last())
    }
}

/// The text without the single `+` that it may start with.
pub open spec fn without_plus(text: Seq<char>) -> Seq<char> {
    if text.len() > 0 && text[0] == '+' {
        text.drop_first()
    } else {
        text
    }
}

/// The `u32` that a text stands for: decimal digits, at least one, perhaps
/// behind a single `+`, and no number that is too large.
pub open spec fn parsed_u32(text: Seq<char>) -> Option<u32> {
    let digits = without_plus(text);
    if digits.len() > 0 && all_digits(digits) && digits_value(digits) <= u32::MAX {
        Some(digits_value(digits) as u32)
    } else {
        None
    }
}

/// The `u32` that a text stands for, if it stands for one.
pub fn parse_u32(text: &str) -> (number: Option<u32>)
    ensures
        number == parsed_u32(text@),
{
    let chars: Vec<char> = chars_of(text);
    let mut first: usize = 0;
    if chars.len() > 0 && chars[0] == '+' {
        first = 1;
    }
    let ghost digits = without_plus(text@);
    assert(digits =~= text@.skip(first as int));
    if first == chars.len() {
        return None;
    }
    let mut value: u64 = 0;
    let mut large: bool = false;
    let mut next: usize = first;
    while next < chars.len()
        invariant
            chars@ == text@,
            first <= next <= chars.len(),
            first == 0 || first == 1,
            digits == without_plus(text@),
            digits == text@.skip(first as int),
            all_digits(digits.take(next - first)),
            large == (digits_value(digits.take(next - first)) > u32::MAX),
            !large ==> value == digits_value(digits.take(next - first)),
            value <= u32::MAX,
        decreases chars.len() - next,
    {
        let c: char = chars[next];
        assert(digits[next - first] == c);
        if !('0' <= c && c <= '9') {
            assert(!all_digits(digits));
            return None;
        }
        let ghost upto = digits.take(next - first + 1);
        assert(upto.drop_last() =~= digits.take(next - first));
        let wide: u64 = value * 10 + (c as u32 - 48) as u64;
        if !large && wide <= 0xFFFF_FFFF {
            value = wide;
        } else {
            large = true;
        }
        next = next + 1;
    }
    assert(digits.take(next - first) =~= digits);
    if large {
        None
    } else {
        Some(value as u32)
    }
}

/// Decimal digits are digits, and there is at least one.
pub proof fn lemma_decimal_is_digits(n: nat)
    ensures
        decimal(n).len() > 0,
        all_digits(decimal(n)),
    decreases n,
{
    if n >= 10 {
        lemma_decimal_is_digits(n / 10);
        let shorter = decimal(n / 10);
        assert forall|i: int| 0 <= i < decimal(n).len() implies is_digit(
            #[trigger] decimal(n)[i],
        ) by {
            if i < shorter.len() {
                assert(decimal(n)[i] == shorter[i]);
            }
        }
    }
}

/// Reading the decimal digits of a number gives the number.
pub proof fn lemma_decimal_value(n: nat)
    ensures
        digits_value(decimal(n)) == n,
    decreases n,
{
    if n < 10 {
        assert(decimal(n).drop_last() =~= Seq::<char>::empty());
        assert(digits_value(decimal(n).drop_last()) == 0);
    } else {
        lemma_decimal_value(n / 10);
        assert(decimal(n).drop_last() =~= decimal(n / 10));
    }
}

/// A number written in decimal is read back as itself.
pub proof fn law_decimal_round_trip(n: u32)
    ensures
        parsed_u32(decimal(n as nat)) == Some(n),
{
    lemma_decimal_is_digits(n as nat);
    lemma_decimal_value(n as nat);
    assert(is_digit(decimal(n as nat)[0]));
}

/// Trimming twice is trimming once.
pub proof fn law_trim_is_idempotent(text: Seq<char>)
    ensures
        trimmed(trimmed(text)) == trimmed(text),
{
    lemma_trimmed_ends(text);
    let once = trimmed(text);
    assert(trimmed_start(once) == once);
}

/// Trimming a text in ASCII leaves a text in ASCII.
pub proof fn lemma_trimmed_ascii(text: Seq<char>)
    requires
        vstd::utf8::is_ascii_chars(text),
    ensures
        vstd::utf8::is_ascii_chars(trimmed(text)),
{
    lemma_trimmed_is_inside(text);
    let (start, end) = choose|start: int, end: int|
        0 <= start <= end <= text.len() && trimmed(text) == #[trigger] text.subrange(start, end);
    assert forall|i: int| 0 <= i < trimmed(text).len() implies '\0' <= #[trigger] trimmed(text)[i]
        <= '\u{7f}' by {
        assert(trimmed(text)[i] == text[start + i]);
    }
}

/// What trimming leaves stands somewhere in the text.
pub proof fn lemma_trimmed_is_inside(text: Seq<char>)
    ensures
        exists|start: int, end: int|
            0 <= start <= end <= text.len() && trimmed(text) == #[trigger] text.subrange(
                start,
                end,
            ),
{
    lemma_trimmed_start_is_tail(text);
    let start = choose|start: int|
        0 <= start <= text.len() && trimmed_start(text) == #[trigger] text.skip(start);
    let tail = text.skip(start);
    lemma_trimmed_end_is_head(tail);
    let end = choose|end: int|
        0 <= end <= tail.len() && trimmed_end(tail) == #[trigger] tail.take(end);
    assert(trimmed(text) =~= text.subrange(start, start + end));
}

proof fn lemma_trimmed_start_is_tail(text: Seq<char>)
    ensures
        exists|start: int|
            0 <= start <= text.len() && trimmed_start(text) == #[trigger] text.skip(start),
    decreases text.len(),
{
    if text.len() > 0 && is_white_space(text[0]) {
        let rest = text.drop_first();
        lemma_trimmed_start_is_tail(rest);
        let start = choose|start: int|
            0 <= start <= rest.len() && trimmed_start(rest) == #[trigger] rest.skip(start);
        assert(trimmed_start(text) =~= text.skip(start + 1));
    } else {
        assert(text =~= text.skip(0));
    }
}

proof fn lemma_trimmed_end_is_head(text: Seq<char>)
    ensures
        exists|end: int| 0 <= end <= text.len() && trimmed_end(text) == #[trigger] text.take(end),
    decreases text.len(),
{
    if text.len() > 0 && is_white_space(text.last()) {
        let rest = text.drop_last();
        lemma_trimmed_end_is_head(rest);
        let end = choose|end: int|
            0 <= end <= rest.len() && trimmed_end(rest) == #[trigger] rest.take(end);
        assert(trimmed_end(text) =~= text.take(end));
    } else {
        assert(text =~= text.take(text.len() as int));
    }
}

/// There is at least one part, and the parts of a text in ASCII are in ASCII.
pub proof fn lemma_parts_ascii(text: Seq<char>, separator: char)
    requires
        vstd::utf8::is_ascii_chars(text),
    ensures
        parts(text, separator).len() > 0,
        forall|i: int|
            0 <= i < parts(text, separator).len() ==> vstd::utf8::is_ascii_chars(
                #[trigger] parts(text, separator)[i],
            ),
    decreases text.len(),
{
    if text.len() > 0 {
        let rest = text.drop_last();
        assert forall|i: int| 0 <= i < rest.len() implies '\0' <= #[trigger] rest[i]
            <= '\u{7f}' by {
            assert(rest[i] == text[i]);
        }
        lemma_parts_ascii(rest, separator);
        let before = parts(rest, separator);
        let all = parts(text, separator);
        assert forall|i: int| 0 <= i < all.len() implies vstd::utf8::is_ascii_chars(
            #[trigger] all[i],
        ) by {
            if i < before.len() - 1 {
                assert(all[i] == before[i]);
            } else if text.last() != separator {
                let longer = before.last().push(text.last());
                assert(vstd::utf8::is_ascii_chars(before[before.len() - 1]));
                assert(all[i] == longer);
                assert forall|j: int| 0 <= j < longer.len() implies '\0' <= #[trigger] longer[j]
                    <= '\u{7f}' by {
                    if j < before.last().len() {
                        assert(longer[j] == before.last()[j]);
                    } else {
                        assert(longer[j] == text[text.len() - 1]);
                    }
                }
            } else {
                assert(i < before.len() ==> all[i] == before[i]);
            }
        }
    }
}

/// What trimming leaves neither starts nor ends with white space.
pub proof fn lemma_trimmed_ends(text: Seq<char>)
    ensures
        trimmed(text).len() > 0 ==> !is_white_space(trimmed(text)[0]) && !is_white_space(
            trimmed(text).last(),
        ),
{
    lemma_trimmed_start_head(text);
    lemma_trimmed_end_last(trimmed_start(text));
}

proof fn lemma_trimmed_start_head(text: Seq<char>)
    ensures
        trimmed_start(text).len() > 0 ==> !is_white_space(trimmed_start(text)[0]),
    decreases text.len(),
{
    if text.len() > 0 && is_white_space(text[0]) {
        lemma_trimmed_start_head(text.drop_first());
    }
}

proof fn lemma_trimmed_end_last(text: Seq<char>)
    ensures
        trimmed_end(text).len() > 0 ==> !is_white_space(trimmed_end(text).last())
            && trimmed_end(text)[0] == text[0],
    decreases text.len(),
{
    if text.len() > 0 && is_white_space(text.last()) {
        lemma_trimmed_end_last(text.drop_last());
    }
}

/// Trimming cuts off nothing but white space, at the two ends, and all that is
/// there: what is left is a stretch of the text.
pub proof fn law_trim_cuts_only_white_space(text: &str, rest: &str)
    requires
        call_ensures(trim, (text,), rest),
    ensures
        exists|start: int, end: int|
            0 <= start <= end <= text@.len() && rest@ == #[trigger] text@.subrange(start, end)
                && is_white_around(text@, start, end),
        rest@.len() > 0 ==> !is_white_space(rest@[0]) && !is_white_space(rest@.last()),
{
    lemma_trimmed_between(text@);
    lemma_trimmed_ends(text@);
}

/// Whether all characters of a text outside a stretch are white space.
pub open spec fn is_white_around(text: Seq<char>, start: int, end: int) -> bool {
    forall|i: int|
        0 <= i < text.len() && !(start <= i < end) ==> is_white_space(#[trigger] text[i])
}

/// What trimming leaves is a stretch of the text with white space around it.
pub proof fn lemma_trimmed_between(text: Seq<char>)
    ensures
        exists|start: int, end: int|
            0 <= start <= end <= text.len() && trimmed(text) == #[trigger] text.subrange(
                start,
                end,
            ) && is_white_around(text, start, end),
{
    let start = lemma_start_cut(text);
    let tail = text.skip(start);
    let end = start + lemma_end_cut(tail);
    assert(trimmed(text) =~= text.subrange(start, end));
    assert forall|i: int| 0 <= i < text.len() && !(start <= i < end) implies is_white_space(
        #[trigger] text[i],
    ) by {
        if i >= end {
            assert(tail[i - start] == text[i]);
        }
    }
}

proof fn lemma_start_cut(text: Seq<char>) -> (start: int)
    ensures
        0 <= start <= text.len(),
        trimmed_start(text) == text.skip(start),
        forall|i: int| 0 <= i < start ==> is_white_space(#[trigger] text[i]),
    decreases text.len(),
{
    if text.len() > 0 && is_white_space(text[0]) {
        let rest = text.drop_first();
        let start = lemma_start_cut(rest);
        assert(text.skip(start + 1) =~= rest.skip(start));
        assert forall|i: int| 0 <= i < start + 1 implies is_white_space(#[trigger] text[i]) by {
            if i > 0 {
                assert(rest[i - 1] == text[i]);
            }
        }
        start + 1
    } else {
        assert(text =~= text.skip(0));
        0
    }
}

proof fn lemma_end_cut(text: Seq<char>) -> (end: int)
    ensures
        0 <= end <= text.len(),
        trimmed_end(text) == text.take(end),
        forall|i: int| end <= i < text.len() ==> is_white_space(#[trigger] text[i]),
    decreases text.len(),
{
    if text.len() > 0 && is_white_space(text.last()) {
        let rest = text.drop_last();
        let end = lemma_end_cut(rest);
        assert(text.take(end) =~= rest.take(end));
        assert forall|i: int| end <= i < text.len() implies is_white_space(#[trigger] text[i]) by {
            if i < rest.len() {
                assert(rest[i] == text[i]);
            }
        }
        end
    } else {
        assert(text =~= text.take(text.len() as int));
        text.len() as int
    }
}

/// In ASCII, white space is the space and what `\t`, `\n`, `\r`, the vertical
/// tab and the form feed stand for; no letter, digit or sign is.
pub proof fn law_white_space_in_ascii(c: char)
    requires
        c <= '\u{7f}',
    ensures
        is_white_space(c) <==> c == ' ' || c == '\t' || c == '\n' || c == '\r' || c == '\u{b}' || c
            == '\u{c}',
{
}

/// The parts of a text, with the separator put between them again, are the
/// text; and no part holds the separator.
pub proof fn law_split_and_join(text: &str, separator: char, list: Vec<String>)
    requires
        call_ensures(split, (text, separator), list),
    ensures
        list@.len() > 0,
        joined(views(list@), seq![separator]) == text@,
        forall|i: int| 0 <= i < list@.len() ==> !(#[trigger] list@[i])@.contains(separator),
{
    lemma_parts_joined(text@, separator);
    assert forall|i: int| 0 <= i < list@.len() implies !(#[trigger] list@[i])@.contains(
        separator,
    ) by {
        assert(views(list@)[i] == list@[i]@);
    }
}

/// The parts of a text make the text again, and hold no separator.
pub proof fn lemma_parts_joined(text: Seq<char>, separator: char)
    ensures
        parts(text, separator).len() > 0,
        joined(parts(text, separator), seq![separator]) == text,
        forall|i: int|
            0 <= i < parts(text, separator).len() ==> !(#[trigger] parts(
                text,
                separator,
            )[i]).contains(separator),
    decreases text.len(),
{
    let all = parts(text, separator);
    let between = seq![separator];
    if text.len() > 0 {
        let rest = text.drop_last();
        lemma_parts_joined(rest, separator);
        let before = parts(rest, separator);
        if text.last() == separator {
            assert(all.drop_last() =~= before);
            assert(joined(all, between) =~= text);
            assert forall|i: int| 0 <= i < all.len() implies !(#[trigger] all[i]).contains(
                separator,
            ) by {
                if i < before.len() {
                    assert(all[i] == before[i]);
                }
            }
        } else {
            assert(all.drop_last() =~= before.drop_last());
            assert(all.last() == before.last().push(text.last()));
            assert(joined(all, between) =~= joined(before, between).push(text.last()));
            assert(joined(all, between) =~= text);
            assert forall|i: int| 0 <= i < all.len() implies !(#[trigger] all[i]).contains(
                separator,
            ) by {
                if i < before.len() - 1 {
                    assert(all[i] == before[i]);
                } else {
                    let last = before[before.len() - 1];
                    assert(all[i] == last.push(text.last()));
                    assert forall|j: int| 0 <= j < all[i].len() implies all[i][j] != separator by {
                        if j < last.len() {
                            assert(last.contains(last[j]));
                        }
                    }
                }
            }
        }
    }
}

/// Of a text, only the run of one character at its end is cut off, and all of
/// it.
pub proof fn law_end_is_cut(text: &str, c: char, rest: &str)
    requires
        call_ensures(trim_end_matches, (text, c), rest),
    ensures
        rest@.len() <= text@.len(),
        rest@ == text@.take(rest@.len() as int),
        forall|i: int| rest@.len() <= i < text@.len() ==> #[trigger] text@[i] == c,
        rest@.len() > 0 ==> rest@.last() != c,
{
    lemma_without_end(text@, c);
}

/// Only a run of one character is cut off at the end of a text.
pub proof fn lemma_without_end(text: Seq<char>, c: char)
    ensures
        ({
            let rest = without_end(text, c);
            &&& rest.len() <= text.len()
            &&& rest == text.take(rest.len() as int)
            &&& forall|i: int| rest.len() <= i < text.len() ==> #[trigger] text[i] == c
            &&& rest.len() > 0 ==> rest.last() != c
        }),
    decreases text.len(),
{
    let rest = without_end(text, c);
    if text.len() > 0 && text.last() == c {
        let shorter = text.drop_last();
        lemma_without_end(shorter, c);
        assert(text.take(rest.len() as int) =~= shorter.take(rest.len() as int));
        assert forall|i: int| rest.len() <= i < text.len() implies #[trigger] text[i] == c by {
            if i < shorter.len() {
                assert(shorter[i] == text[i]);
            }
        }
    } else {
        assert(text =~= text.take(text.len() as int));
    }
}

/// A text is found in another one wherever that has something before it and
/// something behind it, be it nothing; and nowhere else.
pub proof fn law_found_text_stands_there(text: &str, needle: &str, found: bool)
    requires
        call_ensures(contains_text, (text, needle), found),
    ensures
        found <==> exists|before: Seq<char>, behind: Seq<char>|
            text@ == #[trigger] (before + needle@ + behind),
{
    let n: int = needle@.len() as int;
    if found {
        let at = choose|at: int| occurs_at(text@, needle@, at);
        let before = text@.take(at);
        let behind = text@.skip(at + n);
        assert(text@ =~= before + needle@ + behind);
    }
    if exists|before: Seq<char>, behind: Seq<char>|
        text@ == #[trigger] (before + needle@ + behind) {
        let (before, behind) = choose|before: Seq<char>, behind: Seq<char>|
            text@ == #[trigger] (before + needle@ + behind);
        let at: int = before.len() as int;
        assert(text@.subrange(at, at + n) =~= needle@);
        assert(occurs_at(text@, needle@, at));
    }
}

/// A number in decimal is made of digits, does not begin with a zero unless it
/// is zero, and its digits stand for it.
pub proof fn law_decimal_stands_for_the_number(n: u64, text: String)
    requires
        call_ensures(to_decimal, (n,), text),
    ensures
        all_digits(text@),
        digits_value(text@) == n,
        text@.len() > 0,
        text@.len() > 1 ==> text@[0] != '0',
{
    lemma_decimal_is_digits(n as nat);
    lemma_decimal_value(n as nat);
    lemma_no_leading_zero(n as nat);
}

proof fn lemma_no_leading_zero(n: nat)
    ensures
        n > 0 ==> decimal(n)[0] != '0',
        n < 10 ==> decimal(n).len() == 1,
        decimal(n).len() > 0,
    decreases n,
{
    if n >= 10 {
        lemma_no_leading_zero(n / 10);
    }
}

/// A text is read as a number only where it is made of digits, but for one `+`
/// in front, and those stand for the number; and then it is.
pub proof fn law_number_is_what_the_digits_say(text: &str, number: Option<u32>)
    requires
        call_ensures(parse_u32, (text,), number),
    ensures
        number matches Some(n) ==> exists|digits: Seq<char>|
            digits.len() > 0 && all_digits(digits) && #[trigger] digits_value(digits) == n && (text@
                == digits || text@ == seq!['+'] + digits),
        text@.len() > 0 && all_digits(text@) && digits_value(text@) <= u32::MAX ==> number == Some(
            digits_value(text@) as u32,
        ),
{
    let digits = without_plus(text@);
    if number is Some {
        assert(digits_value(digits) == number->0);
        if digits != text@ {
            assert(text@ =~= seq!['+'] + digits);
        }
    }
    if text@.len() > 0 && all_digits(text@) {
        assert(is_digit(text@[0]));
    }
}

/// The number that digits stand for: each digit counts ten times what the next
/// one does.
pub proof fn law_digits_count_by_tens(digits: Seq<char>, digit: char)
    requires
        is_digit(digit),
    ensures
        digits_value(digits.push(digit)) == digits_value(digits) * 10 + (digit as u32 - '0' as u32),
        '0' <= digit <= '9',
        digits_value(Seq::empty()) == 0,
{
    assert(digits.push(digit).drop_last() =~= digits);
}

/// Texts that are joined stand one behind the other, with the separator between
/// two of them and nowhere else.
pub proof fn law_joined_texts_follow(texts: Vec<String>, separator: &str, text: String)
    requires
        call_ensures(join, (&texts, separator), text),
    ensures
        texts@.len() == 0 ==> text@.len() == 0,
        texts@.len() == 1 ==> text@ == texts@[0]@,
        texts@.len() == 2 ==> text@ == texts@[0]@ + separator@ + texts@[1]@,
        texts@.len() > 0 ==> texts@[0]@.is_prefix_of(text@) && texts@.last()@.is_suffix_of(text@),
        forall|i: int| 0 <= i < texts@.len() ==> has_text(text@, (#[trigger] texts@[i])@),
{
    let all = views(texts@);
    reveal_with_fuel(joined, 3);
    lemma_joined(all, separator@);
    if all.len() == 2 {
        assert(all.drop_last() =~= seq![all[0]]);
    }
    assert forall|i: int| 0 <= i < texts@.len() implies has_text(
        text@,
        (#[trigger] texts@[i])@,
    ) by {
        assert(all[i] == texts@[i]@);
    }
}

/// Each of the texts that are joined stands in the whole, the first one in front
/// and the last one at the end.
pub proof fn lemma_joined(texts: Seq<Seq<char>>, separator: Seq<char>)
    ensures
        texts.len() > 0 ==> texts[0].is_prefix_of(joined(texts, separator))
            && texts.last().is_suffix_of(joined(texts, separator)),
        forall|i: int|
            0 <= i < texts.len() ==> has_text(joined(texts, separator), #[trigger] texts[i]),
    decreases texts.len(),
{
    let whole = joined(texts, separator);
    if texts.len() == 1 {
        assert(whole.subrange(0, whole.len() as int) =~= whole);
        assert(occurs_at(whole, texts[0], 0));
    } else if texts.len() > 1 {
        let rest = texts.drop_last();
        lemma_joined(rest, separator);
        let before = joined(rest, separator);
        assert(before.is_prefix_of(whole)) by {
            assert(whole.subrange(0, before.len() as int) =~= before);
        }
        assert(rest[0].is_prefix_of(before));
        assert(whole.subrange(0, texts[0].len() as int) =~= before.subrange(
            0,
            texts[0].len() as int,
        ));
        let last = texts.last();
        let at: int = whole.len() - last.len();
        assert(whole.subrange(at, at + last.len()) =~= last);
        assert(occurs_at(whole, last, at));
        assert forall|i: int| 0 <= i < texts.len() implies has_text(whole, #[trigger] texts[i]) by {
            if i < rest.len() {
                assert(rest[i] == texts[i]);
                let k = choose|k: int| occurs_at(before, texts[i], k);
                assert(whole.subrange(k, k + texts[i].len()) =~= before.subrange(
                    k,
                    k + texts[i].len(),
                ));
                assert(occurs_at(whole, texts[i], k));
            }
        }
    }
}

/// Texts that are joined by a separator that none of them holds are its parts
/// again.
pub proof fn law_joined_texts_are_the_parts(
    texts: Vec<String>,
    separator: char,
    text: &str,
    list: Vec<String>,
)
    requires
        call_ensures(split, (text, separator), list),
        text@ == joined(views(texts@), seq![separator]),
        texts@.len() > 0,
        forall|i: int| 0 <= i < texts@.len() ==> !(#[trigger] texts@[i])@.contains(separator),
    ensures
        views(list@) == views(texts@),
{
    let all = views(texts@);
    assert forall|i: int| 0 <= i < all.len() implies !(#[trigger] all[i]).contains(separator) by {
        assert(all[i] == texts@[i]@);
    }
    lemma_parts_of_joined(all, separator);
}

/// Texts that are joined by a separator that none of them holds are its parts.
pub proof fn lemma_parts_of_joined(texts: Seq<Seq<char>>, separator: char)
    requires
        texts.len() > 0,
        forall|i: int| 0 <= i < texts.len() ==> !(#[trigger] texts[i]).contains(separator),
    ensures
        parts(joined(texts, seq![separator]), separator) == texts,
    decreases texts.len(),
{
    let last = texts[texts.len() - 1];
    if texts.len() == 1 {
        lemma_single_part(last, separator);
        assert(texts =~= seq![last]);
    } else {
        let rest = texts.drop_last();
        assert forall|i: int| 0 <= i < rest.len() implies !(#[trigger] rest[i]).contains(
            separator,
        ) by {
            assert(rest[i] == texts[i]);
        }
        lemma_parts_of_joined(rest, separator);
        let before = joined(rest, seq![separator]);
        lemma_parts_append(before, last, separator);
        assert(joined(texts, seq![separator]) =~= before.push(separator) + last);
        assert(rest.push(last) =~= texts);
    }
}

proof fn lemma_single_part(text: Seq<char>, separator: char)
    requires
        !text.contains(separator),
    ensures
        parts(text, separator) == seq![text],
    decreases text.len(),
{
    if text.len() > 0 {
        let rest = text.drop_last();
        assert(!rest.contains(separator)) by {
            if rest.contains(separator) {
                let i = choose|i: int| 0 <= i < rest.len() && rest[i] == separator;
                assert(text[i] == separator);
            }
        }
        lemma_single_part(rest, separator);
        assert(text[text.len() - 1] != separator);
        assert(rest.push(text.last()) =~= text);
    } else {
        assert(text =~= Seq::<char>::empty());
    }
    assert(parts(text, separator) =~= seq![text]);
}

proof fn lemma_parts_append(before: Seq<char>, last: Seq<char>, separator: char)
    requires
        !last.contains(separator),
    ensures
        parts(before.push(separator) + last, separator) == parts(before, separator).push(last),
    decreases last.len(),
{
    let text = before.push(separator) + last;
    if last.len() == 0 {
        assert(text =~= before.push(separator));
        assert(text.drop_last() =~= before);
        assert(last =~= Seq::<char>::empty());
    } else {
        let rest = last.drop_last();
        assert(!rest.contains(separator)) by {
            if rest.contains(separator) {
                let i = choose|i: int| 0 <= i < rest.len() && rest[i] == separator;
                assert(last[i] == separator);
            }
        }
        lemma_parts_append(before, rest, separator);
        assert(text.drop_last() =~= before.push(separator) + rest);
        assert(last[last.len() - 1] != separator);
        assert(rest.push(last.last()) =~= last);
        assert(parts(before, separator).push(rest).drop_last() =~= parts(before, separator));
    }
}

} // verus!
