//! Bytes as text, in base 64.

use vstd::prelude::*;

verus! {

/// The character for six bits.
pub open spec fn digit(value: int) -> char {
    if value < 26 {
        (65 + value) as char
    } else if value < 52 {
        (97 + value - 26) as char
    } else if value < 62 {
        (48 + value - 52) as char
    } else if value == 62 {
        '+'
    } else {
        '/'
    }
}

/// The six bits that a character stands for.
pub open spec fn digit_value(c: char) -> int {
    let code = c as int;
    if 65 <= code <= 90 {
        code - 65
    } else if 97 <= code <= 122 {
        code - 97 + 26
    } else if 48 <= code <= 57 {
        code - 48 + 52
    } else if c == '+' {
        62
    } else {
        63
    }
}

/// The four characters for one, two or three bytes. What is missing to three
/// bytes is padded.
pub open spec fn group(bytes: Seq<u8>) -> Seq<char> {
    let a = bytes[0] as int;
    let b = if bytes.len() > 1 {
        bytes[1] as int
    } else {
        0
    };
    let c = if bytes.len() > 2 {
        bytes[2] as int
    } else {
        0
    };
    seq![
        digit(a / 4),
        digit(a % 4 * 16 + b / 16),
        if bytes.len() > 1 {
            digit(b % 16 * 4 + c / 64)
        } else {
            '='
        },
        if bytes.len() > 2 {
            digit(c % 64)
        } else {
            '='
        },
    ]
}

/// Bytes in base 64: three at a time make four characters.
pub open spec fn base64(bytes: Seq<u8>) -> Seq<char>
    decreases bytes.len(),
{
    if bytes.len() == 0 {
        Seq::empty()
    } else if bytes.len() <= 3 {
        group(bytes)
    } else {
        group(bytes.take(3)) + base64(bytes.skip(3))
    }
}

/// The bytes for four characters.
pub open spec fn ungroup(text: Seq<char>) -> Seq<u8> {
    let v = digit_value(text[0]);
    let w = digit_value(text[1]);
    let x = digit_value(text[2]);
    let y = digit_value(text[3]);
    let a = (v * 4 + w / 16) as u8;
    let b = (w % 16 * 16 + x / 4) as u8;
    let c = (x % 4 * 64 + y) as u8;
    if text[2] == '=' {
        seq![a]
    } else if text[3] == '=' {
        seq![a, b]
    } else {
        seq![a, b, c]
    }
}

/// The bytes that a text in base 64 stands for.
pub open spec fn unbase64(text: Seq<char>) -> Seq<u8>
    decreases text.len(),
{
    if text.len() < 4 {
        Seq::empty()
    } else {
        ungroup(text.take(4)) + unbase64(text.skip(4))
    }
}

/// The character for six bits.
fn to_digit(value: u8) -> (c: char)
    requires
        value < 64,
    ensures
        c == digit(value as int),
{
    if value < 26 {
        (65 + value) as char
    } else if value < 52 {
        (97 + (value - 26)) as char
    } else if value < 62 {
        (48 + (value - 52)) as char
    } else if value == 62 {
        '+'
    } else {
        '/'
    }
}

/// Bytes in base 64.
pub fn base64_encode(input: &[u8]) -> (text: String)
    ensures
        text@ == base64(input@),
{
    let mut text: String = String::new();
    let mut next: usize = 0;
    assert(input@.skip(0) =~= input@);
    while next < input.len()
        invariant
            next <= input@.len(),
            text@ + base64(input@.skip(next as int)) == base64(input@),
        decreases input@.len() - next,
    {
        let ghost rest = input@.skip(next as int);
        let ghost before = text@;
        let left: usize = input.len() - next;
        let a: u8 = input[next];
        let b: u8 = if left > 1 {
            input[next + 1]
        } else {
            0
        };
        let c: u8 = if left > 2 {
            input[next + 2]
        } else {
            0
        };
        text.push(to_digit(a / 4));
        text.push(to_digit(a % 4 * 16 + b / 16));
        if left > 1 {
            text.push(to_digit(b % 16 * 4 + c / 64));
        } else {
            text.push('=');
        }
        if left > 2 {
            text.push(to_digit(c % 64));
        } else {
            text.push('=');
        }
        if left <= 3 {
            next = input.len();
            proof {
                assert(text@ =~= before + group(rest));
                assert(input@.skip(next as int) =~= Seq::<u8>::empty());
                assert(text@ + base64(input@.skip(next as int)) =~= before + base64(rest));
            }
        } else {
            next = next + 3;
            proof {
                assert(text@ =~= before + group(rest.take(3)));
                assert(rest.skip(3) =~= input@.skip(next as int));
                assert(text@ + base64(input@.skip(next as int)) =~= before + base64(rest));
            }
        }
    }
    assert(input@.skip(next as int) =~= Seq::<u8>::empty());
    assert(text@ =~= text@ + base64(input@.skip(next as int)));
    text
}

/// What a character for six bits stands for is these six bits; it is never
/// padding.
proof fn lemma_digit(value: int)
    requires
        0 <= value < 64,
    ensures
        digit_value(digit(value)) == value,
        digit(value) != '=',
{
}

proof fn lemma_group(bytes: Seq<u8>)
    requires
        0 < bytes.len() <= 3,
    ensures
        ungroup(group(bytes)) == bytes,
        group(bytes).len() == 4,
{
    let a = bytes[0] as int;
    let b = if bytes.len() > 1 {
        bytes[1] as int
    } else {
        0
    };
    let c = if bytes.len() > 2 {
        bytes[2] as int
    } else {
        0
    };
    lemma_digit(a / 4);
    lemma_digit(a % 4 * 16 + b / 16);
    lemma_digit(b % 16 * 4 + c / 64);
    lemma_digit(c % 64);
    assert(a / 4 * 4 + (a % 4 * 16 + b / 16) / 16 == a);
    assert((a % 4 * 16 + b / 16) % 16 * 16 + (b % 16 * 4 + c / 64) / 4 == b);
    assert((b % 16 * 4 + c / 64) % 4 * 64 + c % 64 == c);
    assert(ungroup(group(bytes)) =~= bytes);
}

/// What a text in base 64 stands for is what it was made of.
pub proof fn law_base64_round_trip(bytes: Seq<u8>)
    ensures
        unbase64(base64(bytes)) == bytes,
    decreases bytes.len(),
{
    let text = base64(bytes);
    if bytes.len() == 0 {
    } else if bytes.len() <= 3 {
        lemma_group(bytes);
        assert(text.take(4) =~= text);
        assert(text.skip(4) =~= Seq::<char>::empty());
        assert(unbase64(text.skip(4)) =~= Seq::<u8>::empty());
        assert(unbase64(text) =~= bytes);
    } else {
        lemma_group(bytes.take(3));
        law_base64_round_trip(bytes.skip(3));
        assert(text.take(4) =~= group(bytes.take(3)));
        assert(text.skip(4) =~= base64(bytes.skip(3)));
        assert(unbase64(text) =~= bytes);
    }
}

/// A text in base 64 has four characters for every three bytes or part of
/// them.
pub proof fn law_base64_length(bytes: Seq<u8>)
    ensures
        base64(bytes).len() == (bytes.len() + 2) / 3 * 4,
    decreases bytes.len(),
{
    if bytes.len() > 3 {
        law_base64_length(bytes.skip(3));
    }
}

/// A text in base 64 stands for the bytes that it was made of, and is made of
/// letters, digits, `+` and `/`, with no more than two `=` at its end.
pub proof fn law_base64_text_stands_for_the_bytes(bytes: &[u8], text: String)
    requires
        call_ensures(base64_encode, (bytes,), text),
    ensures
        unbase64(text@) == bytes@,
        text@.len() == (bytes@.len() + 2) / 3 * 4,
        forall|i: int|
            0 <= i < text@.len() ==> is_base64_char(#[trigger] text@[i]) || (text@[i] == '=' && i
                >= text@.len() - 2),
        bytes@.len() % 3 == 0 ==> forall|i: int|
            0 <= i < text@.len() ==> is_base64_char(#[trigger] text@[i]),
{
    law_base64_round_trip(bytes@);
    law_base64_length(bytes@);
    lemma_base64_chars(bytes@);
}

/// Whether a character is one of those that stand for six bits.
pub open spec fn is_base64_char(c: char) -> bool {
    'A' <= c <= 'Z' || 'a' <= c <= 'z' || '0' <= c <= '9' || c == '+' || c == '/'
}

proof fn lemma_base64_chars(bytes: Seq<u8>)
    ensures
        base64(bytes).len() == (bytes.len() + 2) / 3 * 4,
        forall|i: int|
            0 <= i < base64(bytes).len() ==> is_base64_char(#[trigger] base64(bytes)[i]) || (base64(
                bytes,
            )[i] == '=' && i >= base64(bytes).len() - 2),
        bytes.len() % 3 == 0 ==> forall|i: int|
            0 <= i < base64(bytes).len() ==> is_base64_char(#[trigger] base64(bytes)[i]),
    decreases bytes.len(),
{
    law_base64_length(bytes);
    let text = base64(bytes);
    if bytes.len() > 3 {
        let rest = base64(bytes.skip(3));
        let first = group(bytes.take(3));
        lemma_base64_chars(bytes.skip(3));
        assert forall|i: int| 0 <= i < text.len() implies is_base64_char(#[trigger] text[i]) || (
        text[i] == '=' && i >= text.len() - 2) by {
            if i >= 4 {
                assert(text[i] == rest[i - 4]);
            } else {
                assert(text[i] == first[i]);
            }
        }
        if bytes.len() % 3 == 0 {
            assert forall|i: int| 0 <= i < text.len() implies is_base64_char(
                #[trigger] text[i],
            ) by {
                if i >= 4 {
                    assert(text[i] == rest[i - 4]);
                } else {
                    assert(text[i] == first[i]);
                }
            }
        }
    }
}

/// The characters for six bits come in their order: capitals, small letters,
/// digits, `+` and `/`; each stands for one more than the one before it.
pub proof fn law_base64_digits_in_order(value: int)
    requires
        0 <= value < 64,
    ensures
        digit(0) == 'A',
        digit(26) == 'a',
        digit(52) == '0',
        digit(62) == '+',
        digit(63) == '/',
        0 < value && value != 26 && value != 52 && value < 62 ==> digit(value) as int == digit(
            value - 1,
        ) as int + 1,
        digit_value(digit(value)) == value,
{
}

} // verus!
