//! Text in UTF-8.

use vstd::prelude::*;

verus! {

/// The scalar that starts at index `i` and its length in bytes. `None` where none does.
fn first_scalar(bytes: &[u8], i: usize) -> (scalar: Option<(u32, usize)>)
    requires
        i < bytes@.len(),
    ensures
        match scalar {
            Some((value, length)) => {
                let rest = bytes@.skip(i as int);
                &&& vstd::utf8::valid_first_scalar(rest)
                &&& value == vstd::utf8::decode_first_scalar(rest)
                &&& length == vstd::utf8::length_of_first_scalar(rest)
                &&& 0 < length <= bytes@.len() - i
            },
            None => !vstd::utf8::valid_first_scalar(bytes@.skip(i as int)),
        },
{
    let ghost rest = bytes@.skip(i as int);
    let length: usize = bytes.len();
    let first: u8 = bytes[i];
    assert(rest[0] == first);
    if first <= 0x7F {
        let value: u32 = (first & 0x7F) as u32;
        proof {
            assert((first & 0x7F) <= 0x7F) by (bit_vector);
        }
        return Some((value, 1));
    }
    if 0xC0 <= first && first <= 0xDF {
        if length - i < 2 {
            return None;
        }
        let second: u8 = bytes[i + 1];
        assert(rest[1] == second);
        if !(0x80 <= second && second <= 0xBF) {
            return None;
        }
        let value: u32 = (((first & 0x1F) as u32) << 6) | ((second & 0x3F) as u32);
        proof {
            assert((((first & 0x1F) as u32) << 6) | ((second & 0x3F) as u32) <= 0x7FF)
                by (bit_vector);
        }
        return if value >= 0x80 {
            Some((value, 2))
        } else {
            None
        };
    }
    if 0xE0 <= first && first <= 0xEF {
        if length - i < 3 {
            return None;
        }
        let second: u8 = bytes[i + 1];
        let third: u8 = bytes[i + 2];
        assert(rest[1] == second && rest[2] == third);
        if !(0x80 <= second && second <= 0xBF && 0x80 <= third && third <= 0xBF) {
            return None;
        }
        let value: u32 = (((first & 0x0F) as u32) << 12) | (((second & 0x3F) as u32) << 6) | ((third
            & 0x3F) as u32);
        return if value >= 0x800 && !(0xD800 <= value && value <= 0xDFFF) {
            Some((value, 3))
        } else {
            None
        };
    }
    if 0xF0 <= first && first <= 0xF7 {
        if length - i < 4 {
            return None;
        }
        let second: u8 = bytes[i + 1];
        let third: u8 = bytes[i + 2];
        let fourth: u8 = bytes[i + 3];
        assert(rest[1] == second && rest[2] == third && rest[3] == fourth);
        if !(0x80 <= second && second <= 0xBF && 0x80 <= third && third <= 0xBF && 0x80 <= fourth
            && fourth <= 0xBF) {
            return None;
        }
        let value: u32 = (((first & 0x07) as u32) << 18) | (((second & 0x3F) as u32) << 12) | (((
        third & 0x3F) as u32) << 6) | ((fourth & 0x3F) as u32);
        return if 0x1_0000 <= value && value <= 0x10_FFFF {
            Some((value, 4))
        } else {
            None
        };
    }
    None
}

/// Whether the bytes are text in UTF-8.
pub fn is_valid_utf8(bytes: &[u8]) -> (valid: bool)
    ensures
        valid == vstd::utf8::valid_utf8(bytes@),
{
    let mut i: usize = 0;
    assert(bytes@.skip(0) =~= bytes@);
    while i < bytes.len()
        invariant
            i <= bytes@.len(),
            vstd::utf8::valid_utf8(bytes@) == vstd::utf8::valid_utf8(bytes@.skip(i as int)),
        decreases bytes@.len() - i,
    {
        match first_scalar(bytes, i) {
            Some((_, length)) => {
                assert(vstd::utf8::pop_first_scalar(bytes@.skip(i as int)) =~= bytes@.skip(
                    i + length,
                ));
                i = i + length;
            },
            None => {
                return false;
            },
        }
    }
    true
}

/// The scalars that separate words: the White_Space property of Unicode.
pub open spec fn is_white_space(scalar: u32) -> bool {
    ||| 0x09 <= scalar <= 0x0D
    ||| scalar == 0x20
    ||| scalar == 0x85
    ||| scalar == 0xA0
    ||| scalar == 0x1680
    ||| 0x2000 <= scalar <= 0x200A
    ||| scalar == 0x2028
    ||| scalar == 0x2029
    ||| scalar == 0x202F
    ||| scalar == 0x205F
    ||| scalar == 0x3000
}

/// The words with `word`, unless it is empty.
pub open spec fn with_word(words: Seq<Seq<u8>>, word: Seq<u8>) -> Seq<Seq<u8>> {
    if word.len() == 0 {
        words
    } else {
        words.push(word)
    }
}

/// The words of a text that follows `words` and the beginning `word` of a word.
pub open spec fn split_from(bytes: Seq<u8>, word: Seq<u8>, words: Seq<Seq<u8>>) -> Seq<Seq<u8>>
    decreases bytes.len(),
{
    if bytes.len() == 0 || !vstd::utf8::valid_first_scalar(bytes) {
        with_word(words, word)
    } else if is_white_space(vstd::utf8::decode_first_scalar(bytes)) {
        split_from(vstd::utf8::pop_first_scalar(bytes), Seq::empty(), with_word(words, word))
    } else {
        split_from(
            vstd::utf8::pop_first_scalar(bytes),
            word + vstd::utf8::take_first_scalar(bytes),
            words,
        )
    }
}

/// The words of a text: its longest parts without white space.
pub open spec fn words_of(bytes: Seq<u8>) -> Seq<Seq<u8>> {
    split_from(bytes, Seq::empty(), Seq::empty())
}

/// The contents of a vector of words.
pub open spec fn views(words: Seq<Vec<u8>>) -> Seq<Seq<u8>> {
    Seq::new(words.len(), |i: int| words[i]@)
}

/// The words of a text in UTF-8.
pub fn split_whitespace(bytes: &[u8]) -> (words: Vec<Vec<u8>>)
    ensures
        views(words@) == words_of(bytes@),
{
    let mut words: Vec<Vec<u8>> = Vec::new();
    let mut word: Vec<u8> = Vec::new();
    let mut i: usize = 0;
    assert(bytes@.skip(0) =~= bytes@);
    assert(views(words@) =~= Seq::empty());
    let mut going: bool = true;
    let size: usize = bytes.len();
    while going && i < size
        invariant
            size == bytes@.len(),
            i <= bytes@.len(),
            going ==> words_of(bytes@) == split_from(bytes@.skip(i as int), word@, views(words@)),
            !going ==> words_of(bytes@) == with_word(views(words@), word@),
        decreases bytes@.len() - i + (if going {
            1int
        } else {
            0int
        }),
    {
        let ghost rest = bytes@.skip(i as int);
        match first_scalar(bytes, i) {
            Some((scalar, length)) => {
                assert(vstd::utf8::pop_first_scalar(rest) =~= bytes@.skip(i + length));
                if (0x09 <= scalar && scalar <= 0x0D) || scalar == 0x20 || scalar == 0x85 || scalar
                    == 0xA0 || scalar == 0x1680 || (0x2000 <= scalar && scalar <= 0x200A) || scalar
                    == 0x2028 || scalar == 0x2029 || scalar == 0x202F || scalar == 0x205F || scalar
                    == 0x3000 {
                    if word.len() > 0 {
                        let ghost before = views(words@);
                        let ghost last = word@;
                        words.push(word);
                        assert(views(words@) =~= before.push(last));
                        word = Vec::new();
                    }
                    assert(word@ =~= Seq::empty());
                } else {
                    let ghost before = word@;
                    let mut j: usize = 0;
                    while j < length
                        invariant
                            j <= length,
                            i + length <= size,
                            size == bytes@.len(),
                            word@ == before + bytes@.subrange(i as int, i + j),
                        decreases length - j,
                    {
                        word.push(bytes[i + j]);
                        j = j + 1;
                        assert(word@ =~= before + bytes@.subrange(i as int, i + j));
                    }
                    assert(vstd::utf8::take_first_scalar(rest) =~= bytes@.subrange(
                        i as int,
                        i + length,
                    ));
                }
                i = i + length;
            },
            None => {
                going = false;
            },
        }
    }
    if word.len() > 0 {
        let ghost before = views(words@);
        let ghost last = word@;
        words.push(word);
        assert(views(words@) =~= before.push(last));
    }
    words
}

/// The bytes as characters of their own, in UTF-8.
pub open spec fn as_characters(bytes: Seq<u8>) -> Seq<u8>
    decreases bytes.len(),
{
    if bytes.len() == 0 {
        Seq::empty()
    } else {
        as_characters(bytes.drop_last()) + vstd::utf8::encode_scalar(bytes.last() as u32)
    }
}

/// What is printed for bytes that a guest puts out: the text that they are, or else each byte as a
/// character of its own.
pub open spec fn printed(bytes: Seq<u8>) -> Seq<u8> {
    if vstd::utf8::valid_utf8(bytes) {
        bytes
    } else {
        as_characters(bytes)
    }
}

/// What is printed for bytes that a guest puts out.
pub fn print_bytes(bytes: &[u8]) -> (text: Vec<u8>)
    ensures
        text@ == printed(bytes@),
{
    let valid: bool = is_valid_utf8(bytes);
    let mut text: Vec<u8> = Vec::new();
    let mut i: usize = 0;
    while i < bytes.len()
        invariant
            i <= bytes@.len(),
            text@ == if valid {
                bytes@.take(i as int)
            } else {
                as_characters(bytes@.take(i as int))
            },
        decreases bytes@.len() - i,
    {
        let byte: u8 = bytes[i];
        assert(bytes@.take(i + 1).drop_last() =~= bytes@.take(i as int));
        if valid || byte <= 0x7F {
            proof {
                let scalar = byte as u32;
                assert(byte <= 0x7F ==> (byte as u32) & 0x7F == byte as u32) by (bit_vector);
            }
            let ghost before = text@;
            text.push(byte);
            assert(valid ==> text@ =~= bytes@.take(i + 1));
            assert(!valid ==> text@ =~= before + vstd::utf8::encode_scalar(byte as u32));
        } else {
            let scalar: u32 = byte as u32;
            let ghost before = text@;
            text.push(0xC0u8 | (((scalar >> 6) & 0x1F) as u8));
            text.push(0x80u8 | ((scalar & 0x3F) as u8));
            assert(text@ =~= before + vstd::utf8::encode_scalar(scalar));
        }
        i = i + 1;
    }
    assert(bytes@.take(i as int) =~= bytes@);
    text
}

/// The digit that a byte stands for.
pub open spec fn digit_of(byte: u8, radix: int) -> Option<int> {
    let value = if 0x30 <= byte <= 0x39 {
        byte - 0x30
    } else if 0x61 <= byte <= 0x7A {
        byte - 0x61 + 10
    } else if 0x41 <= byte <= 0x5A {
        byte - 0x41 + 10
    } else {
        radix
    };
    if value < radix {
        Some(value)
    } else {
        None
    }
}

/// The number that the digits stand for. `None` where one of them is no digit.
pub open spec fn number_of(digits: Seq<u8>, radix: int) -> Option<int>
    decreases digits.len(),
{
    if digits.len() == 0 {
        Some(0)
    } else {
        match (number_of(digits.drop_last(), radix), digit_of(digits.last(), radix)) {
            (Some(high), Some(low)) => Some(high * radix + low),
            _ => None,
        }
    }
}

/// The number that a text stands for: hexadecimal, unless its prefix says otherwise. A plus sign
/// may stand before the digits, of which there is at least one.
pub open spec fn usize_of(text: Seq<u8>) -> Option<int> {
    let prefix = if text.len() >= 2 && text[0] == 0x30 {
        text[1]
    } else {
        0
    };
    let (radix, rest) = if prefix == 0x78 {
        (16int, text.skip(2))
    } else if prefix == 0x6F {
        (8int, text.skip(2))
    } else if prefix == 0x62 {
        (2int, text.skip(2))
    } else {
        (16int, text)
    };
    let digits = if rest.len() > 0 && rest[0] == 0x2B {
        rest.skip(1)
    } else {
        rest
    };
    if digits.len() == 0 {
        None
    } else {
        match number_of(digits, radix) {
            Some(value) => if value <= usize::MAX {
                Some(value)
            } else {
                None
            },
            None => None,
        }
    }
}

/// A number is no less than that of its leading digits.
proof fn lemma_number_grows(digits: Seq<u8>, radix: int, n: int)
    requires
        0 <= n <= digits.len(),
        radix >= 2,
    ensures
        number_of(digits, radix) matches Some(value) ==> {
            &&& number_of(digits.take(n), radix) is Some
            &&& 0 <= number_of(digits.take(n), radix)->0 <= value
        },
    decreases digits.len(),
{
    if n == digits.len() {
        assert(digits.take(n) =~= digits);
        if digits.len() > 0 {
            lemma_number_grows(digits.drop_last(), radix, n - 1);
            assert(digits.drop_last().take(n - 1) =~= digits.drop_last());
            if number_of(digits, radix) is Some {
                let high = number_of(digits.drop_last(), radix)->0;
                assert(high * radix >= 0) by (nonlinear_arith)
                    requires
                        high >= 0,
                        radix >= 2,
                ;
            }
        }
    } else {
        lemma_number_grows(digits.drop_last(), radix, n);
        assert(digits.drop_last().take(n) =~= digits.take(n));
        if number_of(digits, radix) is Some {
            let high = number_of(digits.drop_last(), radix)->0;
            assert(high * radix >= high) by (nonlinear_arith)
                requires
                    high >= 0,
                    radix >= 2,
            ;
        }
    }
}

fn digit(byte: u8, radix: usize) -> (value: Option<usize>)
    requires
        2 <= radix <= 16,
    ensures
        match digit_of(byte, radix as int) {
            Some(d) => value matches Some(v) && v == d && v < radix,
            None => value is None,
        },
{
    let value: usize = if 0x30 <= byte && byte <= 0x39 {
        (byte - 0x30) as usize
    } else if 0x61 <= byte && byte <= 0x7A {
        (byte - 0x61) as usize + 10
    } else if 0x41 <= byte && byte <= 0x5A {
        (byte - 0x41) as usize + 10
    } else {
        radix
    };
    if value < radix {
        Some(value)
    } else {
        None
    }
}

/// The number in `text[start..]`.
fn read_digits(text: &[u8], start: usize, radix: usize) -> (number: Option<usize>)
    requires
        start <= text@.len(),
        2 <= radix <= 16,
    ensures
        match number_of(text@.skip(start as int), radix as int) {
            Some(value) => if value <= usize::MAX {
                number matches Some(n) && n == value
            } else {
                number is None
            },
            None => number is None,
        },
{
    let ghost digits = text@.skip(start as int);
    let mut value: usize = 0;
    let mut i: usize = start;
    assert(digits.take(0) =~= Seq::empty());
    while i < text.len()
        invariant
            start <= i <= text@.len(),
            2 <= radix <= 16,
            digits == text@.skip(start as int),
            number_of(digits.take(i - start), radix as int) == Some(value as int),
        decreases text@.len() - i,
    {
        let ghost n = i - start;
        proof {
            assert(digits.take(n + 1).drop_last() =~= digits.take(n));
            assert(digits.take(n + 1).last() == text@[i as int]);
            lemma_number_grows(digits, radix as int, n + 1);
        }
        let low: usize = match digit(text[i], radix) {
            Some(low) => low,
            None => {
                return None;
            },
        };
        value = match value.checked_mul(radix) {
            Some(high) => match high.checked_add(low) {
                Some(sum) => sum,
                None => {
                    return None;
                },
            },
            None => {
                return None;
            },
        };
        i = i + 1;
    }
    assert(digits.take(i - start) =~= digits);
    Some(value)
}

/// Reads a number, as the boot loader and the console give it. Addresses come in hexadecimal, but
/// not always with a prefix, and a decimal one never comes, so hexadecimal is the default.
pub fn str_to_usize(text: &[u8]) -> (number: Option<usize>)
    ensures
        match usize_of(text@) {
            Some(value) => number matches Some(n) && n == value,
            None => number is None,
        },
{
    let length: usize = text.len();
    let prefix: u8 = if length >= 2 && text[0] == 0x30 {
        text[1]
    } else {
        0
    };
    let (radix, rest): (usize, usize) = if prefix == 0x78 {
        (16, 2)
    } else if prefix == 0x6F {
        (8, 2)
    } else if prefix == 0x62 {
        (2, 2)
    } else {
        (16, 0)
    };
    let start: usize = if rest < length && text[rest] == 0x2B {
        rest + 1
    } else {
        rest
    };
    proof {
        assert(text@.skip(0) =~= text@);
        if start == rest + 1 {
            assert(text@.skip(rest as int).skip(1) =~= text@.skip(start as int));
        }
    }
    if start >= length {
        return None;
    }
    read_digits(text, start, radix)
}

} // verus!
