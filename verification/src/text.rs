//! Numbers and bytes as text.
use vstd::prelude::*;
use vstd::string::*;

verus! {

/// The text of one digit, with lowercase letters for ten and above.
pub open spec fn lower_digit(n: int) -> Seq<char> {
    if n == 0 { "0"@ } else if n == 1 { "1"@ } else if n == 2 { "2"@ } else if n == 3 { "3"@ }
    else if n == 4 { "4"@ } else if n == 5 { "5"@ } else if n == 6 { "6"@ }
    else if n == 7 { "7"@ } else if n == 8 { "8"@ } else if n == 9 { "9"@ }
    else if n == 10 { "a"@ } else if n == 11 { "b"@ } else if n == 12 { "c"@ }
    else if n == 13 { "d"@ } else if n == 14 { "e"@ } else { "f"@ }
}

/// The text of one digit, with capital letters for ten and above.
pub open spec fn upper_digit(n: int) -> Seq<char> {
    if n < 10 { lower_digit(n) } else if n == 10 { "A"@ } else if n == 11 { "B"@ }
    else if n == 12 { "C"@ } else if n == 13 { "D"@ } else if n == 14 { "E"@ } else { "F"@ }
}

/// A number in base ten, without leading zeros.
pub open spec fn decimal_text(n: nat) -> Seq<char>
    decreases n,
{
    if n < 10 {
        lower_digit(n as int)
    } else {
        decimal_text(n / 10) + lower_digit(n as int % 10)
    }
}

/// A number in base sixteen, in capitals and without leading zeros.
pub open spec fn hex_text(n: nat) -> Seq<char>
    decreases n,
{
    if n < 16 {
        upper_digit(n as int)
    } else {
        hex_text(n / 16) + upper_digit(n as int % 16)
    }
}

/// Bytes as two lowercase hexadecimal digits each.
pub open spec fn bytes_text(bytes: Seq<u8>) -> Seq<char>
    decreases bytes.len(),
{
    if bytes.len() == 0 {
        Seq::empty()
    } else {
        bytes_text(bytes.drop_last()) + lower_digit(bytes.last() as int / 16) + lower_digit(
            bytes.last() as int % 16,
        )
    }
}

fn lower_digit_str(n: u32) -> (digit: &'static str)
    requires
        n < 16,
    ensures
        digit@ == lower_digit(n as int),
{
    match n {
        0 => "0",
        1 => "1",
        2 => "2",
        3 => "3",
        4 => "4",
        5 => "5",
        6 => "6",
        7 => "7",
        8 => "8",
        9 => "9",
        10 => "a",
        11 => "b",
        12 => "c",
        13 => "d",
        14 => "e",
        _ => "f",
    }
}

fn upper_digit_str(n: u32) -> (digit: &'static str)
    requires
        n < 16,
    ensures
        digit@ == upper_digit(n as int),
{
    match n {
        10 => "A",
        11 => "B",
        12 => "C",
        13 => "D",
        14 => "E",
        15 => "F",
        _ => lower_digit_str(n),
    }
}

/// A number in base ten.
pub fn decimal(n: u32) -> (text: String)
    ensures
        text@ == decimal_text(n as nat),
    decreases n,
{
    let mut text: String = if n < 10 {
        String::new()
    } else {
        decimal(n / 10)
    };
    text.append(lower_digit_str(n % 10));
    assert(text@ =~= decimal_text(n as nat));
    text
}

/// A number in base sixteen, in capitals.
pub fn hex(n: u32) -> (text: String)
    ensures
        text@ == hex_text(n as nat),
    decreases n,
{
    let mut text: String = if n < 16 {
        String::new()
    } else {
        hex(n / 16)
    };
    text.append(upper_digit_str(n % 16));
    assert(text@ =~= hex_text(n as nat));
    text
}

/// Lowercase hex of a short byte prefix, for diagnostics.
pub fn hex_prefix(bytes: &[u8]) -> (text: String)
    ensures
        text@ == bytes_text(bytes@),
{
    let mut text: String = String::new();
    let mut i: usize = 0;
    assert(bytes@.take(0) =~= Seq::empty());
    while i < bytes.len()
        invariant
            i <= bytes@.len(),
            text@ == bytes_text(bytes@.take(i as int)),
        decreases bytes@.len() - i,
    {
        assert(bytes@.take(i + 1).drop_last() =~= bytes@.take(i as int));
        assert(bytes@.take(i + 1).last() == bytes@[i as int]);
        let byte: u32 = bytes[i] as u32;
        text.append(lower_digit_str(byte / 16));
        text.append(lower_digit_str(byte % 16));
        i += 1;
    }
    assert(bytes@.take(i as int) =~= bytes@);
    text
}

/// The value of a digit, written as a numeral or a letter of either case.
pub open spec fn digit_value(digit: char) -> int {
    if '0' <= digit && digit <= '9' {
        digit as int - '0' as int
    } else if 'a' <= digit && digit <= 'f' {
        10 + digit as int - 'a' as int
    } else {
        10 + digit as int - 'A' as int
    }
}

/// The number that a text says in a base.
pub open spec fn value_of(text: Seq<char>, base: int) -> int
    decreases text.len(),
{
    if text.len() == 0 {
        0
    } else {
        value_of(text.drop_last(), base) * base + digit_value(text.last())
    }
}

/// A digit in lowercase: one character, of that value.
proof fn lemma_lower_digit(n: int)
    requires
        0 <= n < 16,
    ensures
        lower_digit(n).len() == 1,
        digit_value(lower_digit(n)[0]) == n,
        lower_digit(n)[0] <= '9' || 'a' <= lower_digit(n)[0] && lower_digit(n)[0] <= 'f',
        '0' <= lower_digit(n)[0],
        n < 10 ==> lower_digit(n)[0] <= '9',
        n > 0 ==> lower_digit(n)[0] != '0',
{
    reveal_strlit("0");
    reveal_strlit("1");
    reveal_strlit("2");
    reveal_strlit("3");
    reveal_strlit("4");
    reveal_strlit("5");
    reveal_strlit("6");
    reveal_strlit("7");
    reveal_strlit("8");
    reveal_strlit("9");
    reveal_strlit("a");
    reveal_strlit("b");
    reveal_strlit("c");
    reveal_strlit("d");
    reveal_strlit("e");
    reveal_strlit("f");
}

/// A digit in capitals: one character, of that value.
proof fn lemma_upper_digit(n: int)
    requires
        0 <= n < 16,
    ensures
        upper_digit(n).len() == 1,
        digit_value(upper_digit(n)[0]) == n,
        '0' <= upper_digit(n)[0] && upper_digit(n)[0] <= 'F',
        n > 0 ==> upper_digit(n)[0] != '0',
{
    lemma_lower_digit(n);
    reveal_strlit("A");
    reveal_strlit("B");
    reveal_strlit("C");
    reveal_strlit("D");
    reveal_strlit("E");
    reveal_strlit("F");
}

/// A number in base ten says that number, in numerals alone and without a leading zero.
pub proof fn law_decimal_says_the_number(n: nat)
    ensures
        value_of(decimal_text(n), 10) == n,
        decimal_text(n).len() > 0,
        forall|i: int|
            0 <= i < decimal_text(n).len() ==> '0' <= #[trigger] decimal_text(n)[i]
                && decimal_text(n)[i] <= '9',
        n > 0 ==> decimal_text(n)[0] != '0',
    decreases n,
{
    let text = decimal_text(n);
    lemma_lower_digit(n as int % 10);
    reveal_with_fuel(value_of, 2);
    if n >= 10 {
        law_decimal_says_the_number(n / 10);
        assert(text.drop_last() =~= decimal_text(n / 10));
    } else {
        assert(text.drop_last() =~= Seq::empty());
    }
}

/// A number in base sixteen says that number, in capitals and without a leading zero.
pub proof fn law_hex_says_the_number(n: nat)
    ensures
        value_of(hex_text(n), 16) == n,
        hex_text(n).len() > 0,
        forall|i: int|
            0 <= i < hex_text(n).len() ==> '0' <= #[trigger] hex_text(n)[i] && hex_text(n)[i]
                <= 'F',
        n > 0 ==> hex_text(n)[0] != '0',
    decreases n,
{
    let text = hex_text(n);
    lemma_upper_digit(n as int % 16);
    reveal_with_fuel(value_of, 2);
    if n >= 16 {
        law_hex_says_the_number(n / 16);
        assert(text.drop_last() =~= hex_text(n / 16));
    } else {
        assert(text.drop_last() =~= Seq::empty());
    }
}

/// Bytes as text: two characters for each byte, in order, that say it in base sixteen, the
/// higher digit first and in lowercase.
pub proof fn law_bytes_say_each_byte(bytes: Seq<u8>, i: int)
    requires
        0 <= i < bytes.len(),
    ensures
        bytes_text(bytes).len() == 2 * bytes.len(),
        16 * digit_value(bytes_text(bytes)[2 * i]) + digit_value(bytes_text(bytes)[2 * i + 1])
            == bytes[i],
        '0' <= bytes_text(bytes)[2 * i + 1],
        bytes_text(bytes)[2 * i] <= '9' || 'a' <= bytes_text(bytes)[2 * i] && bytes_text(bytes)[2
            * i] <= 'f',
        bytes_text(bytes)[2 * i + 1] <= '9' || 'a' <= bytes_text(bytes)[2 * i + 1] && bytes_text(
            bytes,
        )[2 * i + 1] <= 'f',
    decreases bytes.len(),
{
    let rest = bytes.drop_last();
    lemma_lower_digit(bytes.last() as int / 16);
    lemma_lower_digit(bytes.last() as int % 16);
    if rest.len() > 0 {
        law_bytes_say_each_byte(
            rest,
            if i < rest.len() {
                i
            } else {
                0
            },
        );
    } else {
        assert(bytes_text(rest).len() == 0);
    }
}

} // verus!
