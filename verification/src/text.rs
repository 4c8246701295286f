//! Hexadecimal and decimal text.
use vstd::prelude::*;
use vstd::string::{StrSliceExecFns, StringExecFns};

verus! {

/// The lower-case hexadecimal digit of a value below sixteen.
pub open spec fn hex_digit(n: int) -> char {
    if n < 10 {
        (('0' as int) + n) as char
    } else {
        (('a' as int) + (n - 10)) as char
    }
}

/// Two lower-case hexadecimal digits for each byte, the high half first.
pub open spec fn hex(bytes: Seq<u8>) -> Seq<char> {
    Seq::new(
        2 * bytes.len(),
        |i: int|
            if i % 2 == 0 {
                hex_digit(bytes[i / 2] as int / 16)
            } else {
                hex_digit(bytes[i / 2] as int % 16)
            },
    )
}

/// The value of a hexadecimal digit of either case, where `c` is one.
pub open spec fn digit_value(c: char) -> Option<int> {
    if '0' <= c <= '9' {
        Some(c as int - '0' as int)
    } else if 'a' <= c <= 'f' {
        Some(c as int - 'a' as int + 10)
    } else if 'A' <= c <= 'F' {
        Some(c as int - 'A' as int + 10)
    } else {
        None
    }
}

/// `n` in decimal, without leading zeros.
pub open spec fn decimal(n: nat) -> Seq<char>
    decreases n,
{
    if n < 10 {
        seq![hex_digit(n as int)]
    } else {
        decimal(n / 10).push(hex_digit((n % 10) as int))
    }
}

/// The thirty-two bytes that `text` spells in hexadecimal, if it is sixty-four
/// digits long.
pub open spec fn unhex32(text: Seq<char>) -> Option<Seq<u8>> {
    if text.len() == 64 && (forall|i: int|
        0 <= i < 64 ==> (#[trigger] digit_value(text[i])) is Some) {
        Some(
            Seq::new(
                32,
                |k: int|
                    (16 * digit_value(text[2 * k])->0 + digit_value(text[2 * k + 1])->0) as u8,
            ),
        )
    } else {
        None
    }
}

/// Hexadecimal text of thirty-two bytes reads back as those bytes.
pub proof fn unhex_of_hex(bytes: Seq<u8>)
    requires
        bytes.len() == 32,
    ensures
        unhex32(hex(bytes)) == Some(bytes),
{
    let text = hex(bytes);
    assert forall|i: int| 0 <= i < 64 implies (#[trigger] digit_value(text[i])) is Some by {
        assert(0 <= bytes[i / 2] as int / 16 < 16);
    }
    assert forall|k: int| 0 <= k < 32 implies (#[trigger] unhex32(text)->0[k]) == bytes[k] by {
        assert((2 * k) / 2 == k && (2 * k) % 2 == 0);
        assert((2 * k + 1) / 2 == k && (2 * k + 1) % 2 == 1);
        let b = bytes[k] as int;
        assert(digit_value(text[2 * k]) == Some(b / 16));
        assert(digit_value(text[2 * k + 1]) == Some(b % 16));
    }
    assert(unhex32(text)->0 =~= bytes);
}

fn push_digit(s: &mut String, n: u8)
    requires
        n < 16,
    ensures
        final(s)@ == old(s)@.push(hex_digit(n as int)),
{
    let digit = match n {
        0 => "0",
        1 => "1",
        2 => "2",
        3 => "3",
        4 => "4",
        5 => "5",
        6 => "6",
        7 => "7",
        8 => "8",
        9 => "9",
        10 => "a",
        11 => "b",
        12 => "c",
        13 => "d",
        14 => "e",
        _ => "f",
    };
    proof {
        reveal_strlit("0");
        reveal_strlit("1");
        reveal_strlit("2");
        reveal_strlit("3");
        reveal_strlit("4");
        reveal_strlit("5");
        reveal_strlit("6");
        reveal_strlit("7");
        reveal_strlit("8");
        reveal_strlit("9");
        reveal_strlit("a");
        reveal_strlit("b");
        reveal_strlit("c");
        reveal_strlit("d");
        reveal_strlit("e");
        reveal_strlit("f");
        assert(digit@ =~= seq![hex_digit(n as int)]);
        assert(s@ + digit@ =~= s@.push(hex_digit(n as int)));
    }
    s.append(digit);
}

/// The bytes in lower-case hexadecimal.
pub fn to_hex(bytes: &[u8]) -> (r: String)
    ensures
        r@ == hex(bytes@),
{
    let mut s = String::new();
    for i in 0..bytes.len()
        invariant
            s@ == hex(bytes@.take(i as int)),
    {
        let b = bytes[i];
        push_digit(&mut s, b / 16);
        push_digit(&mut s, b % 16);
        assert(s@ =~= hex(bytes@.take(i + 1)));
    }
    assert(bytes@.take(bytes@.len() as int) =~= bytes@);
    s
}

/// Appends `n` in decimal.
pub fn push_decimal(s: &mut String, n: u64)
    ensures
        final(s)@ == old(s)@ + decimal(n as nat),
    decreases n,
{
    if n >= 10 {
        push_decimal(s, n / 10);
    }
    push_digit(s, (n % 10) as u8);
    assert(s@ =~= old(s)@ + decimal(n as nat));
}

/// The value of a hexadecimal digit of either case, if `c` is one.
fn hex_value(c: char) -> (r: Option<u8>)
    ensures
        match r {
            Some(v) => digit_value(c) == Some(v as int) && v < 16,
            None => digit_value(c) is None,
        },
{
    if '0' <= c && c <= '9' {
        Some((c as u32 - '0' as u32) as u8)
    } else if 'a' <= c && c <= 'f' {
        Some((c as u32 - 'a' as u32 + 10) as u8)
    } else if 'A' <= c && c <= 'F' {
        Some((c as u32 - 'A' as u32 + 10) as u8)
    } else {
        None
    }
}

/// Reads thirty-two bytes from sixty-four hexadecimal digits.
pub fn from_hex32(text: &str) -> (r: Option<[u8; 32]>)
    ensures
        match r {
            Some(bytes) => unhex32(text@) == Some(bytes@),
            None => unhex32(text@) is None,
        },
{
    if text.unicode_len() != 64 {
        return None;
    }
    let mut bytes: [u8; 32] = [0; 32];
    for k in 0..32usize
        invariant
            text@.len() == 64,
            forall|i: int| 0 <= i < 2 * k ==> (#[trigger] digit_value(text@[i])) is Some,
            forall|j: int|
                0 <= j < k ==> #[trigger] bytes@[j] == (16 * digit_value(text@[2 * j])->0
                    + digit_value(text@[2 * j + 1])->0) as u8,
    {
        let high = hex_value(text.get_char(2 * k));
        let low = hex_value(text.get_char(2 * k + 1));
        match (high, low) {
            (Some(h), Some(l)) => {
                bytes[k] = 16 * h + l;
            },
            _ => {
                assert(digit_value(text@[2 * k]) is None || digit_value(text@[2 * k + 1]) is None);
                return None;
            },
        }
    }
    assert(unhex32(text@)->0 =~= bytes@);
    Some(bytes)
}

} // verus!
