//! Unsigned numbers as text: decimal, read and written, and the hexadecimal
//! sizes of transfer chunks.
use vstd::prelude::*;
use vstd::string::*;

verus! {

// ---------------------------------------------------------------------------
// Reading decimal numbers
// ---------------------------------------------------------------------------
/// `c` is one of the digits `0` to `9`.
pub open spec fn is_digit(c: char) -> bool {
    '0' <= c <= '9'
}

/// `s` holds digits only.
pub open spec fn all_digits(s: Seq<char>) -> bool {
    forall|k: int| 0 <= k < s.len() ==> is_digit(#[trigger] s[k])
}

/// The number that a sequence of digits writes down.
pub open spec fn digits_value(s: Seq<char>) -> nat
    decreases s.len(),
{
    if s.len() == 0 {
        0
    } else {
        digits_value(s.drop_last()) * 10 + (s.last() as u32 - '0' as u32) as nat
    }
}

/// `s` without the plus sign that may stand before a number.
pub open spec fn strip_plus(s: Seq<char>) -> Seq<char> {
    if s.len() > 0 && s[0] == '+' {
        s.drop_first()
    } else {
        s
    }
}

/// The number that `s` writes down: an optional plus sign and then one digit or
/// more, nothing else, for a number of at most `max`.
pub open spec fn parse_unsigned(s: Seq<char>, max: nat) -> Option<nat> {
    let d = strip_plus(s);
    if d.len() > 0 && all_digits(d) && digits_value(d) <= max {
        Some(digits_value(d))
    } else {
        None
    }
}

/// The value of an optional machine number.
pub open spec fn opt_nat(n: Option<u64>) -> Option<nat> {
    match n {
        Some(n) => Some(n as nat),
        None => None,
    }
}

/// A longer sequence of digits writes down no smaller number.
proof fn lemma_digits_value_grows(s: Seq<char>, n: int)
    requires
        0 <= n <= s.len(),
    ensures
        digits_value(s.take(n)) <= digits_value(s),
    decreases s.len(),
{
    if n == s.len() {
        assert(s.take(n) =~= s);
    } else {
        lemma_digits_value_grows(s.drop_last(), n);
        assert(s.drop_last().take(n) =~= s.take(n));
    }
}

/// Reads the number that `v[from..to]` writes down, as `str::parse` does for an
/// unsigned type whose largest value is `max`.
pub(crate) fn read_unsigned(v: &Vec<char>, from: usize, to: usize, max: u64) -> (r: Option<u64>)
    requires
        from <= to <= v.len(),
    ensures
        opt_nat(r) == parse_unsigned(v@.subrange(from as int, to as int), max as nat),
{
    let ghost s = v@.subrange(from as int, to as int);
    let start: usize = if from < to && v[from] == '+' {
        from + 1
    } else {
        from
    };
    let ghost d = strip_plus(s);
    assert(d =~= v@.subrange(start as int, to as int));
    if start == to {
        return None;
    }
    let mut n: u64 = 0;
    let mut i: usize = start;
    assert(d.take(0).len() == 0);
    while i < to
        invariant
            from <= start <= i <= to <= v.len(),
            s == v@.subrange(from as int, to as int),
            d == strip_plus(s),
            d == v@.subrange(start as int, to as int),
            n == digits_value(d.take(i - start)),
            n <= max,
            all_digits(d.take(i - start)),
        decreases to - i,
    {
        let c: char = v[i];
        let ghost t = d.take(i - start + 1);
        assert(t.drop_last() =~= d.take(i - start));
        assert(t.last() == c);
        assert(d[i - start] == c);
        if c < '0' || c > '9' {
            assert(!all_digits(d));
            return None;
        }
        let digit: u64 = c as u64 - '0' as u64;
        proof {
            lemma_digits_value_grows(d, i - start + 1);
            assert(digits_value(t) == n * 10 + digit);
        }
        if n > max / 10 || digit > max - n * 10 {
            return None;
        }
        assert forall|k: int| 0 <= k < t.len() implies is_digit(#[trigger] t[k]) by {
            if k < i - start {
                assert(t[k] == d.take(i - start)[k]);
            }
        }
        n = n * 10 + digit;
        i = i + 1;
    }
    assert(d.take(to - start) =~= d);
    Some(n)
}

// ---------------------------------------------------------------------------
// Writing decimal numbers
// ---------------------------------------------------------------------------
/// The digit that stands for `n`, for `n` below 10.
pub open spec fn digit(n: nat) -> char {
    ('0' as u32 + n) as char
}

/// `n` in decimal, without leading zeros.
pub open spec fn decimal(n: nat) -> Seq<char>
    decreases n,
{
    if n < 10 {
        seq![digit(n)]
    } else {
        decimal(n / 10).push(digit(n % 10))
    }
}

/// The text of a single digit.
fn digit_text(n: u64) -> (r: &'static str)
    requires
        n < 10,
    ensures
        r@ == seq![digit(n as nat)],
{
    proof {
        reveal_strlit("0");
        reveal_strlit("1");
        reveal_strlit("2");
        reveal_strlit("3");
        reveal_strlit("4");
        reveal_strlit("5");
        reveal_strlit("6");
        reveal_strlit("7");
        reveal_strlit("8");
        reveal_strlit("9");
    }
    if n == 0 {
        "0"
    } else if n == 1 {
        "1"
    } else if n == 2 {
        "2"
    } else if n == 3 {
        "3"
    } else if n == 4 {
        "4"
    } else if n == 5 {
        "5"
    } else if n == 6 {
        "6"
    } else if n == 7 {
        "7"
    } else if n == 8 {
        "8"
    } else {
        "9"
    }
}

/// Writes `n` in decimal.
pub fn to_decimal(n: u64) -> (r: String)
    ensures
        r@ == decimal(n as nat),
    decreases n,
{
    if n < 10 {
        String::from_str(digit_text(n))
    } else {
        let mut s: String = to_decimal(n / 10);
        s.append(digit_text(n % 10));
        s
    }
}

/// A decimal number holds digits only, one at least, and writes down the number
/// that it was made from.
pub(crate) proof fn lemma_decimal(n: nat)
    ensures
        decimal(n).len() > 0,
        all_digits(decimal(n)),
        digits_value(decimal(n)) == n,
    decreases n,
{
    if n < 10 {
        let s = decimal(n);
        assert(s.drop_last() =~= Seq::<char>::empty());
        assert(digits_value(s.drop_last()) == 0);
    } else {
        lemma_decimal(n / 10);
        let s = decimal(n);
        assert(s.drop_last() =~= decimal(n / 10));
        assert forall|k: int| 0 <= k < s.len() implies is_digit(#[trigger] s[k]) by {
            if k < s.len() - 1 {
                assert(s[k] == decimal(n / 10)[k]);
            }
        }
    }
}

/// A number written in decimal reads back as itself, wherever the type read
/// into can hold it.
pub proof fn law_decimal_reads_back(n: nat, max: nat)
    requires
        n <= max,
    ensures
        parse_unsigned(decimal(n), max) == Some(n),
{
    lemma_decimal(n);
    assert(is_digit(decimal(n)[0]));
}

// ---------------------------------------------------------------------------
// Hexadecimal sizes
// ---------------------------------------------------------------------------
/// The lower-case hexadecimal digit that stands for `n`, for `n` below 16.
pub open spec fn hex_digit(n: nat) -> u8 {
    if n < 10 {
        (0x30 + n) as u8
    } else {
        (0x61 + n - 10) as u8
    }
}

/// `n` in hexadecimal, as bytes, without leading zeros.
pub open spec fn hex(n: nat) -> Seq<u8>
    decreases n,
{
    if n < 16 {
        seq![hex_digit(n)]
    } else {
        hex(n / 16).push(hex_digit(n % 16))
    }
}

/// `b` is a lower-case hexadecimal digit.
pub open spec fn is_hex_digit(b: u8) -> bool {
    0x30 <= b <= 0x39 || 0x61 <= b <= 0x66
}

/// The value of a hexadecimal digit.
pub open spec fn hex_digit_value(b: u8) -> nat {
    if b <= 0x39 {
        (b - 0x30) as nat
    } else {
        (b - 0x61 + 10) as nat
    }
}

/// The number that a sequence of hexadecimal digits writes down.
pub open spec fn hex_value(s: Seq<u8>) -> nat
    decreases s.len(),
{
    if s.len() == 0 {
        0
    } else {
        hex_value(s.drop_last()) * 16 + hex_digit_value(s.last())
    }
}

/// Writes `n` in lower-case hexadecimal.
pub fn to_hex(n: u64) -> (r: Vec<u8>)
    ensures
        r@ == hex(n as nat),
    decreases n,
{
    let low: u64 = n % 16;
    let d: u8 = if low < 10 {
        (0x30 + low) as u8
    } else {
        (0x61 + (low - 10)) as u8
    };
    let mut s: Vec<u8> = if n < 16 {
        Vec::new()
    } else {
        to_hex(n / 16)
    };
    s.push(d);
    assert(n < 16 ==> s@ =~= hex(n as nat));
    s
}

/// A number written in hexadecimal holds hexadecimal digits only, one at least,
/// reads back as itself, and starts with no zero unless it is zero.
pub proof fn law_hex_reads_back(n: nat)
    ensures
        hex(n).len() > 0,
        forall|k: int| 0 <= k < hex(n).len() ==> is_hex_digit(#[trigger] hex(n)[k]),
        hex_value(hex(n)) == n,
        n > 0 ==> hex(n)[0] != 0x30,
    decreases n,
{
    if n < 16 {
        let s = hex(n);
        assert(s.drop_last() =~= Seq::<u8>::empty());
        assert(hex_value(s.drop_last()) == 0);
    } else {
        law_hex_reads_back(n / 16);
        let s = hex(n);
        assert(s.drop_last() =~= hex(n / 16));
        assert forall|k: int| 0 <= k < s.len() implies is_hex_digit(#[trigger] s[k]) by {
            if k < s.len() - 1 {
                assert(s[k] == hex(n / 16)[k]);
            }
        }
        assert(s[0] == hex(n / 16)[0]);
    }
}

/// The digits of decimal and hexadecimal numbers, smallest first.
pub open spec fn numerals() -> Seq<char> {
    seq!['0', '1', '2', '3', '4', '5', '6', '7', '8', '9', 'a', 'b', 'c', 'd', 'e', 'f']
}

/// A number below ten is written as its one digit, and one more digit at the end
/// makes ten times the number and the digit of it. This says of every number how
/// it is written in decimal.
pub proof fn law_decimal_grows(n: nat, d: nat)
    requires
        d < 10,
    ensures
        decimal(d) == seq![numerals()[d as int]],
        n > 0 ==> decimal(10 * n + d) == decimal(n).push(numerals()[d as int]),
{
    let m = 10 * n + d;
    assert(m / 10 == n && m % 10 == d);
    assert(digit(d) == numerals()[d as int]) by {
        if d < 5 {
            assert(d == 0 || d == 1 || d == 2 || d == 3 || d == 4);
        } else {
            assert(d == 5 || d == 6 || d == 7 || d == 8 || d == 9);
        }
    }
}

/// A number below sixteen is written as its one digit, and one more digit at the
/// end makes sixteen times the number and the digit of it. This says of every
/// number how it is written in hexadecimal.
pub proof fn law_hex_grows(n: nat, d: nat)
    requires
        d < 16,
    ensures
        hex(d) == seq![numerals()[d as int] as u8],
        n > 0 ==> hex(16 * n + d) == hex(n).push(numerals()[d as int] as u8),
{
    let m = 16 * n + d;
    assert(m / 16 == n && m % 16 == d);
    assert(hex_digit(d) == numerals()[d as int] as u8) by {
        if d < 8 {
            assert(d == 0 || d == 1 || d == 2 || d == 3 || d == 4 || d == 5 || d == 6 || d == 7);
        } else {
            assert(d == 8 || d == 9 || d == 10 || d == 11 || d == 12 || d == 13 || d == 14 || d
                == 15);
        }
    }
}

/// How a number is read, from its first character on: a single digit reads as
/// itself, each further digit makes ten times what was read before and the digit
/// of it, as long as that is not too large, a plus sign at the start changes
/// nothing, and any other character spoils the number.
pub proof fn law_number_is_read(s: Seq<char>, d: nat, c: char, max: nat)
    requires
        d < 10,
        !('0' <= c <= '9'),
    ensures
        parse_unsigned(Seq::empty(), max) is None,
        parse_unsigned(seq![numerals()[d as int]], max) == (if d <= max {
            Some(d)
        } else {
            None
        }),
        parse_unsigned(seq!['+', numerals()[d as int]], max) == (if d <= max {
            Some(d)
        } else {
            None
        }),
        s.len() > 0 && s != seq!['+'] ==> parse_unsigned(s.push(numerals()[d as int]), max) == (
        match parse_unsigned(s, max) {
            Some(n) if 10 * n + d <= max => Some(10 * n + d),
            _ => None,
        }),
        parse_unsigned(s.push(c), max) is None,
{
    let x = numerals()[d as int];
    law_decimal_grows(0, d);
    lemma_decimal(d);
    assert(decimal(d) == seq![x]);
    assert(is_digit(decimal(d)[0]));
    assert(digits_value(seq![x]) == d);
    assert(strip_plus(seq![x]) =~= seq![x]);
    assert(strip_plus(seq!['+', x]) =~= seq![x]);
    if s.len() > 0 && s != seq!['+'] {
        let t = strip_plus(s);
        let u = t.push(x);
        assert(s.len() == 1 ==> s =~= seq![s[0]]);
        assert(t.len() > 0);
        assert(strip_plus(s.push(x)) =~= u);
        assert(u.drop_last() =~= t);
        assert(x as u32 - '0' as u32 == d) by {
            assert(seq![x].drop_last() =~= Seq::<char>::empty());
            assert(digits_value(seq![x].drop_last()) == 0);
        }
        assert(digits_value(u) == digits_value(t) * 10 + d);
        assert(all_digits(u) == all_digits(t)) by {
            if all_digits(t) {
                assert forall|k: int| 0 <= k < u.len() implies is_digit(#[trigger] u[k]) by {
                    if k < t.len() {
                        assert(u[k] == t[k]);
                    }
                }
            }
            if all_digits(u) {
                assert forall|k: int| 0 <= k < t.len() implies is_digit(#[trigger] t[k]) by {
                    assert(u[k] == t[k]);
                }
            }
        }
    }
    let w = s.push(c);
    let v = strip_plus(w);
    if v.len() > 0 {
        assert(v[v.len() - 1] == c);
        assert(!is_digit(v[v.len() - 1]));
    }
}

/// An optional number stands for itself.
pub proof fn law_opt_nat(n: u64)
    ensures
        opt_nat(Some(n)) == Some(n as nat),
        opt_nat(None) is None,
{
}

} // verus!
