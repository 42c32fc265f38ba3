//! Numbers in decimal notation.
use vstd::prelude::*;

verus! {

/// The digit of a number below ten.
pub open spec fn digit(n: int) -> char {
    (0x30 + n) as char
}

/// A number in decimal notation, without leading zeros.
pub open spec fn decimal(n: nat) -> Seq<char>
    decreases n,
{
    if n < 10 {
        seq![digit(n as int)]
    } else {
        decimal(n / 10).push(digit((n % 10) as int))
    }
}

/// The digit of a number below ten.
fn digit_of(n: u32) -> (r: char)
    requires
        n < 10,
    ensures
        r == digit(n as int),
{
    match n {
        0 => '0',
        1 => '1',
        2 => '2',
        3 => '3',
        4 => '4',
        5 => '5',
        6 => '6',
        7 => '7',
        8 => '8',
        _ => '9',
    }
}

/// A number in decimal notation.
pub fn to_decimal(n: u32) -> (r: String)
    ensures
        r@ == decimal(n as nat),
    decreases n,
{
    let mut r = if n < 10 {
        String::new()
    } else {
        to_decimal(n / 10)
    };
    let ghost front = r@;
    r.push(digit_of(n % 10));
    proof {
        if n < 10 {
            assert(front =~= Seq::<char>::empty());
            assert(r@ =~= seq![digit(n as int)]);
        }
    }
    r
}

/// Whether a character is a decimal digit.
pub open spec fn is_digit(c: char) -> bool {
    '0' <= c <= '9'
}

/// The value of decimal digits.
pub open spec fn value(digits: Seq<char>) -> int
    decreases digits.len(),
{
    if digits.len() == 0 {
        0
    } else {
        10 * value(digits.drop_last()) + (digits.last() as int - 0x30)
    }
}

/// Whether a text is made of decimal digits, and of at least one.
pub open spec fn all_digits(s: Seq<char>) -> bool {
    s.len() > 0 && forall|i: int| 0 <= i < s.len() ==> is_digit(#[trigger] s[i])
}

/// A text without a plus sign in front.
pub open spec fn unsigned(s: Seq<char>) -> Seq<char> {
    if s.len() > 0 && s[0] == '+' {
        s.skip(1)
    } else {
        s
    }
}

/// The number that a text is the notation of, where it fits 16 bits: digits, with
/// or without a plus sign in front.
pub open spec fn number_u16(s: Seq<char>) -> Option<u16> {
    if all_digits(unsigned(s)) && value(unsigned(s)) <= u16::MAX {
        Some(value(unsigned(s)) as u16)
    } else {
        None
    }
}

/// Digits have no value below zero.
proof fn lemma_value_natural(digits: Seq<char>)
    requires
        forall|i: int| 0 <= i < digits.len() ==> is_digit(#[trigger] digits[i]),
    ensures
        0 <= value(digits),
    decreases digits.len(),
{
    if digits.len() > 0 {
        let front = digits.drop_last();
        assert forall|i: int| 0 <= i < front.len() implies is_digit(#[trigger] front[i]) by {
            assert(front[i] == digits[i]);
        }
        lemma_value_natural(front);
        assert(is_digit(digits.last()));
    }
}

/// Digits behind digits make the value no smaller.
proof fn lemma_value_grows(digits: Seq<char>, n: int)
    requires
        0 <= n <= digits.len(),
        forall|i: int| 0 <= i < digits.len() ==> is_digit(#[trigger] digits[i]),
    ensures
        value(digits.take(n)) <= value(digits),
    decreases digits.len() - n,
{
    if n == digits.len() {
        assert(digits.take(n) =~= digits);
    } else {
        lemma_value_grows(digits, n + 1);
        let more = digits.take(n + 1);
        let front = digits.take(n);
        assert(more.drop_last() =~= front);
        assert(is_digit(digits[n]));
        assert(more.last() == digits[n]);
        assert forall|i: int| 0 <= i < front.len() implies is_digit(#[trigger] front[i]) by {
            assert(front[i] == digits[i]);
        }
        lemma_value_natural(front);
    }
}

/// The number that a text is the notation of, where it fits 16 bits.
pub fn parse_u16(s: &[char]) -> (r: Option<u16>)
    ensures
        r == number_u16(s@),
{
    let start: usize = if s.len() > 0 && s[0] == '+' {
        1
    } else {
        0
    };
    let ghost digits = unsigned(s@);
    assert(digits =~= s@.skip(start as int));
    if start == s.len() {
        return None;
    }
    let mut n: u32 = 0;
    let mut i: usize = start;
    assert(digits.take(0) =~= Seq::<char>::empty());
    while i < s.len()
        invariant
            start <= i <= s@.len(),
            start <= 1,
            start < s@.len(),
            digits == s@.skip(start as int),
            digits == unsigned(s@),
            n == value(digits.take(i - start)),
            n <= u16::MAX,
            forall|j: int| 0 <= j < i - start ==> is_digit(#[trigger] digits[j]),
        decreases s@.len() - i,
    {
        let c = s[i];
        assert(digits[i - start] == c);
        if !('0' <= c && c <= '9') {
            assert(!is_digit(digits[i - start]));
            return None;
        }
        let d: u32 = c as u32 - 0x30;
        proof {
            let more = digits.take(i - start + 1);
            assert(more.drop_last() =~= digits.take(i - start));
            assert(more.last() == c);
        }
        n = 10 * n + d;
        i = i + 1;
        if n > 65535 {
            proof {
                if all_digits(digits) {
                    lemma_value_grows(digits, i - start);
                }
            }
            return None;
        }
    }
    assert(digits.take(i - start) =~= digits);
    Some(n as u16)
}

/// Reading the notation of a number gives the number back.
pub proof fn law_decimal_reads_back(n: nat)
    requires
        n <= u16::MAX,
    ensures
        number_u16(decimal(n)) == Some(n as u16),
{
    lemma_decimal(n);
    assert(is_digit(decimal(n)[0]));
}

/// The notation of a number is made of digits, and has its value.
pub proof fn lemma_decimal(n: nat)
    ensures
        decimal(n).len() > 0,
        forall|i: int| 0 <= i < decimal(n).len() ==> is_digit(#[trigger] decimal(n)[i]),
        value(decimal(n)) == n,
    decreases n,
{
    let all = decimal(n);
    if n < 10 {
        assert(all.drop_last() =~= Seq::<char>::empty());
        assert(value(all.drop_last()) == 0);
    } else {
        lemma_decimal(n / 10);
        let front = decimal(n / 10);
        assert(all.drop_last() =~= front);
        assert forall|i: int| 0 <= i < all.len() implies is_digit(#[trigger] all[i]) by {
            if i < front.len() {
                assert(all[i] == front[i]);
            }
        }
    }
}

/// Which characters are digits, and what each is worth.
pub proof fn law_digits(c: char)
    ensures
        is_digit(c) <==> c == '0' || c == '1' || c == '2' || c == '3' || c == '4' || c == '5' || c
            == '6' || c == '7' || c == '8' || c == '9',
        c == '0' ==> value(seq![c]) == 0,
        c == '1' ==> value(seq![c]) == 1,
        c == '2' ==> value(seq![c]) == 2,
        c == '3' ==> value(seq![c]) == 3,
        c == '4' ==> value(seq![c]) == 4,
        c == '5' ==> value(seq![c]) == 5,
        c == '6' ==> value(seq![c]) == 6,
        c == '7' ==> value(seq![c]) == 7,
        c == '8' ==> value(seq![c]) == 8,
        c == '9' ==> value(seq![c]) == 9,
{
    reveal_with_fuel(value, 2);
    assert(seq![c].drop_last() =~= Seq::<char>::empty());
    assert(seq![c].last() == c);
}

/// A digit behind others makes them worth ten times as much, and adds its own worth.
pub proof fn law_place_value(front: Seq<char>, c: char)
    ensures
        value(front.push(c)) == 10 * value(front) + value(seq![c]),
{
    reveal_with_fuel(value, 2);
    assert(front.push(c).drop_last() =~= front);
    assert(seq![c].drop_last() =~= Seq::<char>::empty());
    assert(seq![c].last() == c);
}

/// The notation of a number is made of digits that are worth the number, and begins
/// with no zero that could be left out.
pub proof fn law_decimal_notation(n: nat)
    ensures
        decimal(n).len() > 0,
        forall|i: int| 0 <= i < decimal(n).len() ==> '0' <= #[trigger] decimal(n)[i] <= '9',
        value(decimal(n)) == n,
        decimal(n).len() > 1 ==> decimal(n)[0] != '0',
    decreases n,
{
    lemma_decimal(n);
    assert forall|i: int| 0 <= i < decimal(n).len() implies '0' <= #[trigger] decimal(n)[i]
        <= '9' by {
        assert(is_digit(decimal(n)[i]));
    }
    if n >= 10 {
        law_decimal_notation(n / 10);
        assert(decimal(n)[0] == decimal(n / 10)[0]);
        if decimal(n / 10).len() == 1 {
            reveal_with_fuel(decimal, 2);
            assert(1 <= n / 10);
            if n / 10 >= 10 {
                lemma_decimal(n / 10 / 10);
            }
        }
    }
}

/// Two numbers have the same notation only where they are the same.
pub proof fn law_decimal_tells_numbers_apart(m: nat, n: nat)
    requires
        decimal(m) == decimal(n),
    ensures
        m == n,
{
    lemma_decimal(m);
    lemma_decimal(n);
}

/// Digits are the notation of a number of 16 bits where they are worth no more than
/// 65535, and a plus sign in front does not matter.
pub proof fn law_numbers_of_16_bits(digits: Seq<char>)
    requires
        digits.len() > 0,
        forall|i: int| 0 <= i < digits.len() ==> '0' <= #[trigger] digits[i] <= '9',
    ensures
        value(digits) <= 65535 ==> number_u16(digits) is Some && number_u16(digits)->0 == value(
            digits,
        ),
        value(digits) > 65535 ==> number_u16(digits) is None,
        number_u16(seq!['+'] + digits) == number_u16(digits),
{
    assert forall|i: int| 0 <= i < digits.len() implies is_digit(#[trigger] digits[i]) by {
        assert('0' <= digits[i] <= '9');
    }
    lemma_value_natural(digits);
    assert('0' <= digits[0] <= '9');
    assert((seq!['+'] + digits).skip(1) =~= digits);
}

/// A text that holds anything but digits behind its first character, or begins with
/// anything but a digit or a plus sign, is no number; nor is a plus sign alone, or
/// nothing.
pub proof fn law_other_texts_are_no_numbers(s: Seq<char>, i: int)
    requires
        0 <= i < s.len(),
        !('0' <= s[i] <= '9'),
        i == 0 ==> s[0] != '+' || s.len() == 1,
    ensures
        number_u16(s) is None,
        number_u16(Seq::<char>::empty()) is None,
{
    let rest = unsigned(s);
    if s[0] == '+' {
        if i > 0 {
            assert(rest[i - 1] == s[i]);
            assert(!is_digit(rest[i - 1]));
        }
    } else {
        assert(!is_digit(rest[i]));
    }
}

} // verus!
