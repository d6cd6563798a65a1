//! Decimal text: how numbers are written into messages and read from arguments.

use vstd::prelude::*;

verus! {

/// The character for one decimal digit.
pub open spec fn digit_char(d: nat) -> char {
    (48 + d) as char
}

/// The decimal digits of a natural number, most significant first, without leading zeros.
pub open spec fn digits(n: nat) -> Seq<char>
    decreases n,
{
    if n < 10 {
        seq![digit_char(n)]
    } else {
        digits(n / 10).push(digit_char(n % 10))
    }
}

/// The decimal text of an integer, with a leading `-` when it is negative.
pub open spec fn decimal(n: int) -> Seq<char> {
    if n < 0 {
        seq!['-'] + digits((-n) as nat)
    } else {
        digits(n as nat)
    }
}

/// The one-character string for a digit.
fn digit_str(d: u64) -> (s: &'static str)
    requires
        d < 10,
    ensures
        s@ == seq![digit_char(d as nat)],
{
    proof {
        reveal_strlit("0");
        reveal_strlit("1");
        reveal_strlit("2");
        reveal_strlit("3");
        reveal_strlit("4");
        reveal_strlit("5");
        reveal_strlit("6");
        reveal_strlit("7");
        reveal_strlit("8");
        reveal_strlit("9");
    }
    if d == 0 {
        "0"
    } else if d == 1 {
        "1"
    } else if d == 2 {
        "2"
    } else if d == 3 {
        "3"
    } else if d == 4 {
        "4"
    } else if d == 5 {
        "5"
    } else if d == 6 {
        "6"
    } else if d == 7 {
        "7"
    } else if d == 8 {
        "8"
    } else {
        "9"
    }
}

/// Appends the decimal digits of `n`.
pub fn push_digits(out: &mut String, n: u64)
    ensures
        final(out)@ == old(out)@ + digits(n as nat),
    decreases n,
{
    if n >= 10 {
        push_digits(out, n / 10);
    }
    out.append(digit_str(n % 10));
}

/// Appends the decimal text of `n`.
pub fn push_decimal(out: &mut String, n: i64)
    ensures
        final(out)@ == old(out)@ + decimal(n as int),
{
    if n < 0 {
        proof {
            reveal_strlit("-");
        }
        out.append("-");
        let magnitude: u64 = (-(n + 1)) as u64 + 1;
        push_digits(out, magnitude);
    } else {
        push_digits(out, n as u64);
    }
}

/// Whether a character is a decimal digit.
pub open spec fn is_digit(c: char) -> bool {
    '0' <= c <= '9'
}

/// The number that digits spell.
pub open spec fn digits_value(s: Seq<char>) -> int
    decreases s.len(),
{
    if s.len() == 0 {
        0
    } else {
        digits_value(s.drop_last()) * 10 + (s.last() as int - '0' as int)
    }
}

/// The digits of a number as they may be written: behind a `+`, or bare.
pub open spec fn unsigned_digits(s: Seq<char>) -> Seq<char> {
    if s.len() > 0 && s[0] == '+' {
        s.skip(1)
    } else {
        s
    }
}

/// The unsigned number that a text spells, if it spells one that is at most `max`: digits only,
/// at least one, optionally behind a `+`.
pub open spec fn unsigned_value(s: Seq<char>, max: nat) -> Option<nat> {
    let d = unsigned_digits(s);
    if d.len() > 0 && (forall|i: int| 0 <= i < d.len() ==> is_digit(#[trigger] d[i]))
        && digits_value(d) <= max {
        Some(digits_value(d) as nat)
    } else {
        None
    }
}

/// More digits never spell a smaller number.
proof fn lemma_more_digits(s: Seq<char>, upto: int)
    requires
        0 <= upto <= s.len(),
        forall|i: int| 0 <= i < s.len() ==> is_digit(#[trigger] s[i]),
    ensures
        0 <= digits_value(s.take(upto)) <= digits_value(s),
    decreases s.len(), s.len() - upto,
{
    if upto == s.len() {
        assert(s.take(upto) =~= s);
        if s.len() > 0 {
            lemma_more_digits(s.drop_last(), s.len() - 1);
            assert(s.drop_last().take(s.len() - 1) =~= s.drop_last());
            assert(is_digit(s[s.len() - 1]));
        }
    } else {
        assert(s.take(upto) =~= s.drop_last().take(upto));
        lemma_more_digits(s.drop_last(), upto);
        assert(is_digit(s[s.len() - 1]));
    }
}

/// Reads an unsigned number that is at most `max`.
pub fn parse_unsigned(s: &str, max: u64) -> (value: Option<u64>)
    ensures
        match unsigned_value(s@, max as nat) {
            Some(n) => value matches Some(v) && v == n && v <= max,
            None => value is None,
        },
{
    let len: usize = s.unicode_len();
    let first: usize = if len > 0 && s.get_char(0) == '+' {
        1
    } else {
        0
    };
    let ghost d: Seq<char> = unsigned_digits(s@);
    assert(d =~= s@.skip(first as int));
    if first == len {
        return None;
    }
    let mut value: u64 = 0;
    let mut i: usize = first;
    assert(d.take(0) =~= Seq::empty());
    while i < len
        invariant
            first <= i <= len,
            len == s@.len(),
            first < len,
            d == s@.skip(first as int),
            d == unsigned_digits(s@),
            forall|j: int| 0 <= j < i - first ==> is_digit(#[trigger] d[j]),
            value == digits_value(d.take(i - first)),
            value <= max,
        decreases len - i,
    {
        let c: char = s.get_char(i);
        assert(c == d[i - first]);
        if !('0' <= c && c <= '9') {
            return None;
        }
        let digit: u64 = c as u64 - '0' as u64;
        assert(d.take(i - first + 1).drop_last() =~= d.take(i - first));
        if digit > max || value > (max - digit) / 10 {
            proof {
                assert(digits_value(d.take(i - first + 1)) > max);
                if forall|j: int| 0 <= j < d.len() ==> is_digit(#[trigger] d[j]) {
                    lemma_more_digits(d, i - first + 1);
                }
            }
            return None;
        }
        value = value * 10 + digit;
        i = i + 1;
    }
    assert(d.take(len - first) =~= d);
    Some(value)
}

/// Reads a flag: `true` is the only text that sets it.
pub fn parse_flag(s: &str) -> (flag: bool)
    ensures
        flag == (s@ == "true"@),
{
    s.to_owned() == "true".to_owned()
}

/// Digits are read back as the number they were written for.
pub proof fn law_digits_are_read_back(n: nat, max: nat)
    requires
        n <= max,
    ensures
        unsigned_value(digits(n), max) == Some(n),
{
    lemma_digits(n);
    assert(is_digit(digits(n)[0]));
}

/// What digits are made of, and what they spell.
proof fn lemma_digits(n: nat)
    ensures
        digits(n).len() > 0,
        forall|i: int| 0 <= i < digits(n).len() ==> is_digit(#[trigger] digits(n)[i]),
        digits_value(digits(n)) == n,
    decreases n,
{
    if n >= 10 {
        lemma_digits(n / 10);
        assert(digits(n).drop_last() =~= digits(n / 10));
    } else {
        assert(digits(n).drop_last() =~= Seq::empty());
        assert(digits_value(Seq::<char>::empty()) == 0);
    }
    assert(digits(n).last() == digit_char(n % 10));
}

/// The digits of a number are its decimal places: counted from the last one, digit `k` is how
/// often the `k`th power of ten goes into it, less the whole tens. There are as many as the number
/// needs and no more.
pub proof fn law_digits_are_the_decimal_places(n: nat)
    ensures
        digits(n).len() > 0,
        forall|k: int|
            0 <= k < digits(n).len() ==> #[trigger] digits(n)[digits(n).len() - 1 - k] as int
                == '0' as int + (n as int / vstd::arithmetic::power::pow(10, k as nat)) % 10,
        n < vstd::arithmetic::power::pow(10, digits(n).len()),
        digits(n).len() > 1 ==> n >= vstd::arithmetic::power::pow(
            10,
            (digits(n).len() - 1) as nat,
        ),
    decreases n,
{
    let all = digits(n);
    vstd::arithmetic::power::lemma_pow0(10);
    vstd::arithmetic::power::lemma_pow1(10);
    if n >= 10 {
        let tens = n / 10;
        law_digits_are_the_decimal_places(tens);
        let before = digits(tens);
        assert(all =~= before.push(digit_char(n % 10)));
        assert forall|k: int| 0 <= k < all.len() implies #[trigger] all[all.len() - 1 - k] as int
            == '0' as int + (n as int / vstd::arithmetic::power::pow(10, k as nat)) % 10 by {
            if k > 0 {
                let p = vstd::arithmetic::power::pow(10, (k - 1) as nat);
                vstd::arithmetic::power::lemma_pow_positive(10, (k - 1) as nat);
                vstd::arithmetic::power::lemma_pow_adds(10, 1, (k - 1) as nat);
                vstd::arithmetic::div_mod::lemma_div_denominator(n as int, 10, p);
                assert(all[all.len() - 1 - k] == before[before.len() - 1 - (k - 1)]);
            }
        }
        let q = vstd::arithmetic::power::pow(10, before.len());
        vstd::arithmetic::power::lemma_pow_adds(10, 1, before.len());
        if before.len() > 1 {
            vstd::arithmetic::power::lemma_pow_adds(10, 1, (before.len() - 1) as nat);
        }
    }
}

/// A negative number is written as a minus sign and the number without it; any other without a
/// sign.
pub proof fn law_negative_numbers_have_a_sign(n: nat)
    ensures
        decimal(n as int) == digits(n),
        n > 0 ==> decimal(-(n as int)) == seq!['-'] + digits(n),
{
}

/// No digits spell zero, and one more digit spells ten times the number and that digit.
pub proof fn law_a_further_digit_counts_ten_times_what_came_before(s: Seq<char>, c: char)
    ensures
        digits_value(Seq::empty()) == 0,
        digits_value(s.push(c)) == 10 * digits_value(s) + (c as int - '0' as int),
{
    assert(s.push(c).drop_last() =~= s);
}

/// A text is an unsigned number exactly if it is one or more of the ten digits, which may stand
/// behind one plus sign, and the number that the digits spell is not too large.
pub proof fn law_what_an_unsigned_number_is(d: Seq<char>, max: nat)
    requires
        d.len() > 0 ==> d[0] != '+',
    ensures
        unsigned_value(seq!['+'] + d, max) == unsigned_value(d, max),
        unsigned_value(d, max) is Some <==> {
            &&& d.len() > 0
            &&& forall|i: int| 0 <= i < d.len() ==> '0' <= #[trigger] d[i] <= '9'
            &&& digits_value(d) <= max
        },
        unsigned_value(d, max) matches Some(n) ==> n == digits_value(d),
        unsigned_value(seq!['+', '+'] + d, max) is None,
{
    assert((seq!['+'] + d).skip(1) =~= d);
    let twice = seq!['+', '+'] + d;
    assert(twice.skip(1)[0] == '+');
    assert(forall|i: int| 0 <= i < d.len() ==> (is_digit(#[trigger] d[i]) <==> '0' <= d[i] <= '9'));
    if unsigned_value(d, max) is Some {
        lemma_more_digits(d, 0);
        assert(d.take(0) =~= Seq::empty());
    }
}

} // verus!
