//! Decimal text of unsigned integers: how a number is written out, and how
//! typed text is read back as a number, with the same outcomes as the
//! standard library's `usize::to_string` and `str::parse::<usize>`.
use vstd::prelude::*;
use vstd::arithmetic::div_mod::lemma_fundamental_div_mod;

verus! {

/// Why a text is not the decimal form of a `usize`.
#[derive(Clone, Copy, Debug, PartialEq, Eq, Structural)]
pub enum IntErrorKind {
    /// The text is empty.
    Empty,
    /// The text holds a character that is not a decimal digit.
    InvalidDigit,
    /// The number is larger than `usize::MAX`.
    PosOverflow,
}

/// The digit character for a value below ten.
pub open spec fn digit_char(d: nat) -> char {
    ((d + '0' as nat) as u32) as char
}

/// Whether `c` is one of the ASCII digits `0` to `9`.
pub open spec fn is_digit(c: char) -> bool {
    '0' <= c <= '9'
}

/// The value of a digit character.
pub open spec fn digit_value(c: char) -> nat {
    (c as nat - '0' as nat) as nat
}

/// The shortest decimal form of `n`: no sign, no leading zeros.
pub open spec fn decimal(n: nat) -> Seq<char>
    decreases n,
{
    if n < 10 {
        seq![digit_char(n)]
    } else {
        decimal(n / 10).push(digit_char(n % 10))
    }
}

/// Reads `digits` from left to right: the first character that is not a digit
/// gives `InvalidDigit`, unless the digits before it already exceed
/// `usize::MAX`, which gives `PosOverflow`.
pub open spec fn digits_value(digits: Seq<char>) -> Result<nat, IntErrorKind>
    decreases digits.len(),
{
    if digits.len() == 0 {
        Ok(0)
    } else {
        match digits_value(digits.drop_last()) {
            Err(e) => Err(e),
            Ok(v) => if !is_digit(digits.last()) {
                Err(IntErrorKind::InvalidDigit)
            } else if v * 10 + digit_value(digits.last()) > usize::MAX {
                Err(IntErrorKind::PosOverflow)
            } else {
                Ok(v * 10 + digit_value(digits.last()))
            },
        }
    }
}

/// What reading `s` as a `usize` gives: empty text is refused, a single
/// leading `+` is allowed before at least one digit, and the rest is read by
/// `digits_value`.
pub open spec fn parse_usize_spec(s: Seq<char>) -> Result<usize, IntErrorKind> {
    if s.len() == 0 {
        Err(IntErrorKind::Empty)
    } else if s[0] == '+' && s.len() == 1 {
        Err(IntErrorKind::InvalidDigit)
    } else {
        let digits = if s[0] == '+' { s.drop_first() } else { s };
        match digits_value(digits) {
            Ok(v) => Ok(v as usize),
            Err(e) => Err(e),
        }
    }
}

/// The text of one digit.
fn digit_str(d: usize) -> (s: &'static str)
    requires
        d < 10,
    ensures
        s@ == seq![digit_char(d as nat)],
{
    proof {
        reveal_strlit("0");
        reveal_strlit("1");
        reveal_strlit("2");
        reveal_strlit("3");
        reveal_strlit("4");
        reveal_strlit("5");
        reveal_strlit("6");
        reveal_strlit("7");
        reveal_strlit("8");
        reveal_strlit("9");
    }
    if d == 0 {
        "0"
    } else if d == 1 {
        "1"
    } else if d == 2 {
        "2"
    } else if d == 3 {
        "3"
    } else if d == 4 {
        "4"
    } else if d == 5 {
        "5"
    } else if d == 6 {
        "6"
    } else if d == 7 {
        "7"
    } else if d == 8 {
        "8"
    } else {
        "9"
    }
}

/// Writes `n` in decimal, as `n.to_string()` does.
pub fn usize_to_decimal(n: usize) -> (s: String)
    ensures
        s@ == decimal(n as nat),
    decreases n,
{
    if n < 10 {
        String::from_str(digit_str(n))
    } else {
        let mut s = usize_to_decimal(n / 10);
        s.append(digit_str(n % 10));
        s
    }
}

/// Once a prefix of the digits is refused, the whole text is refused the
/// same way.
proof fn lemma_refusal_extends(digits: Seq<char>, k: int)
    requires
        0 <= k <= digits.len(),
        digits_value(digits.subrange(0, k)) is Err,
    ensures
        digits_value(digits) == digits_value(digits.subrange(0, k)),
    decreases digits.len() - k,
{
    if k < digits.len() {
        assert(digits.subrange(0, k + 1).drop_last() =~= digits.subrange(0, k));
        lemma_refusal_extends(digits, k + 1);
    } else {
        assert(digits.subrange(0, k) =~= digits);
    }
}

/// `v * 10 + d` exceeds `max` exactly when `v` exceeds `(max - d) / 10`.
proof fn lemma_overflow_test(v: int, d: int, max: int)
    requires
        0 <= v,
        0 <= d <= 9,
        d <= max,
    ensures
        (v * 10 + d > max) <==> (v > (max - d) / 10),
{
    let q = (max - d) / 10;
    let r = (max - d) % 10;
    lemma_fundamental_div_mod(max - d, 10);
    assert(0 <= r < 10);
    if v > q {
        assert(v * 10 >= q * 10 + 10) by (nonlinear_arith)
            requires
                v >= q + 1,
        ;
    } else {
        assert(v * 10 <= q * 10) by (nonlinear_arith)
            requires
                v <= q,
        ;
    }
}

/// Reads `s` as a `usize`, as `s.parse::<usize>()` does, and says why when
/// it cannot.
pub fn parse_usize(s: &str) -> (res: Result<usize, IntErrorKind>)
    ensures
        res == parse_usize_spec(s@),
{
    let n = s.unicode_len();
    if n == 0 {
        return Err(IntErrorKind::Empty);
    }
    let first = s.get_char(0);
    if first == '+' && n == 1 {
        return Err(IntErrorKind::InvalidDigit);
    }
    let start: usize = if first == '+' { 1 } else { 0 };
    let ghost digits: Seq<char> = if first == '+' { s@.drop_first() } else { s@ };
    assert(digits =~= s@.subrange(start as int, n as int));
    assert(digits.subrange(0, 0) =~= Seq::<char>::empty());
    let mut value: usize = 0;
    let mut i: usize = start;
    while i < n
        invariant
            start <= i <= n,
            n == s@.len(),
            n > 0,
            !(s@[0] == '+' && n == 1),
            digits == (if s@[0] == '+' { s@.drop_first() } else { s@ }),
            digits == s@.subrange(start as int, n as int),
            digits_value(digits.subrange(0, i - start)) == Ok::<nat, IntErrorKind>(value as nat),
        decreases n - i,
    {
        let c = s.get_char(i);
        let ghost k: int = i - start;
        assert(digits.subrange(0, k + 1).drop_last() =~= digits.subrange(0, k));
        assert(digits.subrange(0, k + 1).last() == c);
        if !('0' <= c && c <= '9') {
            proof {
                lemma_refusal_extends(digits, k + 1);
            }
            return Err(IntErrorKind::InvalidDigit);
        }
        let d: usize = (c as u32 - '0' as u32) as usize;
        assert(d as nat == digit_value(c));
        proof {
            lemma_overflow_test(value as int, d as int, usize::MAX as int);
        }
        if value > (usize::MAX - d) / 10 {
            proof {
                lemma_refusal_extends(digits, k + 1);
            }
            return Err(IntErrorKind::PosOverflow);
        }
        value = value * 10 + d;
        i = i + 1;
    }
    assert(digits.subrange(0, n - start) =~= digits);
    Ok(value)
}

/// The decimal form of `n` reads back as `n`.
proof fn lemma_decimal_digits_value(n: nat)
    requires
        n <= usize::MAX,
    ensures
        digits_value(decimal(n)) == Ok::<nat, IntErrorKind>(n),
        is_digit(decimal(n)[0]),
    decreases n,
{
    if n < 10 {
        let s = decimal(n);
        assert(s.drop_last() =~= Seq::<char>::empty());
    } else {
        lemma_fundamental_div_mod(n as int, 10);
        lemma_decimal_digits_value(n / 10);
        assert(decimal(n).drop_last() =~= decimal(n / 10));
    }
}

/// Law: the decimal text of a number is made of digits only, and it has no
/// leading zero: it is `0` alone for zero, and begins with a digit other than
/// `0` for every other number. With the read-back law this fixes the text.
pub proof fn lemma_decimal_is_canonical(n: nat)
    ensures
        decimal(n).len() >= 1,
        forall|i: int| 0 <= i < decimal(n).len() ==> is_digit(#[trigger] decimal(n)[i]),
        n == 0 ==> decimal(n) == seq!['0'],
        n > 0 ==> decimal(n)[0] != '0',
        n < 10 <==> decimal(n).len() == 1,
    decreases n,
{
    if n < 10 {
        assert(decimal(n) == seq![digit_char(n)]);
        assert(digit_char(n) as nat == n + 48);
        if n == 0 {
            assert(decimal(n) =~= seq!['0']);
        }
    } else {
        lemma_fundamental_div_mod(n as int, 10);
        lemma_decimal_is_canonical(n / 10);
        let prefix = decimal(n / 10);
        assert(decimal(n) == prefix.push(digit_char(n % 10)));
        assert(decimal(n)[0] == prefix[0]);
        assert forall|i: int| 0 <= i < decimal(n).len() implies is_digit(#[trigger] decimal(n)[i]) by {
            if i < prefix.len() {
                assert(decimal(n)[i] == prefix[i]);
            } else {
                assert(decimal(n)[i] == digit_char(n % 10));
                assert(digit_char((n % 10) as nat) as nat == n % 10 + 48);
            }
        }
    }
}

/// Law: writing a `usize` in decimal and reading the text back gives the
/// same number.
pub proof fn lemma_parse_decimal_roundtrip(n: usize)
    ensures
        parse_usize_spec(decimal(n as nat)) == Ok::<usize, IntErrorKind>(n),
{
    lemma_decimal_digits_value(n as nat);
}

} // verus!
