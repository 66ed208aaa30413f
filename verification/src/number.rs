//! Numbers as text.
use vstd::prelude::*;

use crate::text::chars_of;

verus! {

/// Why a text is not a number.
#[derive(Clone, Copy, Debug, PartialEq, Eq, Structural)]
pub enum IntError {
    /// The text is empty.
    Empty,
    /// A character is no digit of the radix.
    InvalidDigit,
    /// The number is above the largest one allowed.
    PosOverflow,
}

/// The value of a digit in `radix`, letters standing for ten and above.
pub open spec fn digit_value(c: char, radix: nat) -> Option<nat> {
    let v = if '0' <= c <= '9' {
        (c as u32 - '0' as u32) as nat
    } else if 'a' <= c <= 'z' {
        (c as u32 - 'a' as u32 + 10) as nat
    } else if 'A' <= c <= 'Z' {
        (c as u32 - 'A' as u32 + 10) as nat
    } else {
        radix
    };
    if v < radix {
        Some(v)
    } else {
        None
    }
}

/// The digit of value `d`, lower-case letters standing for ten and above.
pub open spec fn digit_char(d: nat) -> char {
    if d < 10 {
        (d + '0' as u32) as char
    } else {
        (d - 10 + 'a' as u32) as char
    }
}

/// The number that a row of digits stands for, or the first thing that is wrong
/// with it, read from the left.
pub open spec fn digits_value(s: Seq<char>, radix: nat, max: nat) -> Result<nat, IntError>
    decreases s.len(),
{
    if s.len() == 0 {
        Ok(0)
    } else {
        match digits_value(s.drop_last(), radix, max) {
            Err(e) => Err(e),
            Ok(acc) => match digit_value(s.last(), radix) {
                None => Err(IntError::InvalidDigit),
                Some(d) => if acc * radix + d > max {
                    Err(IntError::PosOverflow)
                } else {
                    Ok(acc * radix + d)
                },
            },
        }
    }
}

/// The unsigned number that a text stands for: digits, with at most one plus
/// sign before them.
pub open spec fn unsigned_value(s: Seq<char>, radix: nat, max: nat) -> Result<nat, IntError> {
    if s.len() == 0 {
        Err(IntError::Empty)
    } else if s.len() == 1 && (s[0] == '+' || s[0] == '-') {
        Err(IntError::InvalidDigit)
    } else if s[0] == '+' {
        digits_value(s.skip(1), radix, max)
    } else {
        digits_value(s, radix, max)
    }
}

/// The signed 32-bit number that a decimal text stands for.
pub open spec fn i32_value(s: Seq<char>) -> Option<int> {
    if s.len() > 1 && s[0] == '-' {
        match digits_value(s.skip(1), 10, 0x8000_0000) {
            Ok(n) => Some(-(n as int)),
            Err(_) => None,
        }
    } else {
        match unsigned_value(s, 10, 0x7fff_ffff) {
            Ok(n) => Some(n as int),
            Err(_) => None,
        }
    }
}

fn read_digit(c: char, radix: u32) -> (r: Option<u32>)
    requires
        radix <= 36,
    ensures
        match r {
            Some(d) => digit_value(c, radix as nat) == Some(d as nat),
            None => digit_value(c, radix as nat) is None,
        },
{
    let v: u32 = if '0' <= c && c <= '9' {
        c as u32 - '0' as u32
    } else if 'a' <= c && c <= 'z' {
        c as u32 - 'a' as u32 + 10
    } else if 'A' <= c && c <= 'Z' {
        c as u32 - 'A' as u32 + 10
    } else {
        radix
    };
    if v < radix {
        Some(v)
    } else {
        None
    }
}

fn read_digits(x: &Vec<char>, from: usize, radix: u32, max: u32) -> (r: Result<u32, IntError>)
    requires
        radix <= 36,
        from <= x@.len(),
    ensures
        match r {
            Ok(n) => digits_value(x@.skip(from as int), radix as nat, max as nat) == Ok::<
                nat,
                IntError,
            >(n as nat) && n <= max,
            Err(e) => digits_value(x@.skip(from as int), radix as nat, max as nat) == Err::<
                nat,
                IntError,
            >(e),
        },
{
    let ghost s = x@.skip(from as int);
    let n: usize = x.len();
    let mut acc: u64 = 0;
    let mut i: usize = from;
    assert(s.take(0) =~= Seq::<char>::empty());
    while i < n
        invariant
            radix <= 36,
            from <= i <= n,
            n == x@.len(),
            s == x@.skip(from as int),
            acc <= max,
            digits_value(s.take(i - from), radix as nat, max as nat) == Ok::<nat, IntError>(
                acc as nat,
            ),
        decreases n - i,
    {
        let ghost done = s.take(i - from);
        let ghost more = s.take(i + 1 - from);
        assert(more.drop_last() =~= done);
        assert(more.last() == x@[i as int]);
        assert(acc * radix <= 0xffff_ffff * 36) by (nonlinear_arith)
            requires
                acc <= 0xffff_ffff,
                radix <= 36,
        ;
        match read_digit(x[i], radix) {
            None => {
                proof {
                    lemma_digits_stop(s, i + 1 - from, radix as nat, max as nat);
                }
                return Err(IntError::InvalidDigit);
            },
            Some(d) => {
                assert((acc as nat) * (radix as nat) == acc * radix);
                if acc * radix as u64 + d as u64 > max as u64 {
                    proof {
                        lemma_digits_stop(s, i + 1 - from, radix as nat, max as nat);
                    }
                    return Err(IntError::PosOverflow);
                }
                acc = acc * radix as u64 + d as u64;
            },
        }
        i = i + 1;
    }
    assert(s.take(n - from) =~= s);
    Ok(acc as u32)
}

/// What is wrong with the first digits is what is wrong with the whole row.
proof fn lemma_digits_stop(s: Seq<char>, k: int, radix: nat, max: nat)
    requires
        0 <= k <= s.len(),
        digits_value(s.take(k), radix, max) is Err,
    ensures
        digits_value(s, radix, max) == digits_value(s.take(k), radix, max),
    decreases s.len(),
{
    if k == s.len() {
        assert(s.take(k) =~= s);
    } else {
        assert(s.drop_last().take(k) =~= s.take(k));
        lemma_digits_stop(s.drop_last(), k, radix, max);
    }
}

/// Reads an unsigned number no larger than `max`.
pub fn parse_unsigned(s: &str, radix: u32, max: u32) -> (r: Result<u32, IntError>)
    requires
        radix <= 36,
    ensures
        match r {
            Ok(n) => unsigned_value(s@, radix as nat, max as nat) == Ok::<nat, IntError>(n as nat)
                && n <= max,
            Err(e) => unsigned_value(s@, radix as nat, max as nat) == Err::<nat, IntError>(e),
        },
{
    let x = chars_of(s);
    if x.len() == 0 {
        return Err(IntError::Empty);
    }
    if x.len() == 1 && (x[0] == '+' || x[0] == '-') {
        return Err(IntError::InvalidDigit);
    }
    assert(x@.skip(0) =~= x@);
    if x[0] == '+' {
        read_digits(&x, 1, radix, max)
    } else {
        read_digits(&x, 0, radix, max)
    }
}

/// Reads a signed 32-bit decimal number.
pub fn parse_i32(s: &str) -> (r: Option<i32>)
    ensures
        match r {
            Some(n) => i32_value(s@) == Some(n as int),
            None => i32_value(s@) is None,
        },
{
    let x = chars_of(s);
    if x.len() > 1 && x[0] == '-' {
        match read_digits(&x, 1, 10, 0x8000_0000) {
            Ok(n) => Some((-(n as i64)) as i32),
            Err(_) => None,
        }
    } else {
        match parse_unsigned(s, 10, 0x7fff_ffff) {
            Ok(n) => Some(n as i32),
            Err(_) => None,
        }
    }
}

/// The shortest row of digits that stands for `n`.
pub open spec fn number_text(n: nat, radix: nat) -> Seq<char>
    decreases n,
{
    if radix < 2 || n < radix {
        seq![digit_char(n)]
    } else {
        proof {
            assert(n / radix < n) by (nonlinear_arith)
                requires
                    2 <= radix,
                    radix <= n,
            ;
        }
        number_text(n / radix, radix).push(digit_char(n % radix))
    }
}

/// The decimal text of an integer, with a minus sign before a negative one.
pub open spec fn decimal(n: int) -> Seq<char> {
    if n < 0 {
        seq!['-'] + number_text((-n) as nat, 10)
    } else {
        number_text(n as nat, 10)
    }
}

/// `s` behind as many zeros as it lacks of `width` characters.
pub open spec fn zero_padded(s: Seq<char>, width: nat) -> Seq<char> {
    if s.len() >= width {
        s
    } else {
        Seq::new((width - s.len()) as nat, |i: int| '0') + s
    }
}

fn write_digit(d: u32) -> (c: char)
    requires
        d < 36,
    ensures
        c == digit_char(d as nat),
{
    if d < 10 {
        (d as u8 + 48) as char
    } else {
        (d as u8 - 10 + 97) as char
    }
}

fn write_number(n: u64, radix: u64) -> (r: String)
    requires
        2 <= radix <= 36,
    ensures
        r@ == number_text(n as nat, radix as nat),
    decreases n,
{
    if n < radix {
        let mut r: String = String::new();
        r.push(write_digit(n as u32));
        assert(r@ =~= seq![digit_char(n as nat)]);
        r
    } else {
        assert(n / radix < n) by (nonlinear_arith)
            requires
                2 <= radix,
                radix <= n,
        ;
        assert(n % radix < radix) by (nonlinear_arith)
            requires
                2 <= radix,
        ;
        let mut r = write_number(n / radix, radix);
        r.push(write_digit((n % radix) as u32));
        r
    }
}

/// The decimal text of `n`.
pub fn decimal_u64(n: u64) -> (r: String)
    ensures
        r@ == decimal(n as int),
{
    write_number(n, 10)
}

/// The decimal text of `n`.
pub fn decimal_i64(n: i64) -> (r: String)
    ensures
        r@ == decimal(n as int),
{
    if n < 0 {
        let m: u64 = if n == i64::MIN {
            0x8000_0000_0000_0000
        } else {
            (-n) as u64
        };
        let digits = write_number(m, 10);
        let mut r: String = String::new();
        r.push('-');
        r.append(digits.as_str());
        assert(r@ =~= seq!['-'] + number_text((-n) as nat, 10));
        r
    } else {
        write_number(n as u64, 10)
    }
}

/// The hexadecimal text of `n`.
pub fn hex(n: u64) -> (r: String)
    ensures
        r@ == number_text(n as nat, 16),
{
    write_number(n, 16)
}

/// The hexadecimal text of `n`, with zeros before it up to `width` characters.
pub fn hex_padded(n: u64, width: usize) -> (r: String)
    ensures
        r@ == zero_padded(number_text(n as nat, 16), width as nat),
{
    let digits = write_number(n, 16);
    let have: usize = chars_of(digits.as_str()).len();
    let mut r: String = String::new();
    let mut k: usize = have;
    let ghost s = number_text(n as nat, 16);
    assert(r@ =~= Seq::new(0, |i: int| '0'));
    while k < width
        invariant
            have == s.len(),
            have <= k,
            k <= width || k == have,
            r@ == Seq::new((k - have) as nat, |i: int| '0'),
        decreases width - k,
    {
        r.push('0');
        assert(r@ =~= Seq::new((k + 1 - have) as nat, |i: int| '0'));
        k = k + 1;
    }
    r.append(digits.as_str());
    assert(r@ =~= zero_padded(s, width as nat));
    r
}

/// A digit written and read again is the same digit.
pub proof fn lemma_digit_round_trip(d: nat, radix: nat)
    requires
        d < radix <= 36,
    ensures
        digit_value(digit_char(d), radix) == Some(d),
{
}

/// A number written in a radix and read again is the same number.
pub proof fn lemma_number_round_trip(n: nat, radix: nat, max: nat)
    requires
        2 <= radix <= 36,
        n <= max,
    ensures
        digits_value(number_text(n, radix), radix, max) == Ok::<nat, IntError>(n),
    decreases n,
{
    let s = number_text(n, radix);
    if n < radix {
        lemma_digit_round_trip(n, radix);
        assert(s.drop_last() =~= Seq::<char>::empty());
        assert(digits_value(s.drop_last(), radix, max) == Ok::<nat, IntError>(0));
        assert(s.last() == digit_char(n));
        assert(0 * radix == 0) by (nonlinear_arith);
    } else {
        assert(n / radix < n && n % radix < radix && (n / radix) * radix + n % radix == n)
            by (nonlinear_arith)
            requires
                2 <= radix,
                radix <= n,
        ;
        lemma_number_round_trip(n / radix, radix, max);
        lemma_digit_round_trip(n % radix, radix);
        assert(s.drop_last() =~= number_text(n / radix, radix));
        assert(s.last() == digit_char(n % radix));
    }
}

/// Zeros before a row of digits do not change what it stands for.
pub proof fn lemma_padded_value(s: Seq<char>, width: nat, radix: nat, max: nat)
    requires
        2 <= radix <= 36,
    ensures
        digits_value(zero_padded(s, width), radix, max) == digits_value(s, radix, max),
{
    if s.len() < width {
        lemma_zeros_value(s, (width - s.len()) as nat, radix, max);
    }
}

proof fn lemma_zeros_value(s: Seq<char>, k: nat, radix: nat, max: nat)
    requires
        2 <= radix <= 36,
    ensures
        digits_value(Seq::new(k, |i: int| '0') + s, radix, max) == digits_value(s, radix, max),
    decreases s.len() + k,
{
    let z = Seq::new(k, |i: int| '0');
    let w = z + s;
    if s.len() > 0 {
        assert(w.drop_last() =~= z + s.drop_last());
        lemma_zeros_value(s.drop_last(), k, radix, max);
    } else if k > 0 {
        let y = Seq::new((k - 1) as nat, |i: int| '0');
        assert(w.drop_last() =~= y + s);
        assert(w.last() == '0');
        lemma_zeros_value(s, (k - 1) as nat, radix, max);
        assert(0 * radix == 0) by (nonlinear_arith);
    } else {
        assert(w =~= s);
    }
}

/// The digits of a written number are digits of its radix.
pub proof fn lemma_number_digits(n: nat, radix: nat)
    requires
        2 <= radix <= 36,
    ensures
        number_text(n, radix).len() > 0,
        forall|i: int|
            0 <= i < number_text(n, radix).len() ==> digit_value(
                #[trigger] number_text(n, radix)[i],
                radix,
            ) is Some,
    decreases n,
{
    if n < radix {
        lemma_digit_round_trip(n, radix);
    } else {
        assert(n / radix < n && n % radix < radix) by (nonlinear_arith)
            requires
                2 <= radix,
                radix <= n,
        ;
        lemma_number_digits(n / radix, radix);
        lemma_digit_round_trip(n % radix, radix);
    }
}

/// The digits are those that the alphabet has, in lower case.
pub proof fn law_digits_are_written_in_lower_case(d: nat)
    requires
        d < 36,
    ensures
        digit_char(d) == "0123456789abcdefghijklmnopqrstuvwxyz"@[d as int],
{
    reveal_strlit("0123456789abcdefghijklmnopqrstuvwxyz");
}

/// A character is read as the digit of its place among the digits or the letters, in
/// either case of letters, and as none where that place is not below the radix.
pub proof fn law_digits_are_read_in_either_case(c: char, radix: nat, d: nat)
    requires
        radix <= 36,
    ensures
        digit_value(c, radix) == Some(d) <==> d < radix && (c
            == "0123456789abcdefghijklmnopqrstuvwxyz"@[d as int] || c
            == "0123456789ABCDEFGHIJKLMNOPQRSTUVWXYZ"@[d as int]),
{
    reveal_strlit("0123456789abcdefghijklmnopqrstuvwxyz");
    reveal_strlit("0123456789ABCDEFGHIJKLMNOPQRSTUVWXYZ");
}

/// A number written with zeros before it is as wide as asked, and wider only where the
/// number is.
pub proof fn law_padding_widens_with_zeros(s: Seq<char>, width: nat)
    ensures
        zero_padded(s, width).len() == if s.len() >= width {
            s.len()
        } else {
            width
        },
        zero_padded(s, width).skip(zero_padded(s, width).len() - s.len()) == s,
        forall|i: int|
            0 <= i < zero_padded(s, width).len() - s.len() ==> (#[trigger] zero_padded(s, width)[i])
                == '0',
{
    assert(zero_padded(s, width).skip(zero_padded(s, width).len() - s.len()) =~= s);
}

proof fn lemma_no_leading_zero(n: nat, radix: nat)
    requires
        2 <= radix <= 36,
        n > 0,
    ensures
        number_text(n, radix)[0] != '0',
    decreases n,
{
    if n >= radix {
        assert(0 < n / radix && n / radix < n) by (nonlinear_arith)
            requires
                2 <= radix,
                radix <= n,
        ;
        lemma_no_leading_zero(n / radix, radix);
        lemma_number_digits(n / radix, radix);
    }
}

/// A number is written without zeros before it, zero itself as a single `0`.
pub proof fn law_numbers_are_written_short(n: nat, radix: nat)
    requires
        2 <= radix <= 36,
    ensures
        n == 0 ==> number_text(n, radix) == seq!['0'],
        n > 0 ==> number_text(n, radix)[0] != '0',
{
    if n > 0 {
        lemma_no_leading_zero(n, radix);
    }
}

/// A number that was written can be read, also with a plus sign before it; one above
/// the largest allowed is refused as too large.
pub proof fn law_written_number_is_read(n: nat, radix: nat, max: nat)
    requires
        2 <= radix <= 36,
    ensures
        n <= max ==> unsigned_value(number_text(n, radix), radix, max) == Ok::<nat, IntError>(n),
        n <= max ==> unsigned_value(seq!['+'] + number_text(n, radix), radix, max) == Ok::<
            nat,
            IntError,
        >(n),
        n > max ==> unsigned_value(number_text(n, radix), radix, max) == Err::<nat, IntError>(
            IntError::PosOverflow,
        ),
{
    let s = number_text(n, radix);
    lemma_number_digits(n, radix);
    assert(digit_value(s[0], radix) is Some);
    assert(s[0] != '+' && s[0] != '-');
    assert((seq!['+'] + s).skip(1) =~= s);
    assert((seq!['+'] + s)[0] == '+');
    if n <= max {
        lemma_number_round_trip(n, radix, max);
    } else {
        lemma_too_large(n, radix, max);
    }
}

proof fn lemma_too_large(n: nat, radix: nat, max: nat)
    requires
        2 <= radix <= 36,
        n > max,
    ensures
        digits_value(number_text(n, radix), radix, max) == Err::<nat, IntError>(
            IntError::PosOverflow,
        ),
    decreases n,
{
    let s = number_text(n, radix);
    if n < radix {
        lemma_digit_round_trip(n, radix);
        assert(s.drop_last() =~= Seq::<char>::empty());
        assert(s.last() == digit_char(n));
        assert(0 * radix == 0) by (nonlinear_arith);
    } else {
        assert(n / radix < n && n % radix < radix && (n / radix) * radix + n % radix == n)
            by (nonlinear_arith)
            requires
                2 <= radix,
                radix <= n,
        ;
        assert(s.drop_last() =~= number_text(n / radix, radix));
        assert(s.last() == digit_char(n % radix));
        lemma_digit_round_trip(n % radix, radix);
        if n / radix > max {
            lemma_too_large(n / radix, radix, max);
        } else {
            lemma_number_round_trip(n / radix, radix, max);
        }
    }
}

proof fn lemma_stranger(s: Seq<char>, i: int, radix: nat, max: nat)
    requires
        0 <= i < s.len(),
        digit_value(s[i], radix) is None,
    ensures
        digits_value(s, radix, max) is Err,
    decreases s.len(),
{
    if i < s.len() - 1 {
        assert(s.drop_last()[i] == s[i]);
        lemma_stranger(s.drop_last(), i, radix, max);
    }
}

/// A text that is empty, or that holds a character which is no digit, is no number; a
/// plus sign may stand first.
pub proof fn law_strangers_are_no_numbers(s: Seq<char>, i: int, radix: nat, max: nat)
    ensures
        unsigned_value(Seq::<char>::empty(), radix, max) == Err::<nat, IntError>(IntError::Empty),
        0 <= i < s.len() && digit_value(s[i], radix) is None && !(i == 0 && s[0] == '+')
            ==> unsigned_value(s, radix, max) is Err,
        unsigned_value(s, radix, max) matches Ok(n) ==> n <= max || s.len() == 0 || (s.len() == 1
            && s[0] == '+'),
{
    if 0 <= i < s.len() && digit_value(s[i], radix) is None && !(i == 0 && s[0] == '+') {
        if s[0] == '+' {
            assert(s.skip(1)[i - 1] == s[i]);
            if s.len() > 1 {
                lemma_stranger(s.skip(1), i - 1, radix, max);
            }
        } else {
            lemma_stranger(s, i, radix, max);
        }
    }
    if s.len() > 0 && s[0] == '+' && s.len() > 1 {
        lemma_below_max(s.skip(1), radix, max);
    }
    lemma_below_max(s, radix, max);
}

proof fn lemma_below_max(s: Seq<char>, radix: nat, max: nat)
    ensures
        digits_value(s, radix, max) matches Ok(n) ==> n <= max,
    decreases s.len(),
{
    if s.len() > 0 {
        lemma_below_max(s.drop_last(), radix, max);
    }
}

/// A 32-bit number written in decimal is read back, negative ones with their minus
/// sign.
pub proof fn law_decimal_is_read_back(n: i32)
    ensures
        i32_value(decimal(n as int)) == Some(n as int),
        n < 0 ==> decimal(n as int) == seq!['-'] + decimal(-(n as int)),
{
    let m: nat = if n < 0 {
        (-(n as int)) as nat
    } else {
        n as nat
    };
    let s = number_text(m, 10);
    lemma_number_digits(m, 10);
    assert(digit_value(s[0], 10) is Some);
    if n < 0 {
        assert((seq!['-'] + s).skip(1) =~= s);
        assert((seq!['-'] + s)[0] == '-');
        lemma_number_round_trip(m, 10, 0x8000_0000);
    } else {
        law_written_number_is_read(m, 10, 0x7fff_ffff);
    }
}

} // verus!
