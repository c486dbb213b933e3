//! Integers in text: parsing with the rules of std's `from_str_radix`, and decimal
//! rendering as `to_string` writes it.
use vstd::prelude::*;

verus! {

/// Why a string is not an integer (the kinds of std's `ParseIntError`).
#[derive(Clone, Copy, Debug, PartialEq, Eq)]
pub enum IntErrorKind {
    Empty,
    InvalidDigit,
    PosOverflow,
    NegOverflow,
}

/// Value of `c` as a digit of base `radix` (`char::to_digit`).
pub open spec fn char_digit(c: char, radix: nat) -> Option<nat> {
    let u = c as u32;
    let v: int = if 48 <= u && u <= 57 {
        u - 48
    } else if 97 <= u && u <= 122 {
        u - 87
    } else if 65 <= u && u <= 90 {
        u - 55
    } else {
        99
    };
    if v < radix {
        Some(v as nat)
    } else {
        None
    }
}

/// Digits read left to right into `acc`, subtracting when `neg`; the first position
/// that is no digit or leaves `[min, max]` decides the error.
pub open spec fn fold_digits(
    ds: Seq<char>,
    radix: nat,
    acc: int,
    neg: bool,
    min: int,
    max: int,
) -> Result<int, IntErrorKind>
    decreases ds.len(),
{
    if ds.len() == 0 {
        Ok(acc)
    } else {
        match char_digit(ds[0], radix) {
            None => Err(IntErrorKind::InvalidDigit),
            Some(d) => {
                let next = if neg {
                    acc * radix - d
                } else {
                    acc * radix + d
                };
                if !neg && next > max {
                    Err(IntErrorKind::PosOverflow)
                } else if neg && next < min {
                    Err(IntErrorKind::NegOverflow)
                } else {
                    fold_digits(ds.drop_first(), radix, next, neg, min, max)
                }
            },
        }
    }
}

/// `from_str_radix` for an integer type whose values are `[min, max]`: an optional
/// sign (`-` only where `min < 0`), then at least one digit.
pub open spec fn parse_int_spec(s: Seq<char>, radix: nat, min: int, max: int) -> Result<
    int,
    IntErrorKind,
> {
    if s.len() == 0 {
        Err(IntErrorKind::Empty)
    } else if s.len() == 1 && (s[0] == '+' || s[0] == '-') {
        Err(IntErrorKind::InvalidDigit)
    } else if s[0] == '+' {
        fold_digits(s.drop_first(), radix, 0, false, min, max)
    } else if s[0] == '-' && min < 0 {
        fold_digits(s.drop_first(), radix, 0, true, min, max)
    } else {
        fold_digits(s, radix, 0, false, min, max)
    }
}

pub open spec fn parse_u64_spec(s: Seq<char>, radix: nat) -> Result<int, IntErrorKind> {
    parse_int_spec(s, radix, 0, u64::MAX as int)
}

pub open spec fn parse_u32_spec(s: Seq<char>, radix: nat) -> Result<int, IntErrorKind> {
    parse_int_spec(s, radix, 0, u32::MAX as int)
}

pub open spec fn parse_i64_spec(s: Seq<char>, radix: nat) -> Result<int, IntErrorKind> {
    parse_int_spec(s, radix, i64::MIN as int, i64::MAX as int)
}

fn char_digit_exec(c: char, radix: u32) -> (r: Option<u32>)
    requires
        radix <= 36,
    ensures
        match r {
            Some(d) => char_digit(c, radix as nat) == Some(d as nat),
            None => char_digit(c, radix as nat) is None,
        },
{
    let u = c as u32;
    let v: u32 = if 48 <= u && u <= 57 {
        u - 48
    } else if 97 <= u && u <= 122 {
        u - 87
    } else if 65 <= u && u <= 90 {
        u - 55
    } else {
        99
    };
    if v < radix {
        Some(v)
    } else {
        None
    }
}

/// Integer parsing with the rules of `from_str_radix`, for a type with values `[min, max]`.
pub fn parse_int(s: &str, radix: u32, min: i128, max: i128) -> (r: Result<i128, IntErrorKind>)
    requires
        2 <= radix <= 36,
        -0x1_0000_0000_0000_0000 <= min <= 0 <= max <= 0x1_0000_0000_0000_0000,
    ensures
        match r {
            Ok(v) => parse_int_spec(s@, radix as nat, min as int, max as int) == Ok::<
                int,
                IntErrorKind,
            >(v as int),
            Err(e) => parse_int_spec(s@, radix as nat, min as int, max as int) == Err::<
                int,
                IntErrorKind,
            >(e),
        },
        r is Ok ==> min <= r->Ok_0 <= max,
{
    let n = s.unicode_len();
    if n == 0 {
        return Err(IntErrorKind::Empty);
    }
    let first = s.get_char(0);
    if n == 1 && (first == '+' || first == '-') {
        return Err(IntErrorKind::InvalidDigit);
    }
    let (start, neg): (usize, bool) = if first == '+' {
        (1, false)
    } else if first == '-' && min < 0 {
        (1, true)
    } else {
        (0, false)
    };
    let ghost ds = s@.skip(start as int);
    proof {
        assert(s@.skip(0) =~= s@);
        assert(s@.skip(1) =~= s@.drop_first());
        assert(parse_int_spec(s@, radix as nat, min as int, max as int) == fold_digits(
            ds,
            radix as nat,
            0,
            neg,
            min as int,
            max as int,
        ));
    }
    let mut acc: i128 = 0;
    let mut i: usize = start;
    while i < n
        invariant
            start <= i <= n,
            n == s@.len(),
            2 <= radix <= 36,
            -0x1_0000_0000_0000_0000 <= min <= 0 <= max <= 0x1_0000_0000_0000_0000,
            min <= acc <= max,
            !neg ==> acc >= 0,
            neg ==> acc <= 0,
            parse_int_spec(s@, radix as nat, min as int, max as int) == fold_digits(
                ds,
                radix as nat,
                0,
                neg,
                min as int,
                max as int,
            ),
            fold_digits(ds, radix as nat, 0, neg, min as int, max as int) == fold_digits(
                s@.skip(i as int),
                radix as nat,
                acc as int,
                neg,
                min as int,
                max as int,
            ),
            ds == s@.skip(start as int),
        decreases n - i,
    {
        let c = s.get_char(i);
        let rest = Ghost(s@.skip(i as int));
        assert(rest@[0] == c);
        assert(rest@.drop_first() =~= s@.skip(i + 1));
        let d = match char_digit_exec(c, radix) {
            Some(d) => d,
            None => {
                return Err(IntErrorKind::InvalidDigit);
            },
        };
        assert(-0x24_0000_0000_0000_0000 <= acc * (radix as i128) <= 0x24_0000_0000_0000_0000)
            by (nonlinear_arith)
            requires
                -0x1_0000_0000_0000_0000 <= acc <= 0x1_0000_0000_0000_0000,
                2 <= radix <= 36,
        ;
        assert(!neg ==> acc * (radix as i128) >= 0) by (nonlinear_arith)
            requires
                !neg ==> acc >= 0,
                2 <= radix,
        ;
        assert(neg ==> acc * (radix as i128) <= 0) by (nonlinear_arith)
            requires
                neg ==> acc <= 0,
                2 <= radix,
        ;
        let scaled: i128 = acc * (radix as i128);
        let next: i128 = if neg {
            scaled - (d as i128)
        } else {
            scaled + (d as i128)
        };
        if !neg && next > max {
            return Err(IntErrorKind::PosOverflow);
        }
        if neg && next < min {
            return Err(IntErrorKind::NegOverflow);
        }
        acc = next;
        i = i + 1;
    }
    proof {
        assert(s@.skip(n as int).len() == 0);
    }
    Ok(acc)
}

/// `u64::from_str_radix`.
pub fn parse_u64(s: &str, radix: u32) -> (r: Result<u64, IntErrorKind>)
    requires
        2 <= radix <= 36,
    ensures
        match r {
            Ok(v) => parse_u64_spec(s@, radix as nat) == Ok::<int, IntErrorKind>(v as int),
            Err(e) => parse_u64_spec(s@, radix as nat) == Err::<int, IntErrorKind>(e),
        },
{
    match parse_int(s, radix, 0, 0xffff_ffff_ffff_ffff) {
        Ok(v) => Ok(v as u64),
        Err(e) => Err(e),
    }
}

/// `u32::from_str_radix`.
pub fn parse_u32(s: &str, radix: u32) -> (r: Result<u32, IntErrorKind>)
    requires
        2 <= radix <= 36,
    ensures
        match r {
            Ok(v) => parse_u32_spec(s@, radix as nat) == Ok::<int, IntErrorKind>(v as int),
            Err(e) => parse_u32_spec(s@, radix as nat) == Err::<int, IntErrorKind>(e),
        },
{
    match parse_int(s, radix, 0, 0xffff_ffff) {
        Ok(v) => Ok(v as u32),
        Err(e) => Err(e),
    }
}

/// `i64::from_str_radix`.
pub fn parse_i64(s: &str, radix: u32) -> (r: Result<i64, IntErrorKind>)
    requires
        2 <= radix <= 36,
    ensures
        match r {
            Ok(v) => parse_i64_spec(s@, radix as nat) == Ok::<int, IntErrorKind>(v as int),
            Err(e) => parse_i64_spec(s@, radix as nat) == Err::<int, IntErrorKind>(e),
        },
{
    match parse_int(s, radix, -0x8000_0000_0000_0000, 0x7fff_ffff_ffff_ffff) {
        Ok(v) => Ok(v as i64),
        Err(e) => Err(e),
    }
}

pub open spec fn digit_char(d: nat) -> char {
    (d + 48) as char
}

/// Decimal digits of `n`, most significant first, without leading zeros.
pub open spec fn decimal(n: nat) -> Seq<char>
    decreases n,
{
    if n < 10 {
        seq![digit_char(n)]
    } else {
        decimal(n / 10).push(digit_char(n % 10))
    }
}

/// Decimal text of a signed integer, `-` before a negative one.
pub open spec fn signed_decimal(n: int) -> Seq<char> {
    if n < 0 {
        seq!['-'] + decimal((-n) as nat)
    } else {
        decimal(n as nat)
    }
}

/// `u64::to_string`.
pub fn render_u64(n: u64) -> (r: String)
    ensures
        r@ == decimal(n as nat),
    decreases n,
{
    let d: u8 = (n % 10) as u8;
    let c: char = (d + 48u8) as char;
    if n < 10 {
        let mut s = String::new();
        crate::text::push_char(&mut s, c);
        assert(s@ =~= seq![c]);
        s
    } else {
        let mut s = render_u64(n / 10);
        crate::text::push_char(&mut s, c);
        s
    }
}

/// `i64::to_string`.
pub fn render_i64(n: i64) -> (r: String)
    ensures
        r@ == signed_decimal(n as int),
{
    if n < 0 {
        let m: u64 = (0i128 - (n as i128)) as u64;
        let digits = render_u64(m);
        proof {
            reveal_strlit("-");
        }
        crate::text::concat_str("-", digits.as_str())
    } else {
        render_u64(n as u64)
    }
}

proof fn lemma_fold_push(a: Seq<char>, c: char, radix: nat, acc: int, min: int, max: int)
    ensures
        fold_digits(a.push(c), radix, acc, false, min, max) == (match fold_digits(
            a,
            radix,
            acc,
            false,
            min,
            max,
        ) {
            Ok(v) => fold_digits(seq![c], radix, v, false, min, max),
            Err(e) => Err(e),
        }),
    decreases a.len(),
{
    if a.len() == 0 {
        assert(a.push(c) =~= seq![c]);
    } else {
        assert(a.push(c).drop_first() =~= a.drop_first().push(c));
        match char_digit(a[0], radix) {
            None => {},
            Some(d) => {
                let next = acc * radix + d;
                if next <= max {
                    lemma_fold_push(a.drop_first(), c, radix, next, min, max);
                }
            },
        }
    }
}

proof fn lemma_decimal_shape(n: nat)
    ensures
        decimal(n).len() >= 1,
        char_digit(decimal(n)[0], 10) is Some,
    decreases n,
{
    if n >= 10 {
        lemma_decimal_shape(n / 10);
    } else {
        assert(digit_char(n) as u32 == n + 48);
    }
}

proof fn lemma_digit_char(d: nat)
    requires
        d < 10,
    ensures
        char_digit(digit_char(d), 10) == Some(d),
{
    assert(digit_char(d) as u32 == d + 48);
}

proof fn lemma_fold_decimal(n: nat, max: int)
    requires
        n <= max,
    ensures
        fold_digits(decimal(n), 10, 0, false, 0, max) == Ok::<int, IntErrorKind>(n as int),
    decreases n,
{
    let c = digit_char(n % 10);
    lemma_digit_char(n % 10);
    assert(seq![c].drop_first().len() == 0);
    if n < 10 {
        assert(0 * 10 + n == n);
        assert(fold_digits(seq![c], 10, 0, false, 0, max) == fold_digits(
            seq![c].drop_first(),
            10,
            n as int,
            false,
            0,
            max,
        ));
    } else {
        lemma_fold_decimal(n / 10, max);
        lemma_fold_push(decimal(n / 10), c, 10, 0, 0, max);
        let v = (n / 10) as int;
        assert(v * 10 + n % 10 == n);
        assert(fold_digits(seq![c], 10, v, false, 0, max) == fold_digits(
            seq![c].drop_first(),
            10,
            n as int,
            false,
            0,
            max,
        ));
    }
}

/// A decimal rendering read back as an integer of any unsigned type that holds it
/// gives the same integer.
pub proof fn lemma_parse_decimal(n: nat, max: int)
    requires
        n <= max,
    ensures
        parse_int_spec(decimal(n), 10, 0, max) == Ok::<int, IntErrorKind>(n as int),
{
    lemma_decimal_shape(n);
    lemma_fold_decimal(n, max);
}

} // verus!

verus! {

/// Every character of a decimal rendering is a decimal digit.
pub proof fn lemma_decimal_all_digits(n: nat)
    ensures
        decimal(n).len() >= 1,
        forall|i: int| 0 <= i < decimal(n).len() ==> (#[trigger] char_digit(decimal(n)[i], 10)) is Some,
    decreases n,
{
    lemma_digit_char(n % 10);
    if n >= 10 {
        lemma_decimal_all_digits(n / 10);
        let a = decimal(n / 10);
        assert forall|i: int| 0 <= i < decimal(n).len() implies (#[trigger] char_digit(
            decimal(n)[i],
            10,
        )) is Some by {
            if i < a.len() {
                assert(decimal(n)[i] == a[i]);
            }
        }
    } else {
        lemma_digit_char(n);
    }
}

} // verus!

verus! {

/// The character of a hexadecimal digit, lower case as `{:x}` writes it.
pub open spec fn hex_digit_char(d: nat) -> char {
    if d < 10 {
        (d + 48) as char
    } else {
        (d + 87) as char
    }
}

/// Hexadecimal digits of `n` in lower case, most significant first, without leading
/// zeros (`{:x}`).
pub open spec fn hexadecimal(n: nat) -> Seq<char>
    decreases n,
{
    if n < 16 {
        seq![hex_digit_char(n)]
    } else {
        hexadecimal(n / 16).push(hex_digit_char(n % 16))
    }
}

proof fn lemma_hex_digit_char(d: nat)
    requires
        d < 16,
    ensures
        char_digit(hex_digit_char(d), 16) == Some(d),
{
    if d < 10 {
        assert(hex_digit_char(d) as u32 == d + 48);
    } else {
        assert(hex_digit_char(d) as u32 == d + 87);
    }
}

/// Every character of a hexadecimal rendering is a hexadecimal digit.
pub proof fn lemma_hexadecimal_all_digits(n: nat)
    ensures
        hexadecimal(n).len() >= 1,
        forall|i: int|
            0 <= i < hexadecimal(n).len() ==> (#[trigger] char_digit(hexadecimal(n)[i], 16)) is Some,
    decreases n,
{
    lemma_hex_digit_char(n % 16);
    if n >= 16 {
        lemma_hexadecimal_all_digits(n / 16);
        let a = hexadecimal(n / 16);
        assert forall|i: int| 0 <= i < hexadecimal(n).len() implies (#[trigger] char_digit(
            hexadecimal(n)[i],
            16,
        )) is Some by {
            if i < a.len() {
                assert(hexadecimal(n)[i] == a[i]);
            }
        }
    } else {
        lemma_hex_digit_char(n);
    }
}

proof fn lemma_fold_hexadecimal(n: nat, max: int)
    requires
        n <= max,
    ensures
        fold_digits(hexadecimal(n), 16, 0, false, 0, max) == Ok::<int, IntErrorKind>(n as int),
    decreases n,
{
    let c = hex_digit_char(n % 16);
    lemma_hex_digit_char(n % 16);
    assert(seq![c].drop_first().len() == 0);
    if n < 16 {
        assert(0 * 16 + n == n);
        assert(fold_digits(seq![c], 16, 0, false, 0, max) == fold_digits(
            seq![c].drop_first(),
            16,
            n as int,
            false,
            0,
            max,
        ));
    } else {
        lemma_fold_hexadecimal(n / 16, max);
        lemma_fold_push(hexadecimal(n / 16), c, 16, 0, 0, max);
        let v = (n / 16) as int;
        assert(v * 16 + n % 16 == n);
        assert(fold_digits(seq![c], 16, v, false, 0, max) == fold_digits(
            seq![c].drop_first(),
            16,
            n as int,
            false,
            0,
            max,
        ));
    }
}

/// A hexadecimal rendering read back in base 16 as an integer of any unsigned type that
/// holds it gives the same integer.
pub proof fn lemma_parse_hexadecimal(n: nat, max: int)
    requires
        n <= max,
    ensures
        parse_int_spec(hexadecimal(n), 16, 0, max) == Ok::<int, IntErrorKind>(n as int),
{
    lemma_hexadecimal_all_digits(n);
    let h = hexadecimal(n);
    assert(char_digit(h[0], 16) is Some);
    lemma_fold_hexadecimal(n, max);
}

} // verus!
