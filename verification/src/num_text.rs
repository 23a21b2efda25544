//! Decimal text for integers: rendering and `i32` parsing with the error
//! kinds that `str::parse::<i32>` reports.

use vstd::prelude::*;

verus! {

/// Why a piece of text is not an `i32`.
#[derive(Clone, Copy, Debug, PartialEq, Eq, Structural)]
pub enum IntErrorKind {
    Empty,
    InvalidDigit,
    PosOverflow,
    NegOverflow,
}

/// The error of an integer parse.
#[derive(Clone, Copy, Debug, PartialEq, Eq, Structural)]
pub struct ParseIntError {
    pub kind: IntErrorKind,
}

pub open spec fn is_digit(c: char) -> bool {
    '0' <= c && c <= '9'
}

pub open spec fn digit_value(c: char) -> int {
    (c as int) - ('0' as int)
}

pub open spec fn digit_char(d: int) -> char {
    if d == 0 {
        '0'
    } else if d == 1 {
        '1'
    } else if d == 2 {
        '2'
    } else if d == 3 {
        '3'
    } else if d == 4 {
        '4'
    } else if d == 5 {
        '5'
    } else if d == 6 {
        '6'
    } else if d == 7 {
        '7'
    } else if d == 8 {
        '8'
    } else {
        '9'
    }
}

/// Decimal digits of a natural number, most significant first.
pub open spec fn nat_digits(n: nat) -> Seq<char>
    decreases n,
{
    if n < 10 {
        seq![digit_char(n as int)]
    } else {
        nat_digits(n / 10).push(digit_char((n % 10) as int))
    }
}

/// Decimal text of an integer, with a leading `-` when it is negative.
pub open spec fn decimal(n: int) -> Seq<char> {
    if n < 0 {
        seq!['-'] + nat_digits((-n) as nat)
    } else {
        nat_digits(n as nat)
    }
}

/// Reads the digits `ds` from left to right into an `i32` of sign `neg`,
/// failing at the first character that is no digit or at the first digit
/// that leaves the range of `i32`.
pub open spec fn accumulate(ds: Seq<char>, neg: bool) -> Result<int, IntErrorKind>
    decreases ds.len(),
{
    if ds.len() == 0 {
        Ok(0)
    } else {
        match accumulate(ds.drop_last(), neg) {
            Err(e) => Err(e),
            Ok(v) => {
                let c = ds.last();
                if !is_digit(c) {
                    Err(IntErrorKind::InvalidDigit)
                } else if neg {
                    let nv = v * 10 - digit_value(c);
                    if nv < i32::MIN {
                        Err(IntErrorKind::NegOverflow)
                    } else {
                        Ok(nv)
                    }
                } else {
                    let nv = v * 10 + digit_value(c);
                    if nv > i32::MAX {
                        Err(IntErrorKind::PosOverflow)
                    } else {
                        Ok(nv)
                    }
                }
            },
        }
    }
}

pub open spec fn has_sign(s: Seq<char>) -> bool {
    s.len() > 0 && (s[0] == '+' || s[0] == '-')
}

/// What `str::parse::<i32>` gives for the text `s`.
pub open spec fn spec_parse_i32(s: Seq<char>) -> Result<i32, IntErrorKind> {
    if s.len() == 0 {
        Err(IntErrorKind::Empty)
    } else if has_sign(s) && s.len() == 1 {
        Err(IntErrorKind::InvalidDigit)
    } else {
        let neg = s[0] == '-';
        let ds = if has_sign(s) {
            s.skip(1)
        } else {
            s
        };
        match accumulate(ds, neg) {
            Ok(v) => Ok(v as i32),
            Err(e) => Err(e),
        }
    }
}

/// `String::push`: the contract claims the string afterwards is the old
/// text followed by `c`.
#[verifier::external_body]
pub(crate) fn push_char(s: &mut String, c: char)
    ensures
        final(s)@ == old(s)@.push(c),
{
    s.push(c)
}

fn digit_to_char(d: u64) -> (c: char)
    requires
        d < 10,
    ensures
        c == digit_char(d as int),
        is_digit(c),
        digit_value(c) == d,
{
    if d == 0 {
        '0'
    } else if d == 1 {
        '1'
    } else if d == 2 {
        '2'
    } else if d == 3 {
        '3'
    } else if d == 4 {
        '4'
    } else if d == 5 {
        '5'
    } else if d == 6 {
        '6'
    } else if d == 7 {
        '7'
    } else if d == 8 {
        '8'
    } else {
        '9'
    }
}

fn push_nat_digits(out: &mut String, n: u64)
    ensures
        final(out)@ == old(out)@ + nat_digits(n as nat),
    decreases n,
{
    if n >= 10 {
        push_nat_digits(out, n / 10);
    }
    let c = digit_to_char(n % 10);
    push_char(out, c);
    proof {
        if n >= 10 {
            assert(old(out)@ + nat_digits((n / 10) as nat) + seq![c] =~= old(out)@ + nat_digits(
                n as nat,
            ));
        } else {
            assert(old(out)@ + seq![c] =~= old(out)@ + nat_digits(n as nat));
        }
    }
}

/// Decimal text of `n`, as `n.to_string()` writes it.
pub fn i64_to_string(n: i64) -> (s: String)
    ensures
        s@ == decimal(n as int),
{
    let mut out = String::new();
    if n < 0 {
        push_char(&mut out, '-');
        let mag: u64 = if n == i64::MIN {
            9223372036854775808u64
        } else {
            (-n) as u64
        };
        push_nat_digits(&mut out, mag);
        assert(out@ =~= decimal(n as int));
    } else {
        push_nat_digits(&mut out, n as u64);
        assert(out@ =~= decimal(n as int));
    }
    out
}

fn char_digit(c: char) -> (r: Option<u64>)
    ensures
        r is Some <==> is_digit(c),
        r matches Some(d) ==> d == digit_value(c) && d < 10,
{
    if '0' <= c && c <= '9' {
        Some(((c as u32) - ('0' as u32)) as u64)
    } else {
        None
    }
}

/// Parses decimal text into an `i32` as `str::parse::<i32>` does: an
/// optional `+` or `-`, then one or more ASCII digits, within range.
pub fn parse_i32(s: &str) -> (r: Result<i32, ParseIntError>)
    ensures
        match r {
            Ok(v) => spec_parse_i32(s@) == Ok::<i32, IntErrorKind>(v),
            Err(e) => spec_parse_i32(s@) == Err::<i32, IntErrorKind>(e.kind),
        },
{
    let len = s.unicode_len();
    if len == 0 {
        return Err(ParseIntError { kind: IntErrorKind::Empty });
    }
    let first = s.get_char(0);
    let signed = first == '+' || first == '-';
    if signed && len == 1 {
        return Err(ParseIntError { kind: IntErrorKind::InvalidDigit });
    }
    let neg = first == '-';
    let start: usize = if signed {
        1
    } else {
        0
    };
    let ghost ds = if signed {
        s@.skip(1)
    } else {
        s@
    };
    let mut acc: i64 = 0;
    let mut i: usize = start;
    while i < len
        invariant
            len == s@.len(),
            start <= i <= len,
            start == (if signed {
                1int
            } else {
                0int
            }),
            signed == has_sign(s@),
            neg == (s@[0] == '-'),
            ds == s@.skip(start as int),
            ds == (if has_sign(s@) {
                s@.skip(1)
            } else {
                s@
            }),
            s@.len() != 0,
            !(has_sign(s@) && s@.len() == 1),
            accumulate(ds.take(i - start), neg) == Ok::<int, IntErrorKind>(acc as int),
            i32::MIN <= acc <= i32::MAX,
            neg ==> acc <= 0,
            !neg ==> acc >= 0,
        decreases len - i,
    {
        let c = s.get_char(i);
        let ghost pre = ds.take(i - start);
        assert(ds.take(i + 1 - start).drop_last() =~= pre);
        assert(ds.take(i + 1 - start).last() == c);
        match char_digit(c) {
            None => {
                assert(accumulate(ds.take(i + 1 - start), neg) == Err::<int, IntErrorKind>(
                    IntErrorKind::InvalidDigit,
                ));
                proof {
                    lemma_accumulate_err_sticks(ds, neg, (i + 1 - start) as nat);
                }
                assert(accumulate(ds, neg) == Err::<int, IntErrorKind>(IntErrorKind::InvalidDigit));
                return Err(ParseIntError { kind: IntErrorKind::InvalidDigit });
            },
            Some(d) => {
                if neg {
                    let nv: i64 = acc * 10 - (d as i64);
                    if nv < -2147483648i64 {
                        assert(accumulate(ds.take(i + 1 - start), neg) == Err::<int, IntErrorKind>(
                            IntErrorKind::NegOverflow,
                        ));
                        proof {
                            lemma_accumulate_err_sticks(ds, neg, (i + 1 - start) as nat);
                        }
                        return Err(ParseIntError { kind: IntErrorKind::NegOverflow });
                    }
                    acc = nv;
                } else {
                    let nv: i64 = acc * 10 + (d as i64);
                    if nv > 2147483647i64 {
                        assert(accumulate(ds.take(i + 1 - start), neg) == Err::<int, IntErrorKind>(
                            IntErrorKind::PosOverflow,
                        ));
                        proof {
                            lemma_accumulate_err_sticks(ds, neg, (i + 1 - start) as nat);
                        }
                        return Err(ParseIntError { kind: IntErrorKind::PosOverflow });
                    }
                    acc = nv;
                }
            },
        }
        i = i + 1;
    }
    assert(ds.take(len - start) =~= ds);
    Ok(acc as i32)
}

/// Once the digits of a prefix are refused, every longer prefix is refused
/// with the same error.
proof fn lemma_accumulate_err_sticks(ds: Seq<char>, neg: bool, k: nat)
    requires
        k <= ds.len(),
        accumulate(ds.take(k as int), neg) is Err,
    ensures
        accumulate(ds, neg) == accumulate(ds.take(k as int), neg),
    decreases ds.len() - k,
{
    if k < ds.len() {
        assert(ds.take(k + 1int).drop_last() =~= ds.take(k as int));
        lemma_accumulate_err_sticks(ds, neg, k + 1);
    } else {
        assert(ds.take(k as int) =~= ds);
    }
}

proof fn lemma_digit_char(d: int)
    requires
        0 <= d < 10,
    ensures
        is_digit(digit_char(d)),
        digit_value(digit_char(d)) == d,
{
}

/// The digits of `m` read back give `m` (or `-m` with a negative sign),
/// as long as that value is an `i32`.
proof fn lemma_accumulate_nat_digits(m: nat, neg: bool)
    requires
        neg ==> m <= 2147483648,
        !neg ==> m <= 2147483647,
    ensures
        accumulate(nat_digits(m), neg) == Ok::<int, IntErrorKind>(
            if neg {
                -(m as int)
            } else {
                m as int
            },
        ),
    decreases m,
{
    let ds = nat_digits(m);
    if m < 10 {
        lemma_digit_char(m as int);
        assert(ds.drop_last() =~= Seq::<char>::empty());
        assert(accumulate(Seq::<char>::empty(), neg) == Ok::<int, IntErrorKind>(0));
    } else {
        lemma_accumulate_nat_digits(m / 10, neg);
        lemma_digit_char((m % 10) as int);
        assert(ds.drop_last() =~= nat_digits(m / 10));
        assert(ds.last() == digit_char((m % 10) as int));
        assert(m == (m / 10) * 10 + m % 10) by (nonlinear_arith);
    }
}

/// Parsing the decimal text of an `i32` gives the number back.
pub proof fn lemma_parse_decimal(n: i32)
    ensures
        spec_parse_i32(decimal(n as int)) == Ok::<i32, IntErrorKind>(n),
{
    if n < 0 {
        let m = (-(n as int)) as nat;
        lemma_accumulate_nat_digits(m, true);
        let s = decimal(n as int);
        assert(s.skip(1) =~= nat_digits(m));
        lemma_nat_digits_len(m);
    } else {
        lemma_accumulate_nat_digits(n as nat, false);
        lemma_nat_digits_first(n as nat);
    }
}

/// The text of a one-digit number is that digit.
pub proof fn lemma_small_decimal(n: int)
    requires
        0 <= n < 10,
    ensures
        decimal(n) == seq![digit_char(n)],
        is_digit(digit_char(n)),
        digit_value(digit_char(n)) == n,
{
    lemma_digit_char(n);
}

proof fn lemma_nat_digits_no_colon(m: nat)
    ensures
        forall|i: int| 0 <= i < nat_digits(m).len() ==> is_digit(#[trigger] nat_digits(m)[i]),
    decreases m,
{
    if m >= 10 {
        lemma_nat_digits_no_colon(m / 10);
        lemma_digit_char((m % 10) as int);
        let d = nat_digits(m);
        assert forall|i: int| 0 <= i < d.len() implies is_digit(#[trigger] d[i]) by {
            if i < d.len() - 1 {
                assert(d[i] == nat_digits(m / 10)[i]);
            }
        }
    } else {
        lemma_digit_char(m as int);
    }
}

/// Decimal text holds no `:`.
pub proof fn lemma_decimal_no_colon(n: int)
    ensures
        !decimal(n).contains(':'),
{
    let d = decimal(n);
    if n < 0 {
        lemma_nat_digits_no_colon((-n) as nat);
        assert forall|i: int| 0 <= i < d.len() implies d[i] != ':' by {
            if i > 0 {
                assert(d[i] == nat_digits((-n) as nat)[i - 1]);
            }
        }
    } else {
        lemma_nat_digits_no_colon(n as nat);
        assert forall|i: int| 0 <= i < d.len() implies d[i] != ':' by {
            assert(is_digit(d[i]));
        }
    }
}

proof fn lemma_nat_digits_len(m: nat)
    ensures
        nat_digits(m).len() >= 1,
    decreases m,
{
    if m >= 10 {
        lemma_nat_digits_len(m / 10);
    }
}

proof fn lemma_nat_digits_first(m: nat)
    ensures
        nat_digits(m).len() >= 1,
        is_digit(nat_digits(m)[0]),
    decreases m,
{
    if m >= 10 {
        lemma_nat_digits_first(m / 10);
        assert(nat_digits(m)[0] == nat_digits(m / 10)[0]);
    } else {
        lemma_digit_char(m as int);
    }
}

} // verus!
