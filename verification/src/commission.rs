//! Validator commissions: a percentage with two decimal places,
//! carried as basis points.
//!
//! The staking interface reads commissions from strings such as
//! `"12.34"`. The grammar is a plain decimal number — an optional sign,
//! digits, at most one point — with at most two significant decimal
//! places, between 0 and 100 inclusive; [`spec_parse_commission`] is
//! that grammar, and the parser returns exactly what it gives.

use vstd::prelude::*;
use vstd::string::StringSliceAdditionalSpecFns;

verus! {

/// A commission in basis points: `1234` reads as `12.34 %`.
#[derive(Clone, Copy, Debug, PartialEq, Eq)]
pub struct Commission {
    basis_points: u16,
}

/// A string did not parse as a commission.
#[derive(Clone, Copy, Debug, PartialEq, Eq)]
pub struct ParseCommissionError;

/// An ASCII decimal digit.
pub open spec fn spec_is_digit(b: u8) -> bool {
    48 <= b <= 57
}

/// Every byte a digit.
pub open spec fn spec_all_digits(s: Seq<u8>) -> bool {
    forall|i: int| 0 <= i < s.len() ==> spec_is_digit(#[trigger] s[i])
}

/// The number the digits spell.
pub open spec fn spec_digits_val(s: Seq<u8>) -> int
    decreases s.len(),
{
    if s.len() == 0 {
        0
    } else {
        10 * spec_digits_val(s.drop_last()) + (s.last() - 48)
    }
}

/// Index of the first decimal point.
pub open spec fn spec_first_dot(s: Seq<u8>) -> Option<int>
    decreases s.len(),
{
    if s.len() == 0 {
        None
    } else if s[0] == 46 {
        Some(0)
    } else {
        match spec_first_dot(s.drop_first()) {
            Some(i) => Some(i + 1),
            None => None,
        }
    }
}

/// The shape of a decimal literal: an optional sign, then either
/// digits alone or digits around one point with at least one digit
/// after it. Yields the sign, the integer digits and the fraction
/// digits.
pub open spec fn spec_decimal_parts(b: Seq<u8>) -> Option<(bool, Seq<u8>, Seq<u8>)> {
    if b.len() == 0 {
        None
    } else {
        let neg = b[0] == 45;
        let body = if b[0] == 45 || b[0] == 43 {
            b.drop_first()
        } else {
            b
        };
        match spec_first_dot(body) {
            None => if body.len() > 0 && spec_all_digits(body) {
                Some((neg, body, Seq::empty()))
            } else {
                None
            },
            Some(k) => {
                let ip = body.take(k);
                let fp = body.skip(k + 1);
                if spec_all_digits(ip) && spec_all_digits(fp) && fp.len() >= 1 {
                    Some((neg, ip, fp))
                } else {
                    None
                }
            },
        }
    }
}

/// The first two fraction digits, as hundredths.
pub open spec fn spec_frac2_val(fp: Seq<u8>) -> int {
    (if fp.len() >= 1 {
        10 * (fp[0] - 48)
    } else {
        0
    }) + (if fp.len() >= 2 {
        fp[1] - 48
    } else {
        0
    })
}

/// No significant digit beyond the second decimal place.
pub open spec fn spec_frac_exact2(fp: Seq<u8>) -> bool {
    forall|i: int| 2 <= i < fp.len() ==> #[trigger] fp[i] == 48
}

/// The commission a byte string spells, in basis points: a decimal of
/// the right shape, exact at two places, not negative unless zero, and
/// at most one hundred percent.
pub open spec fn spec_parse_commission(b: Seq<u8>) -> Option<u16> {
    match spec_decimal_parts(b) {
        None => None,
        Some((neg, ip, fp)) => if !spec_frac_exact2(fp) {
            None
        } else {
            let v = spec_digits_val(ip) * 100 + spec_frac2_val(fp);
            if neg && v != 0 {
                None
            } else if v > 10000 {
                None
            } else {
                Some(v as u16)
            }
        },
    }
}

impl Commission {
    /// The basis points this commission holds.
    pub closed spec fn spec_basis_points(self) -> u16 {
        self.basis_points
    }

    /// The commission as the stake-table contract takes it: basis
    /// points.
    pub fn to_evm(self) -> (r: u16)
        ensures
            r == self.spec_basis_points(),
    {
        self.basis_points
    }

    /// A commission from basis points; more than the whole is refused.
    pub fn from_basis_points(basis_points: u16) -> (r: Result<Commission, ParseCommissionError>)
        ensures
            basis_points <= 10000 ==> (r matches Ok(c) && c.spec_basis_points() == basis_points),
            basis_points > 10000 ==> r is Err,
    {
        if basis_points > 10000 {
            Err(ParseCommissionError)
        } else {
            Ok(Commission { basis_points })
        }
    }
}

/// The scanner's bookkeeping: where the sign, the point and the two
/// digit runs sit in the input.
pub open spec fn spec_parse_ctx(
    bytes: Seq<u8>,
    start: int,
    dot: Option<usize>,
    ip: Seq<u8>,
    fp: Seq<u8>,
    ip_start: int,
    ip_end: int,
    fp_start: int,
    fp_end: int,
) -> bool {
    &&& bytes.len() > 0
    &&& start == (if bytes[0] == 45 || bytes[0] == 43 {
        1int
    } else {
        0int
    })
    &&& start <= bytes.len()
    &&& (match dot {
        Some(k) => {
            &&& start <= k < bytes.len()
            &&& bytes[k as int] == 46
            &&& spec_first_dot(bytes.skip(start)) == Some(k - start)
            &&& ip_start == start
            &&& ip_end == k
            &&& fp_start == k + 1
            &&& fp_end == bytes.len()
        },
        None => {
            &&& spec_first_dot(bytes.skip(start)) is None
            &&& ip_start == start
            &&& ip_end == bytes.len()
            &&& fp_start == bytes.len()
            &&& fp_end == bytes.len()
        },
    })
    &&& ip_start <= ip_end
    &&& fp_start <= fp_end
    &&& ip == bytes.subrange(ip_start, ip_end)
    &&& fp == bytes.subrange(fp_start, fp_end)
}

/// The character of a single decimal digit.
pub open spec fn spec_digit_char(d: int) -> char {
    ((48 + d) as u8) as char
}

/// The decimal digits of a number, most significant first.
pub open spec fn spec_decimal_digits(n: int) -> Seq<char>
    decreases n,
{
    if n < 10 {
        seq![spec_digit_char(n)]
    } else {
        spec_decimal_digits(n / 10).push(spec_digit_char(n % 10))
    }
}

/// How a commission reads: the percent with two decimal places and a
/// percent sign, as in `12.34 %`.
pub open spec fn spec_commission_display(bp: u16) -> Seq<char> {
    spec_decimal_digits(bp as int / 100) + seq!['.'] + seq![
        spec_digit_char((bp as int % 100) / 10),
        spec_digit_char(bp as int % 10),
    ] + seq![' ', '%']
}

/// The string for one decimal digit.
fn digit_str(d: u16) -> (r: &'static str)
    requires
        d < 10,
    ensures
        r@ == seq![spec_digit_char(d as int)],
{
    proof {
        reveal_strlit("0");
        reveal_strlit("1");
        reveal_strlit("2");
        reveal_strlit("3");
        reveal_strlit("4");
        reveal_strlit("5");
        reveal_strlit("6");
        reveal_strlit("7");
        reveal_strlit("8");
        reveal_strlit("9");
    }
    match d {
        0 => "0",
        1 => "1",
        2 => "2",
        3 => "3",
        4 => "4",
        5 => "5",
        6 => "6",
        7 => "7",
        8 => "8",
        _ => "9",
    }
}

impl Commission {
    /// The commission as people read it: the percent with two decimal
    /// places and a percent sign, as [`spec_commission_display`] states
    /// it.
    pub fn display(&self) -> (r: String)
        ensures
            r@ == spec_commission_display(self.spec_basis_points()),
    {
        let bp = self.basis_points;
        let ip = bp / 100;
        let mut out = String::from_str("");
        proof {
            reveal_strlit("");
            assert(out@ =~= Seq::<char>::empty());
        }
        if ip >= 100 {
            out.append(digit_str(ip / 100));
            out.append(digit_str((ip / 10) % 10));
            out.append(digit_str(ip % 10));
        } else if ip >= 10 {
            out.append(digit_str(ip / 10));
            out.append(digit_str(ip % 10));
        } else {
            out.append(digit_str(ip));
        }
        proof {
            reveal_with_fuel(spec_decimal_digits, 4);
            assert(out@ =~= spec_decimal_digits(ip as int));
        }
        out.append(".");
        out.append(digit_str((bp % 100) / 10));
        out.append(digit_str(bp % 10));
        out.append(" %");
        proof {
            reveal_strlit(".");
            reveal_strlit(" %");
            assert((".")@ =~= seq!['.']);
            assert((" %")@ =~= seq![' ', '%']);
            assert(out@ =~= spec_commission_display(bp));
        }
        out
    }
}

/// Parse a percentage string into a commission, as
/// [`spec_parse_commission`] states it: `Ok` exactly on a decimal of
/// the right shape, exact at two places, between zero and one hundred,
/// and then with exactly its basis points.
#[verifier::rlimit(100)]
pub fn parse_commission(s: &str) -> (r: Result<Commission, ParseCommissionError>)
    ensures
        match r {
            Ok(c) => spec_parse_commission(s.spec_bytes()) == Some(c.spec_basis_points()),
            Err(_) => spec_parse_commission(s.spec_bytes()) is None,
        },
{
    let b = s.as_bytes();
    let n = b.len();
    if n == 0 {
        return Err(ParseCommissionError);
    }
    let neg = b[0] == 45;
    let signed = neg || b[0] == 43;
    let start: usize = if signed {
        1
    } else {
        0
    };
    let ghost body = s.spec_bytes().skip(start as int);

    // Find the decimal point.
    let mut dot: Option<usize> = None;
    let mut i: usize = start;
    proof {
        assert(body.skip(0) =~= body);
    }
    while i < n
        invariant_except_break
            dot is None,
            spec_first_dot(body) == match spec_first_dot(body.skip(i - start)) {
                Some(k) => Some(k + i - start),
                None => None::<int>,
            },
        invariant
            start <= i <= n,
            n == s.spec_bytes().len(),
            b@ == s.spec_bytes(),
            body == s.spec_bytes().skip(start as int),
        ensures
            match dot {
                Some(k) => start <= k < n && s.spec_bytes()[k as int] == 46 && spec_first_dot(
                    body,
                ) == Some(k - start),
                None => spec_first_dot(body) is None,
            },
        decreases n - i,
    {
        proof {
            assert(body.skip(i - start)[0] == s.spec_bytes()[i as int]);
            assert(body.skip(i - start).drop_first() =~= body.skip(i + 1 - start));
        }
        if b[i] == 46 {
            dot = Some(i);
            proof {
                assert(spec_first_dot(body) == Some(i - start));
            }
            break ;
        }
        i = i + 1;
    }
    proof {
        if dot is None {
            assert(body.skip(n - start).len() == 0);
        }
    }

    let (ip_start, ip_end, fp_start, fp_end): (usize, usize, usize, usize) = match dot {
        Some(k) => (start, k, k + 1, n),
        None => (start, n, n, n),
    };
    let ghost ip = s.spec_bytes().subrange(ip_start as int, ip_end as int);
    let ghost fp = s.spec_bytes().subrange(fp_start as int, fp_end as int);
    let ghost ctx_ok = spec_parse_ctx(
        s.spec_bytes(),
        start as int,
        dot,
        ip,
        fp,
        ip_start as int,
        ip_end as int,
        fp_start as int,
        fp_end as int,
    );
    proof {
        assert(ctx_ok);
        lemma_parts_shape(s.spec_bytes(), start as int, dot, ip, fp);
    }

    // The shape checks: at least one digit after the point, or at
    // least one digit at all.
    if fp_end == fp_start && dot.is_some() {
        proof {
            if s.spec_bytes()[0] == 45 || s.spec_bytes()[0] == 43 {
                assert(s.spec_bytes().drop_first() =~= s.spec_bytes().skip(start as int));
            } else {
                assert(s.spec_bytes() =~= s.spec_bytes().skip(start as int));
            }
            let dk = dot->Some_0 as int;
            assert(s.spec_bytes().skip(start as int).skip(dk - start + 1).len() == 0);
            assert(spec_decimal_parts(s.spec_bytes()) is None);
        }
        return Err(ParseCommissionError);
    }
    if ip_end == ip_start && dot.is_none() {
        proof {
            assert(body.len() == 0);
            if s.spec_bytes()[0] == 45 || s.spec_bytes()[0] == 43 {
                assert(s.spec_bytes().drop_first() =~= s.spec_bytes().skip(start as int));
            } else {
                assert(s.spec_bytes() =~= s.spec_bytes().skip(start as int));
            }
            assert(spec_decimal_parts(s.spec_bytes()) is None);
        }
        return Err(ParseCommissionError);
    }

    // Digit checks on both runs.
    let mut j: usize = ip_start;
    while j < ip_end
        invariant
            ip_start <= j <= ip_end <= n,
            n == s.spec_bytes().len(),
            b@ == s.spec_bytes(),
            ctx_ok,
            ctx_ok == spec_parse_ctx(
                s.spec_bytes(),
                start as int,
                dot,
                ip,
                fp,
                ip_start as int,
                ip_end as int,
                fp_start as int,
                fp_end as int,
            ),
            forall|x: int| 0 <= x < j - ip_start ==> spec_is_digit(#[trigger] ip[x]),
        decreases ip_end - j,
    {
        if b[j] < 48 || b[j] > 57 {
            proof {
                lemma_parts_shape(s.spec_bytes(), start as int, dot, ip, fp);
                assert(ip[j - ip_start] == s.spec_bytes()[j as int]);
                assert(!spec_is_digit(ip[j - ip_start]));
                let body_now = s.spec_bytes().skip(start as int);
                if s.spec_bytes()[0] == 45 || s.spec_bytes()[0] == 43 {
                    assert(s.spec_bytes().drop_first() =~= s.spec_bytes().skip(start as int));
                } else {
                    assert(s.spec_bytes() =~= s.spec_bytes().skip(start as int));
                }
                match dot {
                    Some(k) => {
                        assert(ip =~= body_now.take(k - start));
                        assert(!spec_all_digits(body_now.take(k - start)));
                    },
                    None => {
                        assert(ip =~= body_now);
                        assert(!spec_all_digits(body_now));
                    },
                }
                assert(spec_decimal_parts(s.spec_bytes()) is None);
            }
            return Err(ParseCommissionError);
        }
        j = j + 1;
    }
    let mut k: usize = fp_start;
    while k < fp_end
        invariant
            fp_start <= k <= fp_end <= n,
            n == s.spec_bytes().len(),
            b@ == s.spec_bytes(),
            ctx_ok,
            ctx_ok == spec_parse_ctx(
                s.spec_bytes(),
                start as int,
                dot,
                ip,
                fp,
                ip_start as int,
                ip_end as int,
                fp_start as int,
                fp_end as int,
            ),
            spec_all_digits(ip),
            forall|x: int| 0 <= x < k - fp_start ==> spec_is_digit(#[trigger] fp[x]),
        decreases fp_end - k,
    {
        if b[k] < 48 || b[k] > 57 {
            proof {
                lemma_parts_shape(s.spec_bytes(), start as int, dot, ip, fp);
                assert(fp[k - fp_start] == s.spec_bytes()[k as int]);
                assert(!spec_is_digit(fp[k - fp_start]));
                let body_now = s.spec_bytes().skip(start as int);
                if s.spec_bytes()[0] == 45 || s.spec_bytes()[0] == 43 {
                    assert(s.spec_bytes().drop_first() =~= s.spec_bytes().skip(start as int));
                } else {
                    assert(s.spec_bytes() =~= s.spec_bytes().skip(start as int));
                }
                let dk = dot->Some_0 as int;
                assert(fp =~= body_now.skip(dk - start + 1));
                assert(!spec_all_digits(body_now.skip(dk - start + 1)));
                assert(spec_decimal_parts(s.spec_bytes()) is None);
            }
            return Err(ParseCommissionError);
        }
        k = k + 1;
    }
    let ghost parts_ok = spec_decimal_parts(s.spec_bytes()) == Some((neg, ip, fp));
    proof {
        lemma_parts_shape(s.spec_bytes(), start as int, dot, ip, fp);
        if s.spec_bytes()[0] == 45 || s.spec_bytes()[0] == 43 {
            assert(s.spec_bytes().drop_first() =~= s.spec_bytes().skip(start as int));
        } else {
            assert(s.spec_bytes() =~= s.spec_bytes().skip(start as int));
        }
        let body_now = s.spec_bytes().skip(start as int);
        assert(spec_all_digits(ip));
        assert(spec_all_digits(fp));
        assert(neg == (s.spec_bytes()[0] == 45));
        match dot {
            Some(dk) => {
                assert(ip =~= body_now.take(dk - start));
                assert(fp =~= body_now.skip(dk - start + 1));
                assert(fp.len() >= 1);
            },
            None => {
                assert(body_now.len() > 0);
                assert(ip =~= body_now);
                assert(fp.len() == 0);
                assert(fp =~= Seq::<u8>::empty());
            },
        }
        assert(parts_ok);
    }

    // Exactness: nothing beyond the second decimal place.
    let frac_len = fp_end - fp_start;
    let mut e: usize = if frac_len > 2 {
        fp_start + 2
    } else {
        fp_end
    };
    while e < fp_end
        invariant
            fp_start <= e <= fp_end <= n,
            e >= fp_start + 2 || e == fp_end,
            n == s.spec_bytes().len(),
            b@ == s.spec_bytes(),
            fp == s.spec_bytes().subrange(fp_start as int, fp_end as int),
            parts_ok,
            parts_ok == (spec_decimal_parts(s.spec_bytes()) == Some((neg, ip, fp))),
            forall|x: int| 2 <= x < e - fp_start ==> #[trigger] fp[x] == 48,
        decreases fp_end - e,
    {
        if b[e] != 48 {
            proof {
                assert(fp[e - fp_start] != 48);
                assert(!spec_frac_exact2(fp));
            }
            return Err(ParseCommissionError);
        }
        e = e + 1;
    }
    proof {
        assert(spec_frac_exact2(fp));
    }

    // The integer part, capped just above the largest admissible
    // value.
    let mut value: u32 = 0;
    let mut d: usize = ip_start;
    proof {
        assert(ip.take(0) =~= Seq::<u8>::empty());
    }
    while d < ip_end
        invariant
            ip_start <= d <= ip_end <= n,
            n == s.spec_bytes().len(),
            b@ == s.spec_bytes(),
            ip == s.spec_bytes().subrange(ip_start as int, ip_end as int),
            spec_all_digits(ip),
            parts_ok,
            parts_ok == (spec_decimal_parts(s.spec_bytes()) == Some((neg, ip, fp))),
            spec_frac_exact2(fp),
            value as int == (if spec_digits_val(ip.take(d - ip_start)) > 200 {
                200int
            } else {
                spec_digits_val(ip.take(d - ip_start))
            }),
        decreases ip_end - d,
    {
        proof {
            assert(ip.take(d + 1 - ip_start).drop_last() =~= ip.take(d - ip_start));
            assert(ip.take(d + 1 - ip_start).last() == ip[d - ip_start]);
            assert(ip[d - ip_start] == s.spec_bytes()[d as int]);
            lemma_digits_val_nonneg_prefix(ip, d - ip_start);
        }
        let digit = (b[d] - 48) as u32;
        let next = 10 * value + digit;
        value = if next > 200 {
            200
        } else {
            next
        };
        d = d + 1;
    }
    proof {
        assert(ip.take(ip_end - ip_start) =~= ip);
    }

    let frac2: u32 = {
        let first: u32 = if fp_start < fp_end {
            (b[fp_start] - 48) as u32
        } else {
            0
        };
        let second: u32 = if fp_end - fp_start >= 2 {
            (b[fp_start + 1] - 48) as u32
        } else {
            0
        };
        proof {
            if fp_start < fp_end {
                assert(fp[0] == s.spec_bytes()[fp_start as int]);
            }
            if fp_end - fp_start >= 2 {
                assert(fp[1] == s.spec_bytes()[fp_start + 1]);
            }
        }
        10 * first + second
    };

    if value > 100 {
        return Err(ParseCommissionError);
    }
    let total = value * 100 + frac2;
    if total > 10000 {
        return Err(ParseCommissionError);
    }
    if neg && total != 0 {
        return Err(ParseCommissionError);
    }
    Ok(Commission { basis_points: total as u16 })
}

/// Digit values of a prefix are nonnegative.
proof fn lemma_digits_val_nonneg_prefix(s: Seq<u8>, i: int)
    requires
        spec_all_digits(s),
        0 <= i <= s.len(),
    ensures
        spec_digits_val(s.take(i)) >= 0,
    decreases i,
{
    if i > 0 {
        assert(s.take(i).drop_last() =~= s.take(i - 1));
        lemma_digits_val_nonneg_prefix(s, i - 1);
    }
}

/// The scanned parts are the shape the grammar names, once both sides
/// digit-check.
proof fn lemma_parts_shape(bytes: Seq<u8>, start: int, dot: Option<usize>, ip: Seq<u8>, fp: Seq<u8>)
    requires
        bytes.len() > 0,
        start == (if bytes[0] == 45 || bytes[0] == 43 {
            1int
        } else {
            0int
        }),
        start <= bytes.len(),
        ({
            let body = bytes.skip(start);
            match dot {
                Some(k) => spec_first_dot(body) == Some(k - start) && start <= k < bytes.len()
                    && ip == bytes.subrange(start, k as int) && fp == bytes.subrange(
                    k + 1,
                    bytes.len() as int,
                ),
                None => spec_first_dot(body) is None && ip == bytes.subrange(
                    start,
                    bytes.len() as int,
                ) && fp.len() == 0,
            }
        }),
    ensures
        ({
            let body = bytes.skip(start);
            match dot {
                Some(k) => ip =~= body.take(k - start) && fp =~= body.skip(k - start + 1),
                None => ip =~= body && fp.len() == 0,
            }
        }),
{
    let body = bytes.skip(start);
    match dot {
        Some(k) => {
            assert(ip =~= body.take(k - start));
            assert(fp =~= body.skip(k - start + 1));
        },
        None => {
            assert(ip =~= body);
        },
    }
}

} // verus!
