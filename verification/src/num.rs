//! Decimal numbers: parsing the coordinate columns and rendering the derived
//! length column.

use vstd::prelude::*;

verus! {

pub open spec fn is_digit(b: u8) -> bool {
    48 <= b <= 57
}

pub open spec fn all_digits(s: Seq<u8>) -> bool {
    forall|i: int| 0 <= i < s.len() ==> is_digit(s[i])
}

/// The value of a sequence of decimal digit bytes, most significant first.
pub open spec fn digits_val(s: Seq<u8>) -> int
    decreases s.len(),
{
    if s.len() == 0 {
        0
    } else {
        digits_val(s.drop_last()) * 10 + (s.last() - 48)
    }
}

/// The digits of a signed decimal literal, after an optional leading sign.
pub open spec fn int_body(s: Seq<u8>) -> Seq<u8> {
    if s.len() > 0 && (s[0] == 45 || s[0] == 43) {
        s.drop_first()
    } else {
        s
    }
}

pub open spec fn int_negative(s: Seq<u8>) -> bool {
    s.len() > 0 && s[0] == 45
}

/// The signed value denoted by `s`, before any range check.
pub open spec fn int_value(s: Seq<u8>) -> int {
    if int_negative(s) {
        -digits_val(int_body(s))
    } else {
        digits_val(int_body(s))
    }
}

/// Whether `s` is an optional `+`/`-` sign followed by one or more digits,
/// denoting a value that fits in a 32-bit signed integer: the acceptance
/// condition of the coordinate columns.
pub open spec fn parses_as_i32(s: Seq<u8>) -> bool {
    &&& int_body(s).len() > 0
    &&& all_digits(int_body(s))
    &&& -0x8000_0000 <= int_value(s) <= 0x7fff_ffff
}

proof fn lemma_digits_val_nonneg(s: Seq<u8>)
    requires
        all_digits(s),
    ensures
        digits_val(s) >= 0,
    decreases s.len(),
{
    if s.len() > 0 {
        assert(all_digits(s.drop_last()));
        lemma_digits_val_nonneg(s.drop_last());
    }
}

/// Parses a decimal integer exactly as the coordinate columns demand:
/// `Some` on an optional sign followed by digits whose value fits in `i32`,
/// `None` otherwise.
pub fn parse_i32(s: &Vec<u8>) -> (r: Option<i32>)
    ensures
        r is Some <==> parses_as_i32(s@),
        r is Some ==> r.unwrap() as int == int_value(s@),
{
    let mut start: usize = 0;
    let mut neg: bool = false;
    if s.len() > 0 && (s[0] == 45 || s[0] == 43) {
        start = 1;
        neg = s[0] == 45;
    }
    proof {
        assert(int_body(s@) =~= s@.skip(start as int));
        assert(neg == int_negative(s@));
    }
    if s.len() == start {
        proof {
            assert(int_body(s@).len() == 0);
        }
        return None;
    }
    let ghost body = int_body(s@);
    let mut acc: u64 = 0;
    let mut over: bool = false;
    let mut j: usize = start;
    while j < s.len()
        invariant
            start <= j <= s.len(),
            body == s@.skip(start as int),
            body == int_body(s@),
            neg == int_negative(s@),
            all_digits(body.take(j - start)),
            !over ==> acc <= 0xffff_ffffu64 && acc as int == digits_val(body.take(j - start)),
            over ==> digits_val(body.take(j - start)) > 0xffff_ffff,
        decreases s.len() - j,
    {
        let b = s[j];
        if b < 48 || b > 57 {
            proof {
                assert(body[j - start] == b);
                assert(!is_digit(body[j - start]));
                assert(!all_digits(body));
            }
            return None;
        }
        let ghost prev = body.take(j - start);
        let d: u64 = (b - 48) as u64;
        if !over {
            let t: u64 = acc * 10 + d;
            if t > 0xffff_ffff {
                over = true;
            } else {
                acc = t;
            }
        }
        j = j + 1;
        proof {
            let cur = body.take(j - start);
            assert(cur.drop_last() =~= prev);
            assert(cur.last() == b);
            assert(digits_val(cur) == digits_val(prev) * 10 + (b - 48));
            assert(all_digits(cur));
            if over && digits_val(prev) > 0xffff_ffff {
                lemma_digits_val_nonneg(prev);
                assert(digits_val(cur) >= digits_val(prev) * 10);
            }
        }
    }
    proof {
        assert(body.take(s@.len() - start) =~= body);
    }
    if over {
        proof {
            lemma_digits_val_nonneg(body);
            assert(!parses_as_i32(s@));
        }
        return None;
    }
    if neg {
        if acc <= 0x8000_0000 {
            let v: i64 = -(acc as i64);
            proof {
                assert(-0x8000_0000 <= v <= 0x7fff_ffff);
            }
            Some(v as i32)
        } else {
            None
        }
    } else {
        if acc <= 0x7fff_ffff {
            Some(acc as i32)
        } else {
            None
        }
    }
}

/// The decimal digit bytes of a nonnegative value, most significant first.
pub open spec fn dec_digits(n: nat) -> Seq<u8>
    decreases n,
{
    if n < 10 {
        seq![(48 + n) as u8]
    } else {
        dec_digits(n / 10).push((48 + n % 10) as u8)
    }
}

/// The decimal rendering of a signed value: a minus sign before the digits
/// of the magnitude when the value is negative.
pub open spec fn dec_int(v: int) -> Seq<u8> {
    if v < 0 {
        seq![45u8] + dec_digits((-v) as nat)
    } else {
        dec_digits(v as nat)
    }
}

/// Appends the decimal digits of `n` to `out`.
fn push_dec_u64(out: &mut Vec<u8>, n: u64)
    ensures
        final(out)@ == old(out)@ + dec_digits(n as nat),
    decreases n,
{
    if n < 10 {
        out.push(48 + n as u8);
        proof {
            assert(out@ =~= old(out)@ + dec_digits(n as nat));
        }
    } else {
        push_dec_u64(out, n / 10);
        out.push(48 + (n % 10) as u8);
        proof {
            assert(out@ =~= old(out)@ + dec_digits(n as nat));
        }
    }
}

/// Appends the decimal rendering of `v` to `out`.
pub fn push_dec_i64(out: &mut Vec<u8>, v: i64)
    requires
        v > i64::MIN,
    ensures
        final(out)@ == old(out)@ + dec_int(v as int),
{
    if v < 0 {
        out.push(45);
        let m: u64 = (-v) as u64;
        push_dec_u64(out, m);
        proof {
            assert(out@ =~= old(out)@ + dec_int(v as int));
        }
    } else {
        push_dec_u64(out, v as u64);
    }
}

} // verus!
