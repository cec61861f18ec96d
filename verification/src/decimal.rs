//! Verified base-10 rendering and parsing of integers, used by the RESP
//! codec for integer frames and length prefixes and by entry ids.

use vstd::prelude::*;

verus! {

/// An ASCII decimal digit.
pub open spec fn is_dec_digit(b: u8) -> bool {
    0x30 <= b <= 0x39
}

/// Every byte of `s` is an ASCII decimal digit.
pub open spec fn all_dec_digits(s: Seq<u8>) -> bool {
    forall|i: int| 0 <= i < s.len() ==> is_dec_digit(#[trigger] s[i])
}

/// The base-10 digit string of `n`, most significant digit first.
pub open spec fn dec_of_nat(n: nat) -> Seq<u8>
    decreases n,
{
    if n < 10 {
        seq![(0x30 + n) as u8]
    } else {
        dec_of_nat(n / 10).push((0x30 + n % 10) as u8)
    }
}

/// The base-10 rendering of a signed integer: a minus sign, then the digits
/// of the magnitude.
pub open spec fn dec_of_int(i: int) -> Seq<u8> {
    if i < 0 {
        seq![0x2du8] + dec_of_nat((-i) as nat)
    } else {
        dec_of_nat(i as nat)
    }
}

/// The numeric value of a digit string, most significant digit first.
pub open spec fn dec_val(s: Seq<u8>) -> int
    decreases s.len(),
{
    if s.len() == 0 {
        0
    } else {
        dec_val(s.drop_last()) * 10 + (s.last() - 0x30)
    }
}

/// What `u64` parsing of a bare (unsigned) digit string returns: the value,
/// unless the string is empty, holds a non-digit, or overflows.
pub open spec fn spec_parse_u64(s: Seq<u8>) -> Option<u64> {
    if s.len() == 0 || !all_dec_digits(s) {
        None
    } else if dec_val(s) > u64::MAX {
        None
    } else {
        Some(dec_val(s) as u64)
    }
}

/// What `i64` parsing returns: an optional single `+` or `-` sign, then at
/// least one digit, and the signed value must fit in an `i64`.
pub open spec fn spec_parse_i64(s: Seq<u8>) -> Option<i64> {
    if s.len() == 0 {
        None
    } else {
        let signed = s[0] == 0x2d || s[0] == 0x2b;
        let neg = s[0] == 0x2d;
        let ds = if signed {
            s.drop_first()
        } else {
            s
        };
        if ds.len() == 0 || !all_dec_digits(ds) {
            None
        } else if neg {
            if dec_val(ds) > 0x8000_0000_0000_0000 {
                None
            } else {
                Some((-dec_val(ds)) as i64)
            }
        } else {
            if dec_val(ds) > i64::MAX {
                None
            } else {
                Some(dec_val(ds) as i64)
            }
        }
    }
}

/// Appends the digits of `n` to `out`.
pub fn push_dec_u64(n: u64, out: &mut Vec<u8>)
    ensures
        final(out)@ == old(out)@ + dec_of_nat(n as nat),
    decreases n,
{
    if n < 10 {
        out.push(0x30 + n as u8);
        proof {
            assert(old(out)@.push((0x30 + n as u8) as u8) =~= old(out)@ + dec_of_nat(n as nat));
        }
    } else {
        proof {
            assert(n / 10 < n) by (nonlinear_arith)
                requires
                    n >= 10,
            ;
        }
        push_dec_u64(n / 10, out);
        let d = (n % 10) as u8;
        out.push(0x30 + d);
        proof {
            assert((old(out)@ + dec_of_nat((n / 10) as nat)).push((0x30 + d) as u8) =~= old(
                out,
            )@ + dec_of_nat(n as nat));
        }
    }
}

/// The digits of `n`, most significant first.
pub fn format_u64(n: u64) -> (r: Vec<u8>)
    ensures
        r@ == dec_of_nat(n as nat),
{
    let mut out: Vec<u8> = Vec::new();
    push_dec_u64(n, &mut out);
    proof {
        assert(Seq::<u8>::empty() + dec_of_nat(n as nat) =~= dec_of_nat(n as nat));
    }
    out
}

/// Appends the signed decimal rendering of `i` to `out`.
pub fn push_dec_i64(i: i64, out: &mut Vec<u8>)
    ensures
        final(out)@ == old(out)@ + dec_of_int(i as int),
{
    if i >= 0 {
        push_dec_u64(i as u64, out);
    } else {
        out.push(0x2d);
        let m: u64 = ((-(i + 1)) as u64) + 1;
        assert(m as nat == -(i as int));
        push_dec_u64(m, out);
        proof {
            assert((old(out)@.push(0x2du8)) + dec_of_nat(m as nat) =~= old(out)@ + dec_of_int(
                i as int,
            ));
        }
    }
}

/// The signed decimal rendering of `i`.
pub fn format_i64(i: i64) -> (r: Vec<u8>)
    ensures
        r@ == dec_of_int(i as int),
{
    let mut out: Vec<u8> = Vec::new();
    push_dec_i64(i, &mut out);
    proof {
        assert(Seq::<u8>::empty() + dec_of_int(i as int) =~= dec_of_int(i as int));
    }
    out
}

/// The value of a digit string is non-negative.
pub proof fn lemma_dec_val_nonneg(s: Seq<u8>)
    requires
        all_dec_digits(s),
    ensures
        dec_val(s) >= 0,
    decreases s.len(),
{
    if s.len() > 0 {
        assert(all_dec_digits(s.drop_last()));
        lemma_dec_val_nonneg(s.drop_last());
        assert(dec_val(s.drop_last()) * 10 >= 0) by (nonlinear_arith)
            requires
                dec_val(s.drop_last()) >= 0,
        ;
        assert(is_dec_digit(s.last()));
    }
}

/// A digit string's value only grows when digits are appended.
proof fn lemma_dec_val_extend(s: Seq<u8>, k: int)
    requires
        0 <= k <= s.len(),
        all_dec_digits(s),
    ensures
        dec_val(s) >= dec_val(s.take(k)),
    decreases s.len() - k,
{
    if k < s.len() {
        let t = s.drop_last();
        assert(t =~= s.take(s.len() - 1));
        assert(all_dec_digits(t));
        lemma_dec_val_extend(t, k);
        assert(t.take(k) =~= s.take(k));
        lemma_dec_val_nonneg(t);
        assert(dec_val(t) * 10 >= dec_val(t)) by (nonlinear_arith)
            requires
                dec_val(t) >= 0,
        ;
        assert(is_dec_digit(s.last()));
        assert(dec_val(s) == dec_val(t) * 10 + (s.last() - 0x30));
    } else {
        assert(s.take(k) =~= s);
    }
}

/// Parses an unsigned decimal digit string, exactly as `spec_parse_u64`
/// describes.
pub fn parse_u64_digits(s: &[u8]) -> (r: Option<u64>)
    ensures
        r == spec_parse_u64(s@),
{
    if s.len() == 0 {
        return None;
    }
    let mut acc: u64 = 0;
    let mut i: usize = 0;
    while i < s.len()
        invariant
            0 <= i <= s@.len(),
            all_dec_digits(s@.take(i as int)),
            acc as int == dec_val(s@.take(i as int)),
        decreases s@.len() - i,
    {
        let b = s[i];
        if b < 0x30 || b > 0x39 {
            assert(!is_dec_digit(s@[i as int]));
            return None;
        }
        let d = (b - 0x30) as u64;
        if acc > (u64::MAX - d) / 10 {
            proof {
                assert(acc * 10 + d > u64::MAX) by (nonlinear_arith)
                    requires
                        acc > (u64::MAX - d) / 10,
                        0 <= d < 10,
                ;
                let t = s@.take(i + 1);
                assert(t.drop_last() =~= s@.take(i as int));
                assert(t.last() == s@[i as int]);
                assert(dec_val(t) == acc * 10 + d);
                if all_dec_digits(s@) {
                    assert(forall|j: int| i + 1 <= j < s@.len() ==> is_dec_digit(#[trigger] s@[j]));
                    lemma_dec_val_extend(s@, i + 1);
                    assert(dec_val(s@) > u64::MAX);
                }
            }
            return None;
        }
        proof {
            assert(acc * 10 + d <= u64::MAX) by (nonlinear_arith)
                requires
                    acc <= (u64::MAX - d) / 10,
                    0 <= d < 10,
                    acc >= 0,
            ;
            let t = s@.take(i + 1);
            assert(t.drop_last() =~= s@.take(i as int));
            assert(t.last() == s@[i as int]);
        }
        acc = acc * 10 + d;
        i = i + 1;
    }
    proof {
        assert(s@.take(s@.len() as int) =~= s@);
    }
    Some(acc)
}

/// Parses a signed decimal string, exactly as `spec_parse_i64` describes.
pub fn parse_i64_digits(s: &[u8]) -> (r: Option<i64>)
    ensures
        r == spec_parse_i64(s@),
{
    if s.len() == 0 {
        return None;
    }
    let signed = s[0] == 0x2d || s[0] == 0x2b;
    let neg = s[0] == 0x2d;
    let ds: &[u8] = if signed {
        vstd::slice::slice_subrange(s, 1, s.len())
    } else {
        s
    };
    proof {
        if signed {
            assert(ds@ =~= s@.drop_first());
        }
    }
    let v = match parse_u64_digits(ds) {
        Some(v) => v,
        None => {
            return None;
        },
    };
    proof {
        lemma_dec_val_nonneg(ds@);
    }
    if neg {
        if v > 0x8000_0000_0000_0000 {
            None
        } else if v == 0x8000_0000_0000_0000 {
            Some(i64::MIN)
        } else {
            Some(-(v as i64))
        }
    } else {
        if v > i64::MAX as u64 {
            None
        } else {
            Some(v as i64)
        }
    }
}

/// What signed decimal text denotes, with no bound on the value: an
/// optional single `+` or `-` sign, then at least one digit.
pub open spec fn spec_parse_signed(s: Seq<u8>) -> Option<int> {
    if s.len() == 0 {
        None
    } else {
        let signed = s[0] == 0x2d || s[0] == 0x2b;
        let ds = if signed {
            s.drop_first()
        } else {
            s
        };
        if ds.len() == 0 || !all_dec_digits(ds) {
            None
        } else if s[0] == 0x2d {
            Some(-dec_val(ds))
        } else {
            Some(dec_val(ds))
        }
    }
}

/// `i64` parsing agrees with the unbounded reading wherever the value fits;
/// where it refuses, the text is malformed or the value lies outside the
/// `i64` range.
pub proof fn lemma_parse_vs_unbounded_signed(s: Seq<u8>)
    ensures
        match spec_parse_i64(s) {
            Some(v) => spec_parse_signed(s) == Some(v as int),
            None => match spec_parse_signed(s) {
                Some(x) => x < i64::MIN || x > i64::MAX,
                None => true,
            },
        },
{
    if s.len() > 0 {
        let signed = s[0] == 0x2d || s[0] == 0x2b;
        let ds = if signed {
            s.drop_first()
        } else {
            s
        };
        if ds.len() > 0 && all_dec_digits(ds) {
            lemma_dec_val_nonneg(ds);
        }
    }
}

/// The digits of a number are digits, and there is at least one of them.
pub proof fn lemma_dec_of_nat_digits(n: nat)
    ensures
        all_dec_digits(dec_of_nat(n)),
        dec_of_nat(n).len() >= 1,
    decreases n,
{
    if n >= 10 {
        lemma_dec_of_nat_digits(n / 10);
    }
}

/// Rendering then evaluating a number gives the number back.
pub proof fn lemma_dec_val_of_nat(n: nat)
    ensures
        dec_val(dec_of_nat(n)) == n,
    decreases n,
{
    if n < 10 {
        let s = dec_of_nat(n);
        assert(s =~= seq![(0x30 + n) as u8]);
        assert(s.drop_last() =~= Seq::<u8>::empty());
        assert(dec_val(s.drop_last()) == 0);
        assert(s.last() == (0x30 + n) as u8);
        assert(dec_val(s) == n);
    } else {
        lemma_dec_val_of_nat(n / 10);
        let s = dec_of_nat(n);
        assert(s.drop_last() =~= dec_of_nat(n / 10));
        assert(dec_val(s) == (n / 10) * 10 + n % 10);
        assert((n / 10) * 10 + n % 10 == n) by (nonlinear_arith);
    }
}

/// Round trip: parsing the signed decimal rendering of an `i64` yields the
/// value.
pub proof fn lemma_parse_dec_i64(i: i64)
    ensures
        spec_parse_i64(dec_of_int(i as int)) == Some(i),
{
    if i >= 0 {
        lemma_dec_of_nat_digits(i as nat);
        lemma_dec_val_of_nat(i as nat);
        let s = dec_of_int(i as int);
        assert(is_dec_digit(s[0]));
        assert(s[0] != 0x2d && s[0] != 0x2b);
    } else {
        let m = (-(i as int)) as nat;
        lemma_dec_of_nat_digits(m);
        lemma_dec_val_of_nat(m);
        let s = dec_of_int(i as int);
        assert(s[0] == 0x2d);
        assert(s.drop_first() =~= dec_of_nat(m));
    }
}

} // verus!
