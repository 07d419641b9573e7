//! Exact decimal amounts.
//!
//! OFX writes monetary amounts as plain signed decimal literals such as
//! `-100.00`.  The library keeps them exact: an [`Amount`] records the
//! sign, the digits as an integer mantissa, and how many of those digits
//! fall behind the decimal point, so `-100.00` is
//! `(negative, 10000, 2)` and no rounding ever happens.

use vstd::prelude::*;
use vstd::string::StrSliceExecFns;

use crate::text::all_digits;
use crate::text::digits_val;
use crate::text::find_from;
use crate::text::first_at;
use crate::text::is_digit;
use crate::text::lemma_digits_val_bounds;
use crate::text::lemma_first_at;
use crate::text::pow10;

verus! {

/// A signed decimal amount: the denoted value is
/// `(-1)^negative * mantissa / 10^scale`.
#[derive(Clone, Copy, Debug, PartialEq, Eq, Structural, Hash)]
pub struct Amount {
    pub negative: bool,
    pub mantissa: u64,
    pub scale: usize,
}

/// The amount denoted by `s` under plain decimal syntax: an optional
/// sign, an integer part and an optional fraction part, with at least one
/// digit overall.  `None` for any other shape, and for a mantissa beyond
/// `u64`.
pub open spec fn amount_of(s: Seq<char>) -> Option<Amount> {
    let neg = s.len() > 0 && s[0] == '-';
    let rest = if s.len() > 0 && (s[0] == '+' || s[0] == '-') {
        s.subrange(1, s.len() as int)
    } else {
        s
    };
    let dot = first_at(rest, '.', 0);
    let ip = rest.subrange(0, dot);
    let fp = if dot < rest.len() {
        rest.subrange(dot + 1, rest.len() as int)
    } else {
        Seq::empty()
    };
    if ip.len() + fp.len() == 0 {
        None
    } else if !(all_digits(ip) && all_digits(fp)) {
        None
    } else if digits_val(ip) * pow10(fp.len()) + digits_val(fp) > u64::MAX {
        None
    } else {
        Some(
            Amount {
                negative: neg,
                mantissa: (digits_val(ip) * pow10(fp.len()) + digits_val(fp)) as u64,
                scale: fp.len() as usize,
            },
        )
    }
}

/// Extending a digit run keeps the accumulated value from shrinking, so
/// an overflow seen on a prefix decides the whole run.
proof fn lemma_acc_monotone(s: Seq<char>, from: int, k: int, to: int, init: int)
    requires
        0 <= from <= k <= to <= s.len(),
        all_digits(s.subrange(from, to)),
        init >= 0,
    ensures
        init * pow10((k - from) as nat) + digits_val(s.subrange(from, k)) <= init * pow10(
            (to - from) as nat,
        ) + digits_val(s.subrange(from, to)),
    decreases to - k,
{
    if k < to {
        lemma_acc_monotone(s, from, k, to - 1, init);
        let a = s.subrange(from, to);
        let b = s.subrange(from, to - 1);
        assert(all_digits(b)) by {
            assert(forall|i: int| 0 <= i < b.len() ==> b[i] == #[trigger] a[i]);
        }
        assert(a.drop_last() =~= b);
        assert(is_digit(a.last()));
        lemma_digits_val_bounds(b);
        let fb = init * pow10((to - 1 - from) as nat) + digits_val(b);
        let fa = init * pow10((to - from) as nat) + digits_val(a);
        assert(pow10((to - from) as nat) == 10 * pow10((to - 1 - from) as nat));
        assert(fa == fb * 10 + crate::text::dval(a.last())) by (nonlinear_arith)
            requires
                pow10((to - from) as nat) == 10 * pow10((to - 1 - from) as nat),
                fa == init * pow10((to - from) as nat) + digits_val(a),
                fb == init * pow10((to - 1 - from) as nat) + digits_val(b),
                digits_val(a) == digits_val(b) * 10 + crate::text::dval(a.last()),
        ;
        assert(fb >= 0) by {
            crate::text::lemma_pow10_le(0, (to - 1 - from) as nat);
        }
    } else {
        assert(s.subrange(from, k) =~= s.subrange(from, to));
    }
}

/// Folds the digits between `from` and `to` onto an initial accumulator,
/// reporting overflow past `u64` and any non-digit.
fn accumulate_digits(s: &str, from: usize, to: usize, init: u64) -> (r: Option<u64>)
    requires
        from <= to <= s@.len(),
    ensures
        ({
            let sub = s@.subrange(from as int, to as int);
            match r {
                Some(v) => all_digits(sub) && v == init * pow10((to - from) as nat) + digits_val(
                    sub,
                ),
                None => !all_digits(sub) || init * pow10((to - from) as nat) + digits_val(sub)
                    > u64::MAX,
            }
        }),
{
    let ghost sub = s@.subrange(from as int, to as int);
    let mut acc: u64 = init;
    let mut i: usize = from;
    while i < to
        invariant
            from <= i <= to <= s@.len(),
            sub == s@.subrange(from as int, to as int),
            all_digits(s@.subrange(from as int, i as int)),
            acc == init * pow10((i - from) as nat) + digits_val(s@.subrange(from as int, i as int)),
        decreases to - i,
    {
        let c = s.get_char(i);
        let v = c as u32;
        if v < 48 || v > 57 {
            proof {
                assert(sub[i - from] == s@[i as int]);
            }
            return None;
        }
        let d = (v - 48) as u64;
        proof {
            assert(s@.subrange(from as int, i + 1).drop_last() =~= s@.subrange(
                from as int,
                i as int,
            ));
            assert(s@.subrange(from as int, i + 1).last() == s@[i as int]);
            assert(all_digits(s@.subrange(from as int, i + 1))) by {
                assert(forall|j: int|
                    0 <= j < i + 1 - from ==> s@.subrange(from as int, i + 1)[j] == #[trigger] s@[
                        from + j]);
            }
            assert(init * pow10((i + 1 - from) as nat) + digits_val(
                s@.subrange(from as int, i + 1),
            ) == (init * pow10((i - from) as nat) + digits_val(s@.subrange(from as int, i as int)))
                * 10 + (v - 48)) by (nonlinear_arith)
                requires
                    pow10((i + 1 - from) as nat) == 10 * pow10((i - from) as nat),
                    digits_val(s@.subrange(from as int, i + 1)) == digits_val(
                        s@.subrange(from as int, i as int),
                    ) * 10 + (v - 48),
            ;
        }
        if acc > (u64::MAX - d) / 10 {
            proof {
                if all_digits(sub) {
                    lemma_acc_monotone(s@, from as int, i + 1, to as int, init as int);
                }
            }
            return None;
        }
        acc = acc * 10 + d;
        i += 1;
    }
    proof {
        assert(sub =~= s@.subrange(from as int, i as int));
    }
    Some(acc)
}

/// Parses a plain signed decimal literal, e.g. `-100.00` or `2000.00`.
pub fn parse_amount(s: &str) -> (r: Option<Amount>)
    ensures
        r == amount_of(s@),
{
    let len = s.unicode_len();
    let c0_sign = len > 0 && (s.get_char(0) == '+' || s.get_char(0) == '-');
    let neg = len > 0 && s.get_char(0) == '-';
    let start: usize = if c0_sign {
        1
    } else {
        0
    };
    let ghost rest = if c0_sign {
        s@.subrange(1, s@.len() as int)
    } else {
        s@
    };
    let dot = find_from(s, '.', start);
    proof {
        lemma_first_at(s@, '.', start as int);
        if c0_sign {
            assert(rest =~= s@.subrange(1, s@.len() as int));
        }
        if dot < len {
            crate::text::lemma_first_at_is(rest, '.', 0, dot - start);
        } else {
            lemma_first_at(rest, '.', 0);
            assert(forall|j: int|
                0 <= j < rest.len() ==> (#[trigger] rest[j]) == s@[j + start]);
            if first_at(rest, '.', 0) < rest.len() {
                assert(rest[first_at(rest, '.', 0)] == '.');
            }
        }
        assert(first_at(rest, '.', 0) == dot - start);
    }
    let ghost ip = rest.subrange(0, (dot - start) as int);
    let ghost fp = if dot < len {
        rest.subrange((dot - start + 1) as int, rest.len() as int)
    } else {
        Seq::<char>::empty()
    };
    proof {
        assert(ip =~= s@.subrange(start as int, dot as int));
        if dot < len {
            assert(fp =~= s@.subrange(dot + 1, len as int));
        }
    }
    let m_ip = match accumulate_digits(s, start, dot, 0) {
        Some(v) => v,
        None => {
            proof {
                if all_digits(ip) && all_digits(fp) {
                    lemma_digits_val_bounds(ip);
                    lemma_digits_val_bounds(fp);
                    crate::text::lemma_pow10_le(0, fp.len());
                    assert(digits_val(ip) * pow10(fp.len()) >= digits_val(ip))
                        by (nonlinear_arith)
                        requires
                            pow10(fp.len()) >= 1,
                            digits_val(ip) >= 0,
                    ;
                }
            }
            return None;
        },
    };
    let fp_from: usize = if dot < len {
        dot + 1
    } else {
        len
    };
    proof {
        if dot >= len {
            assert(fp =~= s@.subrange(fp_from as int, len as int));
        }
    }
    let mant = match accumulate_digits(s, fp_from, len, m_ip) {
        Some(v) => v,
        None => {
            return None;
        },
    };
    if dot - start == 0 && len - fp_from == 0 {
        return None;
    }
    Some(Amount { negative: neg, mantissa: mant, scale: len - fp_from })
}

} // verus!
