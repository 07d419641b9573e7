//! Character-level helpers shared by the header and body decoders:
//! ASCII case folding, whitespace trimming, searching, and digit parsing.

use vstd::prelude::*;
use vstd::string::StrSliceExecFns;

verus! {

/// ASCII whitespace: the characters trimmed from header keys and values
/// and from element text.
pub open spec fn is_ws(c: char) -> bool {
    c == ' ' || c == '\t' || c == '\r' || c == '\n' || c == '\u{000c}'
}

fn is_ws_exec(c: char) -> (r: bool)
    ensures
        r == is_ws(c),
{
    c == ' ' || c == '\t' || c == '\r' || c == '\n' || c == '\u{000c}'
}

/// ASCII case folding on a character's scalar value: a lower-case letter
/// folds to its upper-case counterpart, everything else stays itself.
pub open spec fn up32(c: char) -> u32 {
    if 97 <= c as u32 && c as u32 <= 122 {
        (c as u32 - 32) as u32
    } else {
        c as u32
    }
}

/// Equality of two character sequences up to ASCII case.
pub open spec fn seq_eq_ci(a: Seq<char>, b: Seq<char>) -> bool {
    a.len() == b.len() && (forall|i: int| 0 <= i < a.len() ==> up32(a[i]) == up32(b[i]))
}

/// Exact string equality, decided character by character.
pub fn str_eq(a: &str, b: &str) -> (r: bool)
    ensures
        r == (a@ == b@),
{
    let alen = a.unicode_len();
    let blen = b.unicode_len();
    if alen != blen {
        return false;
    }
    let mut i: usize = 0;
    while i < alen
        invariant
            alen == a@.len(),
            blen == b@.len(),
            alen == blen,
            i <= alen,
            forall|j: int| 0 <= j < i ==> a@[j] == b@[j],
        decreases alen - i,
    {
        if a.get_char(i) != b.get_char(i) {
            return false;
        }
        i += 1;
    }
    proof {
        assert(a@ =~= b@);
    }
    true
}

/// String equality up to ASCII case, as used for header keys and body
/// element names.
pub fn str_eq_ci(a: &str, b: &str) -> (r: bool)
    ensures
        r == seq_eq_ci(a@, b@),
{
    let alen = a.unicode_len();
    let blen = b.unicode_len();
    if alen != blen {
        return false;
    }
    let mut i: usize = 0;
    while i < alen
        invariant
            alen == a@.len(),
            blen == b@.len(),
            alen == blen,
            i <= alen,
            forall|j: int| 0 <= j < i ==> up32(a@[j]) == up32(b@[j]),
        decreases alen - i,
    {
        let x = a.get_char(i) as u32;
        let y = b.get_char(i) as u32;
        let xu = if 97 <= x && x <= 122 {
            x - 32
        } else {
            x
        };
        let yu = if 97 <= y && y <= 122 {
            y - 32
        } else {
            y
        };
        if xu != yu {
            return false;
        }
        i += 1;
    }
    true
}

/// Index of the first occurrence of `c` in `s` at or after `from`;
/// `s.len()` when there is none.
pub open spec fn first_at(s: Seq<char>, c: char, from: int) -> int
    decreases s.len() - from,
{
    if from < 0 || from >= s.len() {
        s.len() as int
    } else if s[from] == c {
        from
    } else {
        first_at(s, c, from + 1)
    }
}

pub proof fn lemma_first_at(s: Seq<char>, c: char, from: int)
    requires
        0 <= from <= s.len(),
    ensures
        from <= first_at(s, c, from) <= s.len(),
        first_at(s, c, from) < s.len() ==> s[first_at(s, c, from)] == c,
        forall|j: int| from <= j < first_at(s, c, from) ==> s[j] != c,
    decreases s.len() - from,
{
    if from < s.len() && s[from] != c {
        lemma_first_at(s, c, from + 1);
    }
}

/// `first_at` finds exactly the position whose earlier positions all
/// differ from `c`.
pub proof fn lemma_first_at_is(s: Seq<char>, c: char, from: int, k: int)
    requires
        0 <= from <= k < s.len(),
        s[k] == c,
        forall|j: int| from <= j < k ==> s[j] != c,
    ensures
        first_at(s, c, from) == k,
    decreases k - from,
{
    if from < k {
        lemma_first_at_is(s, c, from + 1, k);
    }
}

/// A string that denotes an integer consists of signs and digits alone.
pub proof fn lemma_int_of_chars(s: Seq<char>)
    requires
        int_of(s) is Some,
    ensures
        forall|j: int|
            0 <= j < s.len() ==> ((#[trigger] s[j]) == '+' || s[j] == '-' || is_digit(s[j])),
{
    assert forall|j: int| 0 <= j < s.len() implies ((#[trigger] s[j]) == '+' || s[j] == '-'
        || is_digit(s[j])) by {
        if s[0] == '+' || s[0] == '-' {
            if j > 0 {
                let d = s.subrange(1, s.len() as int);
                assert(d[j - 1] == s[j]);
            }
        }
    }
}

/// Finds the first occurrence of `c` at or after `from`.
pub fn find_from(s: &str, c: char, from: usize) -> (r: usize)
    requires
        from <= s@.len(),
    ensures
        r == first_at(s@, c, from as int),
{
    let len = s.unicode_len();
    let mut i: usize = from;
    while i < len
        invariant
            from <= i <= len,
            len == s@.len(),
            first_at(s@, c, from as int) == first_at(s@, c, i as int),
        decreases len - i,
    {
        if s.get_char(i) == c {
            return i;
        }
        i += 1;
    }
    i
}

/// First index at or after `from` holding a non-whitespace character;
/// `s.len()` when the rest is all whitespace.
pub open spec fn skip_ws(s: Seq<char>, from: int) -> int
    decreases s.len() - from,
{
    if from < 0 || from >= s.len() {
        s.len() as int
    } else if !is_ws(s[from]) {
        from
    } else {
        skip_ws(s, from + 1)
    }
}

pub proof fn lemma_skip_ws(s: Seq<char>, from: int)
    requires
        0 <= from <= s.len(),
    ensures
        from <= skip_ws(s, from) <= s.len(),
        skip_ws(s, from) < s.len() ==> !is_ws(s[skip_ws(s, from)]),
        forall|j: int| from <= j < skip_ws(s, from) ==> is_ws(s[j]),
    decreases s.len() - from,
{
    if from < s.len() && is_ws(s[from]) {
        lemma_skip_ws(s, from + 1);
    }
}

/// End of the last non-whitespace character at or before `to`; 0 when
/// everything before `to` is whitespace.
pub open spec fn ws_back(s: Seq<char>, to: int) -> int
    decreases to,
{
    if to <= 0 || to > s.len() {
        0
    } else if !is_ws(s[to - 1]) {
        to
    } else {
        ws_back(s, to - 1)
    }
}

pub proof fn lemma_ws_back(s: Seq<char>, to: int)
    requires
        0 <= to <= s.len(),
    ensures
        0 <= ws_back(s, to) <= to,
        ws_back(s, to) > 0 ==> !is_ws(s[ws_back(s, to) - 1]),
        forall|j: int| ws_back(s, to) <= j < to ==> is_ws(s[j]),
    decreases to,
{
    if to > 0 && is_ws(s[to - 1]) {
        lemma_ws_back(s, to - 1);
    }
}

/// `s` with leading and trailing ASCII whitespace removed.
pub open spec fn trim_spec(s: Seq<char>) -> Seq<char> {
    let a = skip_ws(s, 0);
    if a == s.len() {
        Seq::empty()
    } else {
        s.subrange(a, ws_back(s, s.len() as int))
    }
}

/// Trims leading and trailing ASCII whitespace.
pub fn trim_str(s: &str) -> (r: &str)
    ensures
        r@ == trim_spec(s@),
{
    let len = s.unicode_len();
    let mut a: usize = 0;
    while a < len && is_ws_exec(s.get_char(a))
        invariant
            a <= len,
            len == s@.len(),
            skip_ws(s@, 0) == skip_ws(s@, a as int),
        decreases len - a,
    {
        a += 1;
    }
    if a == len {
        let r = s.substring_char(0, 0);
        proof {
            assert(r@ =~= trim_spec(s@));
        }
        return r;
    }
    let mut b: usize = len;
    while b > 0 && is_ws_exec(s.get_char(b - 1))
        invariant
            b <= len,
            len == s@.len(),
            ws_back(s@, len as int) == ws_back(s@, b as int),
        decreases b,
    {
        b -= 1;
    }
    proof {
        lemma_skip_ws(s@, 0);
        lemma_ws_back(s@, len as int);
        assert(!is_ws(s@[a as int]));
        if b < a + 1 {
            assert(is_ws(s@[a as int]));
        }
    }
    s.substring_char(a, b)
}

/// A decimal digit.
pub open spec fn is_digit(c: char) -> bool {
    48 <= c as u32 && c as u32 <= 57
}

/// The numeric value of a decimal digit character.
pub open spec fn dval(c: char) -> int {
    c as u32 - 48
}

pub open spec fn all_digits(s: Seq<char>) -> bool {
    forall|i: int| 0 <= i < s.len() ==> is_digit(s[i])
}

/// The value of a string of decimal digits, most significant first.
pub open spec fn digits_val(s: Seq<char>) -> int
    decreases s.len(),
{
    if s.len() == 0 {
        0
    } else {
        digits_val(s.drop_last()) * 10 + dval(s.last())
    }
}

pub open spec fn pow10(n: nat) -> int
    decreases n,
{
    if n == 0 {
        1
    } else {
        10 * pow10((n - 1) as nat)
    }
}

pub proof fn lemma_digits_val_bounds(s: Seq<char>)
    requires
        all_digits(s),
    ensures
        0 <= digits_val(s) < pow10(s.len()),
    decreases s.len(),
{
    if s.len() > 0 {
        assert(all_digits(s.drop_last())) by {
            assert(forall|i: int|
                0 <= i < s.len() - 1 ==> s.drop_last()[i] == s[i] && is_digit(#[trigger] s[i]));
        }
        lemma_digits_val_bounds(s.drop_last());
    }
}

/// Parses the digits of `s` between `from` and `to` as a decimal number.
/// Returns `None` as soon as a non-digit stands in the range.
pub fn parse_digits(s: &str, from: usize, to: usize) -> (r: Option<u32>)
    requires
        from <= to <= s@.len(),
        to - from <= 9,
    ensures
        match r {
            Some(v) => all_digits(s@.subrange(from as int, to as int)) && v == digits_val(
                s@.subrange(from as int, to as int),
            ),
            None => !all_digits(s@.subrange(from as int, to as int)),
        },
{
    let mut acc: u32 = 0;
    let mut i: usize = from;
    proof {
        assert(pow10(9) == 1000000000) by {
            reveal_with_fuel(pow10, 10);
        }
        lemma_pow10_le(0, (to - from) as nat);
    }
    while i < to
        invariant
            from <= i <= to <= s@.len(),
            to - from <= 9,
            all_digits(s@.subrange(from as int, i as int)),
            acc == digits_val(s@.subrange(from as int, i as int)),
            acc < pow10((i - from) as nat),
            pow10(9) == 1000000000,
        decreases to - i,
    {
        let c = s.get_char(i);
        let v = c as u32;
        if v < 48 || v > 57 {
            proof {
                assert(s@.subrange(from as int, to as int)[i - from] == s@[i as int]);
            }
            return None;
        }
        proof {
            lemma_pow10_le(((i - from) + 1) as nat, 9);
            assert(s@.subrange(from as int, (i + 1) as int).drop_last() =~= s@.subrange(
                from as int,
                i as int,
            ));
        }
        acc = acc * 10 + (v - 48);
        i += 1;
        proof {
            assert(forall|j: int|
                0 <= j < i - from ==> s@.subrange(from as int, i as int)[j] == #[trigger] s@[from
                    + j]);
        }
    }
    proof {
        assert(s@.subrange(from as int, to as int) =~= s@.subrange(from as int, i as int));
    }
    Some(acc)
}

/// The integer denoted by `s` under the usual decimal syntax: an optional
/// sign followed by at least one digit.  `None` when `s` has any other
/// shape.
pub open spec fn int_of(s: Seq<char>) -> Option<int> {
    if s.len() == 0 {
        None
    } else if s[0] == '+' || s[0] == '-' {
        let d = s.subrange(1, s.len() as int);
        if d.len() > 0 && all_digits(d) {
            Some(
                if s[0] == '-' {
                    -digits_val(d)
                } else {
                    digits_val(d)
                },
            )
        } else {
            None
        }
    } else if all_digits(s) {
        Some(digits_val(s))
    } else {
        None
    }
}

pub proof fn lemma_digits_val_prefix(s: Seq<char>, k: int)
    requires
        all_digits(s),
        0 <= k <= s.len(),
    ensures
        digits_val(s.subrange(0, k)) <= digits_val(s),
    decreases s.len(),
{
    if k < s.len() {
        let d = s.drop_last();
        assert(all_digits(d)) by {
            assert(forall|i: int| 0 <= i < d.len() ==> d[i] == s[i] && is_digit(#[trigger] s[i]));
        }
        assert(d.subrange(0, k) =~= s.subrange(0, k));
        lemma_digits_val_prefix(d, k);
        lemma_digits_val_bounds(d);
    } else {
        assert(s.subrange(0, k) =~= s);
    }
}

/// Parses `s` as a signed 32-bit integer, with the syntax of `int_of`;
/// a well-formed number outside the `i32` range yields `None`.
pub fn parse_i32(s: &str) -> (r: Option<i32>)
    ensures
        match r {
            Some(v) => int_of(s@) == Some(v as int),
            None => int_of(s@) is None || int_of(s@)->0 < i32::MIN || int_of(s@)->0 > i32::MAX,
        },
{
    let len = s.unicode_len();
    if len == 0 {
        return None;
    }
    let c0 = s.get_char(0);
    let neg = c0 == '-';
    let start: usize = if c0 == '-' || c0 == '+' {
        1
    } else {
        0
    };
    if start == len {
        return None;
    }
    let ghost d = s@.subrange(start as int, len as int);
    proof {
        if start == 0 {
            assert(d =~= s@);
        }
    }
    let mut acc: u64 = 0;
    let mut i: usize = start;
    while i < len
        invariant
            start <= i <= len,
            len == s@.len(),
            start < len,
            start == 0 || start == 1,
            start == 1 <==> (s@[0] == '-' || s@[0] == '+'),
            neg == (s@[0] == '-'),
            start == 0 ==> d == s@,
            d == s@.subrange(start as int, len as int),
            all_digits(d.subrange(0, i - start)),
            acc == digits_val(d.subrange(0, i - start)),
            acc <= 4294967295,
        decreases len - i,
    {
        let c = s.get_char(i);
        let v = c as u32;
        if v < 48 || v > 57 {
            proof {
                assert(d[i - start] == s@[i as int]);
                assert(!all_digits(d));
            }
            return None;
        }
        proof {
            assert(d.subrange(0, i - start + 1).drop_last() =~= d.subrange(0, i - start));
            assert(d.subrange(0, i - start + 1).last() == s@[i as int]);
        }
        acc = acc * 10 + (v - 48) as u64;
        i += 1;
        if acc > 4294967295 {
            proof {
                assert(all_digits(d.subrange(0, i - start))) by {
                    assert(forall|j: int|
                        0 <= j < i - start ==> d.subrange(0, i - start)[j] == #[trigger] d.subrange(
                            0,
                            (i - start) - 1,
                        ).push(s@[i - 1])[j]);
                }
                lemma_digits_val_prefix_full(d, i - start, acc as int);
            }
            return None;
        }
    }
    proof {
        assert(d.subrange(0, i - start) =~= d);
    }
    if neg {
        if acc > 2147483648 {
            return None;
        }
        if acc == 2147483648 {
            return Some(i32::MIN);
        }
        Some(-(acc as i32))
    } else {
        if acc > 2147483647 {
            return None;
        }
        Some(acc as i32)
    }
}

/// When a digit prefix of `d` already denotes `v`, the whole of `d`, if it
/// is all digits, denotes at least `v`; so an overflowing prefix decides
/// the overflow of the whole string.
proof fn lemma_digits_val_prefix_full(d: Seq<char>, k: int, v: int)
    requires
        0 <= k <= d.len(),
        all_digits(d.subrange(0, k)),
        digits_val(d.subrange(0, k)) == v,
    ensures
        all_digits(d) ==> digits_val(d) >= v,
{
    if all_digits(d) {
        lemma_digits_val_prefix(d, k);
    }
}

pub proof fn lemma_pow10_le(a: nat, b: nat)
    requires
        a <= b,
    ensures
        0 < pow10(a) <= pow10(b),
    decreases b,
{
    if b > 0 {
        if a < b {
            lemma_pow10_le(a, (b - 1) as nat);
        } else {
            lemma_pow10_le((a - 1) as nat, (b - 1) as nat);
        }
    }
}

} // verus!
