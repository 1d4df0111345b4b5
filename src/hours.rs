//! Reading a number of hours typed as a decimal (`2`, `1.5`) into whole seconds.
use vstd::prelude::*;

verus! {

/// The most digits read after the decimal point.
pub const MAX_FRACTION_DIGITS: usize = 18;

/// A decimal digit.
pub open spec fn is_digit(c: char) -> bool {
    '0' <= c <= '9'
}

/// Text made of decimal digits only.
pub open spec fn all_digits(s: Seq<char>) -> bool {
    forall|i: int| 0 <= i < s.len() ==> is_digit(#[trigger] s[i])
}

/// The value of a run of decimal digits.
pub open spec fn digits_value(s: Seq<char>) -> nat
    decreases s.len(),
{
    if s.len() == 0 {
        0
    } else {
        digits_value(s.drop_last()) * 10 + ((s.last() as int) - ('0' as int)) as nat
    }
}

/// Ten to the power `k`.
pub open spec fn pow10(k: nat) -> nat
    decreases k,
{
    if k == 0 {
        1
    } else {
        10 * pow10((k - 1) as nat)
    }
}

/// Whole seconds in `whole.fraction` hours, rounded down.
pub open spec fn seconds_of(whole: Seq<char>, fraction: Seq<char>) -> int {
    ((digits_value(whole) * pow10(fraction.len()) + digits_value(fraction)) * 3600) as int / (pow10(
        fraction.len(),
    ) as int)
}

/// Whether `s` is digits, or digits, a point and digits, with at least one
/// digit before the point and at most `MAX_FRACTION_DIGITS` after it.
pub open spec fn point_at(s: Seq<char>, k: int) -> bool {
    &&& 0 < k < s.len()
    &&& s[k] == '.'
    &&& all_digits(s.take(k))
    &&& all_digits(s.skip(k + 1))
    &&& s.len() - k - 1 <= MAX_FRACTION_DIGITS
}

/// The seconds in the hours that `s` spells, where it spells a number of hours
/// whose seconds fit an `i64`.
pub open spec fn hours_seconds(s: Seq<char>) -> Option<i64> {
    if s.len() > 0 && all_digits(s) {
        let v = seconds_of(s, Seq::empty());
        if v <= i64::MAX {
            Some(v as i64)
        } else {
            None
        }
    } else if exists|k: int| point_at(s, k) {
        let k = choose|k: int| point_at(s, k);
        let v = seconds_of(s.take(k), s.skip(k + 1));
        if v <= i64::MAX {
            Some(v as i64)
        } else {
            None
        }
    } else {
        None
    }
}

proof fn lemma_pow10_positive(k: nat)
    ensures
        pow10(k) >= 1,
    decreases k,
{
    if k > 0 {
        lemma_pow10_positive((k - 1) as nat);
    }
}

/// Reads digits `from..to` of `s` as a number, if they are all digits and
/// their value is below `limit`.
fn read_digits(s: &Vec<char>, from: usize, to: usize, limit: u128) -> (r: Option<u128>)
    requires
        from <= to <= s@.len(),
        0 < limit <= u128::MAX / 10 - 10,
    ensures
        r matches Some(v) ==> all_digits(s@.subrange(from as int, to as int)) && v == digits_value(
            s@.subrange(from as int, to as int),
        ) && v < limit,
        r is None ==> !all_digits(s@.subrange(from as int, to as int)) || digits_value(
            s@.subrange(from as int, to as int),
        ) >= limit,
{
    let mut v: u128 = 0;
    let mut i = from;
    while i < to
        invariant
            from <= i <= to <= s@.len(),
            0 < limit <= u128::MAX / 10 - 10,
            all_digits(s@.subrange(from as int, i as int)),
            v == digits_value(s@.subrange(from as int, i as int)),
            v < limit,
        decreases to - i,
    {
        let c = s[i];
        let ghost prefix = s@.subrange(from as int, i as int);
        let ghost next = s@.subrange(from as int, i as int + 1);
        assert(next.drop_last() =~= prefix);
        if !('0' <= c && c <= '9') {
            assert(!is_digit(next[i - from]));
            assert(next[i - from] == s@.subrange(from as int, to as int)[i - from]);
            return None;
        }
        let d = (c as u32 - '0' as u32) as u128;
        v = v * 10 + d;
        assert(all_digits(next)) by {
            assert forall|j: int| 0 <= j < next.len() implies is_digit(#[trigger] next[j]) by {
                if j < prefix.len() {
                    assert(next[j] == prefix[j]);
                }
            }
        }
        if v >= limit {
            proof {
                if all_digits(s@.subrange(from as int, to as int)) {
                    lemma_digits_grow(s@.subrange(from as int, to as int), (i + 1 - from) as int);
                }
            }
            assert(s@.subrange(from as int, to as int).take((i + 1 - from) as int) =~= next);
            return None;
        }
        i = i + 1;
    }
    Some(v)
}

/// A longer run of digits is worth at least as much as its start.
proof fn lemma_digits_grow(s: Seq<char>, k: int)
    requires
        0 <= k <= s.len(),
        all_digits(s),
    ensures
        digits_value(s) >= digits_value(s.take(k)),
    decreases s.len(),
{
    if k < s.len() {
        assert(s.drop_last().take(k) =~= s.take(k));
        assert(all_digits(s.drop_last())) by {
            assert forall|j: int| 0 <= j < s.drop_last().len() implies is_digit(
                #[trigger] s.drop_last()[j],
            ) by {
                assert(s.drop_last()[j] == s[j]);
            }
        }
        lemma_digits_grow(s.drop_last(), k);
    } else {
        assert(s.take(k) =~= s);
    }
}

proof fn lemma_digits_below_pow10(s: Seq<char>)
    requires
        all_digits(s),
    ensures
        digits_value(s) < pow10(s.len()),
    decreases s.len(),
{
    if s.len() > 0 {
        let t = s.drop_last();
        assert(all_digits(t)) by {
            assert forall|j: int| 0 <= j < t.len() implies is_digit(#[trigger] t[j]) by {
                assert(t[j] == s[j]);
            }
        }
        lemma_digits_below_pow10(t);
        assert(is_digit(s[s.len() - 1]));
        assert(digits_value(s) < pow10(s.len())) by (nonlinear_arith)
            requires
                digits_value(t) < pow10(t.len()),
                digits_value(s) == digits_value(t) * 10 + ((s.last() as int) - ('0' as int)),
                0 <= (s.last() as int) - ('0' as int) <= 9,
                pow10(s.len()) == 10 * pow10(t.len()),
        ;
    }
}

proof fn lemma_seconds_at_least(w: nat, f: nat, p: nat)
    requires
        p >= 1,
    ensures
        ((w * p + f) * 3600) as int / (p as int) >= w * 3600,
{
    let a: int = ((w * p + f) * 3600) as int;
    let b: int = ((w * 3600) * p) as int;
    assert(a >= b) by (nonlinear_arith)
        requires
            a == (w * p + f) * 3600,
            b == (w * 3600) * p,
            f >= 0,
    ;
    assert(b / (p as int) == w * 3600) by (nonlinear_arith)
        requires
            b == (w * 3600) * p,
            p >= 1,
    ;
    assert(a / (p as int) >= b / (p as int)) by (nonlinear_arith)
        requires
            a >= b,
            p >= 1,
    ;
}

proof fn lemma_pow10_bounded(k: nat)
    requires
        k <= 18,
    ensures
        1 <= pow10(k) <= 1_000_000_000_000_000_000,
    decreases 18 - k,
{
    lemma_pow10_positive(k);
    if k == 18 {
        reveal_with_fuel(pow10, 19);
    } else {
        lemma_pow10_bounded(k + 1);
    }
}

fn pow10_exec(k: usize) -> (r: u128)
    requires
        k <= MAX_FRACTION_DIGITS,
    ensures
        r == pow10(k as nat),
        1 <= r <= 1_000_000_000_000_000_000,
{
    let mut r: u128 = 1;
    let mut i: usize = 0;
    while i < k
        invariant
            i <= k <= MAX_FRACTION_DIGITS,
            r == pow10(i as nat),
        decreases k - i,
    {
        proof {
            lemma_pow10_bounded(i as nat);
        }
        r = r * 10;
        i = i + 1;
    }
    proof { lemma_pow10_bounded(k as nat); }
    r
}

fn chars_of(text: &str) -> (r: Vec<char>)
    ensures
        r@ == text@,
{
    let n = text.unicode_len();
    let mut out: Vec<char> = Vec::new();
    let mut i: usize = 0;
    while i < n
        invariant
            i <= n == text@.len(),
            out@ == text@.take(i as int),
        decreases n - i,
    {
        out.push(text.get_char(i));
        assert(text@.take(i as int + 1) =~= text@.take(i as int).push(text@[i as int]));
        i = i + 1;
    }
    assert(text@.take(i as int) =~= text@);
    out
}

/// The whole seconds in a number of hours typed as `H` or `H.F`; `None` where
/// the text is no such number, has more than `MAX_FRACTION_DIGITS` digits after
/// the point, or gives more seconds than an `i64` holds.
pub fn parse_hours(text: &str) -> (r: Option<i64>)
    ensures
        r == hours_seconds(text@),
{
    let s = chars_of(text);
    let n = s.len();
    if n == 0 {
        return None;
    }
    let mut k: usize = 0;
    while k < n
        invariant
            k <= n == s@.len(),
            forall|j: int| 0 <= j < k ==> s@[j] != '.',
        ensures
            k <= n,
            k < n ==> s@[k as int] == '.',
            forall|j: int| 0 <= j < k ==> s@[j] != '.',
        decreases n - k,
    {
        if s[k] == '.' {
            break;
        }
        k = k + 1;
    }
    let limit: u128 = 0x1_0000_0000_0000_0000_0000;
    let max_whole: u128 = (i64::MAX / 3600) as u128;
    if k == n {
        assert(s@.subrange(0, n as int) =~= s@);
        assert(pow10(0) == 1);
        assert(digits_value(Seq::<char>::empty()) == 0);
        assert forall|j: int| !point_at(s@, j) by {
            if 0 <= j < n {
                assert(s@[j] != '.');
            }
        }
        match read_digits(&s, 0, n, limit) {
            Some(w) => {
                assert(seconds_of(s@, Seq::empty()) == w * 3600) by {
                    assert(digits_value(Seq::<char>::empty()) == 0);
                    assert((w * 1 + 0) * 3600 / 1 == w * 3600) by (nonlinear_arith);
                }
                if w > max_whole {
                    return None;
                }
                Some((w * 3600) as i64)
            },
            None => {
                proof {
                    if all_digits(s@) {
                        assert(seconds_of(s@, Seq::empty()) == digits_value(s@) * 3600) by {
                            assert((digits_value(s@) * 1 + 0) * 3600 / 1 == digits_value(s@) * 3600)
                                by (nonlinear_arith);
                        }
                    }
                }
                None
            },
        }
    } else {
        assert(!all_digits(s@)) by {
            assert(!is_digit(s@[k as int]));
        }
        assert forall|j: int| point_at(s@, j) implies j == k by {
            if j < k {
                assert(s@.take(j)[k as int] == '.') by {
                    assert(false);
                }
            }
            if j > k {
                assert(s@.take(j)[k as int] == '.');
                assert(!is_digit(s@.take(j)[k as int]));
            }
        }
        if k == 0 || n - k - 1 > MAX_FRACTION_DIGITS {
            return None;
        }
        assert(s@.subrange(0, k as int) =~= s@.take(k as int));
        assert(s@.subrange(k as int + 1, n as int) =~= s@.skip(k as int + 1));
        let fl = n - k - 1;
        let p = pow10_exec(fl);
        let w = read_digits(&s, 0, k, limit);
        let f = read_digits(&s, k + 1, n, limit);
        match f {
            None => {
                proof {
                    if all_digits(s@.skip(k as int + 1)) {
                        lemma_digits_below_pow10(s@.skip(k as int + 1));
                    }
                }
                return None;
            },
            Some(_) => {},
        }
        let f = f.unwrap();
        proof { lemma_digits_below_pow10(s@.skip(k as int + 1)); }
        assert(point_at(s@, k as int) || w is None);
        match w {
            None => {
                proof {
                    if point_at(s@, k as int) {
                        lemma_seconds_at_least(
                            digits_value(s@.take(k as int)),
                            f as nat,
                            p as nat,
                        );
                    }
                }
                return None;
            },
            Some(w) => {
                assert(point_at(s@, k as int));
                proof { lemma_seconds_at_least(w as nat, f as nat, p as nat); }
                if w > max_whole {
                    return None;
                }
                assert((w * p + f) * 3600 <= 0x1000_0000_0000_0000_0000_0000_0000_0000) by (nonlinear_arith)
                    requires
                        w <= max_whole,
                        max_whole == 2562047788015215,
                        f < p,
                        p <= 1_000_000_000_000_000_000,
                ;
                let total = (w * p + f) * 3600 / p;
                assert(total == seconds_of(s@.take(k as int), s@.skip(k as int + 1)));
                if total <= i64::MAX as u128 {
                    Some(total as i64)
                } else {
                    None
                }
            },
        }
    }
}

} // verus!
