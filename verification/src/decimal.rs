//! Decimal-string codec: the feed reports prices and sizes as decimal
//! strings; this module parses them into fixed-point amounts (units of
//! `1 / AMOUNT_UNIT`), exactly and with an exact failure condition.
//!
//! The accepted grammar is a nonempty run of digits, optionally followed by
//! a dot and one to [`FRAC_DIGITS`] fractional digits. A string parses iff
//! it matches the grammar and the denoted amount fits in [`AMOUNT_MAX`].

use vstd::prelude::*;
use crate::trade::{AMOUNT_MAX, AMOUNT_UNIT};

verus! {

/// Fractional digits one unit resolves: `AMOUNT_UNIT == pow10(FRAC_DIGITS)`.
pub const FRAC_DIGITS: usize = 8;

/// Largest cap [`digits_value_capped`] accepts without risking overflow.
pub const DIGITS_CAP_MAX: u64 = 1_000_000_000_000_000_000;

pub open spec fn is_digit(c: char) -> bool {
    48 <= (c as u32) && (c as u32) <= 57
}

/// Numeric value of one decimal digit character.
pub open spec fn digit_val(c: char) -> int {
    (c as u32) - 48
}

pub open spec fn all_digits(s: Seq<char>) -> bool {
    forall|i: int| 0 <= i < s.len() ==> is_digit(#[trigger] s[i])
}

/// Value of a digit string read as a base-10 number.
pub open spec fn digits_val(s: Seq<char>) -> int
    decreases s.len(),
{
    if s.len() == 0 {
        0
    } else {
        digits_val(s.drop_last()) * 10 + digit_val(s.last())
    }
}

pub open spec fn pow10(e: nat) -> int
    decreases e,
{
    if e == 0 {
        1
    } else {
        10 * pow10((e - 1) as nat)
    }
}

/// `k` splits `s` into a valid integer part, a dot, and a valid
/// fractional part.
pub open spec fn valid_split_at(s: Seq<char>, k: int) -> bool {
    &&& 1 <= k
    &&& k < s.len()
    &&& s[k] == '.'
    &&& all_digits(s.take(k))
    &&& all_digits(s.skip(k + 1))
    &&& 1 <= s.len() - k - 1 <= FRAC_DIGITS
}

/// The decimal grammar: digits, or digits dot digits (one to
/// [`FRAC_DIGITS`] of them).
pub open spec fn valid_decimal(s: Seq<char>) -> bool {
    ||| (s.len() >= 1 && all_digits(s))
    ||| exists|k: int| valid_split_at(s, k)
}

/// The amount denoted by a valid decimal string, in units of
/// `1 / AMOUNT_UNIT`.
pub open spec fn decimal_units(s: Seq<char>) -> int
    recommends
        valid_decimal(s),
{
    if s.len() >= 1 && all_digits(s) {
        digits_val(s) * (AMOUNT_UNIT as int)
    } else {
        let k = choose|k: int| valid_split_at(s, k);
        digits_val(s.take(k)) * (AMOUNT_UNIT as int) + digits_val(s.skip(k + 1)) * pow10(
            (FRAC_DIGITS - (s.len() - k - 1)) as nat,
        )
    }
}

/// A string the feed codec accepts as a price or size: it matches the
/// grammar and its amount is representable.
pub open spec fn parses_to_units(s: Seq<char>) -> bool {
    valid_decimal(s) && decimal_units(s) <= AMOUNT_MAX
}

/// A valid decimal string never denotes a negative amount.
pub proof fn lemma_decimal_units_nonneg(s: Seq<char>)
    requires
        valid_decimal(s),
    ensures
        decimal_units(s) >= 0,
{
    if s.len() >= 1 && all_digits(s) {
        lemma_digits_val_bounds(s);
    } else {
        let k = choose|k: int| valid_split_at(s, k);
        assert(valid_split_at(s, k));
        lemma_digits_val_bounds(s.take(k));
        lemma_digits_val_bounds(s.skip(k + 1));
        lemma_pow10_pos((FRAC_DIGITS - (s.len() - k - 1)) as nat);
        assert(digits_val(s.skip(k + 1)) * pow10((FRAC_DIGITS - (s.len() - k - 1)) as nat) >= 0)
            by (nonlinear_arith)
            requires
                digits_val(s.skip(k + 1)) >= 0,
                pow10((FRAC_DIGITS - (s.len() - k - 1)) as nat) >= 1;
        assert(digits_val(s.take(k)) * (AMOUNT_UNIT as int) >= 0) by (nonlinear_arith)
            requires digits_val(s.take(k)) >= 0;
    }
}

proof fn lemma_pow10_pos(e: nat)
    ensures
        pow10(e) >= 1,
    decreases e,
{
    if e > 0 {
        lemma_pow10_pos((e - 1) as nat);
    }
}

proof fn lemma_pow10_adds(a: nat, b: nat)
    ensures
        pow10(a + b) == pow10(a) * pow10(b),
    decreases a,
{
    if a == 0 {
        assert(pow10(b) == 1 * pow10(b)) by (nonlinear_arith);
    } else {
        lemma_pow10_adds((a - 1) as nat, b);
        assert(10 * pow10((a - 1) as nat + b) == (10 * pow10((a - 1) as nat)) * pow10(b))
            by (nonlinear_arith)
            requires pow10((a - 1) as nat + b) == pow10((a - 1) as nat) * pow10(b);
        assert((a + b - 1) as nat == (a - 1) as nat + b);
    }
}

proof fn lemma_pow10_values()
    ensures
        pow10(8) == 100_000_000,
        pow10(7) == 10_000_000,
        pow10(6) == 1_000_000,
        pow10(5) == 100_000,
        pow10(4) == 10_000,
        pow10(3) == 1_000,
        pow10(2) == 100,
        pow10(1) == 10,
        pow10(0) == 1,
{
    assert(pow10(0) == 1);
    assert(pow10(1) == 10);
    assert(pow10(2) == 100);
    assert(pow10(3) == 1_000);
    assert(pow10(4) == 10_000);
    assert(pow10(5) == 100_000);
    assert(pow10(6) == 1_000_000);
    assert(pow10(7) == 10_000_000);
    assert(pow10(8) == 100_000_000);
}

/// A digit string's value is nonnegative and below `pow10` of its length.
proof fn lemma_digits_val_bounds(s: Seq<char>)
    requires
        all_digits(s),
    ensures
        0 <= digits_val(s) < pow10(s.len() as nat),
    decreases s.len(),
{
    if s.len() > 0 {
        assert(all_digits(s.drop_last()));
        lemma_digits_val_bounds(s.drop_last());
    }
}

/// A dot can split a string in at most one way: every valid split sits at
/// the (then unique) dot position `d`.
proof fn lemma_only_split(s: Seq<char>, d: int)
    requires
        0 <= d < s.len(),
        s[d] == '.',
    ensures
        forall|k: int| valid_split_at(s, k) ==> k == d,
{
    assert forall|k: int| valid_split_at(s, k) implies k == d by {
        if k < d {
            assert(s.skip(k + 1)[d - k - 1] == s[d]);
        } else if k > d {
            assert(s.take(k)[d] == s[d]);
        }
    }
}

/// A character that is neither a digit nor a dot rules the whole string out.
proof fn lemma_bad_char(s: Seq<char>, i: int)
    requires
        0 <= i < s.len(),
        !is_digit(s[i]),
        s[i] != '.',
    ensures
        !valid_decimal(s),
{
    assert(!all_digits(s));
    assert forall|k: int| !valid_split_at(s, k) by {
        if valid_split_at(s, k) {
            if i < k {
                assert(s.take(k)[i] == s[i]);
            } else if i > k {
                assert(s.skip(k + 1)[i - k - 1] == s[i]);
            }
        }
    }
}

/// Base-10 value of the digit run `s[from .. to]`, unless it exceeds `cap`.
/// Returns `Some` exactly when the value is at most `cap`, and then returns
/// it exactly.
fn digits_value_capped(s: &str, from: usize, to: usize, cap: u64) -> (r: Option<u64>)
    requires
        from <= to <= s@.len(),
        all_digits(s@.subrange(from as int, to as int)),
        cap <= DIGITS_CAP_MAX,
    ensures
        r is Some <==> digits_val(s@.subrange(from as int, to as int)) <= cap,
        r matches Some(u) ==> u as int == digits_val(s@.subrange(from as int, to as int)),
{
    let ghost sub = s@.subrange(from as int, to as int);
    let mut acc: u64 = 0;
    let mut over: bool = false;
    let mut j: usize = from;
    while j < to
        invariant
            from <= j <= to <= s@.len(),
            cap <= DIGITS_CAP_MAX,
            sub == s@.subrange(from as int, to as int),
            all_digits(sub),
            !over ==> acc as int == digits_val(sub.take(j - from)) && acc <= cap,
            over ==> digits_val(sub.take(j - from)) > cap,
        decreases to - j,
    {
        let c = s.get_char(j);
        proof {
            assert(sub[j - from] == s@[j as int]);
            assert(sub.take(j - from + 1).drop_last() =~= sub.take(j - from));
            assert(sub.take(j - from + 1).last() == sub[j - from]);
        }
        let d: u32 = (c as u32) - 48;
        if over {
            proof {
                assert(digits_val(sub.take(j - from)) * 10 >= digits_val(sub.take(j - from)));
            }
        } else {
            let t: u64 = acc * 10 + (d as u64);
            if t > cap {
                over = true;
            } else {
                acc = t;
            }
        }
        j = j + 1;
    }
    proof {
        assert(sub.take(to - from) =~= sub);
    }
    if over {
        None
    } else {
        Some(acc)
    }
}

/// Power of ten as an executable value, for scaling fractional parts.
fn pow10_u64(e: usize) -> (r: u64)
    requires
        e <= 8,
    ensures
        r as int == pow10(e as nat),
{
    proof {
        lemma_pow10_values();
    }
    let mut r: u64 = 1;
    let mut j: usize = 0;
    while j < e
        invariant
            j <= e <= 8,
            r as int == pow10(j as nat),
            pow10(8) == 100_000_000,
        decreases e - j,
    {
        proof {
            lemma_pow10_adds(j as nat, (8 - j) as nat);
            lemma_pow10_pos((8 - j - 1) as nat);
            lemma_pow10_pos(j as nat);
            assert(pow10(j as nat) * pow10((8 - j) as nat) == pow10(8));
            assert(pow10((8 - j) as nat) == 10 * pow10((8 - j - 1) as nat));
            assert(pow10(j as nat) * 10 <= pow10(8)) by (nonlinear_arith)
                requires
                    pow10(j as nat) * pow10((8 - j) as nat) == pow10(8),
                    pow10((8 - j) as nat) == 10 * pow10((8 - j - 1) as nat),
                    pow10((8 - j - 1) as nat) >= 1,
                    pow10(j as nat) >= 1;
        }
        r = r * 10;
        j = j + 1;
    }
    r
}

/// Parse a decimal string into fixed-point units of `1 / AMOUNT_UNIT`.
///
/// Returns `Some` exactly when the string matches the decimal grammar and
/// the denoted amount is at most [`AMOUNT_MAX`] units, and then returns
/// the amount exactly; `None` is the codec's decode failure.
pub fn parse_decimal(s: &str) -> (r: Option<u64>)
    ensures
        r is Some <==> parses_to_units(s@),
        r matches Some(u) ==> u as int == decimal_units(s@),
{
    let n = s.unicode_len();
    let mut dot: Option<usize> = None;
    let mut i: usize = 0;
    while i < n
        invariant
            i <= n == s@.len(),
            dot is None ==> all_digits(s@.take(i as int)),
            dot matches Some(d) ==> d < i && s@[d as int] == '.' && all_digits(s@.take(d as int))
                && all_digits(s@.subrange(d + 1, i as int)),
        decreases n - i,
    {
        let c = s.get_char(i);
        let u: u32 = c as u32;
        if 48 <= u && u <= 57 {
            proof {
                match dot {
                    Some(d) => {
                        assert(s@.subrange(d + 1, i + 1).drop_last() =~= s@.subrange(
                            d + 1,
                            i as int,
                        ));
                        assert(all_digits(s@.subrange(d + 1, i + 1)));
                    },
                    None => {
                        assert(s@.take(i + 1).drop_last() =~= s@.take(i as int));
                        assert(all_digits(s@.take(i + 1)));
                    },
                }
            }
        } else if u == 46 && dot.is_none() {
            proof {
                assert(c == '.');
            }
            dot = Some(i);
        } else if u == 46 {
            proof {
                let d = dot->0;
                assert(!is_digit(s@[d as int]));
                assert(!all_digits(s@));
                assert(c == '.');
                lemma_only_split(s@, d as int);
                lemma_only_split(s@, i as int);
            }
            return None;
        } else {
            proof {
                lemma_bad_char(s@, i as int);
            }
            return None;
        }
        i = i + 1;
    }

    let int_end: usize = match dot {
        Some(d) => d,
        None => n,
    };
    if int_end < 1 {
        proof {
            if dot is Some {
                let d = dot->0;
                assert(!is_digit(s@[d as int]));
                assert(!all_digits(s@));
                lemma_only_split(s@, d as int);
            }
        }
        return None;
    }
    proof {
        if dot is None {
            assert(s@.take(n as int) =~= s@);
        }
    }
    let int_cap: u64 = AMOUNT_MAX / AMOUNT_UNIT;
    proof {
        assert(s@.subrange(0, int_end as int) =~= s@.take(int_end as int));
        lemma_pow10_values();
    }
    let int_val = match digits_value_capped(s, 0, int_end, int_cap) {
        Some(v) => v,
        None => {
            proof {
                let ip = s@.take(int_end as int);
                assert(digits_val(ip) * (AMOUNT_UNIT as int) > AMOUNT_MAX);
                match dot {
                    Some(d) => {
                        lemma_only_split(s@, d as int);
                        assert(!is_digit(s@[d as int]));
                        assert(!all_digits(s@));
                        if valid_decimal(s@) {
                            let k = choose|k: int| valid_split_at(s@, k);
                            assert(k == d);
                            let fp = s@.skip(d + 1);
                            lemma_digits_val_bounds(fp);
                            lemma_pow10_pos((FRAC_DIGITS - (s@.len() - d - 1)) as nat);
                            assert(digits_val(fp) * pow10((FRAC_DIGITS - (s@.len() - d - 1)) as nat)
                                >= 0) by (nonlinear_arith)
                                requires
                                    digits_val(fp) >= 0,
                                    pow10((FRAC_DIGITS - (s@.len() - d - 1)) as nat) >= 1;
                        }
                    },
                    None => {},
                }
            }
            return None;
        },
    };

    match dot {
        None => {
            let total: u64 = int_val * AMOUNT_UNIT;
            proof {
                assert(s@.take(n as int) =~= s@);
            }
            Some(total)
        },
        Some(d) => {
            let frac_len: usize = n - d - 1;
            if frac_len < 1 || frac_len > 8 {
                proof {
                    assert(!is_digit(s@[d as int]));
                    assert(!all_digits(s@));
                    lemma_only_split(s@, d as int);
                }
                return None;
            }
            proof {
                assert(s@.subrange(d + 1, n as int) =~= s@.skip(d + 1));
                assert(valid_split_at(s@, d as int));
                lemma_only_split(s@, d as int);
                assert(!is_digit(s@[d as int]));
                assert(!all_digits(s@));
                let k = choose|k: int| valid_split_at(s@, k);
                assert(valid_split_at(s@, k));
                assert(k == d);
                let fp = s@.skip(d + 1);
                lemma_digits_val_bounds(fp);
                lemma_pow10_adds(frac_len as nat, (8 - frac_len) as nat);
                lemma_pow10_pos((8 - frac_len) as nat);
            }
            let frac_val = match digits_value_capped(s, d + 1, n, DIGITS_CAP_MAX) {
                Some(v) => v,
                None => {
                    proof {
                        let fp = s@.skip(d + 1);
                        assert(pow10(frac_len as nat) * pow10((8 - frac_len) as nat) == pow10(8));
                        assert(pow10(frac_len as nat) <= pow10(8)) by (nonlinear_arith)
                            requires
                                pow10(frac_len as nat) * pow10((8 - frac_len) as nat) == pow10(8),
                                pow10((8 - frac_len) as nat) >= 1,
                                pow10(frac_len as nat) >= 1;
                        assert(false);
                    }
                    return None;
                },
            };
            let scale = pow10_u64(8 - frac_len);
            proof {
                let fp = s@.skip(d + 1);
                assert((frac_val as int) * (scale as int) < 100_000_000) by (nonlinear_arith)
                    requires
                        frac_val as int == digits_val(fp),
                        0 <= digits_val(fp) < pow10(frac_len as nat),
                        scale as int == pow10((8 - frac_len) as nat),
                        pow10(frac_len as nat) * pow10((8 - frac_len) as nat) == 100_000_000,
                        scale >= 1;
            }
            let frac_units: u64 = frac_val * scale;
            let total: u64 = int_val * AMOUNT_UNIT + frac_units;
            if total <= AMOUNT_MAX {
                Some(total)
            } else {
                None
            }
        },
    }
}

} // verus!
