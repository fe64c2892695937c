//! Configuration values as the monitoring core reads them.
//!
//! The configuration collaborator stores three values as strings: the
//! webhook URL, the polling interval in milliseconds, and the difference
//! threshold, a decimal in [0, 1].  Reading and writing the file is plain
//! I/O done by the surrounding program; turning the numeric strings into
//! the numbers the core runs on is done here.  The threshold is carried
//! in thousandths, so the scorer's comparisons stay exact.

use vstd::prelude::*;
use vstd::string::StrSliceExecFns;

verus! {

/// Where the configuration file lives.
#[derive(Clone, Debug)]
pub struct ConfigState {
    pub path: String,
}

/// Whether a character is an ASCII decimal digit.
pub open spec fn is_digit(c: char) -> bool {
    48 <= c as int <= 57
}

/// The numeric value of a digit character.
pub open spec fn digit_val(c: char) -> int {
    c as int - 48
}

/// Whether a string is made of decimal digits only.
pub open spec fn all_digits(s: Seq<char>) -> bool {
    forall|i: int| 0 <= i < s.len() ==> is_digit(#[trigger] s[i])
}

/// The base-10 value of a digit string.
pub open spec fn digits_value(s: Seq<char>) -> int
    decreases s.len(),
{
    if s.len() == 0 {
        0
    } else {
        digits_value(s.drop_last()) * 10 + digit_val(s.last())
    }
}

/// The value of a digit string is never negative.
proof fn lemma_digits_value_nonneg(s: Seq<char>)
    requires
        all_digits(s),
    ensures
        digits_value(s) >= 0,
    decreases s.len(),
{
    if s.len() > 0 {
        assert(all_digits(s.drop_last()));
        lemma_digits_value_nonneg(s.drop_last());
    }
}

/// Reading more digits can only grow the value.
proof fn lemma_digits_prefix_le(s: Seq<char>, i: int)
    requires
        all_digits(s),
        0 <= i <= s.len(),
    ensures
        digits_value(s.take(i)) <= digits_value(s),
    decreases s.len() - i,
{
    if i < s.len() {
        assert(s.take(i + 1).drop_last() =~= s.take(i));
        assert(all_digits(s.take(i)));
        lemma_digits_value_nonneg(s.take(i));
        assert(digits_value(s.take(i + 1)) == digits_value(s.take(i)) * 10 + digit_val(s[i]));
        lemma_digits_prefix_le(s, i + 1);
    } else {
        assert(s.take(i) =~= s);
    }
}

/// A digit string of at most three characters stays below 1000.
proof fn lemma_digits_value_small(s: Seq<char>)
    requires
        all_digits(s),
        s.len() <= 3,
    ensures
        digits_value(s) <= 999,
        s.len() <= 2 ==> digits_value(s) <= 99,
        s.len() <= 1 ==> digits_value(s) <= 9,
        s.len() == 0 ==> digits_value(s) == 0,
    decreases s.len(),
{
    if s.len() > 0 {
        assert(all_digits(s.drop_last()));
        lemma_digits_value_small(s.drop_last());
    }
}

/// Reads the base-10 value of the character range `[from, to)`, returning
/// `None` when a non-digit occurs in the range or the value exceeds
/// `cap`.
fn digits_range_value(s: &str, from: usize, to: usize, cap: u64) -> (r: Option<u64>)
    requires
        from <= to <= s@.len(),
    ensures
        match r {
            Some(v) => {
                &&& all_digits(s@.subrange(from as int, to as int))
                &&& digits_value(s@.subrange(from as int, to as int)) == v
                &&& v <= cap
            },
            None => !all_digits(s@.subrange(from as int, to as int)) || digits_value(
                s@.subrange(from as int, to as int),
            ) > cap,
        },
{
    let ghost sub = s@.subrange(from as int, to as int);
    let mut acc: u128 = 0;
    let mut i: usize = from;
    proof {
        assert(sub.take(0) =~= Seq::<char>::empty());
    }
    while i < to
        invariant
            from <= i <= to <= s@.len(),
            sub == s@.subrange(from as int, to as int),
            all_digits(sub.take(i - from)),
            acc == digits_value(sub.take(i - from)),
            acc <= cap,
            cap <= u64::MAX,
        decreases to - i,
    {
        let c = s.get_char(i);
        let v = c as u32;
        assert(sub[i - from] == s@[i as int]);
        if v < 48 || v > 57 {
            assert(!is_digit(sub[i - from]));
            return None;
        }
        proof {
            assert(sub.take(i - from + 1).drop_last() =~= sub.take(i - from));
            assert(sub.take(i - from + 1).last() == sub[i - from]);
        }
        acc = acc * 10 + ((v - 48) as u128);
        assert(acc == digits_value(sub.take(i - from + 1)));
        assert(all_digits(sub.take(i - from + 1)));
        if acc > (cap as u128) {
            proof {
                if all_digits(sub) {
                    lemma_digits_prefix_le(sub, i - from + 1);
                }
            }
            return None;
        }
        i = i + 1;
    }
    proof {
        assert(sub.take(to - from) =~= sub);
    }
    Some(acc as u64)
}

/// What a well-formed interval string parses to: a decimal digit string
/// whose value fits the millisecond counter; anything else is rejected.
pub open spec fn spec_parse_interval(s: Seq<char>) -> Option<u64> {
    if s.len() > 0 && all_digits(s) && digits_value(s) <= u64::MAX {
        Some(digits_value(s) as u64)
    } else {
        None
    }
}

/// Parses the polling interval, in milliseconds, from its configured
/// string form.
pub fn parse_interval(s: &str) -> (r: Option<u64>)
    ensures
        r == spec_parse_interval(s@),
{
    let n = s.unicode_len();
    if n == 0 {
        return None;
    }
    proof {
        assert(s@.subrange(0, n as int) =~= s@);
    }
    digits_range_value(s, 0, n, u64::MAX)
}

/// Whether the fraction digits carry no more than thousandths: every
/// digit beyond the third must be a zero.
pub open spec fn frac_exact(fp: Seq<char>) -> bool {
    forall|i: int| 3 <= i < fp.len() ==> fp[i] == '0'
}

/// A well-formed split of a threshold string at its decimal point:
/// `d` is the position of the point, digits stand on both sides (either
/// side may be empty, not both), and the fraction is no finer than
/// thousandths.
pub open spec fn valid_split(s: Seq<char>, d: int) -> bool {
    &&& 0 <= d < s.len()
    &&& s[d] == '.'
    &&& all_digits(s.take(d))
    &&& all_digits(s.skip(d + 1))
    &&& frac_exact(s.skip(d + 1))
    &&& s.len() >= 2
}

/// The fraction digits of a threshold, scaled to thousandths.  Digits
/// beyond the third contribute nothing; a well-formed fraction has only
/// zeros there.
pub open spec fn frac_milli(fp: Seq<char>) -> int {
    if fp.len() <= 3 {
        digits_value(fp) * (if fp.len() == 1 {
            100int
        } else if fp.len() == 2 {
            10int
        } else {
            1int
        })
    } else {
        digits_value(fp.take(3))
    }
}

/// What a well-formed threshold string parses to, in thousandths: either
/// a bare digit string, or digits around one decimal point with at most
/// three fraction digits; the value must not exceed 1.  Anything else is
/// rejected.
pub open spec fn spec_parse_threshold_milli(s: Seq<char>) -> Option<u32> {
    if s.len() > 0 && all_digits(s) {
        let m = digits_value(s) * 1000;
        if m <= 1000 {
            Some(m as u32)
        } else {
            None
        }
    } else if exists|d: int| valid_split(s, d) {
        let d = choose|d: int| valid_split(s, d);
        let m = digits_value(s.take(d)) * 1000 + frac_milli(s.skip(d + 1));
        if m <= 1000 {
            Some(m as u32)
        } else {
            None
        }
    } else {
        None
    }
}

/// Parses the difference threshold from its configured decimal string
/// form into thousandths: `"0.050"` parses to 50, `"1"` to 1000.
/// Rejected are the empty string, anything but digits around at most one
/// decimal point, more than three fraction digits, and values above 1.
pub fn parse_threshold_milli(s: &str) -> (r: Option<u32>)
    ensures
        r == spec_parse_threshold_milli(s@),
{
    let n = s.unicode_len();
    if n == 0 {
        return None;
    }
    // Find the first decimal point, if any.
    let mut dot: usize = n;
    let mut i: usize = 0;
    while i < n
        invariant
            n == s@.len(),
            i <= n,
            dot <= n,
            dot == n ==> forall|j: int| 0 <= j < i ==> s@[j] != '.',
            dot < n ==> s@[dot as int] == '.' && (forall|j: int| 0 <= j < dot ==> s@[j] != '.'),
        decreases n - i,
    {
        if dot == n && s.get_char(i) == '.' {
            dot = i;
        }
        i = i + 1;
    }
    if dot == n {
        // No decimal point: a bare digit string.
        assert(forall|j: int| 0 <= j < n ==> s@[j] != '.');
        assert(forall|d: int| !valid_split(s@, d));
        proof {
            assert(s@.subrange(0, n as int) =~= s@);
        }
        match digits_range_value(s, 0, n, 1) {
            Some(v) => Some((v as u32) * 1000),
            None => {
                proof {
                    if all_digits(s@) && digits_value(s@) > 1 {
                        assert(digits_value(s@) * 1000 > 1000);
                    }
                }
                None
            },
        }
    } else {
        // A decimal point at `dot`, the first one.
        assert(s@[dot as int] == '.');
        assert(forall|j: int| 0 <= j < dot ==> s@[j] != '.');
        assert(!all_digits(s@)) by {
            assert(!is_digit('.'));
        }
        let ghost ip = s@.take(dot as int);
        let ghost fp = s@.skip(dot as int + 1);
        proof {
            assert(s@.subrange(0, dot as int) =~= ip);
            assert(s@.subrange(dot as int + 1, n as int) =~= fp);
            // Any well-formed split must sit at the first point.
            assert forall|d: int| valid_split(s@, d) implies d == dot by {
                if d < dot {
                    assert(s@[d] == '.');
                } else if d > dot {
                    assert(s@.take(d)[dot as int] == '.');
                    assert(!is_digit('.'));
                }
            }
        }
        if n < 2 {
            assert(forall|d: int| !valid_split(s@, d));
            return None;
        }
        let flen = n - dot - 1;
        let fcut: usize = if flen > 3 {
            3
        } else {
            flen
        };
        // Fraction digits beyond the third must be zeros: anything finer
        // cannot be carried in thousandths.
        let mut j: usize = dot + 1 + fcut;
        while j < n
            invariant
                n == s@.len(),
                dot < n,
                fp == s@.skip(dot as int + 1),
                fcut == 3 || dot + 1 + fcut == n,
                fcut <= n - dot - 1,
                dot + 1 + fcut <= j <= n,
                forall|k: int| dot + 1 + fcut <= k < j ==> s@[k] == '0',
                forall|d: int| valid_split(s@, d) ==> d == dot,
                !all_digits(s@),
            decreases n - j,
        {
            if s.get_char(j) != '0' {
                proof {
                    assert(dot + 1 + fcut < n);
                    assert(fcut == 3);
                    assert(fp[j - dot - 1] == s@[j as int]);
                    assert(!frac_exact(fp));
                    assert(!valid_split(s@, dot as int));
                }
                return None;
            }
            j = j + 1;
        }
        assert(forall|k: int| dot + 1 + fcut <= k < n ==> s@[k] == '0');
        let ip_ok = digits_range_value(s, 0, dot, 1);
        let fp_ok = digits_range_value(s, dot + 1, dot + 1 + fcut, 1000);
        let ghost fphead = s@.subrange(dot as int + 1, dot as int + 1 + fcut as int);
        proof {
            assert(fphead =~= fp.take(fcut as int));
            assert forall|k: int| fcut <= k < fp.len() implies fp[k] == '0' by {
                assert(fp[k] == s@[k + dot + 1]);
            }
        }
        match (ip_ok, fp_ok) {
            (Some(v), Some(f)) => {
                assert(fp.len() == n - dot - 1);
                assert(all_digits(fp)) by {
                    assert(forall|k: int|
                        0 <= k < fcut ==> fp[k] == #[trigger] fphead[k] && is_digit(fphead[k]));
                    assert(is_digit('0'));
                }
                assert(frac_exact(fp));
                assert(valid_split(s@, dot as int));
                let scaled: u64 = if fcut == 1 {
                    f * 100
                } else if fcut == 2 {
                    f * 10
                } else {
                    f
                };
                assert(scaled == frac_milli(fp)) by {
                    if fp.len() <= 3 {
                        assert(fphead =~= fp);
                    }
                }
                let m: u64 = v * 1000 + scaled;
                assert(m == digits_value(ip) * 1000 + frac_milli(fp));
                proof {
                    let d0 = choose|d: int| valid_split(s@, d);
                    assert(d0 == dot);
                }
                if m <= 1000 {
                    Some(m as u32)
                } else {
                    None
                }
            },
            (_, _) => {
                proof {
                    if valid_split(s@, dot as int) {
                        assert(all_digits(fphead)) by {
                            assert(forall|k: int|
                                0 <= k < fcut ==> fphead[k] == #[trigger] fp[k] && is_digit(
                                    fp[k],
                                ));
                        }
                        lemma_digits_value_small(fphead);
                        // The fraction side is digits below the cap, so
                        // only the integer side can have been refused:
                        // its value is at least 2, putting the threshold
                        // over 1.
                        assert(all_digits(ip) && digits_value(ip) > 1);
                        assert(frac_milli(fp) >= 0) by {
                            if fp.len() <= 3 {
                                lemma_digits_value_nonneg(fp);
                            } else {
                                assert(all_digits(fp.take(3)));
                                lemma_digits_value_nonneg(fp.take(3));
                            }
                        }
                        assert(digits_value(ip) * 1000 + frac_milli(fp) > 1000);
                        let d0 = choose|d: int| valid_split(s@, d);
                        assert(d0 == dot);
                    }
                }
                None
            },
        }
    }
}

} // verus!
