//! The timestamp decoder: turns the `date` attribute's digit string into a
//! whole-seconds + nanoseconds timestamp under one of two encodings.

use vstd::prelude::*;

verus! {

/// Which encoding the `date` digit string is under. The two are mutually
/// exclusive and never auto-detected; the caller selects one per run.
#[derive(Clone, Copy, Debug, PartialEq, Eq, Structural)]
pub enum DecodePolicy {
    /// The whole string is a count of microseconds since the epoch; the
    /// sub-second part is discarded (nanoseconds come out as zero).
    MicroEpoch,
    /// The first ten characters are whole seconds, every remaining character
    /// belongs to the nanoseconds run; the two runs are parsed independently.
    SplitEpoch,
}

/// A decoded point in time: whole seconds since the epoch plus a sub-second
/// nanosecond component.
#[derive(Clone, Copy, Debug, PartialEq, Eq, Structural)]
pub struct Timestamp {
    pub seconds: i64,
    pub nanos: u32,
}

/// `c` is one of the ASCII digits `'0'` to `'9'`.
pub open spec fn is_dec_digit(c: char) -> bool {
    48 <= c as int && c as int <= 57
}

/// The numeric value of the ASCII digit `c`.
pub open spec fn digit_val(c: char) -> int {
    c as int - 48
}

pub open spec fn all_dec_digits(s: Seq<char>) -> bool {
    forall|i: int| 0 <= i < s.len() ==> is_dec_digit(s[i])
}

/// The base-10 value of a digit string.
pub open spec fn digits_val(s: Seq<char>) -> int
    decreases s.len(),
{
    if s.len() == 0 {
        0
    } else {
        digits_val(s.drop_last()) * 10 + digit_val(s.last())
    }
}

/// `s` is a well-formed base-10 numeral whose value fits under `max`:
/// non-empty, decimal digits only, value at most `max`.
pub open spec fn valid_digit_string(s: Seq<char>, max: int) -> bool {
    &&& s.len() > 0
    &&& all_dec_digits(s)
    &&& digits_val(s) <= max
}

pub proof fn lemma_digits_val_nonneg(s: Seq<char>)
    requires
        all_dec_digits(s),
    ensures
        digits_val(s) >= 0,
    decreases s.len(),
{
    if s.len() > 0 {
        assert(all_dec_digits(s.drop_last()));
        lemma_digits_val_nonneg(s.drop_last());
    }
}

/// A digit string's value is at least the value of any of its prefixes.
pub proof fn lemma_digits_val_prefix(s: Seq<char>, k: int)
    requires
        all_dec_digits(s),
        0 <= k <= s.len(),
    ensures
        digits_val(s.take(k)) <= digits_val(s),
    decreases s.len(),
{
    if k == s.len() {
        assert(s.take(k) =~= s);
    } else {
        assert(all_dec_digits(s.drop_last()));
        assert(s.drop_last().take(k) =~= s.take(k));
        lemma_digits_val_prefix(s.drop_last(), k);
        lemma_digits_val_nonneg(s.drop_last());
    }
}

/// Parses `s[from..to]` as a base-10 numeral of value at most `max`:
/// `Some` exactly on well-formed numerals in range, `None` otherwise.
pub fn parse_digits_u64(s: &str, from: usize, to: usize, max: u64) -> (r: Option<u64>)
    requires
        from <= to <= s@.len(),
    ensures
        match r {
            Some(v) => valid_digit_string(s@.subrange(from as int, to as int), max as int)
                && v == digits_val(s@.subrange(from as int, to as int)),
            None => !valid_digit_string(s@.subrange(from as int, to as int), max as int),
        },
{
    let ghost whole: Seq<char> = s@.subrange(from as int, to as int);
    if from == to {
        assert(whole.len() == 0);
        return None;
    }
    let mut acc: u64 = 0;
    let mut i: usize = from;
    while i < to
        invariant
            from <= i <= to <= s@.len(),
            whole == s@.subrange(from as int, to as int),
            all_dec_digits(s@.subrange(from as int, i as int)),
            acc == digits_val(s@.subrange(from as int, i as int)),
            acc <= max,
        decreases to - i,
    {
        let ghost prefix: Seq<char> = s@.subrange(from as int, i as int);
        let c = s.get_char(i);
        let v: u32 = c as u32;
        if v < 48 || v > 57 {
            proof {
                assert(whole[i - from] == s@[i as int]);
                assert(!is_dec_digit(whole[i - from]));
            }
            return None;
        }
        let d: u64 = (v - 48) as u64;
        let ghost longer: Seq<char> = s@.subrange(from as int, i + 1 as int);
        proof {
            assert(longer.drop_last() =~= prefix);
            assert(longer.last() == s@[i as int]);
            assert(all_dec_digits(longer));
            assert(digits_val(longer) == acc * 10 + d);
        }
        let wide: u128 = (acc as u128) * 10 + (d as u128);
        if wide > max as u128 {
            proof {
                if all_dec_digits(whole) {
                    assert(whole.take(i + 1 - from) =~= longer);
                    lemma_digits_val_prefix(whole, i + 1 - from);
                }
            }
            return None;
        }
        acc = wide as u64;
        i = i + 1;
    }
    proof {
        assert(s@.subrange(from as int, i as int) =~= whole);
        assert(whole.len() > 0);
    }
    Some(acc)
}

/// What decoding a digit string yields under a policy: `Some` with the
/// decoded timestamp exactly when the string is well formed for that policy,
/// `None` otherwise.
///
/// Micro-epoch: the whole string is microseconds; seconds are the value
/// divided by 1,000,000 (floor), nanoseconds are discarded. Split-epoch: the
/// first ten characters are the seconds numeral and the remaining characters
/// the nanoseconds numeral; both runs must be non-empty well-formed numerals
/// (so a string of ten characters or fewer fails), and the nanoseconds value
/// must fit its field.
pub open spec fn spec_decode(s: Seq<char>, policy: DecodePolicy) -> Option<Timestamp> {
    match policy {
        DecodePolicy::MicroEpoch => if valid_digit_string(s, i64::MAX as int) {
            Some(Timestamp { seconds: (digits_val(s) / 1000000) as i64, nanos: 0u32 })
        } else {
            None
        },
        DecodePolicy::SplitEpoch => if s.len() >= 10
            && valid_digit_string(s.subrange(0, 10), i64::MAX as int)
            && valid_digit_string(s.subrange(10, s.len() as int), u32::MAX as int) {
            Some(Timestamp {
                seconds: digits_val(s.subrange(0, 10)) as i64,
                nanos: digits_val(s.subrange(10, s.len() as int)) as u32,
            })
        } else {
            None
        },
    }
}

/// Decodes a `date` digit string under the selected policy; returns the
/// timestamp exactly when `spec_decode` allows one.
pub fn decode_digits(s: &str, policy: DecodePolicy) -> (r: Option<Timestamp>)
    ensures
        r == spec_decode(s@, policy),
{
    let len = s.unicode_len();
    match policy {
        DecodePolicy::MicroEpoch => {
            match parse_digits_u64(s, 0, len, i64::MAX as u64) {
                Some(micros) => {
                    proof {
                        assert(s@.subrange(0, len as int) =~= s@);
                        lemma_digits_val_nonneg(s@);
                    }
                    Some(Timestamp { seconds: (micros / 1000000) as i64, nanos: 0 })
                },
                None => {
                    proof {
                        assert(s@.subrange(0, len as int) =~= s@);
                    }
                    None
                },
            }
        },
        DecodePolicy::SplitEpoch => {
            if len < 10 {
                return None;
            }
            match parse_digits_u64(s, 0, 10, i64::MAX as u64) {
                Some(seconds) => match parse_digits_u64(s, 10, len, u32::MAX as u64) {
                    Some(nanos) => {
                        proof {
                            lemma_digits_val_nonneg(s@.subrange(0, 10));
                            lemma_digits_val_nonneg(s@.subrange(10, len as int));
                        }
                        Some(Timestamp { seconds: seconds as i64, nanos: nanos as u32 })
                    },
                    None => None,
                },
                None => None,
            }
        },
    }
}

} // verus!
