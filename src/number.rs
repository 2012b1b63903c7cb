//! Decimal integers in replies, as `isize::from_str` and `usize::from_str`
//! read them: an optional sign, then one or more ASCII digits.
use vstd::prelude::*;

verus! {

pub open spec fn is_digit(c: char) -> bool {
    '0' <= c && c <= '9'
}

pub open spec fn all_digits(s: Seq<char>) -> bool {
    forall|i: int| 0 <= i < s.len() ==> is_digit(#[trigger] s[i])
}

/// The value of a run of decimal digits.
pub open spec fn digits_value(s: Seq<char>) -> nat
    decreases s.len(),
{
    if s.len() == 0 {
        0
    } else {
        digits_value(s.drop_last()) * 10 + ((s.last() as u32) - ('0' as u32)) as nat
    }
}

/// The value of a signed decimal integer, if `s` is one.
pub open spec fn signed_value(s: Seq<char>) -> Option<int> {
    if s.len() > 0 && (s[0] == '+' || s[0] == '-') {
        let ds = s.drop_first();
        if ds.len() > 0 && all_digits(ds) {
            if s[0] == '-' {
                Some(-digits_value(ds))
            } else {
                Some(digits_value(ds) as int)
            }
        } else {
            None
        }
    } else if s.len() > 0 && all_digits(s) {
        Some(digits_value(s) as int)
    } else {
        None
    }
}

/// What `isize::from_str` gives for `s`.
pub open spec fn isize_of(s: Seq<char>) -> Option<isize> {
    match signed_value(s) {
        Some(v) => if isize::MIN <= v && v <= isize::MAX {
            Some(v as isize)
        } else {
            None
        },
        None => None,
    }
}

/// What `i32::from_str` gives for `s`.
pub open spec fn i32_of(s: Seq<char>) -> Option<i32> {
    match signed_value(s) {
        Some(v) => if i32::MIN <= v && v <= i32::MAX {
            Some(v as i32)
        } else {
            None
        },
        None => None,
    }
}

/// What `usize::from_str` gives for `s`; a minus sign is refused even on zero.
pub open spec fn usize_of(s: Seq<char>) -> Option<usize> {
    match signed_value(s) {
        Some(v) => if s[0] != '-' && 0 <= v && v <= usize::MAX {
            Some(v as usize)
        } else {
            None
        },
        None => None,
    }
}

/// A bound above every `isize` and `usize` magnitude.
pub const CAP: u128 = 0x1_0000_0000_0000_0000;

proof fn lemma_cap_exceeds_machine_ints()
    ensures
        usize::MAX < CAP,
        isize::MAX < CAP,
        -(isize::MIN as int) <= CAP,
{
}

/// The digits `s[lo..hi]`, if they are all digits: their value, or `CAP`
/// where it is `CAP` or more.
fn capped_digits(s: &[char], lo: usize, hi: usize) -> (r: Option<u128>)
    requires
        lo <= hi <= s@.len(),
    ensures
        r is Some <==> all_digits(s@.subrange(lo as int, hi as int)),
        r matches Some(v) ==> v as int == if digits_value(s@.subrange(lo as int, hi as int))
            < CAP {
            digits_value(s@.subrange(lo as int, hi as int)) as int
        } else {
            CAP as int
        },
{
    let mut acc: u128 = 0;
    let mut i: usize = lo;
    assert(s@.subrange(lo as int, lo as int) =~= Seq::<char>::empty());
    while i < hi
        invariant
            lo <= i <= hi <= s@.len(),
            all_digits(s@.subrange(lo as int, i as int)),
            acc as int == if digits_value(s@.subrange(lo as int, i as int)) < CAP {
                digits_value(s@.subrange(lo as int, i as int)) as int
            } else {
                CAP as int
            },
        decreases hi - i,
    {
        let c = s[i];
        let ghost prev = s@.subrange(lo as int, i as int);
        let ghost next = s@.subrange(lo as int, i + 1);
        assert(next.drop_last() =~= prev);
        if !('0' <= c && c <= '9') {
            assert(!all_digits(s@.subrange(lo as int, hi as int))) by {
                assert(s@.subrange(lo as int, hi as int)[i - lo] == c);
            }
            return None;
        }
        let d = (c as u32 - '0' as u32) as u128;
        assert(digits_value(next) == digits_value(prev) * 10 + d);
        if acc >= CAP {
            assert(digits_value(next) >= CAP) by (nonlinear_arith)
                requires
                    digits_value(prev) >= CAP,
                    digits_value(next) == digits_value(prev) * 10 + d,
            ;
        } else {
            acc = acc * 10 + d;
            if acc >= CAP {
                acc = CAP;
            }
        }
        assert(all_digits(next)) by {
            assert forall|k: int| 0 <= k < next.len() implies is_digit(#[trigger] next[k]) by {
                if k < prev.len() {
                    assert(next[k] == prev[k]);
                }
            }
        }
        i = i + 1;
    }
    Some(acc)
}

/// Reads `s[lo..hi]` as a signed decimal integer: whether it is negative, and
/// its magnitude, capped at `CAP`.
fn read_signed(s: &[char], lo: usize, hi: usize) -> (r: Option<(bool, u128)>)
    requires
        lo <= hi <= s@.len(),
    ensures
        r is Some <==> signed_value(s@.subrange(lo as int, hi as int)) is Some,
        r matches Some((neg, m)) ==> {
            let v = signed_value(s@.subrange(lo as int, hi as int))->0;
            &&& neg == (s@.subrange(lo as int, hi as int)[0] == '-')
            &&& (m < CAP ==> v == if neg {
                -(m as int)
            } else {
                m as int
            })
            &&& (m >= CAP ==> m == CAP && (v >= CAP || v <= -CAP))
        },
{
    let ghost t = s@.subrange(lo as int, hi as int);
    if lo == hi {
        return None;
    }
    let c = s[lo];
    if c == '+' || c == '-' {
        assert(t.drop_first() =~= s@.subrange(lo + 1, hi as int));
        if lo + 1 == hi {
            return None;
        }
        match capped_digits(s, lo + 1, hi) {
            Some(m) => Some((c == '-', m)),
            None => None,
        }
    } else {
        match capped_digits(s, lo, hi) {
            Some(m) => Some((false, m)),
            None => None,
        }
    }
}

/// `isize::from_str` on `s[lo..hi]`.
pub fn parse_isize(s: &[char], lo: usize, hi: usize) -> (r: Option<isize>)
    requires
        lo <= hi <= s@.len(),
    ensures
        r == isize_of(s@.subrange(lo as int, hi as int)),
{
    proof {
        lemma_cap_exceeds_machine_ints();
    }
    match read_signed(s, lo, hi) {
        None => None,
        Some((neg, m)) => {
            if m >= CAP {
                return None;
            }
            let v: i128 = if neg {
                -(m as i128)
            } else {
                m as i128
            };
            if isize::MIN as i128 <= v && v <= isize::MAX as i128 {
                Some(v as isize)
            } else {
                None
            }
        },
    }
}

/// `usize::from_str` on `s[lo..hi]`.
pub fn parse_usize(s: &[char], lo: usize, hi: usize) -> (r: Option<usize>)
    requires
        lo <= hi <= s@.len(),
    ensures
        r == usize_of(s@.subrange(lo as int, hi as int)),
{
    proof {
        lemma_cap_exceeds_machine_ints();
    }
    match read_signed(s, lo, hi) {
        None => None,
        Some((neg, m)) => {
            if neg || m > usize::MAX as u128 {
                return None;
            }
            Some(m as usize)
        },
    }
}

/// `i32::from_str` on `s[lo..hi]`.
pub fn parse_i32(s: &[char], lo: usize, hi: usize) -> (r: Option<i32>)
    requires
        lo <= hi <= s@.len(),
    ensures
        r == i32_of(s@.subrange(lo as int, hi as int)),
{
    match read_signed(s, lo, hi) {
        None => None,
        Some((neg, m)) => {
            if m >= CAP {
                return None;
            }
            let v: i128 = if neg {
                -(m as i128)
            } else {
                m as i128
            };
            if i32::MIN as i128 <= v && v <= i32::MAX as i128 {
                Some(v as i32)
            } else {
                None
            }
        },
    }
}

} // verus!
