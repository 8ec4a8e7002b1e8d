//! Signed 64-bit integers as decimal ASCII, the form in which the store
//! keeps timestamps.

use vstd::prelude::*;

verus! {

/// Whether every byte of `s` is an ASCII digit.
pub open spec fn is_digits(s: Seq<u8>) -> bool {
    forall|i: int| 0 <= i < s.len() ==> 0x30 <= #[trigger] s[i] <= 0x39
}

/// The number that a run of ASCII digits denotes; leading zeros count for
/// nothing and the empty run denotes 0.
pub open spec fn digits_value(s: Seq<u8>) -> int
    decreases s.len(),
{
    if s.len() == 0 {
        0
    } else {
        digits_value(s.drop_last()) * 10 + (s.last() - 0x30)
    }
}

/// The integer that `s` denotes: an optional sign, `+` or `-`, and then one
/// digit or more, with nothing before, between or after. `None` for any
/// other text.
pub open spec fn decimal_value(s: Seq<u8>) -> Option<int> {
    if s.len() == 0 {
        None
    } else if s[0] == 0x2d {
        if s.len() > 1 && is_digits(s.skip(1)) {
            Some(-digits_value(s.skip(1)))
        } else {
            None
        }
    } else if s[0] == 0x2b {
        if s.len() > 1 && is_digits(s.skip(1)) {
            Some(digits_value(s.skip(1)))
        } else {
            None
        }
    } else if is_digits(s) {
        Some(digits_value(s))
    } else {
        None
    }
}

/// What `s` parses to as an `i64`: the integer it denotes, where it denotes
/// one and that one fits.
pub open spec fn parsed_i64(s: Seq<u8>) -> Option<i64> {
    match decimal_value(s) {
        Some(v) => if i64::MIN <= v <= i64::MAX {
            Some(v as i64)
        } else {
            None
        },
        None => None,
    }
}

/// The digits of a natural number, without leading zeros.
pub open spec fn digits_of(n: nat) -> Seq<u8>
    decreases n,
{
    if n < 10 {
        seq![(0x30 + n) as u8]
    } else {
        digits_of(n / 10).push((0x30 + n % 10) as u8)
    }
}

/// The canonical decimal text of an integer: a `-` for a negative one, then
/// its digits without leading zeros.
pub open spec fn decimal_text(v: int) -> Seq<u8> {
    if v < 0 {
        seq![0x2du8] + digits_of((-v) as nat)
    } else {
        digits_of(v as nat)
    }
}

/// The digits of a natural number are digits, at least one of them, and
/// denote that number.
pub proof fn lemma_digits_of(n: nat)
    ensures
        is_digits(digits_of(n)),
        digits_of(n).len() >= 1,
        digits_value(digits_of(n)) == n,
    decreases n,
{
    if n < 10 {
        assert(digits_of(n).drop_last() =~= Seq::<u8>::empty());
        assert(digits_value(digits_of(n).drop_last()) == 0);
    } else {
        lemma_digits_of(n / 10);
        assert(digits_of(n).drop_last() =~= digits_of(n / 10));
    }
}

/// A run of digits denotes a natural number.
pub proof fn lemma_digits_value_nonnegative(s: Seq<u8>)
    requires
        is_digits(s),
    ensures
        0 <= digits_value(s),
    decreases s.len(),
{
    if s.len() > 0 {
        lemma_digits_value_nonnegative(s.drop_last());
    }
}

/// Reading back the canonical text of an integer gives that integer.
pub proof fn lemma_decimal_round_trip(v: int)
    ensures
        decimal_value(decimal_text(v)) == Some(v),
{
    if v < 0 {
        let n = (-v) as nat;
        lemma_digits_of(n);
        assert(decimal_text(v).skip(1) =~= digits_of(n));
    } else {
        lemma_digits_of(v as nat);
    }
}

/// Reading back the canonical text of an `i64` gives that `i64`.
pub proof fn lemma_i64_round_trip(v: i64)
    ensures
        parsed_i64(decimal_text(v as int)) == Some(v),
{
    lemma_decimal_round_trip(v as int);
}

/// Appends the digits of `n` to `out`.
fn push_digits(n: u64, out: &mut Vec<u8>)
    ensures
        final(out)@ == old(out)@ + digits_of(n as nat),
    decreases n,
{
    if n >= 10 {
        push_digits(n / 10, out);
    }
    let digit: u8 = (0x30 + n % 10) as u8;
    out.push(digit);
    assert(out@ =~= old(out)@ + digits_of(n as nat));
}

/// The canonical decimal text of `v`.
pub fn format_i64(v: i64) -> (text: Vec<u8>)
    ensures
        text@ == decimal_text(v as int),
        parsed_i64(text@) == Some(v),
{
    let mut text: Vec<u8> = Vec::new();
    if v < 0 {
        text.push(0x2d);
        let magnitude: u64 = if v == i64::MIN {
            0x8000_0000_0000_0000
        } else {
            (-v) as u64
        };
        push_digits(magnitude, &mut text);
    } else {
        push_digits(v as u64, &mut text);
    }
    proof {
        assert(text@ =~= decimal_text(v as int));
        lemma_i64_round_trip(v);
    }
    text
}

/// Reads `s` as an `i64`: an optional sign and then digits, nothing else,
/// and a value that fits.
pub fn parse_i64(s: &[u8]) -> (value: Option<i64>)
    ensures
        value == parsed_i64(s@),
{
    let n = s.len();
    if n == 0 {
        return None;
    }
    let negative = s[0] == 0x2d;
    let start: usize = if s[0] == 0x2d || s[0] == 0x2b {
        1
    } else {
        0
    };
    if start == n {
        return None;
    }
    let ghost body = s@.skip(start as int);
    let mut magnitude: u128 = 0;
    let mut over = false;
    let mut i: usize = start;
    while i < n
        invariant
            start <= i <= n,
            n == s.len(),
            start == (if s@[0] == 0x2d || s@[0] == 0x2b { 1usize } else { 0usize }),
            body == s@.skip(start as int),
            is_digits(body.take(i - start)),
            !over ==> magnitude == digits_value(body.take(i - start)) && magnitude
                <= 0x8000_0000_0000_0000,
            over ==> digits_value(body.take(i - start)) > 0x8000_0000_0000_0000,
        decreases n - i,
    {
        let b = s[i];
        if b < 0x30 || b > 0x39 {
            assert(body[i - start] == b);
            assert(!is_digits(body));
            assert(start == 0 ==> body =~= s@);
            return None;
        }
        proof {
            let longer = body.take(i + 1 - start);
            assert(longer.drop_last() =~= body.take(i - start));
            assert(longer.last() == b);
            lemma_digits_value_nonnegative(body.take(i - start));
        }
        if !over {
            magnitude = magnitude * 10 + (b - 0x30) as u128;
            if magnitude > 0x8000_0000_0000_0000 {
                over = true;
            }
        }
        i = i + 1;
    }
    proof {
        assert(body.take(n - start) =~= body);
        assert(start == 0 ==> body =~= s@);
    }
    if over {
        None
    } else if negative {
        if magnitude == 0x8000_0000_0000_0000 {
            Some(i64::MIN)
        } else {
            Some(-(magnitude as i64))
        }
    } else if magnitude == 0x8000_0000_0000_0000 {
        None
    } else {
        Some(magnitude as i64)
    }
}

} // verus!
