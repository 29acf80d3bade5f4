//! Numbers written in decimal.
use vstd::prelude::*;

use crate::text::chars_of;

verus! {

/// The digit that stands for `d`.
pub open spec fn digit(d: int) -> char {
    (48 + d) as char
}

/// The decimal digits of `n`.
pub open spec fn digits(n: nat) -> Seq<char>
    decreases n,
{
    if n < 10 {
        seq![digit(n as int)]
    } else {
        digits(n / 10).push(digit((n % 10) as int))
    }
}

/// `n` written in decimal.
pub open spec fn decimal(n: int) -> Seq<char> {
    if n < 0 {
        seq!['-'] + digits((-n) as nat)
    } else {
        digits(n as nat)
    }
}

fn push_digits(out: &mut String, n: u64)
    ensures
        final(out)@ == old(out)@ + digits(n as nat),
    decreases n,
{
    if n < 10 {
        out.push((48u8 + n as u8) as char);
        assert(final(out)@ == old(out)@ + digits(n as nat));
    } else {
        push_digits(out, n / 10);
        let d: u8 = (n % 10) as u8;
        out.push((48u8 + d) as char);
        assert(final(out)@ == old(out)@ + digits(n as nat));
    }
}

/// `n` written in decimal.
pub fn u64_text(n: u64) -> (r: String)
    ensures
        r@ == decimal(n as int),
{
    let mut out = String::new();
    push_digits(&mut out, n);
    assert(out@ == digits(n as nat));
    out
}

/// `n` written in decimal.
pub fn usize_text(n: usize) -> (r: String)
    ensures
        r@ == decimal(n as int),
{
    u64_text(n as u64)
}

/// `n` written in decimal.
pub fn i64_text(n: i64) -> (r: String)
    ensures
        r@ == decimal(n as int),
{
    if n >= 0 {
        return u64_text(n as u64);
    }
    let mut out = String::new();
    out.push('-');
    let m: u64 = (-(n as i128)) as u64;
    push_digits(&mut out, m);
    assert(out@ == seq!['-'] + digits((-n) as nat));
    out
}

/// Whether `c` is a decimal digit.
pub open spec fn is_digit(c: char) -> bool {
    48 <= c as u32 <= 57
}

/// The number that a row of digits writes.
pub open spec fn value_of(s: Seq<char>) -> int
    decreases s.len(),
{
    if s.len() == 0 {
        0
    } else {
        value_of(s.drop_last()) * 10 + (s.last() as u32 - 48)
    }
}

/// Whether `s` is a row of at least one digit.
pub open spec fn all_digits(s: Seq<char>) -> bool {
    s.len() > 0 && forall|i: int| 0 <= i < s.len() ==> is_digit(#[trigger] s[i])
}

/// The number that `s` writes in decimal, with a sign or without, where it fits `i64`.
pub open spec fn parsed(s: Seq<char>) -> Option<int> {
    let negative = s.len() > 0 && s[0] == '-';
    let signed = negative || (s.len() > 0 && s[0] == '+');
    let d = if signed {
        s.skip(1)
    } else {
        s
    };
    let n = if negative {
        -value_of(d)
    } else {
        value_of(d)
    };
    if all_digits(d) && i64::MIN <= n <= i64::MAX {
        Some(n)
    } else {
        None
    }
}

/// Reads the digits of `v` from `from` on: their number, or `None` where it exceeds 2^63 or where
/// there is something else than digits.
fn read_digits(v: &Vec<char>, from: usize) -> (r: Option<u64>)
    requires
        from <= v@.len(),
    ensures
        match r {
            Some(n) => all_digits(v@.skip(from as int)) && n == value_of(v@.skip(from as int)) && n
                <= 0x8000_0000_0000_0000,
            None => !all_digits(v@.skip(from as int)) || value_of(v@.skip(from as int))
                > 0x8000_0000_0000_0000,
        },
{
    let ghost s = v@.skip(from as int);
    if from == v.len() {
        return None;
    }
    let mut acc: u64 = 0;
    let mut big: bool = false;
    let mut i: usize = from;
    while i < v.len()
        invariant
            from <= i <= v@.len(),
            s == v@.skip(from as int),
            forall|j: int| 0 <= j < i - from ==> is_digit(#[trigger] s[j]),
            !big ==> acc == value_of(s.take(i - from)) && acc <= 0x8000_0000_0000_0000,
            big ==> value_of(s.take(i - from)) > 0x8000_0000_0000_0000,
        decreases v@.len() - i,
    {
        let c: u32 = v[i] as u32;
        assert(s[i - from] == v@[i as int]);
        if c < 48 || c > 57 {
            assert(!is_digit(s[i - from]));
            return None;
        }
        proof {
            let t = s.take(i - from + 1);
            assert(t.drop_last() == s.take(i - from));
            assert(t.last() == v@[i as int]);
        }
        if !big {
            let next: u128 = acc as u128 * 10 + (c - 48) as u128;
            if next > 0x8000_0000_0000_0000 {
                big = true;
            } else {
                acc = next as u64;
            }
        }
        i += 1;
    }
    assert(s.take(i - from) == s);
    if big {
        None
    } else {
        Some(acc)
    }
}

/// Reads a number in decimal, as `str::parse` does for `i64`.
pub fn parse_i64(s: &str) -> (r: Option<i64>)
    ensures
        match r {
            Some(n) => parsed(s@) == Some(n as int),
            None => parsed(s@) is None,
        },
{
    let v = chars_of(s);
    assert(v@.skip(0) == v@);
    let negative: bool = v.len() > 0 && v[0] == '-';
    let signed: bool = negative || (v.len() > 0 && v[0] == '+');
    let from: usize = if signed {
        1
    } else {
        0
    };
    match read_digits(&v, from) {
        None => None,
        Some(n) => {
            if negative {
                Some((-(n as i128)) as i64)
            } else if n <= 0x7fff_ffff_ffff_ffff {
                Some(n as i64)
            } else {
                None
            }
        },
    }
}

pub proof fn lemma_digits(n: nat)
    ensures
        all_digits(digits(n)),
        value_of(digits(n)) == n,
    decreases n,
{
    if n < 10 {
        let s = digits(n);
        assert(s.drop_last() == Seq::<char>::empty());
        assert(s.last() == digit(n as int));
        assert(value_of(s.drop_last()) == 0);
    } else {
        lemma_digits(n / 10);
        let s = digits(n);
        assert(s.drop_last() == digits(n / 10));
        assert(s.last() == digit((n % 10) as int));
        assert forall|i: int| 0 <= i < s.len() implies is_digit(#[trigger] s[i]) by {
            if i < s.len() - 1 {
                assert(s[i] == digits(n / 10)[i]);
            }
        }
    }
}

/// Reading back what was written gives the number that was written.
pub proof fn law_parse_decimal(n: i64)
    ensures
        parsed(decimal(n as int)) == Some(n as int),
{
    let s = decimal(n as int);
    if n < 0 {
        lemma_digits((-n) as nat);
        assert(s.skip(1) == digits((-n) as nat));
    } else {
        lemma_digits(n as nat);
        assert(is_digit(s[0]));
    }
}

/// A further digit counts ten times as much of what stands before it, and itself.
pub proof fn law_digits_count_by_their_places(s: Seq<char>, d: int, n: nat)
    requires
        0 <= d < 10,
    ensures
        value_of(s.push(digit(d))) == 10 * value_of(s) + d,
        value_of(Seq::<char>::empty()) == 0,
        value_of(digits(n)) == n,
        all_digits(digits(n)),
        n > 0 ==> digits(n)[0] != digit(0),
        digit(0) == '0' && digit(9) == '9',
        is_digit(digit(d)),
    decreases n,
{
    assert(s.push(digit(d)).drop_last() =~= s);
    lemma_digits(n);
    if n >= 10 {
        law_digits_count_by_their_places(s, d, n / 10);
        assert(digits(n)[0] == digits(n / 10)[0]);
    }
}

/// A number is read with a sign or without one; what is no row of digits, or does not fit, is none.
pub proof fn law_numbers_are_read_with_a_sign(s: Seq<char>)
    requires
        all_digits(s),
        value_of(s) <= i64::MAX,
        value_of(s) >= 0,
    ensures
        parsed(s) == Some(value_of(s)),
        parsed(seq!['+'] + s) == Some(value_of(s)),
        parsed(seq!['-'] + s) == Some(-value_of(s)),
        parsed(Seq::<char>::empty()) is None,
        parsed(s.push('x')) is None,
{
    assert(is_digit(s[0]));
    assert((seq!['+'] + s).skip(1) =~= s);
    assert((seq!['-'] + s).skip(1) =~= s);
    let x = s.push('x');
    assert(x[0] == s[0]);
    assert(x[x.len() - 1] == 'x');
    assert(!is_digit('x'));
}

/// The digits are the ten characters from zero to nine.
pub proof fn law_there_are_ten_digits(c: char)
    ensures
        is_digit(c) <==> '0' <= c && c <= '9',
{
}

} // verus!
