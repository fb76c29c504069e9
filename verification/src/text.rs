use vstd::prelude::*;
use vstd::string::StringSliceAdditionalSpecFns;

verus! {

/// `c` is one of the ASCII digits `0` to `9`.
pub open spec fn is_digit(c: u8) -> bool {
    48 <= c <= 57
}

/// Every byte of `s` is an ASCII digit.
pub open spec fn all_digits(s: Seq<u8>) -> bool {
    forall|i: int| 0 <= i < s.len() ==> is_digit(#[trigger] s[i])
}

/// The number that the decimal digits `s` spell, most significant first.
pub open spec fn digits_value(s: Seq<u8>) -> int
    decreases s.len(),
{
    if s.len() == 0 {
        0
    } else {
        digits_value(s.drop_last()) * 10 + (s.last() - 48)
    }
}

/// The shortest decimal spelling of `n`, most significant digit first.
pub open spec fn decimal_digits(n: nat) -> Seq<u8>
    decreases n,
{
    if n < 10 {
        seq![(48 + n) as u8]
    } else {
        decimal_digits(n / 10).push((48 + n % 10) as u8)
    }
}

/// How `v` is written in decimal: a `-` for a negative number, then the
/// digits of its magnitude without leading zeros.
pub open spec fn decimal_text(v: int) -> Seq<u8> {
    if v < 0 {
        seq![45u8] + decimal_digits((-v) as nat)
    } else {
        decimal_digits(v as nat)
    }
}

/// What `i32::from_str` gives for the text `s`: an optional `+` or `-`, then
/// at least one digit and nothing else, and a value that fits in an `i32`.
pub open spec fn parse_i32_spec(s: Seq<u8>) -> Option<i32> {
    let neg = s.len() > 0 && s[0] == 45;
    let signed = s.len() > 0 && (s[0] == 43 || s[0] == 45);
    let digits = if signed {
        s.drop_first()
    } else {
        s
    };
    if digits.len() == 0 || !all_digits(digits) {
        None
    } else {
        let v = if neg {
            -digits_value(digits)
        } else {
            digits_value(digits)
        };
        if i32::MIN <= v <= i32::MAX {
            Some(v as i32)
        } else {
            None
        }
    }
}

proof fn lemma_decimal_digits_shape(n: nat)
    ensures
        decimal_digits(n).len() > 0,
        all_digits(decimal_digits(n)),
        digits_value(decimal_digits(n)) == n,
    decreases n,
{
    if n < 10 {
        assert(decimal_digits(n).drop_last() =~= Seq::<u8>::empty());
        assert(digits_value(Seq::<u8>::empty()) == 0);
    } else {
        lemma_decimal_digits_shape(n / 10);
        let d = decimal_digits(n / 10).push((48 + n % 10) as u8);
        assert(d.drop_last() =~= decimal_digits(n / 10));
        assert(d.last() - 48 == n % 10);
        assert(n == (n / 10) * 10 + n % 10);
    }
}

proof fn lemma_digits_value_grows(s: Seq<u8>, k: int)
    requires
        all_digits(s),
        0 <= k <= s.len(),
    ensures
        digits_value(s.take(k)) <= digits_value(s),
        0 <= digits_value(s.take(k)),
    decreases s.len(),
{
    if s.len() > 0 {
        if k == s.len() {
            assert(s.take(k) =~= s);
            lemma_digits_value_grows(s.drop_last(), k - 1);
            assert(s.drop_last().take(k - 1) =~= s.drop_last());
        } else {
            lemma_digits_value_grows(s.drop_last(), k);
            assert(s.drop_last().take(k) =~= s.take(k));
            lemma_digits_value_grows(s.drop_last(), s.len() - 1);
            assert(s.drop_last().take(s.len() - 1) =~= s.drop_last());
        }
    }
}

/// Reading back what [`format_i32`] writes gives the number again.
pub proof fn lemma_parse_formatted_i32(v: i32)
    ensures
        parse_i32_spec(decimal_text(v as int)) == Some(v),
{
    if v < 0 {
        lemma_decimal_digits_shape((-v) as nat);
        let t = decimal_text(v as int);
        assert(t.drop_first() =~= decimal_digits((-v) as nat));
    } else {
        lemma_decimal_digits_shape(v as nat);
        let t = decimal_text(v as int);
        assert(is_digit(t[0]));
    }
}

/// Writes `v` in decimal.
pub fn format_i32(v: i32) -> (text: Vec<u8>)
    ensures
        text@ == decimal_text(v as int),
{
    let ghost big: nat = if v < 0 {
        (-v) as nat
    } else {
        v as nat
    };
    let mut m: u32 = if v < 0 {
        if v == i32::MIN {
            2147483648u32
        } else {
            (-v) as u32
        }
    } else {
        v as u32
    };
    let mut low_first: Vec<u8> = Vec::new();
    loop
        invariant_except_break
            decimal_digits(big) == decimal_digits(m as nat) + low_first@.reverse(),
        ensures
            decimal_digits(big) == low_first@.reverse(),
        decreases m,
    {
        let d = (m % 10) as u8 + 48;
        let ghost before = low_first@;
        low_first.push(d);
        proof {
            assert(low_first@.reverse() =~= seq![d] + before.reverse());
        }
        if m < 10 {
            assert(decimal_digits(m as nat) =~= seq![d]);
            assert(decimal_digits(big) =~= low_first@.reverse());
            break ;
        }
        assert(decimal_digits(m as nat) == decimal_digits((m / 10) as nat).push(d));
        assert(decimal_digits(big) =~= decimal_digits((m / 10) as nat) + low_first@.reverse());
        m = m / 10;
    }
    let mut text: Vec<u8> = Vec::new();
    if v < 0 {
        text.push(45u8);
    }
    let ghost start = text@;
    let n = low_first.len();
    let mut k: usize = 0;
    while k < n
        invariant
            n == low_first@.len(),
            k <= n,
            text@ == start + low_first@.reverse().take(k as int),
        decreases n - k,
    {
        text.push(low_first[n - 1 - k]);
        assert(low_first@.reverse()[k as int] == low_first@[n - 1 - k]);
        assert(text@ =~= start + low_first@.reverse().take(k + 1));
        k = k + 1;
    }
    assert(low_first@.reverse().take(n as int) =~= low_first@.reverse());
    assert(text@ =~= decimal_text(v as int));
    text
}

/// Reads a decimal `i32` the way `i32::from_str` does.
pub fn parse_i32(s: &[u8]) -> (r: Option<i32>)
    ensures
        r == parse_i32_spec(s@),
{
    let n = s.len();
    if n == 0 {
        return None;
    }
    let neg = s[0] == 45u8;
    let start: usize = if s[0] == 43u8 || s[0] == 45u8 {
        1
    } else {
        0
    };
    let ghost digits = s@.subrange(start as int, n as int);
    assert(digits =~= (if start == 1 {
        s@.drop_first()
    } else {
        s@
    }));
    assert(neg == (s@.len() > 0 && s@[0] == 45));
    assert((start == 1) == (s@.len() > 0 && (s@[0] == 43 || s@[0] == 45)));
    if start == n {
        return None;
    }
    let mut acc: u64 = 0;
    let mut i: usize = start;
    while i < n
        invariant
            n == s@.len(),
            start <= i <= n,
            digits == s@.subrange(start as int, n as int),
            digits == (if start == 1 {
                s@.drop_first()
            } else {
                s@
            }),
            neg == (s@.len() > 0 && s@[0] == 45),
            (start == 1) == (s@.len() > 0 && (s@[0] == 43 || s@[0] == 45)),
            all_digits(digits.take(i - start)),
            acc == digits_value(digits.take(i - start)),
            acc <= 2147483648,
        decreases n - i,
    {
        let c = s[i];
        if c < 48u8 || c > 57u8 {
            assert(!is_digit(digits[i - start]));
            assert(!all_digits(digits));
            return None;
        }
        assert(digits.take(i - start + 1).drop_last() =~= digits.take(i - start));
        acc = acc * 10 + (c - 48u8) as u64;
        assert(all_digits(digits.take(i - start + 1)));
        if acc > 2147483648 {
            proof {
                if all_digits(digits) {
                    lemma_digits_value_grows(digits, i - start + 1);
                }
            }
            return None;
        }
        i = i + 1;
    }
    assert(digits.take(n - start) =~= digits);
    if neg {
        Some((-(acc as i64)) as i32)
    } else if acc > 2147483647 {
        None
    } else {
        Some(acc as i32)
    }
}

/// Appends the bytes of `s` to `out`.
pub(crate) fn push_text(out: &mut Vec<u8>, s: &str)
    ensures
        final(out)@ == old(out)@ + s.spec_bytes(),
{
    let bytes = s.as_bytes();
    push_bytes(out, bytes);
}

/// Appends `bytes` to `out`.
pub(crate) fn push_bytes(out: &mut Vec<u8>, bytes: &[u8])
    ensures
        final(out)@ == old(out)@ + bytes@,
{
    let n = bytes.len();
    for i in 0..n
        invariant
            n == bytes@.len(),
            out@ == old(out)@ + bytes@.take(i as int),
    {
        out.push(bytes[i]);
        assert(out@ =~= old(out)@ + bytes@.take(i + 1));
    }
    assert(bytes@.take(n as int) =~= bytes@);
}

} // verus!
