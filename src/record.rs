use vstd::prelude::*;

verus! {

/// The value of the digit `c` in base `radix` (10 or 16), if it is one.
pub open spec fn digit_spec(c: char, radix: u32) -> Option<nat> {
    if '0' <= c && c <= '9' {
        Some((c as nat - '0' as nat) as nat)
    } else if radix == 16 && 'a' <= c && c <= 'f' {
        Some((c as nat - 'a' as nat + 10) as nat)
    } else if radix == 16 && 'A' <= c && c <= 'F' {
        Some((c as nat - 'A' as nat + 10) as nat)
    } else {
        None
    }
}

/// Whether every character of `s` is a digit in base `radix`.
pub open spec fn all_digits(s: Seq<char>, radix: u32) -> bool {
    forall|i: int| 0 <= i < s.len() ==> (#[trigger] digit_spec(s[i], radix)).is_some()
}

/// The number that the digits `s` write in base `radix`.
pub open spec fn digits_value(s: Seq<char>, radix: u32) -> nat
    decreases s.len(),
{
    if s.len() == 0 {
        0
    } else {
        digits_value(s.drop_last(), radix) * radix as nat + digit_spec(s.last(), radix).unwrap_or(0)
    }
}

/// The digits of a number written with an optional leading `+`.
pub open spec fn unsigned_digits(s: Seq<char>) -> Seq<char> {
    if s.len() > 0 && s[0] == '+' {
        s.drop_first()
    } else {
        s
    }
}

/// What parsing `s` as an unsigned 64-bit number in base `radix` gives: an
/// optional `+`, then at least one digit, and a value that fits.
pub open spec fn parse_radix_spec(s: Seq<char>, radix: u32) -> Option<u64> {
    let d = unsigned_digits(s);
    if d.len() > 0 && all_digits(d, radix) && digits_value(d, radix) <= u64::MAX {
        Some(digits_value(d, radix) as u64)
    } else {
        None
    }
}

/// The record number that the text after the record-number marker names:
/// hexadecimal after `0x`, decimal otherwise.
pub open spec fn record_number_spec(s: Seq<char>) -> Option<u64> {
    if s.len() >= 2 && s[0] == '0' && s[1] == 'x' {
        parse_radix_spec(s.skip(2), 16)
    } else {
        parse_radix_spec(s, 10)
    }
}

fn digit(c: char, radix: u32) -> (r: Option<u64>)
    requires
        radix == 10 || radix == 16,
    ensures
        r.is_some() == digit_spec(c, radix).is_some(),
        r.is_some() ==> r.unwrap() as nat == digit_spec(c, radix).unwrap(),
        r.is_some() ==> r.unwrap() < radix,
{
    if '0' <= c && c <= '9' {
        Some((c as u32 - '0' as u32) as u64)
    } else if radix == 16 && 'a' <= c && c <= 'f' {
        Some((c as u32 - 'a' as u32 + 10) as u64)
    } else if radix == 16 && 'A' <= c && c <= 'F' {
        Some((c as u32 - 'A' as u32 + 10) as u64)
    } else {
        None
    }
}

proof fn lemma_value_grows(s: Seq<char>, radix: u32, i: int)
    requires
        radix >= 2,
        0 <= i <= s.len(),
    ensures
        digits_value(s.take(i), radix) <= digits_value(s, radix),
    decreases s.len() - i,
{
    if i < s.len() {
        lemma_value_grows(s, radix, i + 1);
        let t = s.take(i + 1);
        assert(t.drop_last() =~= s.take(i));
        let v = digits_value(s.take(i), radix);
        assert(v <= v * radix as nat) by (nonlinear_arith)
            requires
                radix >= 2,
        ;
    } else {
        assert(s.take(i) =~= s);
    }
}

/// Parses `s` as an unsigned 64-bit number in base `radix`.
pub fn parse_radix(s: &str, radix: u32) -> (r: Option<u64>)
    requires
        radix == 10 || radix == 16,
    ensures
        r == parse_radix_spec(s@, radix),
{
    let n = s.unicode_len();
    let mut i: usize = 0;
    if n > 0 && s.get_char(0) == '+' {
        i = 1;
    }
    let ghost d = unsigned_digits(s@);
    let start = i;
    assert(d =~= s@.skip(start as int));
    if i == n {
        return None;
    }
    let mut acc: u64 = 0;
    assert(d.take(0) =~= Seq::<char>::empty());
    while i < n
        invariant
            n == s@.len(),
            start <= i <= n,
            d == s@.skip(start as int),
            d == unsigned_digits(s@),
            radix == 10 || radix == 16,
            all_digits(d.take(i - start), radix),
            acc as nat == digits_value(d.take(i - start), radix),
        decreases n - i,
    {
        let c = s.get_char(i);
        let ghost k = (i - start) as int;
        assert(d[k] == c);
        assert(d.take(k + 1).drop_last() =~= d.take(k));
        assert(d.take(k + 1).last() == c);
        match digit(c, radix) {
            None => {
                assert(!all_digits(d, radix)) by {
                    assert(digit_spec(d[k], radix).is_none());
                }
                assert(parse_radix_spec(s@, radix).is_none());
                return None;
            },
            Some(v) => {
                let next = match acc.checked_mul(radix as u64) {
                    Some(m) => m.checked_add(v),
                    None => None,
                };
                match next {
                    None => {
                        proof {
                            assert(digits_value(d.take(k + 1), radix) == acc as nat * radix as nat
                                + v as nat);
                            assert(acc as nat * radix as nat + v as nat > u64::MAX);
                            lemma_value_grows(d, radix, k + 1);
                            assert(parse_radix_spec(s@, radix).is_none());
                        }
                        return None;
                    },
                    Some(x) => {
                        acc = x;
                    },
                }
            },
        }
        i = i + 1;
        assert(all_digits(d.take(i - start), radix)) by {
            assert forall|j: int| 0 <= j < d.take(k + 1).len() implies (#[trigger] digit_spec(
                d.take(k + 1)[j],
                radix,
            )).is_some() by {
                if j < k {
                    assert(d.take(k + 1)[j] == d.take(k)[j]);
                }
            }
        }
    }
    assert(d.take(n - start) =~= d);
    Some(acc)
}

/// Parses the text after the record-number marker: `0x` and hexadecimal
/// digits, or decimal digits.
pub fn parse_record_number(s: &str) -> (r: Option<u64>)
    ensures
        r == record_number_spec(s@),
{
    let n = s.unicode_len();
    if n >= 2 && s.get_char(0) == '0' && s.get_char(1) == 'x' {
        parse_radix(s.substring_char(2, n), 16)
    } else {
        parse_radix(s, 10)
    }
}

} // verus!
