//! Decimal numerals for user IDs: reading them the way `str::parse::<u32>`
//! does, and writing them the way `format!("{}")` does.

use vstd::prelude::*;

verus! {

/// An ASCII decimal digit, `'0'..='9'`.
pub open spec fn is_digit(b: u8) -> bool {
    48 <= b <= 57
}

/// Every byte of `s` is a decimal digit.
pub open spec fn all_digits(s: Seq<u8>) -> bool {
    forall|i: int| 0 <= i < s.len() ==> is_digit(#[trigger] s[i])
}

/// The number that the decimal digits `s` denote (most significant first).
pub open spec fn digits_value(s: Seq<u8>) -> nat
    decreases s.len(),
{
    if s.len() == 0 {
        0
    } else {
        digits_value(s.drop_last()) * 10 + (s.last() - 48) as nat
    }
}

/// The digits of an unsigned numeral: a single leading `'+'` sign is dropped.
pub open spec fn unsigned_digits(s: Seq<u8>) -> Seq<u8> {
    if s.len() > 0 && s[0] == 43 {
        s.drop_first()
    } else {
        s
    }
}

/// What `str::parse::<u32>` gives for `s`: an optional `'+'` followed by at
/// least one decimal digit, of value at most `u32::MAX`; nothing else.
pub open spec fn numeral_u32(s: Seq<u8>) -> Option<u32> {
    let d = unsigned_digits(s);
    if d.len() > 0 && all_digits(d) && digits_value(d) <= u32::MAX {
        Some(digits_value(d) as u32)
    } else {
        None
    }
}

/// The shortest decimal numeral of `n`, as `format!("{}", n)` writes it.
pub open spec fn decimal(n: nat) -> Seq<u8>
    decreases n,
{
    if n < 10 {
        seq![(48 + n) as u8]
    } else {
        decimal(n / 10).push((48 + n % 10) as u8)
    }
}

proof fn lemma_value_push(s: Seq<u8>, d: u8)
    ensures
        digits_value(s.push(d)) == digits_value(s) * 10 + (d - 48) as nat,
{
    assert(s.push(d).drop_last() =~= s);
}

/// The value of a prefix of a digit string never exceeds the value of the whole.
proof fn lemma_prefix_value_le(s: Seq<u8>, i: int)
    requires
        all_digits(s),
        0 <= i <= s.len(),
    ensures
        digits_value(s.take(i)) <= digits_value(s),
    decreases s.len() - i,
{
    if i == s.len() {
        assert(s.take(i) =~= s);
    } else {
        let t = s.drop_last();
        assert(all_digits(t)) by {
            assert forall|k: int| 0 <= k < t.len() implies is_digit(#[trigger] t[k]) by {
                assert(t[k] == s[k]);
            }
        }
        lemma_prefix_value_le(t, i);
        assert(t.take(i) =~= s.take(i));
    }
}

/// The decimal numeral of `n` is a nonempty digit string that denotes `n`.
pub proof fn lemma_decimal(n: nat)
    ensures
        decimal(n).len() > 0,
        all_digits(decimal(n)),
        digits_value(decimal(n)) == n,
    decreases n,
{
    if n < 10 {
        assert(decimal(n).drop_last() =~= Seq::<u8>::empty());
        assert(digits_value(decimal(n).drop_last()) == 0);
    } else {
        assert(n % 10 < 10);
        let last: u8 = (48 + n % 10) as u8;
        assert(last - 48 == n % 10);
        assert(decimal(n) == decimal(n / 10).push(last));
        lemma_decimal(n / 10);
        lemma_value_push(decimal(n / 10), (48 + n % 10) as u8);
        assert((n / 10) * 10 + n % 10 == n) by (nonlinear_arith);
        let d = decimal(n);
        assert forall|k: int| 0 <= k < d.len() implies is_digit(#[trigger] d[k]) by {
            if k < d.len() - 1 {
                assert(d[k] == decimal(n / 10)[k]);
            }
        }
    }
}

/// Reading back what `decimal` writes gives the number again: the numeral
/// that the shim writes for a UID is understood as that UID.
pub proof fn law_decimal_round_trip(n: u32)
    ensures
        numeral_u32(decimal(n as nat)) == Some(n),
{
    lemma_decimal(n as nat);
    assert(unsigned_digits(decimal(n as nat)) == decimal(n as nat));
}

/// Reads a numeral as `str::parse::<u32>` does.
pub fn parse_numeral_u32(s: &[u8]) -> (r: Option<u32>)
    ensures
        r == numeral_u32(s@),
{
    let start: usize = if s.len() > 0 && s[0] == 43 { 1 } else { 0 };
    let ghost d = unsigned_digits(s@);
    assert(d =~= s@.skip(start as int));
    if start == s.len() {
        return None;
    }
    let mut acc: u64 = 0;
    let mut j: usize = start;
    while j < s.len()
        invariant
            start <= j <= s@.len(),
            d =~= s@.skip(start as int),
            d == unsigned_digits(s@),
            all_digits(d.take(j - start)),
            acc == digits_value(d.take(j - start)),
            acc <= u32::MAX,
        decreases s@.len() - j,
    {
        let b: u8 = s[j];
        if b < 48 || b > 57 {
            assert(d[j - start] == b);
            assert(!is_digit(d[j - start]));
            assert(!all_digits(d));
            return None;
        }
        proof {
            assert(d.take(j - start + 1) =~= d.take(j - start).push(b));
            lemma_value_push(d.take(j - start), b);
        }
        acc = acc * 10 + (b - 48) as u64;
        j = j + 1;
        if acc > 0xffff_ffff {
            proof {
                assert(acc == digits_value(d.take(j - start)));
                if all_digits(d) {
                    lemma_prefix_value_le(d, j - start);
                    assert(digits_value(d) > u32::MAX);
                }
            }
            return None;
        }
    }
    assert(d.take(j - start) =~= d);
    Some(acc as u32)
}

/// Writes `n` in decimal, as `format!("{}", n)` does.
pub fn render_decimal(n: u32) -> (r: Vec<u8>)
    ensures
        r@ == decimal(n as nat),
    decreases n,
{
    if n < 10 {
        let mut v: Vec<u8> = Vec::new();
        v.push(48 + n as u8);
        assert(v@ =~= decimal(n as nat));
        v
    } else {
        let mut v = render_decimal(n / 10);
        v.push(48 + (n % 10) as u8);
        v
    }
}

} // verus!
