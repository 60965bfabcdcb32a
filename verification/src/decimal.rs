use vstd::prelude::*;

verus! {

/// ASCII code of `'0'`.
pub const ZERO_DIGIT: u8 = 48;

/// ASCII code of `'+'`.
pub const PLUS_SIGN: u8 = 43;

pub open spec fn is_digit(b: u8) -> bool {
    ZERO_DIGIT <= b <= 57
}

pub open spec fn all_digits(s: Seq<u8>) -> bool {
    forall|i: int| 0 <= i < s.len() ==> is_digit(#[trigger] s[i])
}

/// The number that a string of ASCII digits denotes in base ten (leading
/// zeros allowed; the empty string denotes 0).
pub open spec fn digits_value(s: Seq<u8>) -> nat
    decreases s.len(),
{
    if s.len() == 0 {
        0
    } else {
        digits_value(s.drop_last()) * 10 + (s.last() - ZERO_DIGIT) as nat
    }
}

/// The shortest base-ten spelling of `n` in ASCII digits, as `{}` formats it.
pub open spec fn spec_decimal(n: nat) -> Seq<u8>
    decreases n,
{
    if n < 10 {
        seq![(ZERO_DIGIT + n) as u8]
    } else {
        spec_decimal(n / 10).push((ZERO_DIGIT + n % 10) as u8)
    }
}

/// What `usize::from_str` gives for the text `s`: an optional leading `+`,
/// then at least one ASCII digit and nothing else, denoting a number that
/// fits in a `usize`; `None` for every other text.
pub open spec fn spec_parse_usize(s: Seq<u8>) -> Option<usize> {
    let d = if s.len() > 0 && s[0] == PLUS_SIGN {
        s.drop_first()
    } else {
        s
    };
    if d.len() > 0 && all_digits(d) && digits_value(d) <= usize::MAX {
        Some(digits_value(d) as usize)
    } else {
        None
    }
}

/// A longer string of digits never denotes a smaller number than its prefix.
proof fn lemma_digits_value_prefix(s: Seq<u8>, k: int)
    requires
        all_digits(s),
        0 <= k <= s.len(),
    ensures
        digits_value(s.subrange(0, k)) <= digits_value(s),
    decreases s.len(),
{
    if k < s.len() {
        let t = s.drop_last();
        assert(t.subrange(0, k) =~= s.subrange(0, k));
        assert(all_digits(t));
        lemma_digits_value_prefix(t, k);
    } else {
        assert(s.subrange(0, k) =~= s);
    }
}

/// Every number's spelling is made of digits, denotes the number, and has
/// no superfluous leading zero: it starts with `0` only when it is `0`.
pub proof fn lemma_decimal_digits(n: nat)
    ensures
        all_digits(spec_decimal(n)),
        digits_value(spec_decimal(n)) == n,
        spec_decimal(n).len() > 0,
        spec_decimal(n).len() == 1 || spec_decimal(n)[0] != 48u8,
        n > 0 ==> spec_decimal(n)[0] != 48u8,
        n < 10 ==> spec_decimal(n).len() == 1,
    decreases n,
{
    if n < 10 {
        let s = spec_decimal(n);
        assert(s.drop_last() =~= Seq::<u8>::empty());
        assert(s.last() == ZERO_DIGIT + n);
        assert(digits_value(s) == digits_value(s.drop_last()) * 10 + (s.last() - ZERO_DIGIT) as nat);
    } else {
        assert(n == (n / 10) * 10 + n % 10);
        assert(ZERO_DIGIT + n % 10 < 256);
        lemma_decimal_digits(n / 10);
        let s = spec_decimal(n);
        assert(s.drop_last() =~= spec_decimal(n / 10));
        assert(s[0] == spec_decimal(n / 10)[0]);
        assert(s.last() == ZERO_DIGIT + n % 10);
        assert(digits_value(s) == digits_value(s.drop_last()) * 10 + (s.last() - ZERO_DIGIT) as nat);
    }
}

/// There is one spelling of a number without superfluous leading zeros:
/// any non-empty string of ASCII digits that denotes `n` and starts with `0`
/// only when it is a single digit is the spelling of `n`.
pub proof fn lemma_decimal_unique(s: Seq<u8>, n: nat)
    requires
        s.len() > 0,
        all_digits(s),
        s.len() == 1 || s[0] != 48u8,
        digits_value(s) == n,
    ensures
        s == spec_decimal(n),
    decreases s.len(),
{
    let d = (s.last() - ZERO_DIGIT) as nat;
    assert(is_digit(s[s.len() - 1]));
    assert(d < 10);
    if s.len() == 1 {
        assert(s.drop_last() =~= Seq::<u8>::empty());
        assert(digits_value(s.drop_last()) == 0);
        assert(digits_value(s) == digits_value(s.drop_last()) * 10 + d);
        assert(n == d);
        assert(s =~= seq![(ZERO_DIGIT + n) as u8]);
    } else {
        let t = s.drop_last();
        assert(all_digits(t));
        assert(t[0] == s[0]);
        assert(is_digit(t[0]));
        lemma_digits_value_prefix(t, 1);
        let t1 = t.subrange(0, 1);
        assert(t1.drop_last() =~= Seq::<u8>::empty());
        assert(digits_value(t1.drop_last()) == 0);
        assert(t1.last() == t[0]);
        assert(digits_value(t1) == digits_value(t1.drop_last()) * 10 + (t1.last() - ZERO_DIGIT) as nat);
        assert(digits_value(s) == digits_value(t) * 10 + d);
        assert(digits_value(t) >= 1);
        assert(n == digits_value(t) * 10 + d);
        assert(n / 10 == digits_value(t) && n % 10 == d) by {
            vstd::arithmetic::div_mod::lemma_fundamental_div_mod_converse(
                n as int,
                10,
                digits_value(t) as int,
                d as int,
            );
        }
        lemma_decimal_unique(t, n / 10);
        assert(n >= 10);
        assert(s =~= t.push(s.last()));
    }
}

/// Writes `n` in base ten with ASCII digits, as `{}` formats a `usize`: the
/// digits denote `n`, and only the spelling of zero starts with `0`.
pub fn format_decimal(n: usize) -> (r: Vec<u8>)
    ensures
        r@ == spec_decimal(n as nat),
        r@.len() > 0,
        all_digits(r@),
        digits_value(r@) == n,
        r@.len() == 1 || r@[0] != 48u8,
        n > 0 ==> r@[0] != 48u8,
{
    proof {
        lemma_decimal_digits(n as nat);
    }
    let mut out: Vec<u8> = Vec::new();
    let mut m: usize = n;
    while m >= 10
        invariant
            spec_decimal(n as nat) == spec_decimal(m as nat) + out@,
        decreases m,
    {
        let d: u8 = (ZERO_DIGIT as usize + m % 10) as u8;
        let ghost before = out@;
        out.insert(0, d);
        proof {
            assert(spec_decimal(m as nat) == spec_decimal((m / 10) as nat).push(d));
            assert(spec_decimal((m / 10) as nat) + out@ =~= spec_decimal(m as nat) + before);
        }
        m = m / 10;
    }
    let ghost before = out@;
    out.insert(0, (ZERO_DIGIT as usize + m) as u8);
    assert(out@ =~= spec_decimal(m as nat) + before);
    out
}

/// Reads a `usize` from the text `s` exactly as `usize::from_str` does:
/// an optional leading `+`, then base-ten digits only; `None` when the text is
/// empty, holds anything else, or denotes a number above `usize::MAX`.
pub fn parse_usize(s: &[u8]) -> (r: Option<usize>)
    ensures
        r == spec_parse_usize(s@),
{
    let len = s.len();
    let mut start: usize = 0;
    if len > 0 && s[0] == PLUS_SIGN {
        start = 1;
    }
    let ghost d = if s@.len() > 0 && s@[0] == PLUS_SIGN {
        s@.drop_first()
    } else {
        s@
    };
    assert(d =~= s@.subrange(start as int, len as int));
    if start == len {
        return None;
    }
    let mut i: usize = start;
    let mut val: usize = 0;
    while i < len
        invariant
            start <= i <= len,
            len == s@.len(),
            d == s@.subrange(start as int, len as int),
            d == (if s@.len() > 0 && s@[0] == PLUS_SIGN {
                s@.drop_first()
            } else {
                s@
            }),
            all_digits(s@.subrange(start as int, i as int)),
            val == digits_value(s@.subrange(start as int, i as int)),
        decreases len - i,
    {
        let b = s[i];
        let ghost prefix = s@.subrange(start as int, i as int + 1);
        assert(prefix.drop_last() =~= s@.subrange(start as int, i as int));
        assert(d[i - start] == b);
        if b < ZERO_DIGIT || b > 57 {
            assert(!is_digit(d[i - start]));
            return None;
        }
        assert(all_digits(prefix));
        match val.checked_mul(10) {
            None => {
                proof {
                    if all_digits(d) {
                        assert(d.subrange(0, i - start + 1) =~= prefix);
                        lemma_digits_value_prefix(d, i - start + 1);
                    }
                }
                return None;
            },
            Some(v10) => {
                match v10.checked_add((b - ZERO_DIGIT) as usize) {
                    None => {
                        proof {
                            if all_digits(d) {
                                assert(d.subrange(0, i - start + 1) =~= prefix);
                                lemma_digits_value_prefix(d, i - start + 1);
                            }
                        }
                        return None;
                    },
                    Some(v) => {
                        val = v;
                    },
                }
            },
        }
        i = i + 1;
    }
    assert(s@.subrange(start as int, i as int) =~= d);
    Some(val)
}

/// The number written by `format_decimal` is the number read back by
/// `parse_usize`.
pub proof fn lemma_decimal_round_trip(n: usize)
    ensures
        spec_parse_usize(spec_decimal(n as nat)) == Some(n),
{
    lemma_decimal_digits(n as nat);
    let s = spec_decimal(n as nat);
    assert(is_digit(s[0]));
}

} // verus!
