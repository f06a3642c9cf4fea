//! Decimal formatting of unsigned integers, for human-readable reject
//! messages.

use vstd::prelude::*;
use crate::timestamp::dig;

verus! {

/// The decimal digits of `n`, most significant first, with no leading
/// zeros (a single `0` for zero).
pub open spec fn spec_decimal(n: int) -> Seq<u8>
    recommends
        n >= 0,
    decreases n,
{
    if n < 10 {
        seq![dig(n)]
    } else {
        spec_decimal(n / 10) + seq![dig(n % 10)]
    }
}

spec fn pow10(k: nat) -> int
    decreases k,
{
    if k == 0 {
        1
    } else {
        10 * pow10((k - 1) as nat)
    }
}

proof fn lemma_decimal_len_bound(n: int, k: nat)
    requires
        0 <= n,
        1 <= k,
        n < pow10(k),
    ensures
        spec_decimal(n).len() <= k,
    decreases k,
{
    if n >= 10 {
        reveal_with_fuel(pow10, 3);
        assert(pow10(1) == 10);
        assert(k >= 2) by {
            if k == 1 {
                assert(pow10(1nat) == 10);
            }
        }
        assert(n / 10 < pow10((k - 1) as nat)) by {
            if n / 10 >= pow10((k - 1) as nat) {
                assert(n >= 10 * (n / 10));
                assert(10 * (n / 10) >= 10 * pow10((k - 1) as nat));
            }
        }
        lemma_decimal_len_bound(n / 10, (k - 1) as nat);
    }
}

/// Any 64-bit value has at most 20 decimal digits.
pub proof fn lemma_decimal_len_u64(n: u64)
    ensures
        spec_decimal(n as int).len() <= 20,
{
    assert(pow10(20) == 100000000000000000000int) by {
        reveal_with_fuel(pow10, 21);
    }
    lemma_decimal_len_bound(n as int, 20);
}

/// The decimal digits of `n`, most significant first.
pub fn format_decimal(n: u64) -> (r: Vec<u8>)
    ensures
        r@ == spec_decimal(n as int),
    decreases n,
{
    if n < 10 {
        let mut v: Vec<u8> = Vec::new();
        v.push((n as u8) + 48);
        assert(v@ =~= spec_decimal(n as int));
        v
    } else {
        let mut v = format_decimal(n / 10);
        v.push(((n % 10) as u8) + 48);
        assert(v@ =~= spec_decimal(n as int));
        v
    }
}

} // verus!
