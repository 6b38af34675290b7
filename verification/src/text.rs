//! Small text helpers: decimal rendering of counters for the status line and
//! byte strings for the fixed messages.
use vstd::prelude::*;
use vstd::string::{StrSliceExecFns, StringSliceAdditionalSpecFns};

verus! {

/// The decimal digits of `n`, most significant first.
pub open spec fn dec_spec(n: nat) -> Seq<u8>
    decreases n,
{
    if n < 10 {
        seq![(48 + n) as u8]
    } else {
        dec_spec(n / 10) + seq![(48 + n % 10) as u8]
    }
}

/// Renders `n` in decimal.
pub fn u64_to_dec(n: u64) -> (r: Vec<u8>)
    ensures
        r@ == dec_spec(n as nat),
{
    let mut digits: Vec<u8> = Vec::new();
    let mut m = n;
    loop
        invariant_except_break
            m <= n,
            dec_spec(n as nat) == dec_spec(m as nat) + digits@.reverse(),
        ensures
            dec_spec(n as nat) == digits@.reverse(),
        decreases m,
    {
        let d: u8 = (m % 10) as u8;
        let ghost digits_before = digits@;
        digits.push(48 + d);
        proof {
            assert(digits@.reverse() =~= seq![(48 + d) as u8] + digits_before.reverse());
            if m >= 10 {
                assert(dec_spec(m as nat) == dec_spec((m as nat) / 10) + seq![
                    (48 + (m as nat) % 10) as u8,
                ]);
                assert((m / 10) as nat == (m as nat) / 10);
                assert(dec_spec(n as nat) =~= dec_spec((m / 10) as nat) + digits@.reverse());
            } else {
                assert(dec_spec(m as nat) == seq![(48 + m) as u8]);
            }
        }
        if m < 10 {
            break ;
        }
        m = m / 10;
    }
    let mut r: Vec<u8> = Vec::new();
    let mut i = digits.len();
    while i > 0
        invariant
            i <= digits@.len(),
            r@ =~= digits@.subrange(i as int, digits@.len() as int).reverse(),
        decreases i,
    {
        i = i - 1;
        let ghost r_before = r@;
        r.push(digits[i]);
        proof {
            assert(r@ =~= digits@.subrange(i as int, digits@.len() as int).reverse());
        }
    }
    proof {
        assert(digits@.subrange(0, digits@.len() as int) =~= digits@);
        assert(r@ =~= digits@.reverse());
    }
    r
}

/// The bytes a string slice encodes to (for the ASCII literals used in
/// messages, one byte per character).
pub fn lit_bytes(s: &str) -> (r: Vec<u8>)
    ensures
        r@ == s.spec_bytes(),
{
    s.as_bytes_vec()
}

} // verus!
