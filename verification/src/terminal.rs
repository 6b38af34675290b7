//! Parsing the terminal's cursor-position report: the bytes between
//! `ESC [` and the final `R` hold two decimal numbers separated by one
//! semicolon.
use vstd::prelude::*;

verus! {

pub open spec fn is_dec_digit(c: u8) -> bool {
    48 <= c <= 57
}

/// A non-empty run of decimal digits.
pub open spec fn is_digit_seq(s: Seq<u8>) -> bool {
    s.len() > 0 && forall|i: int| 0 <= i < s.len() ==> is_dec_digit(#[trigger] s[i])
}

/// The number a run of decimal digits denotes.
pub open spec fn dec_val(s: Seq<u8>) -> int
    decreases s.len(),
{
    if s.len() == 0 {
        0
    } else {
        dec_val(s.drop_last()) * 10 + (s.last() - 48)
    }
}

proof fn lemma_dec_val_nonneg(s: Seq<u8>)
    requires
        forall|i: int| 0 <= i < s.len() ==> is_dec_digit(#[trigger] s[i]),
    ensures
        dec_val(s) >= 0,
    decreases s.len(),
{
    if s.len() > 0 {
        lemma_dec_val_nonneg(s.drop_last());
        vstd::arithmetic::mul::lemma_mul_inequality(0, dec_val(s.drop_last()), 10);
    }
}

/// Extending a digit run only grows its value.
proof fn lemma_dec_val_prefix(s: Seq<u8>, j: int)
    requires
        forall|i: int| 0 <= i < s.len() ==> is_dec_digit(#[trigger] s[i]),
        0 <= j <= s.len(),
    ensures
        dec_val(s.take(j)) <= dec_val(s),
    decreases s.len() - j,
{
    if j < s.len() {
        lemma_dec_val_prefix(s, j + 1);
        let p = s.take(j + 1);
        assert(p.drop_last() =~= s.take(j));
        lemma_dec_val_nonneg(s.take(j));
        vstd::arithmetic::mul::lemma_mul_inequality(1, 10, dec_val(s.take(j)));
        assert(dec_val(p) == dec_val(s.take(j)) * 10 + (s[j] - 48));
    } else {
        assert(s.take(j) =~= s);
    }
}

/// Parses the digits in `buf[from..to]` as a number, refusing an empty run,
/// a non-digit, or a value that does not fit.
fn parse_usize(buf: &Vec<u8>, from: usize, to: usize) -> (r: Option<usize>)
    requires
        from <= to <= buf@.len(),
    ensures
        ({
            let s = buf@.subrange(from as int, to as int);
            match r {
                Some(v) => is_digit_seq(s) && dec_val(s) == v,
                None => !is_digit_seq(s) || dec_val(s) > usize::MAX,
            }
        }),
{
    let ghost s = buf@.subrange(from as int, to as int);
    if from == to {
        return None;
    }
    let mut val: usize = 0;
    let mut i = from;
    while i < to
        invariant
            from <= i <= to <= buf@.len(),
            s == buf@.subrange(from as int, to as int),
            val == dec_val(s.take(i - from)),
            forall|k: int| 0 <= k < i - from ==> is_dec_digit(#[trigger] s[k]),
        decreases to - i,
    {
        let c = buf[i];
        if c < 48 || c > 57 {
            proof {
                assert(s[i - from] == c);
            }
            return None;
        }
        let d = c - 48;
        if val > (usize::MAX - (d as usize)) / 10 {
            proof {
                assert(val * 10 + d > usize::MAX) by (nonlinear_arith)
                    requires
                        val > (usize::MAX - (d as usize)) / 10,
                        0 <= d <= 9,
                        d as usize == d,
                ;
                assert forall|k: int| 0 <= k < s.len() implies is_dec_digit(#[trigger] s[k]) || !(
                is_digit_seq(s)) by {}
                if is_digit_seq(s) {
                    lemma_dec_val_prefix(s, i - from + 1);
                    assert(s.take(i - from + 1).drop_last() =~= s.take(i - from));
                    assert(dec_val(s.take(i - from + 1)) == val * 10 + d);
                    lemma_dec_val_nonneg(s);
                    assert(dec_val(s) > usize::MAX);
                }
            }
            return None;
        }
        proof {
            assert(val * 10 + d <= usize::MAX) by (nonlinear_arith)
                requires
                    val <= (usize::MAX - (d as usize)) / 10,
                    0 <= d <= 9,
                    d as usize == d,
            ;
            assert(s.take(i - from + 1).drop_last() =~= s.take(i - from));
            assert(s.take(i - from + 1).last() == s[i - from]);
        }
        val = val * 10 + (d as usize);
        i = i + 1;
    }
    proof {
        assert(s.take(to - from) =~= s);
    }
    Some(val)
}

/// The bytes of a well-formed cursor-position report (after `ESC [` and
/// before the final `R`): two digit runs around a single semicolon at `semi`.
pub open spec fn cursor_report_shape(s: Seq<u8>, semi: int) -> bool {
    &&& s.len() >= 2
    &&& s[0] == 27
    &&& s[1] == 91
    &&& 2 <= semi < s.len()
    &&& s[semi] == 59
    &&& (forall|k: int| 2 <= k < s.len() && k != semi ==> s[k] != 59)
    &&& is_digit_seq(s.subrange(2, semi))
    &&& is_digit_seq(s.subrange(semi + 1, s.len() as int))
}

/// A report parses exactly when it has the right shape and both numbers fit.
pub open spec fn cursor_report_ok(s: Seq<u8>) -> bool {
    exists|semi: int|
        #[trigger] cursor_report_shape(s, semi) && dec_val(s.subrange(2, semi)) <= usize::MAX
            && dec_val(s.subrange(semi + 1, s.len() as int)) <= usize::MAX
}

/// Parses a cursor-position report: the reply bytes up to (not including)
/// the final `R`. Returns the two numbers (rows, then columns) exactly when
/// the reply is `ESC [ <digits> ; <digits>` with both numbers machine-sized.
pub fn parse_cursor_position(buf: &Vec<u8>) -> (r: Option<(usize, usize)>)
    ensures
        r is Some <==> cursor_report_ok(buf@),
        r matches Some(p) ==> exists|semi: int|
            #[trigger] cursor_report_shape(buf@, semi) && dec_val(buf@.subrange(2, semi)) == p.0
                && dec_val(buf@.subrange(semi + 1, buf@.len() as int)) == p.1,
{
    let n = buf.len();
    if n < 2 || buf[0] != 27 || buf[1] != 91 {
        proof {
            assert forall|semi: int| !cursor_report_shape(buf@, semi) by {}
        }
        return None;
    }
    let mut semi: usize = 0;
    let mut have_semi = false;
    let mut i: usize = 2;
    while i < n
        invariant
            2 <= i <= n,
            n == buf@.len(),
            have_semi ==> 2 <= semi < i && buf@[semi as int] == 59,
            have_semi ==> (forall|k: int| 2 <= k < i && k != semi ==> buf@[k] != 59),
            !have_semi ==> (forall|k: int| 2 <= k < i ==> buf@[k] != 59),
        decreases n - i,
    {
        if buf[i] == 59 {
            if have_semi {
                proof {
                    assert forall|m: int| !cursor_report_shape(buf@, m) by {
                        if cursor_report_shape(buf@, m) {
                            if m == semi {
                                assert(buf@[i as int] == 59 && i != m);
                            } else {
                                assert(buf@[semi as int] == 59 && semi != m);
                            }
                        }
                    }
                }
                return None;
            }
            semi = i;
            have_semi = true;
        }
        i = i + 1;
    }
    if !have_semi {
        proof {
            assert forall|m: int| !cursor_report_shape(buf@, m) by {}
        }
        return None;
    }
    let a = match parse_usize(buf, 2, semi) {
        Some(a) => a,
        None => {
            proof {
                assert forall|m: int| #[trigger]
                    cursor_report_shape(buf@, m) implies m == semi as int by {
                    if m != semi {
                        assert(buf@[semi as int] == 59 && semi != m);
                    }
                }
            }
            return None;
        },
    };
    let b = match parse_usize(buf, semi + 1, n) {
        Some(b) => b,
        None => {
            proof {
                assert forall|m: int| #[trigger]
                    cursor_report_shape(buf@, m) implies m == semi as int by {
                    if m != semi {
                        assert(buf@[semi as int] == 59 && semi != m);
                    }
                }
            }
            return None;
        },
    };
    proof {
        lemma_dec_val_nonneg(buf@.subrange(2, semi as int));
        lemma_dec_val_nonneg(buf@.subrange(semi + 1, n as int));
        assert(cursor_report_shape(buf@, semi as int));
    }
    Some((a, b))
}

} // verus!
