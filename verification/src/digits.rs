use vstd::prelude::*;

use crate::errors::{ParseError, ParseErrorV};

verus! {

/// An ASCII decimal digit.
pub open spec fn is_digit(b: u8) -> bool {
    48 <= b && b <= 57
}

/// Every byte of `s` is an ASCII decimal digit.
pub open spec fn all_digits(s: Seq<u8>) -> bool {
    forall|i: int| 0 <= i < s.len() ==> is_digit(#[trigger] s[i])
}

/// The number a sequence of ASCII digits denotes, most significant first.
pub open spec fn digits_value(s: Seq<u8>) -> int
    recommends
        all_digits(s),
    decreases s.len(),
{
    if s.len() == 0 {
        0
    } else {
        digits_value(s.drop_last()) * 10 + s.last() - 48
    }
}

/// The usual decimal rendering of `n`: no sign, no leading zero except for
/// the number zero itself.
pub open spec fn dec_digits(n: int) -> Seq<u8>
    recommends
        n >= 0,
    decreases n,
{
    if n <= 9 {
        seq![(n + 48) as u8]
    } else {
        dec_digits(n / 10).push((n % 10 + 48) as u8)
    }
}

/// Extending a digit string on the right never shrinks its value.
proof fn lemma_digits_value_prefix_le(s: Seq<u8>, j: int)
    requires
        all_digits(s),
        0 <= j <= s.len(),
    ensures
        digits_value(s.take(j)) <= digits_value(s),
        digits_value(s.take(j)) >= 0,
    decreases s.len() - j, s.len(),
{
    if j == s.len() {
        assert(s.take(j) =~= s);
        if s.len() == 0 {
        } else {
            assert(all_digits(s.drop_last())) by {
                assert(forall|i: int|
                    0 <= i < s.drop_last().len() ==> s.drop_last()[i] == #[trigger] s[i]);
            }
            lemma_digits_value_prefix_le(s.drop_last(), s.len() - 1);
            assert(s.drop_last().take(s.len() - 1) =~= s.drop_last());
        }
    } else {
        lemma_digits_value_prefix_le(s, j + 1);
        assert(s.take(j + 1).drop_last() =~= s.take(j));
        assert(all_digits(s.take(j))) by {
            assert(forall|i: int| 0 <= i < j ==> s.take(j)[i] == #[trigger] s[i]);
        }
        lemma_digits_value_prefix_le(s.take(j), j);
        assert(s.take(j).take(j) =~= s.take(j));
        assert(digits_value(s.take(j + 1)) == digits_value(s.take(j)) * 10 + s[j] - 48);
        assert(digits_value(s.take(j)) * 10 >= digits_value(s.take(j)));
    }
}

/// Parses an unsigned decimal index, as a `Remove`/`Update` envelope carries
/// it. Succeeds exactly on non-empty all-digit input whose value fits the
/// platform's word size.
pub fn parse_usize(s: &[u8]) -> (r: Result<usize, ParseError>)
    ensures
        match r {
            Ok(v) => s@.len() > 0 && all_digits(s@) && digits_value(s@) <= usize::MAX && v
                == digits_value(s@),
            Err(e) => e@ == ParseErrorV::BadIndex && (s@.len() == 0 || !all_digits(s@)
                || digits_value(s@) > usize::MAX),
        },
{
    if s.len() == 0 {
        return Err(ParseError::BadIndex);
    }
    let mut acc: usize = 0;
    let mut i: usize = 0;
    while i < s.len()
        invariant
            0 <= i <= s@.len(),
            s@.len() > 0,
            all_digits(s@.take(i as int)),
            acc == digits_value(s@.take(i as int)),
        decreases s@.len() - i,
    {
        let b = s[i];
        if b < 48 || b > 57 {
            return Err(ParseError::BadIndex);
        }
        proof {
            assert(s@.take(i + 1).drop_last() =~= s@.take(i as int));
            assert(s@.take(i + 1).last() == s@[i as int]);
            assert(forall|k: int|
                0 <= k < i + 1 ==> is_digit(#[trigger] s@.take(i + 1)[k]));
        }
        let next = match acc.checked_mul(10) {
            Some(m) => m,
            None => {
                proof {
                    if all_digits(s@) {
                        lemma_digits_value_prefix_le(s@, i + 1);
                    }
                }
                return Err(ParseError::BadIndex);
            },
        };
        let next = match next.checked_add((b - 48) as usize) {
            Some(v) => v,
            None => {
                proof {
                    if all_digits(s@) {
                        lemma_digits_value_prefix_le(s@, i + 1);
                    }
                }
                return Err(ParseError::BadIndex);
            },
        };
        acc = next;
        i += 1;
    }
    proof {
        assert(s@.take(i as int) =~= s@);
    }
    Ok(acc)
}

/// Renders `n` in decimal, exactly as the standard formatter would.
pub fn format_u64(n: u64) -> (out: Vec<u8>)
    ensures
        out@ == dec_digits(n as int),
    decreases n,
{
    let d: u8 = (n % 10) as u8 + 48;
    if n <= 9 {
        let mut out: Vec<u8> = Vec::new();
        out.push(d);
        proof {
            assert(out@ =~= dec_digits(n as int));
        }
        out
    } else {
        let mut out = format_u64(n / 10);
        out.push(d);
        out
    }
}

/// Rendering and reading decimal are inverse: the decimal digits of `n`
/// are all digits, and they denote `n` again.
pub proof fn lemma_dec_digits_value(n: int)
    requires
        n >= 0,
    ensures
        all_digits(dec_digits(n)),
        digits_value(dec_digits(n)) == n,
    decreases n,
{
    if n <= 9 {
        assert(dec_digits(n) =~= seq![(n + 48) as u8]);
        assert(dec_digits(n).drop_last() =~= Seq::<u8>::empty());
        assert(digits_value(Seq::<u8>::empty()) == 0);
        assert(dec_digits(n).last() == (n + 48) as u8);
    } else {
        lemma_dec_digits_value(n / 10);
        let front = dec_digits(n / 10);
        let d = (n % 10 + 48) as u8;
        assert(dec_digits(n) == front.push(d));
        assert(front.push(d).drop_last() =~= front);
        assert(front.push(d).last() == d);
        assert(forall|i: int| 0 <= i < front.len() ==> front.push(d)[i] == #[trigger] front[i]);
        assert(digits_value(front.push(d)) == digits_value(front) * 10 + d - 48);
        assert(n / 10 * 10 + n % 10 == n) by (nonlinear_arith)
            requires n >= 0;
    }
}

} // verus!
