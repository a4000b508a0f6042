use vstd::prelude::*;

verus! {

/// A decimal digit byte.
pub open spec fn is_digit_byte(b: u8) -> bool {
    48 <= b <= 57
}

/// The value of a big-endian run of digit bytes.
pub open spec fn digits_value(s: Seq<u8>) -> int
    decreases s.len(),
{
    if s.len() == 0 {
        0
    } else {
        digits_value(s.drop_last()) * 10 + (s.last() - 48)
    }
}

/// Every byte of the run is a digit.
pub open spec fn all_digits(s: Seq<u8>) -> bool {
    forall|i: int| 0 <= i < s.len() ==> is_digit_byte(#[trigger] s[i])
}

/// The digit run of a decimal numeral: everything after an optional leading
/// plus sign.
pub open spec fn numeral_digits(s: Seq<u8>) -> Seq<u8> {
    if s.len() > 0 && s[0] == 43 {
        s.drop_first()
    } else {
        s
    }
}

/// What parsing a 32-bit number from the bytes of a string yields: the
/// digits' value when the input is a nonempty digit run (after an optional
/// plus sign) whose value fits, nothing otherwise.
pub open spec fn parse_u32_spec(s: Seq<u8>) -> Option<u32> {
    let d = numeral_digits(s);
    if d.len() > 0 && all_digits(d) && digits_value(d) <= u32::MAX {
        Some(digits_value(d) as u32)
    } else {
        None
    }
}

/// The value of a digit run is never negative.
proof fn lemma_digits_nonneg(s: Seq<u8>)
    requires
        all_digits(s),
    ensures
        digits_value(s) >= 0,
    decreases s.len(),
{
    if s.len() > 0 {
        assert(all_digits(s.drop_last())) by {
            assert(forall|i: int|
                0 <= i < s.len() - 1 ==> s.drop_last()[i] == #[trigger] s[i]);
        }
        lemma_digits_nonneg(s.drop_last());
    }
}

/// Extending a digit run never shrinks its value.
proof fn lemma_digits_grow(s: Seq<u8>, i: int, j: int)
    requires
        all_digits(s.take(j)),
        0 <= i <= j <= s.len(),
    ensures
        digits_value(s.take(i)) <= digits_value(s.take(j)),
    decreases j - i,
{
    if i < j {
        assert(all_digits(s.take(j - 1))) by {
            assert(forall|k: int| 0 <= k < j - 1 ==> s.take(j - 1)[k] == #[trigger] s.take(j)[k]);
        }
        lemma_digits_grow(s, i, j - 1);
        lemma_digits_nonneg(s.take(j));
        assert(s.take(j).drop_last() =~= s.take(j - 1));
        lemma_digits_nonneg(s.take(j - 1));
        assert(digits_value(s.take(j)) == digits_value(s.take(j - 1)) * 10 + (s.take(j).last()
            - 48));
        assert(digits_value(s.take(j - 1)) * 10 >= digits_value(s.take(j - 1)))
            by (nonlinear_arith)
            requires
                digits_value(s.take(j - 1)) >= 0,
        ;
    }
}

/// Parses an optional command-line argument as a decimal 32-bit number:
/// the digits' value when the argument is present, is a digit run after an
/// optional plus sign, and fits; nothing when the argument is missing or
/// malformed.
pub fn parse_u32(opt: &Option<String>) -> (r: Option<u32>)
    ensures
        r == match opt {
            Some(s) => parse_u32_spec(vstd::utf8::encode_utf8(s@)),
            None => None::<u32>,
        },
{
    let string = match opt {
        Some(s) => s,
        None => {
            return None;
        },
    };
    let b = string.as_str().as_bytes();
    let ghost sb = vstd::utf8::encode_utf8(string@);
    proof {
        assert(match opt {
            Some(s) => sb == vstd::utf8::encode_utf8(s@),
            None => false,
        });
        assert(b@ == sb);
    }
    let start: usize = if b.len() > 0 && b[0] == 43 {
        1
    } else {
        0
    };
    let ghost d = numeral_digits(sb);
    proof {
        if start == 1 {
            assert(d =~= sb.drop_first());
        } else {
            assert(d =~= sb);
        }
    }
    if b.len() == start {
        return None;
    }
    let mut acc: u32 = 0;
    let mut i: usize = start;
    while i < b.len()
        invariant
            match opt {
                Some(s) => sb == vstd::utf8::encode_utf8(s@),
                None => false,
            },
            b@ == sb,
            d == numeral_digits(sb),
            start <= i <= b@.len(),
            d.len() == b@.len() - start,
            forall|k: int| 0 <= k < d.len() ==> d[k] == b@[k + start],
            all_digits(d.take(i - start)),
            acc == digits_value(d.take(i - start)),
        decreases b@.len() - i,
    {
        let c = b[i];
        if !(48 <= c && c <= 57) {
            proof {
                assert(d[i - start] == c);
                assert(!is_digit_byte(d[i - start]));
                assert(!all_digits(d));
                assert(parse_u32_spec(sb) is None);
            }
            return None;
        }
        let wide: u64 = (acc as u64) * 10 + ((c - 48) as u64);
        if wide > 0xffff_ffff {
            // The prefix already exceeds the range, and more digits only
            // grow the value.
            proof {
                assert(d.take(i + 1 - start).drop_last() =~= d.take(i - start));
                assert(d.take(i + 1 - start).last() == d[i - start]);
                if all_digits(d) {
                    assert(all_digits(d.take(d.len() as int))) by {
                        assert(forall|k: int|
                            0 <= k < d.len() ==> d.take(d.len() as int)[k] == #[trigger] d[k]);
                    }
                    lemma_digits_grow(d, i + 1 - start, d.len() as int);
                    assert(d.take(d.len() as int) =~= d);
                }
                assert(parse_u32_spec(sb) is None);
            }
            return None;
        }
        proof {
            assert(d.take(i + 1 - start).drop_last() =~= d.take(i - start));
            assert(d.take(i + 1 - start).last() == d[i - start]);
            assert(all_digits(d.take(i + 1 - start))) by {
                assert(forall|k: int|
                    0 <= k < i + 1 - start ==> d.take(i + 1 - start)[k] == #[trigger] d[k]);
            }
        }
        acc = wide as u32;
        i = i + 1;
    }
    proof {
        assert(d.take(d.len() as int) =~= d);
    }
    Some(acc)
}

} // verus!
