//! Unsigned decimal numerals: what a digit string denotes, and a parser for
//! a range of characters of a string with an upper bound on the value.
use vstd::prelude::*;

verus! {

/// An ASCII decimal digit.
pub open spec fn is_digit(c: char) -> bool {
    '0' <= c && c <= '9'
}

/// The value of a decimal digit.
pub open spec fn digit_value(c: char) -> nat {
    ((c as u32) - ('0' as u32)) as nat
}

/// Every character of `s` is a decimal digit.
pub open spec fn all_digits(s: Seq<char>) -> bool {
    forall|i: int| 0 <= i < s.len() ==> #[trigger] is_digit(s[i])
}

/// A numeral: one digit or more, nothing else.
pub open spec fn is_numeral(s: Seq<char>) -> bool {
    s.len() > 0 && all_digits(s)
}

/// The number that the digits of `s` denote, most significant first.
pub open spec fn numeral_value(s: Seq<char>) -> nat
    decreases s.len(),
{
    if s.len() == 0 {
        0
    } else {
        numeral_value(s.drop_last()) * 10 + digit_value(s.last())
    }
}

/// Reading more digits never makes the value smaller.
pub proof fn lemma_prefix_value_le(s: Seq<char>, n: int)
    requires
        0 <= n <= s.len(),
    ensures
        numeral_value(s.take(n)) <= numeral_value(s),
    decreases s.len(),
{
    if n < s.len() {
        assert(s.drop_last().take(n) =~= s.take(n));
        lemma_prefix_value_le(s.drop_last(), n);
    } else {
        assert(s.take(n) =~= s);
    }
}

/// Parses the characters `from..to` of `s` as a numeral whose value is at
/// most `max`.
pub fn parse_numeral(s: &str, from: usize, to: usize, max: u64) -> (r: Option<u64>)
    requires
        from <= to <= s@.len(),
    ensures
        r.is_some() <==> (is_numeral(s@.subrange(from as int, to as int)) && numeral_value(
            s@.subrange(from as int, to as int),
        ) <= max),
        r.is_some() ==> r.unwrap() as nat == numeral_value(s@.subrange(from as int, to as int)),
{
    if from == to {
        return None;
    }
    let ghost whole = s@.subrange(from as int, to as int);
    let mut value: u128 = 0;
    let mut i: usize = from;
    while i < to
        invariant
            from <= i <= to <= s@.len(),
            whole == s@.subrange(from as int, to as int),
            all_digits(s@.subrange(from as int, i as int)),
            value as nat == numeral_value(s@.subrange(from as int, i as int)),
            value <= max,
        decreases to - i,
    {
        let c = s.get_char(i);
        if !('0' <= c && c <= '9') {
            assert(whole[i - from] == c);
            assert(!is_digit(whole[i - from]));
            return None;
        }
        let d = (c as u32) - ('0' as u32);
        let next: u128 = value * 10 + d as u128;
        proof {
            let p = s@.subrange(from as int, i as int + 1);
            assert(p.drop_last() =~= s@.subrange(from as int, i as int));
            assert(p.last() == c);
        }
        if next > max as u128 {
            proof {
                let p = s@.subrange(from as int, i as int + 1);
                assert(whole.take(i + 1 - from) =~= p);
                lemma_prefix_value_le(whole, i + 1 - from);
            }
            return None;
        }
        value = next;
        i = i + 1;
        assert(all_digits(s@.subrange(from as int, i as int))) by {
            assert forall|j: int| 0 <= j < i - from implies #[trigger] is_digit(
                s@.subrange(from as int, i as int)[j],
            ) by {
                if j < i - 1 - from {
                    assert(s@.subrange(from as int, i - 1)[j] == s@.subrange(
                        from as int,
                        i as int,
                    )[j]);
                }
            }
        }
    }
    assert(s@.subrange(from as int, i as int) =~= whole);
    Some(value as u64)
}

} // verus!
