//! Binary rendering of field values and decimal parsing of operand tokens.

use vstd::prelude::*;
use vstd::string::StrSliceExecFns;
use vstd::string::StringExecFns;

verus! {

/// The big-endian binary rendering of the low `width` bits of `v`,
/// one `'0'`/`'1'` character per bit.  Values wider than the field are
/// truncated to the field's low-order bits.
pub open spec fn spec_bits(v: nat, width: nat) -> Seq<char>
    decreases width,
{
    if width == 0 {
        Seq::empty()
    } else {
        spec_bits(v / 2, (width - 1) as nat).push(if v % 2 == 1 {
            '1'
        } else {
            '0'
        })
    }
}

pub proof fn lemma_spec_bits_len(v: nat, width: nat)
    ensures
        spec_bits(v, width).len() == width,
    decreases width,
{
    if width > 0 {
        lemma_spec_bits_len(v / 2, (width - 1) as nat);
    }
}

pub proof fn lemma_spec_bits_binary(v: nat, width: nat)
    ensures
        forall|i: int|
            0 <= i < spec_bits(v, width).len() ==> (spec_bits(v, width)[i] == '0'
                || spec_bits(v, width)[i] == '1'),
    decreases width,
{
    if width > 0 {
        lemma_spec_bits_binary(v / 2, (width - 1) as nat);
        lemma_spec_bits_len(v / 2, (width - 1) as nat);
    }
}

/// Renders the low `width` bits of `value` as a `'0'`/`'1'` string,
/// most significant bit first.
pub fn bits_string(value: u16, width: u16) -> (r: String)
    ensures
        r@ == spec_bits(value as nat, width as nat),
    decreases width,
{
    if width == 0 {
        String::new()
    } else {
        let mut r = bits_string(value / 2, width - 1);
        if value % 2 == 1 {
            r.append("1");
        } else {
            r.append("0");
        }
        proof {
            reveal_strlit("0");
            reveal_strlit("1");
            assert(r@ =~= spec_bits(value as nat, width as nat));
        }
        r
    }
}

/// Whether `c` is an ASCII decimal digit.
pub open spec fn is_digit(c: char) -> bool {
    48 <= c as u32 <= 57
}

/// Whether `s` is one or more decimal digits and nothing else.
pub open spec fn all_digits(s: Seq<char>) -> bool {
    forall|i: int| 0 <= i < s.len() ==> is_digit(#[trigger] s[i])
}

/// The value of a sequence of decimal digits.
pub open spec fn spec_dec_value(s: Seq<char>) -> int
    decreases s.len(),
{
    if s.len() == 0 {
        0
    } else {
        spec_dec_value(s.drop_last()) * 10 + (s.last() as u32 - 48)
    }
}

/// Whether `s` parses as an unsigned decimal number that fits in `max`.
pub open spec fn spec_parse_dec(s: Seq<char>, max: int) -> Option<u16> {
    if s.len() > 0 && all_digits(s) && spec_dec_value(s) <= max {
        Some(spec_dec_value(s) as u16)
    } else {
        None
    }
}

proof fn lemma_dec_value_nonneg(s: Seq<char>)
    requires
        all_digits(s),
    ensures
        spec_dec_value(s) >= 0,
    decreases s.len(),
{
    if s.len() > 0 {
        assert(all_digits(s.drop_last())) by {
            assert(forall|i: int|
                0 <= i < s.drop_last().len() ==> s.drop_last()[i] == #[trigger] s[i]);
        }
        lemma_dec_value_nonneg(s.drop_last());
    }
}

proof fn lemma_dec_value_monotone(s: Seq<char>, i: int)
    requires
        all_digits(s),
        0 <= i <= s.len(),
    ensures
        spec_dec_value(s) >= spec_dec_value(s.take(i)),
    decreases s.len() - i,
{
    if i < s.len() {
        lemma_dec_value_monotone(s, i + 1);
        assert(s.take(i + 1).drop_last() =~= s.take(i));
        assert(all_digits(s.take(i))) by {
            assert(forall|j: int| 0 <= j < s.take(i).len() ==> s.take(i)[j] == #[trigger] s[j]);
        }
        lemma_dec_value_nonneg(s.take(i));
        assert(spec_dec_value(s.take(i + 1)) == spec_dec_value(s.take(i)) * 10 + (s.take(
            i + 1,
        ).last() as u32 - 48));
    } else {
        assert(s.take(i) =~= s);
    }
}

/// Parses `s` as an unsigned decimal number no larger than `max`.
/// Returns `None` on an empty string, a non-digit character, or a value
/// over `max`.
pub fn parse_dec(s: &str, max: u16) -> (r: Option<u16>)
    ensures
        r == spec_parse_dec(s@, max as int),
{
    let n = s.unicode_len();
    if n == 0 {
        return None;
    }
    let mut acc: u32 = 0;
    let mut i: usize = 0;
    while i < n
        invariant
            0 < n == s@.len(),
            0 <= i <= n,
            all_digits(s@.take(i as int)),
            acc == spec_dec_value(s@.take(i as int)),
            acc <= max,
            max <= u16::MAX,
        decreases n - i,
    {
        let c = s.get_char(i);
        let cv = c as u32;
        if cv < 48 || cv > 57 {
            assert(!all_digits(s@));
            return None;
        }
        let next: u32 = acc * 10 + (cv - 48);
        proof {
            assert(s@.take(i + 1).drop_last() =~= s@.take(i as int));
            assert(s@.take(i + 1).last() == c);
        }
        if next > max as u32 {
            proof {
                if all_digits(s@) && spec_dec_value(s@) <= max {
                    lemma_dec_value_monotone(s@, i + 1);
                }
            }
            return None;
        }
        acc = next;
        i = i + 1;
    }
    proof {
        assert(s@.take(n as int) =~= s@);
    }
    Some(acc as u16)
}

} // verus!
