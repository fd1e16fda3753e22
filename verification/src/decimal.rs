//! Unsigned decimal numbers as text: reading them and writing them.

use vstd::prelude::*;

verus! {

/// An ASCII decimal digit.
pub open spec fn is_digit(c: char) -> bool {
    '0' <= c <= '9'
}

/// The number that a decimal digit stands for.
pub open spec fn digit_value(c: char) -> int {
    c as int - '0' as int
}

/// Every character of `s` is a decimal digit.
pub open spec fn all_digits(s: Seq<char>) -> bool {
    forall|i: int| 0 <= i < s.len() ==> is_digit(#[trigger] s[i])
}

/// The number that a sequence of decimal digits denotes, most significant
/// digit first. The empty sequence denotes 0.
pub open spec fn digits_value(s: Seq<char>) -> int
    decreases s.len(),
{
    if s.len() == 0 {
        0
    } else {
        digits_value(s.drop_last()) * 10 + digit_value(s.last())
    }
}

/// Where the digits of an unsigned number begin: after one leading `+`, if
/// there is one.
pub open spec fn digits_start(s: Seq<char>) -> int {
    if s.len() > 0 && s[0] == '+' {
        1
    } else {
        0
    }
}

/// What `s` denotes as an unsigned decimal number no larger than `max`:
/// an optional `+`, then one or more decimal digits and nothing else.
/// Anything else, and any number above `max`, denotes nothing.
pub open spec fn parse_unsigned(s: Seq<char>, max: int) -> Option<int> {
    let digits = s.skip(digits_start(s));
    if digits.len() > 0 && all_digits(digits) && digits_value(digits) <= max {
        Some(digits_value(digits))
    } else {
        None
    }
}

/// What `s` denotes as a `u64`.
pub open spec fn parse_u64_spec(s: Seq<char>) -> Option<u64> {
    match parse_unsigned(s, u64::MAX as int) {
        Some(v) => Some(v as u64),
        None => None,
    }
}

/// What `s` denotes as a `u16`.
pub open spec fn parse_u16_spec(s: Seq<char>) -> Option<u16> {
    match parse_unsigned(s, u16::MAX as int) {
        Some(v) => Some(v as u16),
        None => None,
    }
}

/// A sequence of digits denotes a number that is not negative.
pub proof fn lemma_digits_value_nonnegative(s: Seq<char>)
    requires
        all_digits(s),
    ensures
        0 <= digits_value(s),
    decreases s.len(),
{
    if s.len() > 0 {
        lemma_digits_value_nonnegative(s.drop_last());
    }
}

/// A prefix of a sequence of digits denotes no more than the whole.
pub proof fn lemma_prefix_value_bounded(s: Seq<char>, k: int)
    requires
        all_digits(s),
        0 <= k <= s.len(),
    ensures
        digits_value(s.take(k)) <= digits_value(s),
    decreases s.len(),
{
    if k == s.len() {
        assert(s.take(k) =~= s);
    } else {
        lemma_prefix_value_bounded(s.drop_last(), k);
        lemma_digits_value_nonnegative(s.drop_last());
        assert(s.drop_last().take(k) =~= s.take(k));
    }
}

/// Reads an unsigned decimal number that must not exceed `max`.
fn parse_bounded(s: &str, max: u64) -> (r: Option<u64>)
    ensures
        r is Some <==> parse_unsigned(s@, max as int) is Some,
        r matches Some(v) ==> parse_unsigned(s@, max as int) == Some(v as int),
{
    let mut acc: u64 = 0;
    let mut first = true;
    let mut plus = false;
    let mut any = false;
    for c in it: s.chars()
        invariant
            it.seq() == s@,
            first == (it.index() == 0),
            first ==> !plus && !any,
            plus ==> s@.len() > 0 && s@[0] == '+',
            !first ==> plus == (s@[0] == '+'),
            any == (it.index() > (if plus { 1int } else { 0int })),
            !first && plus ==> it.index() >= 1,
            all_digits(s@.subrange(if plus { 1int } else { 0int }, it.index() as int)),
            acc == digits_value(s@.subrange(if plus { 1int } else { 0int }, it.index() as int)),
            acc <= max,
    {
        let ghost i = it.index() as int;
        let ghost off = if plus { 1int } else { 0int };
        if first && c == '+' {
            plus = true;
            assert(s@.subrange(1, 1) =~= Seq::<char>::empty());
        } else if c >= '0' && c <= '9' {
            let d: u64 = (c as u32 - '0' as u32) as u64;
            proof {
                let before = s@.subrange(off, i);
                let now = s@.subrange(off, i + 1);
                assert(now.drop_last() =~= before);
                assert(now.last() == c);
                assert(digits_value(now) == acc * 10 + d);
                let digits = s@.skip(digits_start(s@));
                assert(digits.take(i + 1 - off) =~= now);
                if all_digits(digits) {
                    lemma_prefix_value_bounded(digits, i + 1 - off);
                }
            }
            if acc > max / 10 {
                return None;
            }
            let shifted: u64 = acc * 10;
            if d > max - shifted {
                return None;
            }
            acc = shifted + d;
            any = true;
        } else {
            proof {
                let digits = s@.skip(digits_start(s@));
                assert(digits[i - off] == c);
            }
            return None;
        }
        first = false;
    }
    proof {
        let off = if plus { 1int } else { 0int };
        assert(s@.subrange(off, s@.len() as int) =~= s@.skip(digits_start(s@)));
    }
    if any {
        Some(acc)
    } else {
        None
    }
}

/// Reads a `u64` from decimal text.
pub fn parse_u64(s: &str) -> (r: Option<u64>)
    ensures
        r == parse_u64_spec(s@),
{
    parse_bounded(s, u64::MAX)
}

/// Reads a `u16` from decimal text.
pub fn parse_u16(s: &str) -> (r: Option<u16>)
    ensures
        r == parse_u16_spec(s@),
{
    match parse_bounded(s, 65535) {
        Some(v) => Some(v as u16),
        None => None,
    }
}

/// The decimal digit that stands for `d`.
pub open spec fn digit_char(d: int) -> char {
    ('0' as int + d) as char
}

/// The decimal text of `n`: its digits, most significant first, without
/// sign or leading zeros.
pub open spec fn decimal_text(n: nat) -> Seq<char>
    decreases n,
{
    if n < 10 {
        seq![digit_char(n as int)]
    } else {
        decimal_text(n / 10).push(digit_char((n % 10) as int))
    }
}

/// The decimal text of a number reads back as that number: it is made of
/// digits only, at least one, and they denote `n`.
pub proof fn lemma_decimal_text_reads_back(n: nat, max: int)
    requires
        n <= max,
    ensures
        decimal_text(n).len() >= 1,
        all_digits(decimal_text(n)),
        digits_value(decimal_text(n)) == n,
        parse_unsigned(decimal_text(n), max) == Some(n as int),
    decreases n,
{
    let text = decimal_text(n);
    if n < 10 {
        assert(text.drop_last() =~= Seq::<char>::empty());
        assert(digits_value(text.drop_last()) == 0);
        assert(digit_value(text.last()) == n);
    } else {
        lemma_decimal_text_reads_back(n / 10, max);
        assert(text.drop_last() =~= decimal_text(n / 10));
        assert(digits_value(text) == n);
    }
    assert(is_digit(text[0]));
    assert(text.skip(0) =~= text);
}

/// Appends the decimal text of `n` to `out`.
pub fn push_decimal(out: &mut String, n: u64)
    ensures
        final(out)@ == old(out)@ + decimal_text(n as nat),
    decreases n,
{
    if n >= 10 {
        push_decimal(out, n / 10);
    }
    let d: u8 = (n % 10) as u8;
    out.push((48u8 + d) as char);
    proof {
        if n >= 10 {
            assert(final(out)@ =~= old(out)@ + decimal_text(n as nat));
        } else {
            assert(final(out)@ =~= old(out)@ + decimal_text(n as nat));
        }
    }
}

} // verus!
