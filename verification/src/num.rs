//! Decimal parsing as `str::parse` does it for the integer and boolean types the
//! library reads.
use vstd::prelude::*;

verus! {

pub open spec fn is_digit(c: char) -> bool {
    '0' <= c && c <= '9'
}

pub open spec fn all_digits(s: Seq<char>) -> bool {
    forall|i: int| 0 <= i < s.len() ==> is_digit(#[trigger] s[i])
}

/// The value of a string of decimal digits.
pub open spec fn digits_value(s: Seq<char>) -> nat
    decreases s.len(),
{
    if s.len() == 0 {
        0
    } else {
        digits_value(s.drop_last()) * 10 + ((s.last() as u32) - 48) as nat
    }
}

/// `s` with one leading `+` removed, if there is one.
pub open spec fn without_plus(s: Seq<char>) -> Seq<char> {
    if s.len() > 0 && s[0] == '+' {
        s.drop_first()
    } else {
        s
    }
}

/// What `str::parse` gives for an unsigned integer type whose largest value is `max`:
/// an optional `+`, then one or more decimal digits whose value fits.
pub open spec fn parse_unsigned_spec(s: Seq<char>, max: nat) -> Option<nat> {
    let body = without_plus(s);
    if body.len() == 0 || !all_digits(body) || digits_value(body) > max {
        None
    } else {
        Some(digits_value(body))
    }
}

proof fn lemma_digits_value_push(s: Seq<char>, c: char)
    ensures
        digits_value(s.push(c)) == digits_value(s) * 10 + ((c as u32) - 48) as nat,
{
    assert(s.push(c).drop_last() =~= s);
}

proof fn lemma_digits_value_grows(s: Seq<char>, i: int)
    requires
        0 <= i <= s.len(),
        all_digits(s),
    ensures
        digits_value(s.subrange(0, i)) <= digits_value(s),
    decreases s.len() - i,
{
    if i < s.len() {
        lemma_digits_value_grows(s, i + 1);
        let p = s.subrange(0, i);
        assert(s.subrange(0, i + 1) =~= p.push(s[i]));
        lemma_digits_value_push(p, s[i]);
    } else {
        assert(s.subrange(0, i) =~= s);
    }
}

/// The value of the digits of `body`, or `None` if one is not a digit or the value exceeds
/// `max`.
fn digits_up_to(body: &[char], max: u128) -> (r: Option<u128>)
    requires
        max < 0x1_0000_0000_0000_0000_0000_0000_0000_00,
    ensures
        match r {
            Some(v) => all_digits(body@) && digits_value(body@) <= max && v == digits_value(
                body@,
            ),
            None => !all_digits(body@) || digits_value(body@) > max,
        },
{
    let mut acc: u128 = 0;
    let mut i: usize = 0;
    while i < body.len()
        invariant
            i <= body@.len(),
            max < 0x1_0000_0000_0000_0000_0000_0000_0000_00,
            all_digits(body@.subrange(0, i as int)),
            acc == digits_value(body@.subrange(0, i as int)),
            acc <= max,
        decreases body@.len() - i,
    {
        let c = body[i];
        if !('0' <= c && c <= '9') {
            assert(!is_digit(body@[i as int]));
            return None;
        }
        let d = (c as u32 - 48) as u128;
        proof {
            let p = body@.subrange(0, i as int);
            assert(body@.subrange(0, i + 1) =~= p.push(c));
            lemma_digits_value_push(p, c);
        }
        let next = acc * 10 + d;
        if next > max {
            proof {
                let p = body@.subrange(0, i + 1);
                assert forall|j: int| 0 <= j < p.len() implies is_digit(#[trigger] p[j]) by {
                    if j < i {
                        assert(p[j] == body@.subrange(0, i as int)[j]);
                    }
                }
                if all_digits(body@) {
                    lemma_digits_value_grows(body@, i + 1);
                }
            }
            return None;
        }
        acc = next;
        i = i + 1;
        proof {
            let p = body@.subrange(0, i as int);
            assert forall|j: int| 0 <= j < p.len() implies is_digit(#[trigger] p[j]) by {
                if j < i - 1 {
                    assert(p[j] == body@.subrange(0, i - 1)[j]);
                }
            }
        }
    }
    assert(body@.subrange(0, body@.len() as int) =~= body@);
    Some(acc)
}

/// Parses an unsigned integer that must not exceed `max`, as `str::parse` does.
pub fn parse_unsigned(s: &[char], max: u64) -> (r: Option<u64>)
    ensures
        match r {
            Some(v) => parse_unsigned_spec(s@, max as nat) == Some(v as nat),
            None => parse_unsigned_spec(s@, max as nat) is None,
        },
{
    let body = if s.len() > 0 && s[0] == '+' {
        crate::text::slice_range(s, 1, s.len())
    } else {
        crate::text::slice_range(s, 0, s.len())
    };
    assert(body@ =~= without_plus(s@));
    if body.len() == 0 {
        return None;
    }
    match digits_up_to(body.as_slice(), max as u128) {
        Some(v) => Some(v as u64),
        None => None,
    }
}

/// `str::parse::<u16>`.
pub fn parse_u16(s: &[char]) -> (r: Option<u16>)
    ensures
        match r {
            Some(v) => parse_unsigned_spec(s@, u16::MAX as nat) == Some(v as nat),
            None => parse_unsigned_spec(s@, u16::MAX as nat) is None,
        },
{
    match parse_unsigned(s, u16::MAX as u64) {
        Some(v) => Some(v as u16),
        None => None,
    }
}

/// `str::parse::<usize>`.
pub fn parse_usize(s: &[char]) -> (r: Option<usize>)
    ensures
        match r {
            Some(v) => parse_unsigned_spec(s@, usize::MAX as nat) == Some(v as nat),
            None => parse_unsigned_spec(s@, usize::MAX as nat) is None,
        },
{
    match parse_unsigned(s, usize::MAX as u64) {
        Some(v) => Some(v as usize),
        None => None,
    }
}

/// What `str::parse::<bool>` gives: exactly `true` or `false`.
pub open spec fn parse_bool_spec(s: Seq<char>) -> Option<bool> {
    if s == seq!['t', 'r', 'u', 'e'] {
        Some(true)
    } else if s == seq!['f', 'a', 'l', 's', 'e'] {
        Some(false)
    } else {
        None
    }
}

/// `str::parse::<bool>`.
pub fn parse_bool(s: &[char]) -> (r: Option<bool>)
    ensures
        r == parse_bool_spec(s@),
{
    let t = ['t', 'r', 'u', 'e'];
    let f = ['f', 'a', 'l', 's', 'e'];
    assert(t@ =~= seq!['t', 'r', 'u', 'e']);
    assert(f@ =~= seq!['f', 'a', 'l', 's', 'e']);
    if crate::text::chars_eq(s, t.as_slice()) {
        Some(true)
    } else if crate::text::chars_eq(s, f.as_slice()) {
        Some(false)
    } else {
        None
    }
}

} // verus!
