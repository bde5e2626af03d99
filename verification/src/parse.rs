//! Parsing text into 32-bit address values: dotted-decimal addresses, and
//! subnet masks given either as a CIDR prefix length or in dotted-decimal
//! form.

use vstd::prelude::*;
use crate::mask::mask_of_prefix;
use crate::mask::prefix_to_mask;

verus! {

/// Why a token was rejected.
#[derive(Clone, Copy, Debug, PartialEq, Eq, Structural)]
pub enum ParseError {
    /// The address token is not a well-formed dotted-decimal IPv4 address.
    InvalidAddress,
    /// The mask token is numeric but outside 0..=32.
    InvalidPrefixLength,
    /// The mask token is neither a prefix length nor a dotted-decimal address.
    InvalidMask,
}

/// A decimal digit character.
pub open spec fn is_digit(c: char) -> bool {
    '0' as u32 <= c as u32 && c as u32 <= '9' as u32
}

/// The value of a decimal digit character.
pub open spec fn digit_val(c: char) -> int
    recommends
        is_digit(c),
{
    c as u32 - '0' as u32
}

/// Every character of `s` is a decimal digit.
pub open spec fn all_digits(s: Seq<char>) -> bool {
    forall|i: int| 0 <= i < s.len() ==> is_digit(#[trigger] s[i])
}

/// The number written in decimal as `s`.
pub open spec fn num_of(s: Seq<char>) -> int
    recommends
        all_digits(s),
    decreases s.len(),
{
    if s.len() == 0 {
        0
    } else {
        num_of(s.drop_last()) * 10 + digit_val(s.last())
    }
}

/// A well-formed address component: one to three digits, no leading zero
/// unless the component is exactly "0", and a value of at most 255.
pub open spec fn valid_octet_text(s: Seq<char>) -> bool {
    &&& 1 <= s.len() <= 3
    &&& all_digits(s)
    &&& (s.len() == 1 || s[0] != '0')
    &&& num_of(s) <= 255
}

/// Index of the first `'.'` of `s` at position `i` or later; `s.len()` when
/// there is none.
pub open spec fn dot_from(s: Seq<char>, i: int) -> int
    recommends
        0 <= i <= s.len(),
    decreases s.len() - i,
{
    if i < 0 || i >= s.len() {
        s.len() as int
    } else if s[i] == '.' {
        i
    } else {
        dot_from(s, i + 1)
    }
}

/// The address value with the four given octets, most significant first.
pub open spec fn address_of_octets(a: int, b: int, c: int, d: int) -> u32
    recommends
        0 <= a < 256,
        0 <= b < 256,
        0 <= c < 256,
        0 <= d < 256,
{
    (a * 0x1000000 + b * 0x10000 + c * 0x100 + d) as u32
}

/// The address value that `s` denotes in dotted-decimal form: four
/// well-formed octet components separated by exactly three dots.
pub open spec fn parsed_address(s: Seq<char>) -> Option<u32> {
    let d1 = dot_from(s, 0);
    let d2 = dot_from(s, d1 + 1);
    let d3 = dot_from(s, d2 + 1);
    let p1 = s.subrange(0, d1);
    let p2 = s.subrange(d1 + 1, d2);
    let p3 = s.subrange(d2 + 1, d3);
    let p4 = s.subrange(d3 + 1, s.len() as int);
    if d1 < s.len() && d2 < s.len() && d3 < s.len() && dot_from(s, d3 + 1) == s.len()
        && valid_octet_text(p1) && valid_octet_text(p2) && valid_octet_text(p3)
        && valid_octet_text(p4) {
        Some(address_of_octets(num_of(p1), num_of(p2), num_of(p3), num_of(p4)))
    } else {
        None
    }
}

/// The digits of a numeric token: `s` without its optional leading `'+'`.
pub open spec fn numeric_body(s: Seq<char>) -> Seq<char> {
    if s.len() > 0 && s[0] == '+' {
        s.subrange(1, s.len() as int)
    } else {
        s
    }
}

/// A numeric token: an optional leading `'+'` followed by at least one
/// decimal digit and nothing else.
pub open spec fn is_numeric_token(s: Seq<char>) -> bool {
    numeric_body(s).len() > 0 && all_digits(numeric_body(s))
}

/// The mask value that `s` denotes: a numeric token in 0..=32 builds the
/// contiguous mask of that prefix length; a numeric token out of that range
/// is rejected; any other token must be a dotted-decimal address, whose value
/// is taken as the mask without a contiguity check.
pub open spec fn parsed_mask(s: Seq<char>) -> Result<u32, ParseError> {
    if is_numeric_token(s) {
        if num_of(numeric_body(s)) <= 32 {
            Ok(mask_of_prefix(num_of(numeric_body(s)) as u32))
        } else {
            Err(ParseError::InvalidPrefixLength)
        }
    } else {
        match parsed_address(s) {
            Some(v) => Ok(v),
            None => Err(ParseError::InvalidMask),
        }
    }
}

proof fn lemma_num_nonneg(s: Seq<char>)
    requires
        all_digits(s),
    ensures
        num_of(s) >= 0,
    decreases s.len(),
{
    if s.len() > 0 {
        lemma_num_nonneg(s.drop_last());
    }
}

proof fn lemma_num_prefix_monotone(s: Seq<char>, i: int, j: int)
    requires
        all_digits(s),
        0 <= i <= j <= s.len(),
    ensures
        num_of(s.subrange(0, i)) <= num_of(s.subrange(0, j)),
    decreases j - i,
{
    if i < j {
        lemma_num_prefix_monotone(s, i, j - 1);
        assert(s.subrange(0, j).drop_last() =~= s.subrange(0, j - 1));
        assert(all_digits(s.subrange(0, j - 1)));
        lemma_num_nonneg(s.subrange(0, j - 1));
    }
}

fn find_dot(s: &str, from: usize, n: usize) -> (r: usize)
    requires
        n as nat == s@.len(),
        from <= n,
    ensures
        r as int == dot_from(s@, from as int),
        from <= r <= n,
{
    let mut j = from;
    while j < n
        invariant
            from <= j <= n,
            n as nat == s@.len(),
            dot_from(s@, from as int) == dot_from(s@, j as int),
        decreases n - j,
    {
        if s.get_char(j) == '.' {
            return j;
        }
        j = j + 1;
    }
    n
}

fn parse_octet(s: &str, start: usize, end: usize, n: usize) -> (r: Option<u32>)
    requires
        n as nat == s@.len(),
        start <= end <= n,
    ensures
        match r {
            Some(v) => valid_octet_text(s@.subrange(start as int, end as int)) && v as int
                == num_of(s@.subrange(start as int, end as int)) && v <= 255,
            None => !valid_octet_text(s@.subrange(start as int, end as int)),
        },
{
    let ghost sub = s@.subrange(start as int, end as int);
    let len = end - start;
    if len == 0 || len > 3 {
        return None;
    }
    if len >= 2 && s.get_char(start) == '0' {
        proof {
            assert(sub[0] == s@[start as int]);
        }
        return None;
    }
    let mut val: u32 = 0;
    let mut j = start;
    while j < end
        invariant
            start <= j <= end,
            end <= n,
            n as nat == s@.len(),
            end - start <= 3,
            sub == s@.subrange(start as int, end as int),
            all_digits(s@.subrange(start as int, j as int)),
            val as int == num_of(s@.subrange(start as int, j as int)),
            val <= (if j - start == 0 {
                0int
            } else if j - start == 1 {
                9int
            } else if j - start == 2 {
                99int
            } else {
                999int
            }),
        decreases end - j,
    {
        let c = s.get_char(j);
        let cv = c as u32;
        if cv < 48 || cv > 57 {
            proof {
                assert(sub[j - start] == s@[j as int]);
            }
            return None;
        }
        proof {
            assert(s@.subrange(start as int, j + 1).drop_last() =~= s@.subrange(
                start as int,
                j as int,
            ));
            assert(s@.subrange(start as int, j + 1).last() == c);
            assert(s@.subrange(start as int, j + 1) =~= s@.subrange(start as int, j as int).push(
                c,
            ));
        }
        val = val * 10 + (cv - 48);
        j = j + 1;
    }
    proof {
        assert(sub =~= s@.subrange(start as int, j as int));
    }
    if val > 255 {
        return None;
    }
    Some(val)
}

/// Parses a dotted-decimal IPv4 address, "A.B.C.D" with each component in
/// 0..=255, into its 32-bit value in network order.
pub fn parse_address(s: &str) -> (r: Result<u32, ParseError>)
    ensures
        match r {
            Ok(v) => parsed_address(s@) == Some(v),
            Err(e) => parsed_address(s@) is None && e == ParseError::InvalidAddress,
        },
{
    let n = s.unicode_len();
    let d1 = find_dot(s, 0, n);
    if d1 == n {
        return Err(ParseError::InvalidAddress);
    }
    let d2 = find_dot(s, d1 + 1, n);
    if d2 == n {
        return Err(ParseError::InvalidAddress);
    }
    let d3 = find_dot(s, d2 + 1, n);
    if d3 == n {
        return Err(ParseError::InvalidAddress);
    }
    let d4 = find_dot(s, d3 + 1, n);
    if d4 != n {
        return Err(ParseError::InvalidAddress);
    }
    let o1 = match parse_octet(s, 0, d1, n) {
        Some(v) => v,
        None => {
            return Err(ParseError::InvalidAddress);
        },
    };
    let o2 = match parse_octet(s, d1 + 1, d2, n) {
        Some(v) => v,
        None => {
            return Err(ParseError::InvalidAddress);
        },
    };
    let o3 = match parse_octet(s, d2 + 1, d3, n) {
        Some(v) => v,
        None => {
            return Err(ParseError::InvalidAddress);
        },
    };
    let o4 = match parse_octet(s, d3 + 1, n, n) {
        Some(v) => v,
        None => {
            return Err(ParseError::InvalidAddress);
        },
    };
    Ok(o1 * 0x1000000 + o2 * 0x10000 + o3 * 0x100 + o4)
}

/// Parses a subnet mask token: a numeric token in 0..=32 is taken as a CIDR
/// prefix length and turned into the contiguous mask with that many leading
/// one bits; a numeric token above 32 is rejected; any other token is parsed
/// as a dotted-decimal address and its value taken as the mask.
pub fn parse_mask_or_prefix(s: &str) -> (r: Result<u32, ParseError>)
    ensures
        r == parsed_mask(s@),
{
    let n = s.unicode_len();
    let start: usize = if n > 0 && s.get_char(0) == '+' {
        1
    } else {
        0
    };
    let ghost body = numeric_body(s@);
    proof {
        assert(body =~= s@.subrange(start as int, n as int));
    }
    let mut numeric = n > start;
    let mut j: usize = start;
    while j < n
        invariant
            start <= j <= n,
            n as nat == s@.len(),
            body == s@.subrange(start as int, n as int),
            numeric == (n > start && all_digits(s@.subrange(start as int, j as int))),
        decreases n - j,
    {
        let c = s.get_char(j);
        let cv = c as u32;
        proof {
            assert('0' as u32 == 48 && '9' as u32 == 57);
            assert(s@.subrange(start as int, j + 1) =~= s@.subrange(start as int, j as int).push(
                s@[j as int],
            ));
        }
        if cv < 48 || cv > 57 {
            proof {
                assert(!is_digit(s@[j as int]));
                assert(s@.subrange(start as int, j + 1)[j - start] == s@[j as int]);
            }
            numeric = false;
        } else {
            proof {
                assert(is_digit(s@[j as int]));
            }
        }
        j = j + 1;
    }
    if numeric {
        let mut val: u32 = 0;
        let mut j: usize = start;
        while j < n
            invariant
                start <= j <= n,
                n as nat == s@.len(),
                body == numeric_body(s@),
                body == s@.subrange(start as int, n as int),
                n > start && all_digits(body),
                val as int == num_of(s@.subrange(start as int, j as int)),
                val <= 32,
            decreases n - j,
        {
            let c = s.get_char(j);
            let cv = c as u32;
            proof {
                assert(s@.subrange(start as int, j + 1).drop_last() =~= s@.subrange(
                    start as int,
                    j as int,
                ));
                assert(s@.subrange(start as int, j + 1).last() == s@[j as int]);
                assert(body[j - start] == s@[j as int]);
            }
            let d = cv - 48;
            if val * 10 + d > 32 {
                proof {
                    assert(is_digit(s@[j as int]));
                    assert(num_of(s@.subrange(start as int, j + 1)) == val * 10 + d);
                    assert(body.subrange(0, j + 1 - start) =~= s@.subrange(start as int, j + 1));
                    assert(body.subrange(0, body.len() as int) =~= body);
                    lemma_num_prefix_monotone(body, j + 1 - start, body.len() as int);
                    assert(num_of(body) > 32);
                }
                return Err(ParseError::InvalidPrefixLength);
            }
            val = val * 10 + d;
            j = j + 1;
        }
        Ok(prefix_to_mask(val as u8))
    } else {
        match parse_address(s) {
            Ok(v) => Ok(v),
            Err(_) => Err(ParseError::InvalidMask),
        }
    }
}

} // verus!
