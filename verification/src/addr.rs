//! Deciding whether a host argument is a literal IPv4 address.
//!
//! A literal address is four dot-separated decimal octets, each at most 255,
//! written without leading zeros.  Any other host string is left to name
//! resolution, which runs outside the library.

use vstd::prelude::*;

use crate::cliargs::all_digits;
use crate::numfmt::{digit_val, digits_value, is_digit};
use crate::strutil::{split_chars, split_on};

verus! {

/// One written octet: one to three digits, no leading zero unless the octet
/// is the single digit zero, value at most 255.
pub open spec fn valid_octet(t: Seq<char>) -> bool {
    1 <= t.len() <= 3 && all_digits(t) && digits_value(t) <= 255 && (t.len() > 1 ==> t[0] != '0')
}

/// A literal IPv4 address: exactly four dot-separated valid octets.
pub open spec fn is_ipv4_spec(s: Seq<char>) -> bool {
    let parts = split_chars(s, '.');
    parts.len() == 4 && (forall|i: int| 0 <= i < 4 ==> valid_octet(#[trigger] parts[i]))
}

/// Checks one dot-separated piece for being a valid octet.
fn check_octet(p: &str) -> (r: bool)
    ensures
        r == valid_octet(p@),
{
    let n = p.unicode_len();
    if n < 1 || n > 3 {
        return false;
    }
    let mut i: usize = 0;
    while i < n
        invariant
            n == p@.len(),
            n <= 3,
            i <= n,
            forall|k: int| 0 <= k < i ==> is_digit(#[trigger] p@[k]),
        decreases n - i,
    {
        let c = p.get_char(i);
        if crate::cliargs::digit_value(c) >= 10 {
            proof {
                assert(!is_digit(p@[i as int]));
                assert(!all_digits(p@));
            }
            return false;
        }
        i += 1;
    }
    proof {
        assert(all_digits(p@));
        crate::cliargs::lemma_digits_value_step(p@, 0);
        assert(p@.take(0) =~= Seq::<char>::empty());
        if n >= 2 {
            crate::cliargs::lemma_digits_value_step(p@, 1);
        }
        if n >= 3 {
            crate::cliargs::lemma_digits_value_step(p@, 2);
        }
        assert(p@.take(n as int) =~= p@);
    }
    let d0 = crate::cliargs::digit_value(p.get_char(0));
    let value: u32 = if n == 1 {
        d0
    } else if n == 2 {
        d0 * 10 + crate::cliargs::digit_value(p.get_char(1))
    } else {
        d0 * 100 + crate::cliargs::digit_value(p.get_char(1)) * 10 + crate::cliargs::digit_value(
            p.get_char(2),
        )
    };
    proof {
        assert(value == digits_value(p@));
    }
    if value > 255 {
        return false;
    }
    if n > 1 && p.get_char(0) == '0' {
        return false;
    }
    true
}

/// Decides whether a host string is a literal IPv4 address.
pub fn is_ipv4_literal(s: &str) -> (r: bool)
    ensures
        r == is_ipv4_spec(s@),
{
    let parts = split_on(s, '.');
    proof {
        assert(parts.deep_view() == split_chars(s@, '.'));
        assert(forall|i: int| 0 <= i < parts@.len() ==> parts.deep_view()[i] == parts@[i]@);
    }
    if parts.len() != 4 {
        return false;
    }
    let mut i: usize = 0;
    while i < 4
        invariant
            parts@.len() == 4,
            parts.deep_view() == split_chars(s@, '.'),
            forall|k: int| 0 <= k < 4 ==> parts.deep_view()[k] == parts@[k]@,
            i <= 4,
            forall|k: int| 0 <= k < i ==> valid_octet(#[trigger] split_chars(s@, '.')[k]),
        decreases 4 - i,
    {
        if !check_octet(parts[i].as_str()) {
            proof {
                assert(!valid_octet(split_chars(s@, '.')[i as int]));
            }
            return false;
        }
        i += 1;
    }
    true
}

} // verus!
