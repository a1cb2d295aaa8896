//! The command-line surface's decisions: reading the host and port out of
//! the positional arguments, and laying the caret line of an input error
//! out.  Reading the real arguments, printing and exiting stay outside the
//! library.

use vstd::prelude::*;

use crate::format::display_width;
use crate::numfmt::{digit_val, digits_value, is_digit};
use crate::strutil::{split_chars, split_from, split_on};

verus! {

/// Every character a decimal digit.
pub open spec fn all_digits(d: Seq<char>) -> bool {
    forall|i: int| 0 <= i < d.len() ==> is_digit(#[trigger] d[i])
}

/// What a bare digit run reads as: at least one digit, with a value the
/// port type holds.
pub open spec fn digits_to_u16(d: Seq<char>) -> Option<u16> {
    if d.len() == 0 || !all_digits(d) {
        None
    } else if digits_value(d) > 65535 {
        None
    } else {
        Some(digits_value(d) as u16)
    }
}

/// What a port text reads as, as the standard library's unsigned parse has
/// it: an optional plus sign, then at least one digit, with a value the
/// port type holds; anything else is no port.
pub open spec fn parse_u16_spec(t: Seq<char>) -> Option<u16> {
    if t.len() >= 1 && t[0] == '+' {
        digits_to_u16(t.skip(1))
    } else {
        digits_to_u16(t)
    }
}

/// One digit of a prefix more: the value grows by a decimal place.
pub(crate) proof fn lemma_digits_value_step(d: Seq<char>, j: int)
    requires
        0 <= j < d.len(),
    ensures
        digits_value(d.take(j + 1)) == digits_value(d.take(j)) * 10 + digit_val(d[j]),
{
    let t = d.take(j + 1);
    assert(t.take(t.len() - 1) =~= d.take(j));
    assert(t.last() == d[j]);
}

/// Reads a port number, as the standard library's unsigned parse does: an
/// optional plus sign, then decimal digits.
pub fn parse_u16(s: &str) -> (r: Option<u16>)
    ensures
        r == parse_u16_spec(s@),
{
    let n = s.unicode_len();
    let start: usize = if n >= 1 && s.get_char(0) == '+' {
        1
    } else {
        0
    };
    let ghost d = if s@.len() >= 1 && s@[0] == '+' {
        s@.skip(1)
    } else {
        s@
    };
    proof {
        assert(d.len() == n - start);
        assert(forall|k: int| 0 <= k < d.len() ==> d[k] == s@[start + k]);
    }
    proof {
        assert(parse_u16_spec(s@) == digits_to_u16(d));
    }
    if start == n {
        return None;
    }
    let mut acc: u32 = 0;
    let mut over: bool = false;
    let mut i: usize = start;
    proof {
        assert(d.take(0) =~= Seq::<char>::empty());
    }
    while i < n
        invariant
            n == s@.len(),
            start <= i <= n,
            start <= 1,
            d == (if s@.len() >= 1 && s@[0] == '+' {
                s@.skip(1)
            } else {
                s@
            }),
            start as int == (if s@.len() >= 1 && s@[0] == '+' {
                1int
            } else {
                0int
            }),
            d.len() == n - start,
            forall|k: int| 0 <= k < d.len() ==> d[k] == s@[start + k],
            forall|k: int| 0 <= k < i - start ==> is_digit(d[k]),
            !over ==> acc == digits_value(d.take(i - start)) && acc <= 65535,
            over ==> digits_value(d.take(i - start)) > 65535,
        decreases n - i,
    {
        let c = s.get_char(i);
        let v = digit_value(c);
        if v >= 10 {
            proof {
                assert(d[i - start] == s@[i as int]);
                assert(!is_digit(d[i - start]));
                assert(!all_digits(d));
                assert(parse_u16_spec(s@) == digits_to_u16(d));
            }
            return None;
        }
        proof {
            lemma_digits_value_step(d, i - start);
        }
        if over {
            proof {
                assert(digits_value(d.take(i - start + 1)) >= digits_value(d.take(i - start)));
            }
        } else {
            let next = acc * 10 + v;
            if next > 65535 {
                over = true;
            } else {
                acc = next;
            }
        }
        i += 1;
    }
    proof {
        assert(d.take(n - start) =~= d);
        assert(all_digits(d));
        assert(parse_u16_spec(s@) == digits_to_u16(d));
    }
    if over {
        None
    } else {
        Some(acc as u16)
    }
}

/// The numeric value of a digit character; ten marks a non-digit.
pub(crate) fn digit_value(c: char) -> (v: u32)
    ensures
        v == digit_val(c),
{
    if c == '0' {
        0
    } else if c == '1' {
        1
    } else if c == '2' {
        2
    } else if c == '3' {
        3
    } else if c == '4' {
        4
    } else if c == '5' {
        5
    } else if c == '6' {
        6
    } else if c == '7' {
        7
    } else if c == '8' {
        8
    } else if c == '9' {
        9
    } else {
        10
    }
}

/// The text holds a colon somewhere.
pub open spec fn has_colon(s: Seq<char>) -> bool {
    exists|i: int| 0 <= i < s.len() && s[i] == ':'
}

proof fn lemma_split_no_sep(t: Seq<char>, sep: char, cur: Seq<char>)
    requires
        forall|i: int| 0 <= i < t.len() ==> t[i] != sep,
    ensures
        split_from(t, sep, cur).len() == 1,
    decreases t.len(),
{
    if t.len() > 0 {
        assert(forall|i: int| 0 <= i < t.skip(1).len() ==> t.skip(1)[i] == t[i + 1]);
        lemma_split_no_sep(t.skip(1), sep, cur.push(t[0]));
    }
}

proof fn lemma_split_with_sep(t: Seq<char>, sep: char, cur: Seq<char>)
    requires
        exists|i: int| 0 <= i < t.len() && t[i] == sep,
    ensures
        split_from(t, sep, cur).len() >= 2,
    decreases t.len(),
{
    crate::strutil::lemma_split_from_len(t, sep, cur);
    if t[0] == sep {
        crate::strutil::lemma_split_from_len(t.skip(1), sep, Seq::empty());
    } else {
        let i = choose|i: int| 0 <= i < t.len() && t[i] == sep;
        assert(t.skip(1)[i - 1] == sep);
        lemma_split_with_sep(t.skip(1), sep, cur.push(t[0]));
    }
}

/// What the command line asks for.
pub enum ParseOutcome {
    /// No arguments: show the help and leave successfully.
    Help,
    /// A host and perhaps a port: run the query.
    Query(String, Option<u16>),
    /// The argument at this one-based position is no legal port.
    BadPort { arg_position: usize },
    /// More than two arguments.
    TooManyArgs,
}

/// Decides what the positional arguments ask for: none is a call for help;
/// one is a host, with a port split off behind the first colon when one is
/// there; two are host and port; more are too many.  A port that does not
/// read as one names its argument's position instead.
pub fn parse(args: &Vec<String>) -> (r: ParseOutcome)
    ensures
        r is Help <==> args@.len() == 0,
        r is TooManyArgs <==> args@.len() > 2,
        args@.len() == 1 && !has_colon(args@[0]@) ==> (r matches ParseOutcome::Query(h, p)
            && h@ == args@[0]@ && p is None),
        args@.len() == 1 && has_colon(args@[0]@) ==> match parse_u16_spec(
            split_chars(args@[0]@, ':')[1],
        ) {
            Some(v) => r matches ParseOutcome::Query(h, p) && h@ == split_chars(args@[0]@, ':')[0]
                && p == Some(v),
            None => r == (ParseOutcome::BadPort { arg_position: 1usize }),
        },
        args@.len() == 2 ==> match parse_u16_spec(args@[1]@) {
            Some(v) => r matches ParseOutcome::Query(h, p) && h@ == args@[0]@ && p == Some(v),
            None => r == (ParseOutcome::BadPort { arg_position: 2usize }),
        },
{
    if args.len() == 0 {
        ParseOutcome::Help
    } else if args.len() == 1 {
        let parts = split_on(args[0].as_str(), ':');
        if parts.len() == 1 {
            proof {
                if has_colon(args@[0]@) {
                    lemma_split_with_sep(args@[0]@, ':', Seq::empty());
                }
            }
            ParseOutcome::Query(args[0].clone(), None)
        } else {
            proof {
                assert(parts.deep_view() == split_chars(args@[0]@, ':'));
                assert(parts@[0]@ == split_chars(args@[0]@, ':')[0]);
                assert(parts@[1]@ == split_chars(args@[0]@, ':')[1]);
                if !has_colon(args@[0]@) {
                    lemma_split_no_sep(args@[0]@, ':', Seq::empty());
                }
            }
            match parse_u16(parts[1].as_str()) {
                Some(v) => ParseOutcome::Query(parts[0].clone(), Some(v)),
                None => ParseOutcome::BadPort { arg_position: 1 },
            }
        }
    } else if args.len() == 2 {
        match parse_u16(args[1].as_str()) {
            Some(v) => ParseOutcome::Query(args[0].clone(), Some(v)),
            None => ParseOutcome::BadPort { arg_position: 2 },
        }
    } else {
        ParseOutcome::TooManyArgs
    }
}

// ---------------------------------------------------------------------------
// Caret layout of an input error
// ---------------------------------------------------------------------------

/// The display widths of the first `k` arguments, each with one separating
/// space.
pub open spec fn widths_sum(args: Seq<Seq<char>>, k: int) -> int
    decreases k,
{
    if k <= 0 {
        0
    } else {
        widths_sum(args, k - 1) + display_width(args[k - 1]) + 1
    }
}

/// Where the caret line's run of carets starts: the arrow and its space,
/// the program name with one space, and every argument before the wrong one
/// with one space each.
pub open spec fn indent_spec(exe: Seq<char>, args: Seq<Seq<char>>, error_arg: int) -> int {
    2 + display_width(exe) + 1 + widths_sum(args, error_arg - 1)
}

/// A sum held inside the pointer type's range.
pub open spec fn cap_usize(n: int) -> int {
    if n > usize::MAX as int {
        usize::MAX as int
    } else {
        n
    }
}

fn sat_add(a: usize, b: usize) -> (r: usize)
    ensures
        r as int == cap_usize(a as int + b as int),
{
    if a > usize::MAX - b {
        usize::MAX
    } else {
        a + b
    }
}

/// Computes the caret line's layout for a wrong argument: how far the caret
/// run is indented, and how many carets cover the argument.
pub fn input_error_layout(exe: &str, args: &Vec<String>, error_arg: usize) -> (r: (usize, usize))
    requires
        1 <= error_arg <= args@.len(),
    ensures
        r.0 as int == cap_usize(indent_spec(exe@, args.deep_view(), error_arg as int)),
        r.1 == display_width(args@[error_arg - 1]@),
{
    let w_exe = crate::format::str_display_width(exe);
    let mut acc: usize = sat_add(2, sat_add(w_exe, 1));
    let ghost avs = args.deep_view();
    proof {
        assert(forall|k: int| 0 <= k < args@.len() ==> avs[k] == args@[k]@);
        assert(acc as int == cap_usize(2 + display_width(exe@) + 1 + widths_sum(avs, 0)));
    }
    let mut k: usize = 0;
    while k < error_arg - 1
        invariant
            1 <= error_arg <= args@.len(),
            k <= error_arg - 1,
            avs == args.deep_view(),
            forall|j: int| 0 <= j < args@.len() ==> avs[j] == args@[j]@,
            acc as int == cap_usize(2 + display_width(exe@) + 1 + widths_sum(avs, k as int)),
        decreases error_arg - 1 - k,
    {
        let w = crate::format::str_display_width(args[k].as_str());
        let ghost before = acc as int;
        let step = sat_add(w, 1);
        acc = sat_add(acc, step);
        proof {
            let sum: int = 2 + display_width(exe@) + 1 + widths_sum(avs, k as int);
            let wnext: int = display_width(avs[k as int]) as int + 1;
            assert(widths_sum(avs, k as int + 1) == widths_sum(avs, k as int) + display_width(
                avs[k as int],
            ) + 1);
            assert(before == cap_usize(sum));
            assert(step as int == cap_usize(wnext));
            assert(acc as int == cap_usize(before + step));
            assert(acc as int == cap_usize(sum + wnext));
        }
        k += 1;
    }
    let caret = crate::format::str_display_width(args[error_arg - 1].as_str());
    (acc, caret)
}

} // verus!
