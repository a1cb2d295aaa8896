//! Small string helpers shared by the decoders and the formatter.

use vstd::prelude::*;

verus! {

/// Relies on `core::iter::Iterator::collect` for `String`: builds the string
/// holding exactly the given characters in order.
#[verifier::external_body]
pub fn chars_to_string(v: &Vec<char>) -> (r: String)
    ensures
        r@ == v@,
{
    v.iter().collect()
}

/// The pieces of the rest of a split, given the piece collected so far:
/// every separator ends a piece, and the end of the text ends the last one,
/// so a split always yields at least one piece.
pub open spec fn split_from(t: Seq<char>, sep: char, cur: Seq<char>) -> Seq<Seq<char>>
    decreases t.len(),
{
    if t.len() == 0 {
        seq![cur]
    } else if t[0] == sep {
        seq![cur] + split_from(t.skip(1), sep, Seq::empty())
    } else {
        split_from(t.skip(1), sep, cur.push(t[0]))
    }
}

/// The pieces of a text split on a separator character.
pub open spec fn split_chars(t: Seq<char>, sep: char) -> Seq<Seq<char>> {
    split_from(t, sep, Seq::empty())
}

/// A split yields at least one piece.
pub proof fn lemma_split_from_len(t: Seq<char>, sep: char, cur: Seq<char>)
    ensures
        split_from(t, sep, cur).len() >= 1,
    decreases t.len(),
{
    if t.len() != 0 {
        if t[0] == sep {
            lemma_split_from_len(t.skip(1), sep, Seq::empty());
        } else {
            lemma_split_from_len(t.skip(1), sep, cur.push(t[0]));
        }
    }
}

/// Splits a string on a separator character.
pub fn split_on(t: &str, sep: char) -> (r: Vec<String>)
    ensures
        r.deep_view() == split_chars(t@, sep),
        r@.len() >= 1,
{
    let n = t.unicode_len();
    let mut i: usize = 0;
    let mut cur: Vec<char> = Vec::new();
    let mut out: Vec<String> = Vec::new();
    proof {
        assert(t@.skip(0) =~= t@);
        assert(cur@ =~= Seq::<char>::empty());
        assert(out.deep_view() =~= Seq::<Seq<char>>::empty());
        assert(out.deep_view() + split_from(t@, sep, cur@) =~= split_chars(t@, sep));
    }
    while i < n
        invariant
            n == t@.len(),
            i <= n,
            split_chars(t@, sep) == out.deep_view() + split_from(t@.skip(i as int), sep, cur@),
        decreases n - i,
    {
        let ghost pre_rest = t@.skip(i as int);
        let ghost pre_out = out.deep_view();
        let ghost pre_cur = cur@;
        proof {
            assert(pre_rest[0] == t@[i as int]);
        }
        let c = t.get_char(i);
        if c == sep {
            let piece = chars_to_string(&cur);
            out.push(piece);
            cur = Vec::new();
            i += 1;
            proof {
                assert(out.deep_view() =~= pre_out.push(pre_cur));
                assert(cur@ =~= Seq::<char>::empty());
                assert(t@.skip(i as int) =~= pre_rest.skip(1));
                assert(split_from(pre_rest, sep, pre_cur) == seq![pre_cur] + split_from(
                    t@.skip(i as int),
                    sep,
                    cur@,
                ));
                assert(pre_out + (seq![pre_cur] + split_from(t@.skip(i as int), sep, cur@))
                    =~= out.deep_view() + split_from(t@.skip(i as int), sep, cur@));
            }
        } else {
            cur.push(c);
            i += 1;
            proof {
                assert(cur@ =~= pre_cur.push(pre_rest[0]));
                assert(t@.skip(i as int) =~= pre_rest.skip(1));
                assert(split_from(pre_rest, sep, pre_cur) == split_from(
                    t@.skip(i as int),
                    sep,
                    cur@,
                ));
            }
        }
    }
    proof {
        assert(t@.skip(n as int) =~= Seq::<char>::empty());
    }
    let last = chars_to_string(&cur);
    let ghost pre_out = out.deep_view();
    out.push(last);
    proof {
        assert(out.deep_view() =~= pre_out + seq![cur@]);
        assert(split_from(t@.skip(n as int), sep, cur@) == seq![cur@]);
    }
    out
}

} // verus!
