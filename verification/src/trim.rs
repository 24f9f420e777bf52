//! Stripping trailing line terminators from a line that was just read.

use vstd::prelude::*;
use vstd::string::StrSliceExecFns;

verus! {

/// The two characters that may end a line read from a line-buffered source.
pub open spec fn is_line_terminator(c: char) -> bool {
    c == '\r' || c == '\n'
}

/// The line with every trailing `'\r'` and `'\n'` removed; everything before
/// the trailing run of terminators, interior whitespace included, is kept.
pub open spec fn trim_spec(s: Seq<char>) -> Seq<char>
    decreases s.len(),
{
    if s.len() > 0 && is_line_terminator(s.last()) {
        trim_spec(s.drop_last())
    } else {
        s
    }
}

/// Trimming removes only trailing terminators: the result is a prefix of the
/// input, every removed character is a terminator, and the result does not
/// itself end in a terminator.
pub proof fn lemma_trim_is_clean_prefix(s: Seq<char>)
    ensures
        trim_spec(s).len() <= s.len(),
        trim_spec(s) == s.take(trim_spec(s).len() as int),
        forall|i: int| trim_spec(s).len() <= i < s.len() ==> is_line_terminator(s[i]),
        trim_spec(s).len() > 0 ==> !is_line_terminator(trim_spec(s).last()),
    decreases s.len(),
{
    if s.len() > 0 && is_line_terminator(s.last()) {
        lemma_trim_is_clean_prefix(s.drop_last());
        assert(s.drop_last() =~= s.take(s.len() - 1));
        assert(s.drop_last().take(trim_spec(s).len() as int) =~= s.take(
            trim_spec(s).len() as int,
        ));
        assert forall|i: int| trim_spec(s).len() <= i < s.len() implies is_line_terminator(
            s[i],
        ) by {
            if i < s.len() - 1 {
                assert(is_line_terminator(s.drop_last()[i]));
                assert(s.drop_last()[i] == s[i]);
            } else {
                assert(s[i] == s.last());
            }
        }
    } else {
        assert(s =~= s.take(s.len() as int));
    }
}

/// A line with no terminator characters, followed by any run of terminator
/// characters, trims back to exactly the original line.
pub proof fn lemma_trim_restores_line(s: Seq<char>, t: Seq<char>)
    requires
        forall|i: int| 0 <= i < s.len() ==> !is_line_terminator(s[i]),
        forall|i: int| 0 <= i < t.len() ==> is_line_terminator(t[i]),
    ensures
        trim_spec(s + t) == s,
    decreases t.len(),
{
    if t.len() == 0 {
        assert(s + t =~= s);
        if s.len() > 0 {
            assert(!is_line_terminator(s.last()));
        }
    } else {
        assert((s + t).last() == t.last());
        assert((s + t).drop_last() =~= s + t.drop_last());
        lemma_trim_restores_line(s, t.drop_last());
    }
}

/// Returns the line with all trailing `'\r'` and `'\n'` characters removed,
/// leaving everything else, interior whitespace included, unchanged.
pub fn trim_line_terminators(line: &str) -> (r: &str)
    ensures
        r@ == trim_spec(line@),
{
    let len = line.unicode_len();
    let mut k: usize = len;
    proof {
        assert(line@.take(line@.len() as int) =~= line@);
    }
    loop
        invariant
            k <= line@.len(),
            trim_spec(line@) == trim_spec(line@.take(k as int)),
        ensures
            k <= line@.len(),
            trim_spec(line@) == line@.take(k as int),
        decreases k,
    {
        if k == 0 {
            proof {
                assert(line@.take(0) =~= Seq::<char>::empty());
            }
            break ;
        }
        let c = line.get_char(k - 1);
        if c == '\r' || c == '\n' {
            proof {
                let pre = line@.take(k as int);
                assert(pre.last() == line@[k - 1]);
                assert(pre.drop_last() =~= line@.take(k - 1));
            }
            k = k - 1;
        } else {
            proof {
                let pre = line@.take(k as int);
                assert(pre.last() == line@[k - 1]);
                assert(!is_line_terminator(pre.last()));
            }
            break ;
        }
    }
    let r = line.substring_char(0, k);
    proof {
        assert(r@ =~= line@.take(k as int));
    }
    r
}

} // verus!
