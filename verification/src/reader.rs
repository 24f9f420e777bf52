//! The core read-and-parse pipeline: classifying the outcome of one line
//! read and turning it into a parsed value or exactly one error.

use vstd::prelude::*;

use crate::error::InputError;
use crate::parse::LineParse;
use crate::trim::is_line_terminator;
use crate::trim::lemma_trim_restores_line;
use crate::trim::trim_line_terminators;
use crate::trim::trim_spec;

verus! {

/// A line with no terminator characters, followed by any run of terminator
/// characters, reaches the parser exactly as it was: every result that `T`'s
/// parser admits for the line, it admits for the fed input after trimming.
/// In particular, when `T`'s parser accepts the line, feeding the line plus a
/// terminator yields that same accepted value.
pub proof fn lemma_fed_line_parses_as_itself<T: LineParse>(
    s: Seq<char>,
    t: Seq<char>,
    r: Result<T, T::Err>,
)
    requires
        forall|i: int| 0 <= i < s.len() ==> !is_line_terminator(s[i]),
        forall|i: int| 0 <= i < t.len() ==> is_line_terminator(t[i]),
        T::parse_ensures(s, r),
    ensures
        T::parse_ensures(trim_spec(s + t), r),
{
    lemma_trim_restores_line(s, t);
}

/// Turns the outcome of one line read into the final result of the
/// read-and-parse operation.
///
/// `outcome` is what the underlying stream reported: an I/O error, or the
/// number of bytes obtained together with the line they form. The three
/// failures are mutually exclusive and total: an I/O failure yields `Io`,
/// zero bytes obtained yields `Eof`, and otherwise the line, stripped of its
/// trailing `'\r'` and `'\n'` characters, is handed to `T`'s parser, whose
/// rejection yields `Parse` carrying the parser's own error value.
pub fn parse_line_read<T: LineParse>(outcome: Result<(usize, String), std::io::Error>) -> (r:
    Result<T, InputError<T::Err>>)
    ensures
        match outcome {
            Err(e) => r == Result::<T, InputError<T::Err>>::Err(InputError::Io(e)),
            Ok((n, line)) => if n == 0 {
                r == Result::<T, InputError<T::Err>>::Err(InputError::Eof)
            } else {
                match r {
                    Ok(v) => T::parse_ensures(trim_spec(line@), Ok(v)),
                    Err(ie) => ie matches InputError::Parse(e) && T::parse_ensures(
                        trim_spec(line@),
                        Err(e),
                    ),
                }
            },
        },
{
    match outcome {
        Err(e) => Err(InputError::Io(e)),
        Ok((n, line)) => {
            if n == 0 {
                Err(InputError::Eof)
            } else {
                let trimmed = trim_line_terminators(line.as_str());
                match T::parse_line(trimmed) {
                    Ok(v) => Ok(v),
                    Err(e) => Err(InputError::Parse(e)),
                }
            }
        },
    }
}

} // verus!
