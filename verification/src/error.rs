//! The unified error type: exactly one of an I/O failure, a parse failure,
//! or end of stream.

use vstd::prelude::*;
use vstd::string::to_string_from_display_ensures;
use vstd::string::StringExecFns;

verus! {

/// `std::io::Error`, carried through opaquely: the I/O failure reported by the
/// underlying stream.
#[verifier::external_type_specification]
#[verifier::external_body]
pub struct ExIoError(std::io::Error);

/// A unified error indicating either an I/O error, a parse error, or EOF.
/// Exactly one case is populated per failing operation.
#[derive(Debug)]
pub enum InputError<E> {
    /// An I/O error occurred (e.g., closed stdin).
    Io(std::io::Error),
    /// Failed to parse the input into the desired type.
    Parse(E),
    /// EOF encountered (zero bytes were available).
    Eof,
}

impl<E: std::fmt::Display> InputError<E> {
    /// A human-readable message: the kind of failure, then the underlying
    /// error's own message where one exists.
    pub fn message(&self) -> (r: String)
        ensures
            self matches InputError::Io(e) ==> (exists|d: String|
                to_string_from_display_ensures::<std::io::Error>(e, d) && r@ == "I/O error: "@
                    + d@),
            self matches InputError::Parse(e) ==> (exists|d: String|
                to_string_from_display_ensures::<E>(e, d) && r@ == "Parse error: "@ + d@),
            self is Eof ==> r@ == "EOF encountered"@,
    {
        match self {
            InputError::Io(e) => {
                let detail = e.to_string();
                let r = String::from_str("I/O error: ").concat(detail.as_str());
                proof {
                    assert(to_string_from_display_ensures::<std::io::Error>(e, detail) && r@
                        == "I/O error: "@ + detail@);
                }
                r
            },
            InputError::Parse(e) => {
                let detail = e.to_string();
                let r = String::from_str("Parse error: ").concat(detail.as_str());
                proof {
                    assert(to_string_from_display_ensures::<E>(e, detail) && r@ == "Parse error: "@
                        + detail@);
                }
                r
            },
            InputError::Eof => String::from_str("EOF encountered"),
        }
    }
}

} // verus!
