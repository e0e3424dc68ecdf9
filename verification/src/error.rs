//! The error a serializer can report.
use vstd::prelude::*;
use vstd::string::StringExecFns;

verus! {

/// `std::io::Error` is carried through the library as an opaque value.
#[verifier::external_type_specification]
#[verifier::external_body]
pub struct ExIoError(std::io::Error);

/// Errors reported while serializing.
#[derive(Debug)]
pub enum Error {
    /// The value could not be serialized; the text says why.
    Serialization(String),
    /// Reading the data to serialize failed.
    Io(std::io::Error),
}

/// Calls `<std::io::Error as ToString>::to_string`: the error's own
/// description. Its text depends on the operating system, so nothing is
/// stated of it.
#[verifier::external_body]
fn io_error_text(e: &std::io::Error) -> String {
    e.to_string()
}

impl Error {
    /// The error's message: `serialization error: ` or `io error: `, then the
    /// detail.
    pub fn to_string(&self) -> (s: String)
        ensures
            self matches Error::Serialization(m) ==> s@ == "serialization error: "@ + m@,
            self is Io ==> "io error: "@.is_prefix_of(s@),
    {
        match self {
            Error::Serialization(m) => {
                let mut s = String::from_str("serialization error: ");
                s.append(m.as_str());
                s
            },
            Error::Io(e) => {
                let mut s = String::from_str("io error: ");
                let ghost head = s@;
                let detail = io_error_text(e);
                s.append(detail.as_str());
                assert(s@.subrange(0, head.len() as int) =~= head);
                s
            },
        }
    }
}

} // verus!
