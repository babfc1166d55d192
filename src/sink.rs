//! Where command lines go.

use vstd::prelude::*;
use crate::text::push_text;

verus! {

#[verifier::external_type_specification]
#[verifier::external_body]
pub struct ExIoError(std::io::Error);

/// An append-only destination for text: the process's standard output in a
/// program, a buffer in a test.
pub trait Sink {
    /// Writes `s` at the end of the sink.
    fn write_str(&mut self, s: &str) -> Result<(), std::io::Error>;
}

/// A `String` collects what is written to it and never fails.
impl Sink for String {
    fn write_str(&mut self, s: &str) -> (r: Result<(), std::io::Error>) {
        push_text(self, s);
        Ok(())
    }
}

} // verus!
