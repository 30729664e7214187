//! The input source boundary: something that produces raw text lines. What
//! a reader returns depends on the world outside the library, so the trait
//! promises nothing about the lines; the processing stages state exactly
//! what they make of whatever lines arrive.

use vstd::prelude::*;

verus! {

/// A forward-only source of raw text lines.
pub trait InputReader {
    /// Produces the next line of the source.
    fn next_line(&mut self) -> String;

    /// Produces every line of the source, in order.
    fn read_all(&self) -> Vec<String>;
}

/// Names a file on the local filesystem whose lines are to be read. The
/// reading itself is input/output and lives with the surrounding
/// application; this type only carries the path.
pub struct LocalInputReader {
    filepath: String,
}

impl LocalInputReader {
    /// The path the reader was created with.
    pub closed spec fn filepath_spec(&self) -> Seq<char> {
        self.filepath@
    }

    /// Records the path of the file to read.
    pub fn new(filepath: &str) -> (r: LocalInputReader)
        ensures
            r.filepath_spec() == filepath@,
    {
        LocalInputReader { filepath: filepath.to_owned() }
    }

    /// The recorded path.
    pub fn filepath(&self) -> (r: &str)
        ensures
            r@ == self.filepath_spec(),
    {
        self.filepath.as_str()
    }
}

} // verus!
