//! The task that writes a file on the host.

use vstd::prelude::*;

verus! {

/// Writes the file `source` to `dest` on the host.
#[derive(Debug, Clone, PartialEq, Eq)]
pub struct WriteTask {
    source: String,
    dest: String,
}

impl WriteTask {
    /// A task that writes `source` to `dest`.
    pub fn new(source: String, dest: String) -> (task: WriteTask)
        ensures
            task.spec_source() == source@,
            task.spec_dest() == dest@,
    {
        WriteTask { source, dest }
    }

    /// The file that is written.
    pub closed spec fn spec_source(&self) -> Seq<char> {
        self.source@
    }

    /// Where it is written to.
    pub closed spec fn spec_dest(&self) -> Seq<char> {
        self.dest@
    }

    /// The file that is written.
    pub fn source(&self) -> (s: &str)
        ensures
            s@ == self.spec_source(),
    {
        self.source.as_str()
    }

    /// Where it is written to.
    pub fn dest(&self) -> (s: &str)
        ensures
            s@ == self.spec_dest(),
    {
        self.dest.as_str()
    }
}

} // verus!
