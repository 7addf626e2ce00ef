//! The operating system and architecture a client reports.
use vstd::prelude::*;

verus! {

/// The operating system's family name and the processor architecture.
#[derive(Debug, Clone)]
pub struct Info {
    os_type: String,
    version: String,
}

impl Info {
    pub closed spec fn spec_os_type(&self) -> Seq<char> {
        self.os_type@
    }

    pub closed spec fn spec_version(&self) -> Seq<char> {
        self.version@
    }

    /// The description of a system of family `os_type` on architecture
    /// `version`.
    pub fn new(os_type: String, version: String) -> (r: Info)
        ensures
            r.spec_os_type() == os_type@,
            r.spec_version() == version@,
    {
        Info { os_type, version }
    }

    pub fn os_type(&self) -> (r: &str)
        ensures
            r@ == self.spec_os_type(),
    {
        self.os_type.as_str()
    }

    pub fn version(&self) -> (r: &str)
        ensures
            r@ == self.spec_version(),
    {
        self.version.as_str()
    }
}

} // verus!
