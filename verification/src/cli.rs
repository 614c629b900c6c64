//! The conversion backends that the command line offers.
use vstd::prelude::*;

verus! {

/// The conversion backend that turns a scene into a U3D file.
#[derive(Copy, Clone, Debug, PartialEq, Eq, Structural)]
pub enum Backend {
    /// Write an IDTF document and hand it to Intel's IDTFConverter.
    Idtf,
}

/// The name under which a backend is selected on the command line.
pub open spec fn backend_name(backend: Backend) -> Seq<char> {
    match backend {
        Backend::Idtf => "idtf"@,
    }
}

impl Backend {
    /// The command-line name of the backend.
    pub fn as_str(self) -> (name: &'static str)
        ensures
            name@ == backend_name(self),
    {
        match self {
            Backend::Idtf => "idtf",
        }
    }
}

} // verus!
