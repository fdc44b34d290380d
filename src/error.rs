use vstd::prelude::*;

verus! {

/// The failures that a run reports upward.
#[derive(Clone, Copy, Debug, PartialEq, Eq, Structural)]
pub enum Error {
    /// The target could not be read as a raster image.
    ModelError,
    /// An image could not be written out.
    WriteError,
}

impl Error {
    /// A short description of the failure.
    pub fn message(&self) -> (r: &'static str)
        ensures
            *self == Error::ModelError ==> r@ == "Model Error"@,
            *self == Error::WriteError ==> r@ == "Write Error"@,
    {
        match self {
            Error::ModelError => "Model Error",
            Error::WriteError => "Write Error",
        }
    }
}

} // verus!
