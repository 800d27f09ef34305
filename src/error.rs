//! The errors of the XML writer.

use vstd::prelude::*;

verus! {

/// Things that may go wrong while writing XML.
#[non_exhaustive]
#[derive(Debug, Clone, Copy, PartialEq, Eq)]
pub enum Error {
    /// Closing an element while none is open.
    CloseElement,
    /// Closing a namespaced element without a recorded namespace.
    CloseNamespace,
    /// Declaring a namespace while no start tag is open.
    OpenNamespaceWithoutElement,
    /// Writing an attribute while no start tag is open.
    WriteWithoutElement,
    /// The sink accepted no more bytes.
    WriteAllEof,
    /// The written bytes are not valid UTF-8.
    ParsingUtf8,
}

impl Error {
    /// A sentence that says what went wrong.
    pub fn message(&self) -> (r: &'static str)
        ensures
            *self == Error::CloseElement ==> r@ == "attempted to close 'elem', when none was open"@,
            *self == Error::CloseNamespace ==> r@
                == "attempted to close namespaced 'elem' without corresponding open namespace"@,
            *self == Error::OpenNamespaceWithoutElement ==> r@
                == "attempted to write namespace declaration to 'elem', when no 'elem' was opened"@,
            *self == Error::WriteWithoutElement ==> r@
                == "attempted to write 'attr' to 'elem', when no 'elem' was opened"@,
            *self == Error::WriteAllEof ==> r@ == "failed to write buffer"@,
            *self == Error::ParsingUtf8 ==> r@ == "failed parsing buffer as UTF8"@,
    {
        match self {
            Error::CloseElement => "attempted to close 'elem', when none was open",
            Error::CloseNamespace => "attempted to close namespaced 'elem' without corresponding open namespace",
            Error::OpenNamespaceWithoutElement => "attempted to write namespace declaration to 'elem', when no 'elem' was opened",
            Error::WriteWithoutElement => "attempted to write 'attr' to 'elem', when no 'elem' was opened",
            Error::WriteAllEof => "failed to write buffer",
            Error::ParsingUtf8 => "failed parsing buffer as UTF8",
        }
    }
}

} // verus!
