//! The errors of a derivation.

use vstd::prelude::*;

verus! {

/// Why one procedure's annotations were refused.
#[derive(Clone, Copy, Debug, PartialEq, Eq, Structural)]
pub enum AttributeError {
    /// The annotation at position `attr` of the procedure's annotation list
    /// does not have the expected shape, or repeats an earlier `rpc`
    /// annotation of the same procedure.
    Malformed { attr: usize },
}

/// Why the registrations of an interface were refused.
#[derive(Clone, Copy, Debug, PartialEq, Eq, Structural)]
pub enum RegistrationError {
    /// The procedure at position `item` of the interface exposes a name that
    /// an earlier annotated procedure already exposes.
    DuplicateName { item: usize },
}

/// Why a derivation was aborted. Nothing is emitted together with an error.
#[derive(Clone, Copy, Debug, PartialEq, Eq, Structural)]
pub enum Error {
    /// The procedure at position `item` of the interface carries a refused
    /// annotation.
    Attribute { item: usize, error: AttributeError },
    /// Two annotated procedures collide.
    Registration(RegistrationError),
    /// The implementation block implements no interface.
    NotAnInterfaceImplementation,
    /// The implemented interface is not named by a single plain identifier.
    UnresolvedInterface,
    /// The declaration is neither an interface nor an implementation.
    UnsupportedTarget,
}

impl Error {
    /// The text of the diagnostic, as a sequence of characters.
    pub open spec fn message_spec(self) -> Seq<char> {
        match self {
            Error::Attribute { .. } => "malformed rpc annotation"@,
            Error::Registration(_) => "two rpc procedures expose the same name"@,
            Error::NotAnInterfaceImplementation => "the implementation block does not implement an interface"@,
            Error::UnresolvedInterface => "the implemented interface must be named by a single identifier"@,
            Error::UnsupportedTarget => "The #[document_rpc] custom attribute only works with trait and impl declarations"@,
        }
    }

    /// The text of the diagnostic.
    pub fn message(&self) -> (text: String)
        ensures
            text@ == self.message_spec(),
    {
        match self {
            Error::Attribute { .. } => "malformed rpc annotation".to_owned(),
            Error::Registration(_) => "two rpc procedures expose the same name".to_owned(),
            Error::NotAnInterfaceImplementation => "the implementation block does not implement an interface".to_owned(),
            Error::UnresolvedInterface => "the implemented interface must be named by a single identifier".to_owned(),
            Error::UnsupportedTarget => "The #[document_rpc] custom attribute only works with trait and impl declarations".to_owned(),
        }
    }
}

} // verus!
