use vstd::prelude::*;

verus! {

/// A side of a reaction equation.
#[derive(Clone, Copy, Debug, PartialEq, Eq, Structural)]
pub enum Side {
    Lhs,
    Rhs,
}

/// Why a dataset cannot be rendered.
#[derive(Debug)]
pub enum ConvertError {
    /// An elastic or effective record (by its id) has no mass ratio.
    MissingMassRatio(String),
    /// A reaction has no species other than electrons on one side.
    ZeroSignificantSpecies(Side),
    /// A reference key is absent from the reference list.
    UnresolvedReference(String),
    /// A reaction names a state key that the state list lacks.
    UnknownState(String),
}

impl ConvertError {
    /// A sentence that describes the error.
    pub fn message(&self) -> (r: String)
        ensures
            r@ == match self {
                ConvertError::MissingMassRatio(id) => "Missing mass ratio for Elastic or Effective cross section: "@
                    + id@ + "."@,
                ConvertError::ZeroSignificantSpecies(Side::Lhs) => "Zero significant species found on lhs of reaction."@,
                ConvertError::ZeroSignificantSpecies(Side::Rhs) => "Zero significant species found on rhs of reaction."@,
                ConvertError::UnresolvedReference(k) => "Unknown reference: "@ + k@ + "."@,
                ConvertError::UnknownState(k) => "Unknown state: "@ + k@ + "."@,
            },
    {
        match self {
            ConvertError::MissingMassRatio(id) => {
                let mut m = String::from_str(
                    "Missing mass ratio for Elastic or Effective cross section: ",
                );
                m.append(id.as_str());
                m.append(".");
                m
            },
            ConvertError::ZeroSignificantSpecies(Side::Lhs) => String::from_str(
                "Zero significant species found on lhs of reaction.",
            ),
            ConvertError::ZeroSignificantSpecies(Side::Rhs) => String::from_str(
                "Zero significant species found on rhs of reaction.",
            ),
            ConvertError::UnresolvedReference(k) => {
                let mut m = String::from_str("Unknown reference: ");
                m.append(k.as_str());
                m.append(".");
                m
            },
            ConvertError::UnknownState(k) => {
                let mut m = String::from_str("Unknown state: ");
                m.append(k.as_str());
                m.append(".");
                m
            },
        }
    }
}

} // verus!
