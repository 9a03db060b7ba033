//! Force fields and optimisation methods.
use vstd::prelude::*;

verus! {

/// A force field of the library.
#[derive(Debug, PartialEq, Eq)]
pub enum ForceFieldVariant {
    /// Generalized Amber Force Field
    GAFF,
    /// Ghemical
    Ghemical,
    /// Merck Molecular Force Field
    MMFF94,
    /// Merck Molecular Force Field (static variant)
    MMFF94s,
    /// Universal Force Field
    UFF,
}

impl ForceFieldVariant {
    /// The name the library knows the force field by.
    pub open spec fn name(&self) -> Seq<char> {
        match self {
            ForceFieldVariant::GAFF => "gaff"@,
            ForceFieldVariant::Ghemical => "ghemical"@,
            ForceFieldVariant::MMFF94 => "mmff94"@,
            ForceFieldVariant::MMFF94s => "mmff94s"@,
            ForceFieldVariant::UFF => "uff"@,
        }
    }

    /// The name the library knows the force field by.
    pub fn as_str(&self) -> (r: String)
        ensures
            r@ == self.name(),
    {
        let ff_name = match self {
            ForceFieldVariant::GAFF => "gaff",
            ForceFieldVariant::Ghemical => "ghemical",
            ForceFieldVariant::MMFF94 => "mmff94",
            ForceFieldVariant::MMFF94s => "mmff94s",
            ForceFieldVariant::UFF => "uff",
        };
        String::from_str(ff_name)
    }
}

/// How a structure is optimised.
#[derive(Debug, PartialEq, Eq)]
pub enum Method {
    ConjugateGradient,
    SteepestDescent,
}

} // verus!
