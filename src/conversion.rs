//! Molecule formats that a conversion reads and writes.
use vstd::prelude::*;

verus! {

/// A format a molecule is read from.
#[derive(Debug, PartialEq, Eq)]
#[non_exhaustive]
#[allow(non_camel_case_types)]
pub enum InputFormat {
    /// Canonical SMILES format
    can,
    /// Gaussian cube format
    cub,
    /// Gaussian cube format
    cube,
    /// DALTON output format
    dallog,
    /// DALTON input format
    dalmol,
    /// Gaussian formatted checkpoint file format
    fch,
    /// Gaussian formatted checkpoint file format
    fchk,
    /// Gaussian formatted checkpoint file format
    fck,
    /// Gaussian03 Output
    g03,
    /// Gaussian Output
    g09,
    /// Gaussian Output
    g16,
    /// Gaussian Output
    g92,
    /// Gaussian Output
    g94,
    /// Gaussian Output
    g98,
    /// Gaussian Output
    gal,
    /// Gaussian Z-Matrix Input
    gzmat,
    /// ORCA output format
    orca,
    /// SIESTA format
    siesta,
    /// SMILES format
    smi,
    /// SMILES format
    smiles,
    /// TurboMole Coordinate format
    tmol,
    /// XYZ cartesian coordinates format
    xyz,
}

impl InputFormat {
    /// The name the library knows the format by.
    pub open spec fn name(&self) -> Seq<char> {
        match self {
            InputFormat::can => "can"@,
            InputFormat::cub => "cub"@,
            InputFormat::cube => "cube"@,
            InputFormat::dallog => "dallog"@,
            InputFormat::dalmol => "dalmol"@,
            InputFormat::fch => "fch"@,
            InputFormat::fchk => "fchk"@,
            InputFormat::fck => "fck"@,
            InputFormat::g03 => "g03"@,
            InputFormat::g09 => "g09"@,
            InputFormat::g16 => "g16"@,
            InputFormat::g92 => "g92"@,
            InputFormat::g94 => "g94"@,
            InputFormat::g98 => "g98"@,
            InputFormat::gal => "gal"@,
            InputFormat::gzmat => "gzmat"@,
            InputFormat::orca => "orca"@,
            InputFormat::siesta => "siesta"@,
            InputFormat::smi => "smi"@,
            InputFormat::smiles => "smiles"@,
            InputFormat::tmol => "tmol"@,
            InputFormat::xyz => "xyz"@,
        }
    }

    /// The name the library knows the format by.
    pub fn as_str(&self) -> (r: &'static str)
        ensures
            r@ == self.name(),
    {
        match self {
            InputFormat::can => "can",
            InputFormat::cub => "cub",
            InputFormat::cube => "cube",
            InputFormat::dallog => "dallog",
            InputFormat::dalmol => "dalmol",
            InputFormat::fch => "fch",
            InputFormat::fchk => "fchk",
            InputFormat::fck => "fck",
            InputFormat::g03 => "g03",
            InputFormat::g09 => "g09",
            InputFormat::g16 => "g16",
            InputFormat::g92 => "g92",
            InputFormat::g94 => "g94",
            InputFormat::g98 => "g98",
            InputFormat::gal => "gal",
            InputFormat::gzmat => "gzmat",
            InputFormat::orca => "orca",
            InputFormat::siesta => "siesta",
            InputFormat::smi => "smi",
            InputFormat::smiles => "smiles",
            InputFormat::tmol => "tmol",
            InputFormat::xyz => "xyz",
        }
    }
}

/// A format a molecule is written in.
#[derive(Debug, PartialEq, Eq)]
#[non_exhaustive]
#[allow(non_camel_case_types)]
pub enum OutputFormat {
    /// Canonical SMILES format
    can,
    /// Gaussian cube format
    cub,
    /// Gaussian cube format
    cube,
    /// DALTON output format
    dallog,
    /// DALTON input format
    dalmol,
    /// Gaussian formatted checkpoint file format
    fch,
    /// Gaussian formatted checkpoint file format
    fchk,
    /// Gaussian formatted checkpoint file format
    fck,
    /// Gaussian03 Output
    g03,
    /// Gaussian Output
    g09,
    /// Gaussian Output
    g16,
    /// Gaussian Output
    g92,
    /// Gaussian Output
    g94,
    /// Gaussian Output
    g98,
    /// Gaussian Output
    gal,
    /// Gaussian Z-Matrix Input
    gzmat,
    /// ORCA output format
    orca,
    /// SIESTA format
    siesta,
    /// SMILES format
    smi,
    /// SMILES format
    smiles,
    /// TurboMole Coordinate format
    tmol,
    /// XYZ cartesian coordinates format
    xyz,
}

impl OutputFormat {
    /// The name the library knows the format by.
    pub open spec fn name(&self) -> Seq<char> {
        match self {
            OutputFormat::can => "can"@,
            OutputFormat::cub => "cub"@,
            OutputFormat::cube => "cube"@,
            OutputFormat::dallog => "dallog"@,
            OutputFormat::dalmol => "dalmol"@,
            OutputFormat::fch => "fch"@,
            OutputFormat::fchk => "fchk"@,
            OutputFormat::fck => "fck"@,
            OutputFormat::g03 => "g03"@,
            OutputFormat::g09 => "g09"@,
            OutputFormat::g16 => "g16"@,
            OutputFormat::g92 => "g92"@,
            OutputFormat::g94 => "g94"@,
            OutputFormat::g98 => "g98"@,
            OutputFormat::gal => "gal"@,
            OutputFormat::gzmat => "gzmat"@,
            OutputFormat::orca => "orca"@,
            OutputFormat::siesta => "siesta"@,
            OutputFormat::smi => "smi"@,
            OutputFormat::smiles => "smiles"@,
            OutputFormat::tmol => "tmol"@,
            OutputFormat::xyz => "xyz"@,
        }
    }

    /// The name the library knows the format by.
    pub fn as_str(&self) -> (r: &'static str)
        ensures
            r@ == self.name(),
    {
        match self {
            OutputFormat::can => "can",
            OutputFormat::cub => "cub",
            OutputFormat::cube => "cube",
            OutputFormat::dallog => "dallog",
            OutputFormat::dalmol => "dalmol",
            OutputFormat::fch => "fch",
            OutputFormat::fchk => "fchk",
            OutputFormat::fck => "fck",
            OutputFormat::g03 => "g03",
            OutputFormat::g09 => "g09",
            OutputFormat::g16 => "g16",
            OutputFormat::g92 => "g92",
            OutputFormat::g94 => "g94",
            OutputFormat::g98 => "g98",
            OutputFormat::gal => "gal",
            OutputFormat::gzmat => "gzmat",
            OutputFormat::orca => "orca",
            OutputFormat::siesta => "siesta",
            OutputFormat::smi => "smi",
            OutputFormat::smiles => "smiles",
            OutputFormat::tmol => "tmol",
            OutputFormat::xyz => "xyz",
        }
    }
}

} // verus!
