//! Molecule data formats for reading and writing; not every format of the library is listed.
use vstd::prelude::*;

verus! {

/// A format a molecule is read from.
#[derive(Debug, PartialEq, Eq)]
#[non_exhaustive]
#[allow(non_camel_case_types)]
pub enum InputFormat {
    /// Canonical SMILES format
    can,
    /// Gaussian cube format
    cub,
    /// Gaussian cube format
    cube,
    /// DALTON output format
    dallog,
    /// DALTON input format
    dalmol,
    /// Gaussian formatted checkpoint file format
    fch,
    /// Gaussian formatted checkpoint file format
    fchk,
    /// Gaussian formatted checkpoint file format
    fck,
    /// Gaussian01 Output
    g01,
    /// Gaussian Output
    g7,
    /// Gaussian Output
    g14,
    /// Gaussian Output
    g90,
    /// Gaussian Output
    g92,
    /// Gaussian Output
    g96,
    /// Gaussian Output
    gal,
    /// Gaussian Z-Matrix Input
    gzmat,
    /// ORCA output format
    orca,
    /// SIESTA format
    siesta,
    /// SMILES format
    smi,
    /// SMILES format
    smiles,
    /// TurboMole Coordinate format
    tmol,
    /// XYZ cartesian coordinates format
    xyz,
    /// SDF format
    sd,
    sdf,
    /// PDB format
    pdb,
}

impl InputFormat {
    /// The name the library knows the format by.
    pub open spec fn name(&self) -> Seq<char> {
        match self {
            InputFormat::can => "can"@,
            InputFormat::cub => "cub"@,
            InputFormat::cube => "cube"@,
            InputFormat::dallog => "dallog"@,
            InputFormat::dalmol => "dalmol"@,
            InputFormat::fch => "fch"@,
            InputFormat::fchk => "fchk"@,
            InputFormat::fck => "fck"@,
            InputFormat::g01 => "g01"@,
            InputFormat::g7 => "g7"@,
            InputFormat::g14 => "g14"@,
            InputFormat::g90 => "g90"@,
            InputFormat::g92 => "g92"@,
            InputFormat::g96 => "g96"@,
            InputFormat::gal => "gal"@,
            InputFormat::gzmat => "gzmat"@,
            InputFormat::orca => "orca"@,
            InputFormat::siesta => "siesta"@,
            InputFormat::smi => "smi"@,
            InputFormat::smiles => "smiles"@,
            InputFormat::tmol => "tmol"@,
            InputFormat::xyz => "xyz"@,
            InputFormat::sd => "sd"@,
            InputFormat::sdf => "sdf"@,
            InputFormat::pdb => "pdb"@,
        }
    }

    /// The name the library knows the format by.
    pub fn as_str(&self) -> (r: &'static str)
        ensures
            r@ == self.name(),
    {
        match self {
            InputFormat::can => "can",
            InputFormat::cub => "cub",
            InputFormat::cube => "cube",
            InputFormat::dallog => "dallog",
            InputFormat::dalmol => "dalmol",
            InputFormat::fch => "fch",
            InputFormat::fchk => "fchk",
            InputFormat::fck => "fck",
            InputFormat::g01 => "g01",
            InputFormat::g7 => "g7",
            InputFormat::g14 => "g14",
            InputFormat::g90 => "g90",
            InputFormat::g92 => "g92",
            InputFormat::g96 => "g96",
            InputFormat::gal => "gal",
            InputFormat::gzmat => "gzmat",
            InputFormat::orca => "orca",
            InputFormat::siesta => "siesta",
            InputFormat::smi => "smi",
            InputFormat::smiles => "smiles",
            InputFormat::tmol => "tmol",
            InputFormat::xyz => "xyz",
            InputFormat::sd => "sd",
            InputFormat::sdf => "sdf",
            InputFormat::pdb => "pdb",
        }
    }
}

/// A format a molecule is written in.
#[derive(Debug, PartialEq, Eq)]
#[non_exhaustive]
#[allow(non_camel_case_types)]
pub enum OutputFormat {
    /// Gaussian Input
    com,
    /// Gaussian cube format
    cub,
    /// Gaussian cube format
    cube,
    /// DALTON input format
    dalmol,
    /// SMILES FIX format
    fix,
    /// Gaussian Input
    gau,
    /// Gaussian Input
    gjc,
    /// Gaussian Input
    gjf,
    /// Gaussian Z-Matrix Input
    gzmat,
    /// ORCA input format
    orcainp,
    /// SMILES format
    smi,
    /// SMILES format
    smiles,
    /// TurboMole Coordinate format
    tmol,
    /// XYZ cartesian coordinates format
    xyz,
    /// SDF format
    sd,
    sdf,
}

impl OutputFormat {
    /// The name the library knows the format by.
    pub open spec fn name(&self) -> Seq<char> {
        match self {
            OutputFormat::com => "com"@,
            OutputFormat::cub => "cub"@,
            OutputFormat::cube => "cube"@,
            OutputFormat::dalmol => "dalmol"@,
            OutputFormat::fix => "fix"@,
            OutputFormat::gau => "gau"@,
            OutputFormat::gjc => "gjc"@,
            OutputFormat::gjf => "gjf"@,
            OutputFormat::gzmat => "gzmat"@,
            OutputFormat::orcainp => "orcainp"@,
            OutputFormat::smi => "smi"@,
            OutputFormat::smiles => "smiles"@,
            OutputFormat::tmol => "tmol"@,
            OutputFormat::xyz => "xyz"@,
            OutputFormat::sd => "sd"@,
            OutputFormat::sdf => "sdf"@,
        }
    }

    /// The name the library knows the format by.
    pub fn as_str(&self) -> (r: &'static str)
        ensures
            r@ == self.name(),
    {
        match self {
            OutputFormat::com => "com",
            OutputFormat::cub => "cub",
            OutputFormat::cube => "cube",
            OutputFormat::dalmol => "dalmol",
            OutputFormat::fix => "fix",
            OutputFormat::gau => "gau",
            OutputFormat::gjc => "gjc",
            OutputFormat::gjf => "gjf",
            OutputFormat::gzmat => "gzmat",
            OutputFormat::orcainp => "orcainp",
            OutputFormat::smi => "smi",
            OutputFormat::smiles => "smiles",
            OutputFormat::tmol => "tmol",
            OutputFormat::xyz => "xyz",
            OutputFormat::sd => "sd",
            OutputFormat::sdf => "sdf",
        }
    }
}

} // verus!
