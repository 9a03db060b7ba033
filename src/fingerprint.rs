//! Fingerprint kinds and the generator that fingerprints molecules given as SMILES.
use vstd::prelude::*;

verus! {

/// A fingerprint algorithm and the number of bits it folds to.
#[derive(Clone, Debug, PartialEq, Eq)]
pub enum Kind {
    FP2 { nbits: u32 },
    FP3 { nbits: u32 },
    FP4 { nbits: u32 },
    ECFP0 { nbits: u32 },
    ECFP2 { nbits: u32 },
    ECFP4 { nbits: u32 },
    ECFP6 { nbits: u32 },
    ECFP8 { nbits: u32 },
    ECFP10 { nbits: u32 },
}

impl Kind {
    /// The name the fingerprint engine knows the algorithm by.
    pub open spec fn name(&self) -> Seq<char> {
        match self {
            Kind::FP2 { .. } => "FP2"@,
            Kind::FP3 { .. } => "FP3"@,
            Kind::FP4 { .. } => "FP4"@,
            Kind::ECFP0 { .. } => "ECFP0"@,
            Kind::ECFP2 { .. } => "ECFP2"@,
            Kind::ECFP4 { .. } => "ECFP4"@,
            Kind::ECFP6 { .. } => "ECFP6"@,
            Kind::ECFP8 { .. } => "ECFP8"@,
            Kind::ECFP10 { .. } => "ECFP10"@,
        }
    }

    /// The number of bits asked for.
    pub open spec fn nbits(&self) -> u32 {
        match self {
            Kind::FP2 { nbits } => *nbits,
            Kind::FP3 { nbits } => *nbits,
            Kind::FP4 { nbits } => *nbits,
            Kind::ECFP0 { nbits } => *nbits,
            Kind::ECFP2 { nbits } => *nbits,
            Kind::ECFP4 { nbits } => *nbits,
            Kind::ECFP6 { nbits } => *nbits,
            Kind::ECFP8 { nbits } => *nbits,
            Kind::ECFP10 { nbits } => *nbits,
        }
    }

    /// The name the fingerprint engine knows the algorithm by.
    pub fn as_str(&self) -> (r: String)
        ensures
            r@ == self.name(),
    {
        let fp_name = match self {
            Kind::FP2 { .. } => "FP2",
            Kind::FP3 { .. } => "FP3",
            Kind::FP4 { .. } => "FP4",
            Kind::ECFP0 { .. } => "ECFP0",
            Kind::ECFP2 { .. } => "ECFP2",
            Kind::ECFP4 { .. } => "ECFP4",
            Kind::ECFP6 { .. } => "ECFP6",
            Kind::ECFP8 { .. } => "ECFP8",
            Kind::ECFP10 { .. } => "ECFP10",
        };
        String::from_str(fp_name)
    }

    /// The number of bits asked for.
    pub fn get_nbits(&self) -> (r: &u32)
        ensures
            *r == self.nbits(),
    {
        match self {
            Kind::FP2 { nbits } => nbits,
            Kind::FP3 { nbits } => nbits,
            Kind::FP4 { nbits } => nbits,
            Kind::ECFP0 { nbits } => nbits,
            Kind::ECFP2 { nbits } => nbits,
            Kind::ECFP4 { nbits } => nbits,
            Kind::ECFP6 { nbits } => nbits,
            Kind::ECFP8 { nbits } => nbits,
            Kind::ECFP10 { nbits } => nbits,
        }
    }
}

/// Fingerprints molecules with one kind of fingerprint.
pub struct FingerprintGenerator {
    kind: Kind,
}

impl FingerprintGenerator {
    /// The kind of fingerprint this generator computes.
    pub closed spec fn kind(&self) -> Kind {
        self.kind
    }

    /// A generator of fingerprints of `kind`.
    pub fn new(kind: Kind) -> (r: Self)
        ensures
            r.kind() == kind,
    {
        Self { kind }
    }

    /// The fingerprint of each SMILES string of `smiles_vec`, in order: `fingerprint`
    /// is the engine, called once per string with this generator's kind.
    pub fn get_fingerprint_for_smiles_vec<F: Fn(&String, &Kind) -> Vec<u32>>(
        &self,
        smiles_vec: &Vec<String>,
        fingerprint: F,
    ) -> (r: Vec<Vec<u32>>)
        requires
            forall|i: int| 0 <= i < smiles_vec.len() ==> fingerprint.requires((#[trigger] &smiles_vec@[i], &self.kind())),
        ensures
            r.len() == smiles_vec.len(),
            forall|i: int|
                0 <= i < smiles_vec.len() ==> fingerprint.ensures(
                    (&smiles_vec@[i], &self.kind()),
                    #[trigger] r@[i],
                ),
    {
        let mut r: Vec<Vec<u32>> = Vec::new();
        let mut i: usize = 0;
        while i < smiles_vec.len()
            invariant
                i <= smiles_vec.len(),
                r.len() == i,
                forall|j: int| 0 <= j < smiles_vec.len() ==> fingerprint.requires((#[trigger] &smiles_vec@[j], &self.kind())),
                forall|j: int| 0 <= j < i ==> fingerprint.ensures((&smiles_vec@[j], &self.kind()), #[trigger] r@[j]),
            decreases smiles_vec.len() - i,
        {
            let fp = fingerprint(&smiles_vec[i], &self.kind);
            r.push(fp);
            i += 1;
        }
        r
    }
}

} // verus!
