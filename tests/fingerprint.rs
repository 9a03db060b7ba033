use openbabel::conversion;
use openbabel::fingerprint::{FingerprintGenerator, Kind};
use openbabel::forcefields::ForceFieldVariant;
use openbabel::io::formats::{InputFormat, OutputFormat};
use openbabel::io::StringForMol;

/// Stands in for the native fingerprint engine, which is not linked into these tests:
/// a fingerprint of `nbits` bits, as 32-bit words, all clear.
fn blank_fingerprint(_smiles: &String, kind: &Kind) -> Vec<u32> {
    vec![0u32; (*kind.get_nbits() / 32) as usize]
}

#[test]
fn test_get_fp_for_smiles_vec() {
    let smiles_1 = String::from("CCNCC");
    let smiles_2 = String::from("c1ccccc1");
    let smiles_vec = vec![smiles_1, smiles_2];
    for fpk in vec![
        Kind::FP2 { nbits: 4096 },
        Kind::FP3 { nbits: 4096 },
        Kind::FP4 { nbits: 4096 },
        Kind::ECFP0 { nbits: 4096 },
        Kind::ECFP2 { nbits: 4096 },
        Kind::ECFP4 { nbits: 4096 },
        Kind::ECFP6 { nbits: 4096 },
        Kind::ECFP8 { nbits: 4096 },
        Kind::ECFP10 { nbits: 4096 },
    ]
    .iter()
    {
        let fpg = FingerprintGenerator::new(fpk.clone());
        let fpd_vec = fpg.get_fingerprint_for_smiles_vec(&smiles_vec, blank_fingerprint);
        assert_eq!(fpd_vec.len(), 2);
        assert_eq!(fpd_vec[0].len(), 128);
        assert_eq!(fpd_vec[1].len(), 128);
    }
}

#[test]
fn generator_hands_each_smiles_and_its_kind_to_the_engine_in_order() {
    let smiles_vec = vec![String::from("CCO"), String::from("c1ccccc1N"), String::from("C")];
    let fpg = FingerprintGenerator::new(Kind::ECFP4 { nbits: 2048 });
    let r = fpg.get_fingerprint_for_smiles_vec(&smiles_vec, |s: &String, k: &Kind| {
        vec![s.len() as u32, *k.get_nbits(), k.as_str().len() as u32]
    });
    assert_eq!(r, vec![vec![3, 2048, 5], vec![9, 2048, 5], vec![1, 2048, 5]]);
    let none = fpg.get_fingerprint_for_smiles_vec(&Vec::new(), blank_fingerprint);
    assert!(none.is_empty());
}

#[test]
fn kind_names_and_bits() {
    let cases = vec![
        (Kind::FP2 { nbits: 1 }, "FP2"),
        (Kind::FP3 { nbits: 2 }, "FP3"),
        (Kind::FP4 { nbits: 3 }, "FP4"),
        (Kind::ECFP0 { nbits: 4 }, "ECFP0"),
        (Kind::ECFP2 { nbits: 5 }, "ECFP2"),
        (Kind::ECFP4 { nbits: 6 }, "ECFP4"),
        (Kind::ECFP6 { nbits: 7 }, "ECFP6"),
        (Kind::ECFP8 { nbits: 8 }, "ECFP8"),
        (Kind::ECFP10 { nbits: 9 }, "ECFP10"),
    ];
    for (i, (kind, name)) in cases.iter().enumerate() {
        assert_eq!(kind.as_str(), *name);
        assert_eq!(*kind.get_nbits(), i as u32 + 1);
    }
}

#[test]
fn force_field_names() {
    assert_eq!(ForceFieldVariant::GAFF.as_str(), "gaff");
    assert_eq!(ForceFieldVariant::Ghemical.as_str(), "ghemical");
    assert_eq!(ForceFieldVariant::MMFF94.as_str(), "mmff94");
    assert_eq!(ForceFieldVariant::MMFF94s.as_str(), "mmff94s");
    assert_eq!(ForceFieldVariant::UFF.as_str(), "uff");
}

#[test]
fn format_names() {
    assert_eq!(InputFormat::xyz.as_str(), "xyz");
    assert_eq!(InputFormat::g7.as_str(), "g7");
    assert_eq!(InputFormat::pdb.as_str(), "pdb");
    assert_eq!(OutputFormat::orcainp.as_str(), "orcainp");
    assert_eq!(OutputFormat::sdf.as_str(), "sdf");
    assert_eq!(conversion::InputFormat::g16.as_str(), "g16");
    assert_eq!(conversion::OutputFormat::tmol.as_str(), "tmol");
    assert_eq!(conversion::OutputFormat::fchk.as_str(), "fchk");
}

#[test]
fn string_for_mol_text() {
    let text = String::from("2\n\nAu 0.0 0.0 0.0\nAu 1.4 2.5 0.0");
    let input = StringForMol::new(text.clone(), InputFormat::xyz);
    assert_eq!(input.as_str(), text.as_str());
    assert_eq!(input.format, InputFormat::xyz);
}
