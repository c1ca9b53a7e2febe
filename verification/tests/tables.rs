use molfile::{bond_type_of_code, convert_mdl_type, get_valence, is_heavy_atom, BondType};

#[test]
fn valence_of_common_elements() {
    assert_eq!(get_valence(&b"C".to_vec()), Some(4));
    assert_eq!(get_valence(&b"N".to_vec()), Some(3));
    assert_eq!(get_valence(&b"O".to_vec()), Some(2));
    assert_eq!(get_valence(&b"CL".to_vec()), Some(1));
    assert_eq!(get_valence(&b"FE".to_vec()), Some(3));
    assert_eq!(get_valence(&b"H".to_vec()), Some(1));
    assert_eq!(get_valence(&b"D".to_vec()), Some(1));
    assert_eq!(get_valence(&b"SE".to_vec()), Some(2));
    assert_eq!(get_valence(&b"A".to_vec()), Some(4));
    assert_eq!(get_valence(&b"Q".to_vec()), Some(4));
}

#[test]
fn valence_rejects_unlisted_symbol() {
    assert_eq!(get_valence(&b"XX".to_vec()), None);
    assert_eq!(get_valence(&b"Cl".to_vec()), None);
    assert_eq!(get_valence(&b"".to_vec()), None);
}

#[test]
fn valence_is_deterministic() {
    assert_eq!(get_valence(&b"SN".to_vec()), get_valence(&b"SN".to_vec()));
    assert_eq!(get_valence(&b"ZN".to_vec()), Some(2));
    assert_eq!(get_valence(&b"CU".to_vec()), Some(2));
    assert_eq!(get_valence(&b"MG".to_vec()), Some(2));
    assert_eq!(get_valence(&b"HG".to_vec()), Some(2));
}

#[test]
fn heavy_atom_is_everything_but_hydrogen() {
    assert!(!is_heavy_atom(&b"H".to_vec()));
    assert!(is_heavy_atom(&b"C".to_vec()));
    assert!(is_heavy_atom(&b"D".to_vec()));
    assert!(is_heavy_atom(&b"FE".to_vec()));
    assert!(is_heavy_atom(&b"Xx".to_vec()));
}

#[test]
fn atom_type_normalization() {
    assert_eq!(convert_mdl_type(&b"C".to_vec()), b"C3".to_vec());
    assert_eq!(convert_mdl_type(&b"O".to_vec()), b"O2".to_vec());
    assert_eq!(convert_mdl_type(&b"N".to_vec()), b"N3".to_vec());
    assert_eq!(convert_mdl_type(&b"Cl".to_vec()), b"CL".to_vec());
    assert_eq!(convert_mdl_type(&b"H".to_vec()), b"H".to_vec());
    assert_eq!(convert_mdl_type(&b"S".to_vec()), b"S3".to_vec());
    assert_eq!(convert_mdl_type(&b"P".to_vec()), b"P4".to_vec());
    assert_eq!(convert_mdl_type(&b"ANY".to_vec()), b"A".to_vec());
}

#[test]
fn atom_type_unlisted_symbol_is_dummy() {
    assert_eq!(convert_mdl_type(&b"Xx".to_vec()), b"DU".to_vec());
    assert_eq!(convert_mdl_type(&b"CL".to_vec()), b"DU".to_vec());
    assert_eq!(convert_mdl_type(&b"".to_vec()), b"DU".to_vec());
}

#[test]
fn bond_codes_map_in_order() {
    assert_eq!(bond_type_of_code(&b"1".to_vec()), Some(BondType::Single));
    assert_eq!(bond_type_of_code(&b"2".to_vec()), Some(BondType::Double));
    assert_eq!(bond_type_of_code(&b"3".to_vec()), Some(BondType::Triple));
    assert_eq!(bond_type_of_code(&b"4".to_vec()), Some(BondType::Aromatic));
    assert_eq!(bond_type_of_code(&b"5".to_vec()), Some(BondType::SingleOrDouble));
    assert_eq!(bond_type_of_code(&b"6".to_vec()), Some(BondType::SingleOrAromatic));
    assert_eq!(bond_type_of_code(&b"7".to_vec()), Some(BondType::DoubleOrAromatic));
    assert_eq!(bond_type_of_code(&b"8".to_vec()), Some(BondType::Any));
    assert_eq!(bond_type_of_code(&b"9".to_vec()), Some(BondType::Any));
}

#[test]
fn bond_codes_outside_range_are_rejected() {
    assert_eq!(bond_type_of_code(&b"0".to_vec()), None);
    assert_eq!(bond_type_of_code(&b"A".to_vec()), None);
    assert_eq!(bond_type_of_code(&b"10".to_vec()), None);
    assert_eq!(bond_type_of_code(&b"".to_vec()), None);
}
