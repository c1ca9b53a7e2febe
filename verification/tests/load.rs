use molfile::{Decimal, MolError, Molecule};

fn load_str(s: &str) -> Result<Molecule, MolError> {
    Molecule::load(&s.as_bytes().to_vec())
}

#[test]
fn minimal_two_atom_molecule() {
    let text = "ethanal fragment\nreserved\na comment\n2 1\n0 0 0 C 0\n1.0 0.0 0.0 O 0\n1 2 2\n";
    let m = load_str(text).unwrap();
    assert_eq!(m.mol_name, b"ethanal fragment".to_vec());
    assert_eq!(m.mol_comment, b"a comment".to_vec());
    assert_eq!(m.atoms.len(), 2);
    assert_eq!(m.bonds.len(), 1);
    assert_eq!(m.n_heavy, 2);
    assert_eq!(m.heavy_bonds, 1);
    assert_eq!(m.n_c_tot, 1);
    assert_eq!(m.n_o_tot, 1);
    assert_eq!(m.n_n_tot, 0);
    assert_eq!(m.atoms[0].element, b"C".to_vec());
    assert_eq!(m.atoms[0].atype, b"C3".to_vec());
    assert_eq!(m.atoms[0].nvalences, 4);
    assert_eq!(m.atoms[1].element, b"O".to_vec());
    assert_eq!(m.atoms[1].atype, b"O2".to_vec());
    assert_eq!(m.atoms[1].nvalences, 2);
    assert_eq!(m.bonds[0].a1, 0);
    assert_eq!(m.bonds[0].a2, 1);
    assert_eq!(m.bonds[0].btype, molfile::BondType::Double);
    assert_eq!(m.atoms[1].x, Decimal { neg: false, mant: 10, scale: 1 });
    assert_eq!(m.atoms[1].y, Decimal { neg: false, mant: 0, scale: 1 });
}

#[test]
fn counts_match_declaration() {
    let text = "n\nr\nc\n3 2\n0 0 0 C 0\n0 0 0 N 0\n0 0 0 O 0\n1 2 1\n2 3 1\n";
    let m = load_str(text).unwrap();
    assert_eq!(m.atoms.len(), 3);
    assert_eq!(m.bonds.len(), 2);
}

#[test]
fn charge_rounding_ties_away_from_zero() {
    let text = "n\nr\nc\n3 0\n0 0 0 C 1.5\n0 0 0 C -1.5\n0 0 0 C 0.4\n";
    let m = load_str(text).unwrap();
    assert_eq!(m.atoms[0].formal_charge, 2);
    assert_eq!(m.atoms[1].formal_charge, -2);
    assert_eq!(m.atoms[2].formal_charge, 0);
    assert_eq!(m.atoms[0].real_charge, Decimal { neg: false, mant: 15, scale: 1 });
    assert_eq!(m.atoms[1].real_charge, Decimal { neg: true, mant: 15, scale: 1 });
    assert_eq!(m.atoms[2].real_charge, Decimal { neg: false, mant: 4, scale: 1 });
}

#[test]
fn integral_charges_round_to_themselves() {
    let text = "n\nr\nc\n2 0\n0 0 0 C 3\n0 0 0 C -2.0\n";
    let m = load_str(text).unwrap();
    assert_eq!(m.atoms[0].formal_charge, 3);
    assert_eq!(m.atoms[1].formal_charge, -2);
    assert_eq!(m.atoms[0].real_charge, Decimal { neg: false, mant: 3, scale: 0 });
    assert_eq!(m.atoms[1].real_charge, Decimal { neg: true, mant: 20, scale: 1 });
}

#[test]
fn heavy_total_recomputed_from_elements() {
    let text = "n\nr\nc\n4 0\n0 0 0 H 0\n0 0 0 C 0\n0 0 0 O 0\n0 0 0 H 0\n";
    let m = load_str(text).unwrap();
    let recomputed = m.atoms.iter().filter(|a| a.element != b"H".to_vec()).count();
    assert_eq!(m.n_heavy, recomputed);
    assert_eq!(m.n_heavy, 2);
}

#[test]
fn heavy_bond_total_recomputed_from_sequences() {
    let text =
        "n\nr\nc\n4 3\n0 0 0 C 0\n0 0 0 H 0\n0 0 0 O 0\n0 0 0 N 0\n1 2 1\n1 3 1\n3 4 1\n";
    let m = load_str(text).unwrap();
    let recomputed = m
        .bonds
        .iter()
        .filter(|b| m.atoms[b.a1].element != b"H".to_vec() && m.atoms[b.a2].element != b"H".to_vec())
        .count();
    assert_eq!(m.heavy_bonds, recomputed);
    assert_eq!(m.heavy_bonds, 2);
}

#[test]
fn loading_twice_is_identical() {
    let text = "n\nr\nc\n2 1\n0.5 -0.25 3 C -0.5\n1 2 3 N 1.5\n1 2 4\n";
    let m1 = load_str(text).unwrap();
    let m2 = load_str(text).unwrap();
    assert_eq!(m1, m2);
}

#[test]
fn deferred_fields_stay_at_defaults() {
    let text = "n\nr\nc\n1 0\n0 0 0 C 0\n";
    let m = load_str(text).unwrap();
    let a = &m.atoms[0];
    assert_eq!(a.hexp, 0);
    assert_eq!(a.htot, 0);
    assert_eq!(a.neighbor_count, 0);
    assert_eq!(a.ring_count, 0);
    assert!(!a.arom);
    assert!(!a.q_arom);
    assert!(!a.stereo_care);
    assert!(!a.metal);
    assert!(!a.tag);
    assert_eq!(a.nucleon_number, 0);
    assert_eq!(a.radical_type, 0);
}

#[test]
fn bond_deferred_fields_stay_at_defaults() {
    let text = "n\nr\nc\n2 1\n0 0 0 C 0\n0 0 0 C 0\n1 2 1\n";
    let m = load_str(text).unwrap();
    let b = &m.bonds[0];
    assert_eq!(b.ring_count, 0);
    assert!(!b.arom);
    assert!(!b.q_arom);
    assert_eq!(b.topo, 0);
    assert_eq!(b.stereo, 0);
    assert_eq!(b.mdl_stereo, 0);
}

#[test]
fn name_and_comment_are_trimmed() {
    let text = "  spaced name \nr\n\tcomment text  \n0 0\n";
    let m = load_str(text).unwrap();
    assert_eq!(m.mol_name, b"spaced name".to_vec());
    assert_eq!(m.mol_comment, b"comment text".to_vec());
}

#[test]
fn empty_name_is_allowed() {
    let text = "\nr\n\n0 0\n";
    let m = load_str(text).unwrap();
    assert_eq!(m.mol_name, b"".to_vec());
    assert_eq!(m.mol_comment, b"".to_vec());
}

#[test]
fn carriage_return_line_endings() {
    let text = "n\r\nr\r\nc\r\n1 0\r\n0 0 0 C 0\r\n";
    let m = load_str(text).unwrap();
    assert_eq!(m.atoms.len(), 1);
    assert_eq!(m.atoms[0].element, b"C".to_vec());
}

#[test]
fn trailing_fields_are_ignored() {
    let text = "n\nr\nc\n1 0 0 0 1 V2000\n0 0 0 C 0 0 0 0 extra\n";
    let m = load_str(text).unwrap();
    assert_eq!(m.atoms.len(), 1);
}

#[test]
fn extra_lines_after_bond_block_are_ignored() {
    let text = "n\nr\nc\n1 0\n0 0 0 C 0\nM  END\n$$$$\n";
    let m = load_str(text).unwrap();
    assert_eq!(m.atoms.len(), 1);
    assert_eq!(m.bonds.len(), 0);
}

#[test]
fn self_bond_is_not_rejected() {
    let text = "n\nr\nc\n1 1\n0 0 0 C 0\n1 1 1\n";
    let m = load_str(text).unwrap();
    assert_eq!(m.bonds[0].a1, 0);
    assert_eq!(m.bonds[0].a2, 0);
}

#[test]
fn missing_header_lines() {
    assert_eq!(load_str(""), Err(MolError::MissingHeaderLine));
    assert_eq!(load_str("n\nr\nc\n"), Err(MolError::MissingHeaderLine));
}

#[test]
fn bad_counts_line() {
    assert_eq!(load_str("n\nr\nc\n2\n"), Err(MolError::BadCountsLine));
    assert_eq!(load_str("n\nr\nc\nx 1\n"), Err(MolError::BadCountsLine));
    assert_eq!(load_str("n\nr\nc\n1 y\n"), Err(MolError::BadCountsLine));
    assert_eq!(load_str("n\nr\nc\n-1 0\n"), Err(MolError::BadCountsLine));
}

#[test]
fn missing_atom_line() {
    let text = "n\nr\nc\n2 0\n0 0 0 C 0\n";
    assert_eq!(load_str(text), Err(MolError::MissingAtomLine(1)));
}

#[test]
fn bad_atom_fields() {
    assert_eq!(load_str("n\nr\nc\n1 0\n0 0 0 C\n"), Err(MolError::BadAtomField(0)));
    assert_eq!(load_str("n\nr\nc\n1 0\nx 0 0 C 0\n"), Err(MolError::BadAtomField(0)));
    assert_eq!(load_str("n\nr\nc\n1 0\n0 0 0 C q\n"), Err(MolError::BadAtomField(0)));
    assert_eq!(
        load_str("n\nr\nc\n2 0\n0 0 0 C 0\n0 0 1.2.3 C 0\n"),
        Err(MolError::BadAtomField(1)),
    );
}

#[test]
fn unknown_element_fails_loudly() {
    assert_eq!(load_str("n\nr\nc\n1 0\n0 0 0 XX 0\n"), Err(MolError::UnknownElement(0)));
    assert_eq!(load_str("n\nr\nc\n1 0\n0 0 0 Cl 0\n"), Err(MolError::UnknownElement(0)));
}

#[test]
fn missing_bond_line() {
    let text = "n\nr\nc\n1 1\n0 0 0 C 0\n";
    assert_eq!(load_str(text), Err(MolError::MissingBondLine(0)));
}

#[test]
fn bad_bond_fields() {
    assert_eq!(
        load_str("n\nr\nc\n2 1\n0 0 0 C 0\n0 0 0 C 0\n1 2\n"),
        Err(MolError::BadBondField(0)),
    );
    assert_eq!(
        load_str("n\nr\nc\n2 1\n0 0 0 C 0\n0 0 0 C 0\nx 2 1\n"),
        Err(MolError::BadBondField(0)),
    );
}

#[test]
fn bond_index_out_of_range() {
    assert_eq!(
        load_str("n\nr\nc\n2 1\n0 0 0 C 0\n0 0 0 C 0\n0 2 1\n"),
        Err(MolError::BadBondIndex(0)),
    );
    assert_eq!(
        load_str("n\nr\nc\n2 1\n0 0 0 C 0\n0 0 0 C 0\n1 3 1\n"),
        Err(MolError::BadBondIndex(0)),
    );
}

#[test]
fn bad_bond_code() {
    assert_eq!(
        load_str("n\nr\nc\n2 1\n0 0 0 C 0\n0 0 0 C 0\n1 2 0\n"),
        Err(MolError::BadBondCode(0)),
    );
    assert_eq!(
        load_str("n\nr\nc\n2 1\n0 0 0 C 0\n0 0 0 C 0\n1 2 A\n"),
        Err(MolError::BadBondCode(0)),
    );
}

#[test]
fn fractional_charge_token_forms() {
    let text = "n\nr\nc\n3 0\n0 0 0 C .5\n0 0 0 C 5.\n0 0 0 C +0.5\n";
    let m = load_str(text).unwrap();
    assert_eq!(m.atoms[0].formal_charge, 1);
    assert_eq!(m.atoms[1].formal_charge, 5);
    assert_eq!(m.atoms[2].formal_charge, 1);
    assert_eq!(m.atoms[0].real_charge, Decimal { neg: false, mant: 5, scale: 1 });
    assert_eq!(m.atoms[1].real_charge, Decimal { neg: false, mant: 5, scale: 0 });
    assert_eq!(m.atoms[2].real_charge, Decimal { neg: false, mant: 5, scale: 1 });
}

#[test]
fn lone_dot_or_sign_is_rejected() {
    assert_eq!(load_str("n\nr\nc\n1 0\n0 0 0 C .\n"), Err(MolError::BadAtomField(0)));
    assert_eq!(load_str("n\nr\nc\n1 0\n0 0 0 C -\n"), Err(MolError::BadAtomField(0)));
}

#[test]
fn oversized_counts_are_rejected() {
    let text = "n\nr\nc\n99999999999999999999999999 0\n";
    assert_eq!(load_str(text), Err(MolError::BadCountsLine));
}

#[test]
fn narrow_element_totals_match_exactly() {
    let text = "n\nr\nc\n3 0\n0 0 0 CL 0\n0 0 0 C 0\n0 0 0 NA 0\n";
    let m = load_str(text).unwrap();
    assert_eq!(m.n_c_tot, 1);
    assert_eq!(m.n_n_tot, 0);
    assert_eq!(m.n_o_tot, 0);
}
