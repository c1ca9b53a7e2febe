//! The loader: one linear pass over the lines of a connection table.
//!
//! `spec_load` is the mathematical description of the whole parse — the
//! header, the atom block, the bond block, and the derived totals — and
//! `Molecule::load` is proved to return exactly what it describes, the
//! same error included.

use vstd::prelude::*;

use crate::num::{
    round_away, spec_parse_decimal, spec_parse_usize, parse_decimal, parse_usize,
    lemma_parse_decimal_bounded, round_decimal,
};
use crate::scan::{spec_lines, spec_tokens, spec_trim, split_lines, split_tokens, trim_ws, views,
    copy_bytes};
use crate::tables::{
    spec_bond_code, spec_heavy, spec_mdl_type, spec_valence, bond_type_of_code, convert_mdl_type,
    get_valence, is_heavy_atom, eq1,
};
use crate::types::{
    atoms_view, bonds_view, count_elem, count_heavy, count_heavy_bonds, Atom, AtomV, Bond, BondV,
    MolError, Molecule, MolV,
};

verus! {

/// The header: name line, reserved line, comment line, counts line.
/// Yields the trimmed name, the trimmed comment, and the two counts.
pub open spec fn spec_header(s: Seq<u8>) -> Result<(Seq<u8>, Seq<u8>, usize, usize), MolError> {
    let ls = spec_lines(s);
    if ls.len() < 4 {
        Err(MolError::MissingHeaderLine)
    } else {
        let toks = spec_tokens(ls[3]);
        if toks.len() < 2 {
            Err(MolError::BadCountsLine)
        } else {
            match (spec_parse_usize(toks[0]), spec_parse_usize(toks[1])) {
                (Some(na), Some(nb)) => Ok((spec_trim(ls[0]), spec_trim(ls[2]), na, nb)),
                _ => Err(MolError::BadCountsLine),
            }
        }
    }
}

/// One atom line: x, y, z, element, charge, further fields ignored.
pub open spec fn spec_atom_line(l: Seq<u8>, i: usize) -> Result<AtomV, MolError> {
    let t = spec_tokens(l);
    if t.len() < 5 {
        Err(MolError::BadAtomField(i))
    } else {
        match (
            spec_parse_decimal(t[0]),
            spec_parse_decimal(t[1]),
            spec_parse_decimal(t[2]),
            spec_parse_decimal(t[4]),
        ) {
            (Some(x), Some(y), Some(z), Some(chg)) => match spec_valence(t[3]) {
                None => Err(MolError::UnknownElement(i)),
                Some(v) => Ok(
                    AtomV {
                        element: t[3],
                        atype: spec_mdl_type(t[3]),
                        x,
                        y,
                        z,
                        formal_charge: round_away(chg),
                        real_charge: chg,
                        hexp: 0,
                        htot: 0,
                        neighbor_count: 0,
                        ring_count: 0,
                        arom: false,
                        q_arom: false,
                        stereo_care: false,
                        heavy: spec_heavy(t[3]),
                        metal: false,
                        nvalences: v,
                        tag: false,
                        nucleon_number: 0,
                        radical_type: 0,
                    },
                ),
            },
            _ => Err(MolError::BadAtomField(i)),
        }
    }
}

/// The atom records from index `j` up to the declared count `na`,
/// read from the lines at offset `4 + j`.
pub open spec fn spec_atoms_from(ls: Seq<Seq<u8>>, j: int, na: int) -> Result<
    Seq<AtomV>,
    MolError,
>
    decreases na - j,
{
    if j >= na {
        Ok(Seq::empty())
    } else if 4 + j >= ls.len() {
        Err(MolError::MissingAtomLine(j as usize))
    } else {
        match spec_atom_line(ls[4 + j], j as usize) {
            Err(e) => Err(e),
            Ok(a) => match spec_atoms_from(ls, j + 1, na) {
                Err(e) => Err(e),
                Ok(rest) => Ok(seq![a] + rest),
            },
        }
    }
}

/// One bond line: two one-based endpoints within the atom count, and a
/// bond-order code, further fields ignored.
pub open spec fn spec_bond_line(l: Seq<u8>, i: usize, na: usize) -> Result<BondV, MolError> {
    let t = spec_tokens(l);
    if t.len() < 3 {
        Err(MolError::BadBondField(i))
    } else {
        match (spec_parse_usize(t[0]), spec_parse_usize(t[1])) {
            (Some(a1), Some(a2)) => if !(1 <= a1 && a1 <= na) {
                Err(MolError::BadBondIndex(i))
            } else if !(1 <= a2 && a2 <= na) {
                Err(MolError::BadBondIndex(i))
            } else {
                match spec_bond_code(t[2]) {
                    None => Err(MolError::BadBondCode(i)),
                    Some(bt) => Ok(
                        BondV {
                            a1: (a1 - 1) as usize,
                            a2: (a2 - 1) as usize,
                            btype: bt,
                            ring_count: 0,
                            arom: false,
                            q_arom: false,
                            topo: 0,
                            stereo: 0,
                            mdl_stereo: 0,
                        },
                    ),
                }
            },
            _ => Err(MolError::BadBondField(i)),
        }
    }
}

/// The bond records from index `j` up to the declared count `nb`,
/// read from the lines at offset `4 + na + j`.
pub open spec fn spec_bonds_from(ls: Seq<Seq<u8>>, j: int, nb: int, na: usize) -> Result<
    Seq<BondV>,
    MolError,
>
    decreases nb - j,
{
    if j >= nb {
        Ok(Seq::empty())
    } else if 4 + na + j >= ls.len() {
        Err(MolError::MissingBondLine(j as usize))
    } else {
        match spec_bond_line(ls[4 + na + j], j as usize, na) {
            Err(e) => Err(e),
            Ok(b) => match spec_bonds_from(ls, j + 1, nb, na) {
                Err(e) => Err(e),
                Ok(rest) => Ok(seq![b] + rest),
            },
        }
    }
}

/// The whole parse: what `Molecule::load` returns, error or molecule.
pub open spec fn spec_load(s: Seq<u8>) -> Result<MolV, MolError> {
    match spec_header(s) {
        Err(e) => Err(e),
        Ok((name, comment, na, nb)) => {
            let ls = spec_lines(s);
            match spec_atoms_from(ls, 0, na as int) {
                Err(e) => Err(e),
                Ok(atoms) => match spec_bonds_from(ls, 0, nb as int, na) {
                    Err(e) => Err(e),
                    Ok(bonds) => Ok(
                        MolV {
                            mol_name: name,
                            mol_comment: comment,
                            n_c_tot: count_elem(atoms, seq![('C' as u8)]),
                            n_o_tot: count_elem(atoms, seq![('O' as u8)]),
                            n_n_tot: count_elem(atoms, seq![('N' as u8)]),
                            n_heavy: count_heavy(atoms),
                            heavy_bonds: count_heavy_bonds(atoms, bonds),
                            atoms,
                            bonds,
                        },
                    ),
                },
            }
        },
    }
}

/// The view of a load result, for stating the loader's contract.
pub open spec fn load_view(r: Result<Molecule, MolError>) -> Result<MolV, MolError> {
    match r {
        Ok(m) => Ok(m@),
        Err(e) => Err(e),
    }
}

/// Parses the atom block: `na` lines from offset 4, with the totals of
/// carbon, oxygen, nitrogen and heavy atoms accumulated on the way.
#[verifier::loop_isolation(false)]
fn parse_atoms(ls: &Vec<Vec<u8>>, na: usize) -> (r: Result<
    (Vec<Atom>, usize, usize, usize, usize),
    MolError,
>)
    requires
        ls.len() >= 4,
    ensures
        (match r {
            Ok(p) => {
                &&& spec_atoms_from(views(ls@), 0, na as int) == Ok::<Seq<AtomV>, MolError>(
                    atoms_view(p.0@),
                )
                &&& p.0.len() == na
                &&& 4 + na <= ls.len()
                &&& p.1 as nat == count_elem(atoms_view(p.0@), seq![('C' as u8)])
                &&& p.2 as nat == count_elem(atoms_view(p.0@), seq![('O' as u8)])
                &&& p.3 as nat == count_elem(atoms_view(p.0@), seq![('N' as u8)])
                &&& p.4 as nat == count_heavy(atoms_view(p.0@))
            },
            Err(e) => spec_atoms_from(views(ls@), 0, na as int) == Err::<Seq<AtomV>, MolError>(e),
        }),
{
    let ghost lsv = views(ls@);
    let mut atoms: Vec<Atom> = Vec::new();
    let mut n_c_tot: usize = 0;
    let mut n_o_tot: usize = 0;
    let mut n_n_tot: usize = 0;
    let mut n_heavy: usize = 0;
    let mut i: usize = 0;
    while i < na
        invariant
            i <= na,
            atoms.len() == i,
            4 + i <= ls.len(),
            n_c_tot <= i,
            n_o_tot <= i,
            n_n_tot <= i,
            n_heavy <= i,
            n_c_tot as nat == count_elem(atoms_view(atoms@), seq![('C' as u8)]),
            n_o_tot as nat == count_elem(atoms_view(atoms@), seq![('O' as u8)]),
            n_n_tot as nat == count_elem(atoms_view(atoms@), seq![('N' as u8)]),
            n_heavy as nat == count_heavy(atoms_view(atoms@)),
            (match spec_atoms_from(lsv, i as int, na as int) {
                Ok(rest) => spec_atoms_from(lsv, 0, na as int) == Ok::<Seq<AtomV>, MolError>(
                    atoms_view(atoms@) + rest,
                ),
                Err(e) => spec_atoms_from(lsv, 0, na as int) == Err::<Seq<AtomV>, MolError>(e),
            }),
        decreases na - i,
    {
        if ls.len() - 4 <= i {
            proof {
                assert(spec_atoms_from(lsv, i as int, na as int) == Err::<Seq<AtomV>, MolError>(
                    MolError::MissingAtomLine(i),
                ));
            }
            return Err(MolError::MissingAtomLine(i));
        }
        let ghost line = lsv[4 + i as int];
        assert(ls@[4 + i as int]@ == line);
        let toks = split_tokens(&ls[4 + i]);
        let ghost tv = spec_tokens(line);
        assert(views(toks@) == tv);
        if toks.len() < 5 {
            proof {
                assert(spec_atom_line(line, i) == Err::<AtomV, MolError>(
                    MolError::BadAtomField(i),
                ));
                assert(spec_atoms_from(lsv, i as int, na as int) == Err::<Seq<AtomV>, MolError>(
                    MolError::BadAtomField(i),
                ));
            }
            return Err(MolError::BadAtomField(i));
        }
        assert(toks@[0]@ == tv[0] && toks@[1]@ == tv[1] && toks@[2]@ == tv[2] && toks@[3]@ == tv[3]
            && toks@[4]@ == tv[4]);
        let x = match parse_decimal(&toks[0]) {
            Some(d) => d,
            None => {
                proof {
                    assert(spec_atoms_from(lsv, i as int, na as int) == Err::<
                        Seq<AtomV>,
                        MolError,
                    >(MolError::BadAtomField(i)));
                }
                return Err(MolError::BadAtomField(i));
            },
        };
        let y = match parse_decimal(&toks[1]) {
            Some(d) => d,
            None => {
                proof {
                    assert(spec_atoms_from(lsv, i as int, na as int) == Err::<
                        Seq<AtomV>,
                        MolError,
                    >(MolError::BadAtomField(i)));
                }
                return Err(MolError::BadAtomField(i));
            },
        };
        let z = match parse_decimal(&toks[2]) {
            Some(d) => d,
            None => {
                proof {
                    assert(spec_atoms_from(lsv, i as int, na as int) == Err::<
                        Seq<AtomV>,
                        MolError,
                    >(MolError::BadAtomField(i)));
                }
                return Err(MolError::BadAtomField(i));
            },
        };
        let chg = match parse_decimal(&toks[4]) {
            Some(d) => d,
            None => {
                proof {
                    assert(spec_atoms_from(lsv, i as int, na as int) == Err::<
                        Seq<AtomV>,
                        MolError,
                    >(MolError::BadAtomField(i)));
                }
                return Err(MolError::BadAtomField(i));
            },
        };
        let nvalences = match get_valence(&toks[3]) {
            Some(v) => v,
            None => {
                proof {
                    assert(spec_atom_line(line, i) == Err::<AtomV, MolError>(
                        MolError::UnknownElement(i),
                    ));
                    assert(spec_atoms_from(lsv, i as int, na as int) == Err::<
                        Seq<AtomV>,
                        MolError,
                    >(MolError::UnknownElement(i)));
                }
                return Err(MolError::UnknownElement(i));
            },
        };
        let heavy = is_heavy_atom(&toks[3]);
        let atype = convert_mdl_type(&toks[3]);
        let element = copy_bytes(&toks[3]);
        if eq1(&toks[3], 'C' as u8) {
            n_c_tot = n_c_tot + 1;
        }
        if eq1(&toks[3], 'O' as u8) {
            n_o_tot = n_o_tot + 1;
        }
        if eq1(&toks[3], 'N' as u8) {
            n_n_tot = n_n_tot + 1;
        }
        if heavy {
            n_heavy = n_heavy + 1;
        }
        proof {
            lemma_parse_decimal_bounded(tv[4]);
        }
        let formal_charge = round_decimal(&chg);
        let atom = Atom {
            element,
            atype,
            x,
            y,
            z,
            formal_charge,
            real_charge: chg,
            hexp: 0,
            htot: 0,
            neighbor_count: 0,
            ring_count: 0,
            arom: false,
            q_arom: false,
            stereo_care: false,
            heavy,
            metal: false,
            nvalences,
            tag: false,
            nucleon_number: 0,
            radical_type: 0,
        };
        proof {
            assert(spec_atom_line(line, i) == Ok::<AtomV, MolError>(atom@));
        }
        let ghost old_atoms = atoms@;
        atoms.push(atom);
        proof {
            assert(atoms_view(atoms@) =~= atoms_view(old_atoms).push(atom@));
            assert(atoms_view(atoms@).drop_last() =~= atoms_view(old_atoms));
            assert(atoms_view(atoms@).last() == atom@);
            match spec_atoms_from(lsv, i + 1, na as int) {
                Ok(rest) => {
                    assert(spec_atoms_from(lsv, i as int, na as int) == Ok::<Seq<AtomV>, MolError>(
                        seq![atom@] + rest,
                    ));
                    assert(atoms_view(old_atoms) + (seq![atom@] + rest) =~= atoms_view(atoms@)
                        + rest);
                },
                Err(e) => {
                    assert(spec_atoms_from(lsv, i as int, na as int) == Err::<
                        Seq<AtomV>,
                        MolError,
                    >(e));
                },
            }
        }
        i = i + 1;
    }
    proof {
        assert(spec_atoms_from(lsv, na as int, na as int) == Ok::<Seq<AtomV>, MolError>(
            Seq::empty(),
        ));
        assert(atoms_view(atoms@) + Seq::<AtomV>::empty() =~= atoms_view(atoms@));
    }
    Ok((atoms, n_c_tot, n_o_tot, n_n_tot, n_heavy))
}

/// Parses the bond block: `nb` lines from offset `4 + na`, endpoints
/// converted to zero-based indices.
#[verifier::loop_isolation(false)]
fn parse_bonds(ls: &Vec<Vec<u8>>, na: usize, nb: usize) -> (r: Result<Vec<Bond>, MolError>)
    requires
        4 + na <= ls.len(),
    ensures
        (match r {
            Ok(bonds) => {
                &&& spec_bonds_from(views(ls@), 0, nb as int, na) == Ok::<Seq<BondV>, MolError>(
                    bonds_view(bonds@),
                )
                &&& bonds.len() == nb
                &&& forall|k: int|
                    0 <= k < bonds@.len() ==> bonds@[k].a1 < na && bonds@[k].a2 < na
            },
            Err(e) => spec_bonds_from(views(ls@), 0, nb as int, na) == Err::<Seq<BondV>, MolError>(
                e,
            ),
        }),
{
    let ghost lsv = views(ls@);
    let base: usize = 4 + na;
    let mut bonds: Vec<Bond> = Vec::new();
    let mut j: usize = 0;
    while j < nb
        invariant
            j <= nb,
            bonds.len() == j,
            forall|k: int| 0 <= k < bonds@.len() ==> bonds@[k].a1 < na && bonds@[k].a2 < na,
            (match spec_bonds_from(lsv, j as int, nb as int, na) {
                Ok(rest) => spec_bonds_from(lsv, 0, nb as int, na) == Ok::<Seq<BondV>, MolError>(
                    bonds_view(bonds@) + rest,
                ),
                Err(e) => spec_bonds_from(lsv, 0, nb as int, na) == Err::<Seq<BondV>, MolError>(e),
            }),
        decreases nb - j,
    {
        if ls.len() - base <= j {
            proof {
                assert(spec_bonds_from(lsv, j as int, nb as int, na) == Err::<
                    Seq<BondV>,
                    MolError,
                >(MolError::MissingBondLine(j)));
            }
            return Err(MolError::MissingBondLine(j));
        }
        let ghost line = lsv[base + j as int];
        assert(ls@[base + j as int]@ == line);
        let toks = split_tokens(&ls[base + j]);
        let ghost tv = spec_tokens(line);
        assert(views(toks@) == tv);
        if toks.len() < 3 {
            proof {
                assert(spec_bonds_from(lsv, j as int, nb as int, na) == Err::<
                    Seq<BondV>,
                    MolError,
                >(MolError::BadBondField(j)));
            }
            return Err(MolError::BadBondField(j));
        }
        assert(toks@[0]@ == tv[0] && toks@[1]@ == tv[1] && toks@[2]@ == tv[2]);
        let a1 = match parse_usize(&toks[0]) {
            Some(v) => v,
            None => {
                proof {
                    assert(spec_bonds_from(lsv, j as int, nb as int, na) == Err::<
                        Seq<BondV>,
                        MolError,
                    >(MolError::BadBondField(j)));
                }
                return Err(MolError::BadBondField(j));
            },
        };
        let a2 = match parse_usize(&toks[1]) {
            Some(v) => v,
            None => {
                proof {
                    assert(spec_bonds_from(lsv, j as int, nb as int, na) == Err::<
                        Seq<BondV>,
                        MolError,
                    >(MolError::BadBondField(j)));
                }
                return Err(MolError::BadBondField(j));
            },
        };
        if a1 < 1 || a1 > na {
            proof {
                assert(spec_bonds_from(lsv, j as int, nb as int, na) == Err::<
                    Seq<BondV>,
                    MolError,
                >(MolError::BadBondIndex(j)));
            }
            return Err(MolError::BadBondIndex(j));
        }
        if a2 < 1 || a2 > na {
            proof {
                assert(spec_bonds_from(lsv, j as int, nb as int, na) == Err::<
                    Seq<BondV>,
                    MolError,
                >(MolError::BadBondIndex(j)));
            }
            return Err(MolError::BadBondIndex(j));
        }
        let btype = match bond_type_of_code(&toks[2]) {
            Some(bt) => bt,
            None => {
                proof {
                    assert(spec_bonds_from(lsv, j as int, nb as int, na) == Err::<
                        Seq<BondV>,
                        MolError,
                    >(MolError::BadBondCode(j)));
                }
                return Err(MolError::BadBondCode(j));
            },
        };
        let bond = Bond {
            a1: a1 - 1,
            a2: a2 - 1,
            btype,
            ring_count: 0,
            arom: false,
            q_arom: false,
            topo: 0,
            stereo: 0,
            mdl_stereo: 0,
        };
        proof {
            assert(spec_bond_line(line, j, na) == Ok::<BondV, MolError>(bond@));
        }
        let ghost old_bonds = bonds@;
        bonds.push(bond);
        proof {
            assert(bonds_view(bonds@) =~= bonds_view(old_bonds).push(bond@));
            match spec_bonds_from(lsv, j + 1, nb as int, na) {
                Ok(rest) => {
                    assert(spec_bonds_from(lsv, j as int, nb as int, na) == Ok::<
                        Seq<BondV>,
                        MolError,
                    >(seq![bond@] + rest));
                    assert(bonds_view(old_bonds) + (seq![bond@] + rest) =~= bonds_view(bonds@)
                        + rest);
                },
                Err(e) => {
                    assert(spec_bonds_from(lsv, j as int, nb as int, na) == Err::<
                        Seq<BondV>,
                        MolError,
                    >(e));
                },
            }
        }
        j = j + 1;
    }
    proof {
        assert(spec_bonds_from(lsv, nb as int, nb as int, na) == Ok::<Seq<BondV>, MolError>(
            Seq::empty(),
        ));
        assert(bonds_view(bonds@) + Seq::<BondV>::empty() =~= bonds_view(bonds@));
    }
    Ok(bonds)
}

/// Counts the bonds whose two endpoint atoms are both heavy.
#[verifier::loop_isolation(false)]
fn heavy_bond_count(atoms: &Vec<Atom>, bonds: &Vec<Bond>) -> (r: usize)
    requires
        forall|k: int|
            0 <= k < bonds@.len() ==> bonds@[k].a1 < atoms@.len() && bonds@[k].a2 < atoms@.len(),
    ensures
        r as nat == count_heavy_bonds(atoms_view(atoms@), bonds_view(bonds@)),
{
    let ghost av = atoms_view(atoms@);
    let ghost bv = bonds_view(bonds@);
    let mut heavy_bonds: usize = 0;
    let mut k: usize = 0;
    proof {
        assert(bv.take(0) =~= Seq::<BondV>::empty());
    }
    while k < bonds.len()
        invariant
            k <= bonds.len(),
            heavy_bonds <= k,
            heavy_bonds as nat == count_heavy_bonds(av, bv.take(k as int)),
        decreases bonds.len() - k,
    {
        let a1 = bonds[k].a1;
        let a2 = bonds[k].a2;
        assert(bv[k as int] == bonds@[k as int]@);
        if atoms[a1].heavy && atoms[a2].heavy {
            heavy_bonds = heavy_bonds + 1;
        }
        proof {
            assert(av[a1 as int] == atoms@[a1 as int]@);
            assert(av[a2 as int] == atoms@[a2 as int]@);
            assert(bv.take(k + 1).drop_last() =~= bv.take(k as int));
            assert(bv.take(k + 1).last() == bv[k as int]);
        }
        k = k + 1;
    }
    proof {
        assert(bv.take(bonds.len() as int) =~= bv);
    }
    heavy_bonds
}

impl Molecule {
    /// Loads a molecule from the raw bytes of a connection table, as
    /// `spec_load` describes: the molecule for a well-formed text, and
    /// the error naming the first offending phase or record otherwise.
    pub fn load(text: &Vec<u8>) -> (r: Result<Molecule, MolError>)
        ensures
            load_view(r) == spec_load(text@),
    {
        let ls = split_lines(text);
        let ghost lsv = views(ls@);
        if ls.len() < 4 {
            return Err(MolError::MissingHeaderLine);
        }
        assert(ls@[3]@ == lsv[3] && ls@[0]@ == lsv[0] && ls@[2]@ == lsv[2]);
        let ctoks = split_tokens(&ls[3]);
        let ghost ctv = spec_tokens(lsv[3]);
        assert(views(ctoks@) == ctv);
        if ctoks.len() < 2 {
            return Err(MolError::BadCountsLine);
        }
        assert(ctoks@[0]@ == ctv[0] && ctoks@[1]@ == ctv[1]);
        let na = match parse_usize(&ctoks[0]) {
            Some(v) => v,
            None => {
                return Err(MolError::BadCountsLine);
            },
        };
        let nb = match parse_usize(&ctoks[1]) {
            Some(v) => v,
            None => {
                return Err(MolError::BadCountsLine);
            },
        };
        let mol_name = trim_ws(&ls[0]);
        let mol_comment = trim_ws(&ls[2]);
        proof {
            assert(spec_header(text@) == Ok::<(Seq<u8>, Seq<u8>, usize, usize), MolError>(
                (mol_name@, mol_comment@, na, nb),
            ));
        }
        let (atoms, n_c_tot, n_o_tot, n_n_tot, n_heavy) = match parse_atoms(&ls, na) {
            Ok(p) => p,
            Err(e) => {
                return Err(e);
            },
        };
        let bonds = match parse_bonds(&ls, na, nb) {
            Ok(b) => b,
            Err(e) => {
                return Err(e);
            },
        };
        let heavy_bonds = heavy_bond_count(&atoms, &bonds);
        let m = Molecule {
            mol_name,
            mol_comment,
            n_c_tot,
            n_o_tot,
            n_n_tot,
            n_heavy,
            heavy_bonds,
            atoms,
            bonds,
        };
        proof {
            assert(spec_load(text@) == Ok::<MolV, MolError>(m@));
        }
        Ok(m)
    }
}

} // verus!
