//! Properties of every successful load, proved from `spec_load` alone.

use vstd::prelude::*;

use crate::num::round_away;
use crate::parse::{spec_atoms_from, spec_bonds_from, spec_header, spec_load};
use crate::tables::{spec_heavy, spec_mdl_type, spec_valence};
use crate::types::{
    count_heavy, count_heavy_bonds, count_heavy_bonds_by_element, AtomV, BondV, MolError, MolV,
};

verus! {

/// The attributes an atom record derives from its element symbol and
/// its charge field.
pub open spec fn atom_derived(a: AtomV) -> bool {
    &&& a.heavy == spec_heavy(a.element)
    &&& a.atype == spec_mdl_type(a.element)
    &&& spec_valence(a.element) == Some(a.nvalences)
    &&& a.formal_charge == round_away(a.real_charge)
}

proof fn lemma_atoms_from_props(ls: Seq<Seq<u8>>, j: int, na: int)
    ensures
        spec_atoms_from(ls, j, na) matches Ok(r) ==> r.len() == if na >= j {
            na - j
        } else {
            0
        } && forall|k: int| 0 <= k < r.len() ==> atom_derived(#[trigger] r[k]),
    decreases na - j,
{
    if j < na && 4 + j < ls.len() {
        lemma_atoms_from_props(ls, j + 1, na);
    }
}

proof fn lemma_bonds_from_props(ls: Seq<Seq<u8>>, j: int, nb: int, na: usize)
    ensures
        spec_bonds_from(ls, j, nb, na) matches Ok(r) ==> r.len() == if nb >= j {
            nb - j
        } else {
            0
        } && forall|k: int| 0 <= k < r.len() ==> (#[trigger] r[k]).a1 < na && r[k].a2 < na,
    decreases nb - j,
{
    if j < nb && 4 + na + j < ls.len() {
        lemma_bonds_from_props(ls, j + 1, nb, na);
    }
}

proof fn lemma_heavy_bonds_by_element(atoms: Seq<AtomV>, bonds: Seq<BondV>)
    requires
        forall|k: int|
            0 <= k < atoms.len() ==> (#[trigger] atoms[k]).heavy == spec_heavy(atoms[k].element),
    ensures
        count_heavy_bonds(atoms, bonds) == count_heavy_bonds_by_element(atoms, bonds),
    decreases bonds.len(),
{
    if bonds.len() > 0 {
        lemma_heavy_bonds_by_element(atoms, bonds.drop_last());
    }
}

/// A successful load returns exactly as many atoms and bonds as the
/// counts line declares.
pub proof fn lemma_counts_match_declaration(s: Seq<u8>, m: MolV)
    requires
        spec_load(s) == Ok::<MolV, MolError>(m),
    ensures
        spec_header(s) matches Ok(h) && m.atoms.len() == h.2 && m.bonds.len() == h.3,
{
    let h = spec_header(s)->Ok_0;
    lemma_atoms_from_props(crate::scan::spec_lines(s), 0, h.2 as int);
    lemma_bonds_from_props(crate::scan::spec_lines(s), 0, h.3 as int, h.2);
}

/// In a successful load, every bond endpoint is a valid zero-based
/// atom index.
pub proof fn lemma_bond_endpoints_in_range(s: Seq<u8>, m: MolV)
    requires
        spec_load(s) == Ok::<MolV, MolError>(m),
    ensures
        forall|k: int|
            0 <= k < m.bonds.len() ==> (#[trigger] m.bonds[k]).a1 < m.atoms.len()
                && m.bonds[k].a2 < m.atoms.len(),
{
    let h = spec_header(s)->Ok_0;
    lemma_atoms_from_props(crate::scan::spec_lines(s), 0, h.2 as int);
    lemma_bonds_from_props(crate::scan::spec_lines(s), 0, h.3 as int, h.2);
}

/// In a successful load, every atom's formal charge is its real charge
/// rounded to the nearest integer, ties away from zero, and its heavy
/// flag, type code and valence come from its element symbol by the
/// published tables.
pub proof fn lemma_atom_attributes_derived(s: Seq<u8>, m: MolV)
    requires
        spec_load(s) == Ok::<MolV, MolError>(m),
    ensures
        forall|k: int| 0 <= k < m.atoms.len() ==> atom_derived(#[trigger] m.atoms[k]),
{
    let h = spec_header(s)->Ok_0;
    lemma_atoms_from_props(crate::scan::spec_lines(s), 0, h.2 as int);
}

/// The per-element totals of a successful load count exactly the atoms
/// whose element symbol is "C", "O" and "N" respectively, re-derived
/// from the atom sequence.
pub proof fn lemma_element_totals_recomputed(s: Seq<u8>, m: MolV)
    requires
        spec_load(s) == Ok::<MolV, MolError>(m),
    ensures
        m.n_c_tot == crate::types::count_elem(m.atoms, seq![('C' as u8)]),
        m.n_o_tot == crate::types::count_elem(m.atoms, seq![('O' as u8)]),
        m.n_n_tot == crate::types::count_elem(m.atoms, seq![('N' as u8)]),
{
}

/// The heavy-atom total of a successful load counts exactly the atoms
/// whose element symbol is not "H".
pub proof fn lemma_heavy_total_counts_non_hydrogen(s: Seq<u8>, m: MolV)
    requires
        spec_load(s) == Ok::<MolV, MolError>(m),
    ensures
        m.n_heavy == count_heavy(m.atoms),
{
}

/// The heavy-bond total of a successful load equals the count of bonds
/// both of whose endpoint atoms have an element symbol other than "H",
/// recomputed from the atom and bond sequences alone.
pub proof fn lemma_heavy_bonds_recomputed(s: Seq<u8>, m: MolV)
    requires
        spec_load(s) == Ok::<MolV, MolError>(m),
    ensures
        m.heavy_bonds == count_heavy_bonds_by_element(m.atoms, m.bonds),
{
    let h = spec_header(s)->Ok_0;
    lemma_atoms_from_props(crate::scan::spec_lines(s), 0, h.2 as int);
    lemma_heavy_bonds_by_element(m.atoms, m.bonds);
}

} // verus!
