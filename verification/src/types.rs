//! The molecular graph: atoms, bonds, the molecule record, and the
//! error taxonomy of the loader.
//!
//! Several atom and bond attributes are declared but never computed by
//! this core (ring membership, aromaticity, stereo, isotope, radical);
//! they are left at their zero or false defaults as a seam for later
//! work.

use vstd::prelude::*;

use crate::num::Decimal;

verus! {

/// The order of a bond, a closed set of symbols.
#[derive(Clone, Copy, Debug, PartialEq, Eq, Structural)]
pub enum BondType {
    Single,
    Double,
    Triple,
    Aromatic,
    SingleOrDouble,
    SingleOrAromatic,
    DoubleOrAromatic,
    Any,
}

/// Why a load failed.  Indices count atom or bond records from zero.
#[derive(Clone, Copy, Debug, PartialEq, Eq, Structural)]
pub enum MolError {
    /// Fewer than the four header lines are present.
    MissingHeaderLine,
    /// The counts line lacks two unsigned-integer tokens.
    BadCountsLine,
    /// The atom block ends before the declared atom count is met.
    MissingAtomLine(usize),
    /// An atom line lacks its five fields, or a numeric field is malformed.
    BadAtomField(usize),
    /// An element symbol outside the valence table.
    UnknownElement(usize),
    /// The bond block ends before the declared bond count is met.
    MissingBondLine(usize),
    /// A bond line lacks its three fields, or an endpoint is malformed.
    BadBondField(usize),
    /// A bond endpoint outside 1 ..= atom count.
    BadBondIndex(usize),
    /// A bond-order code outside '1' ..= '9'.
    BadBondCode(usize),
}

/// One atom: element, derived attributes, coordinates, charges, and
/// deferred attributes at their defaults.
#[derive(Debug, PartialEq, Eq)]
pub struct Atom {
    pub element: Vec<u8>,
    pub atype: Vec<u8>,
    pub x: Decimal,
    pub y: Decimal,
    pub z: Decimal,
    pub formal_charge: i64,
    pub real_charge: Decimal,
    pub hexp: usize,
    pub htot: usize,
    pub neighbor_count: usize,
    pub ring_count: usize,
    pub arom: bool,
    pub q_arom: bool,
    pub stereo_care: bool,
    pub heavy: bool,
    pub metal: bool,
    pub nvalences: usize,
    pub tag: bool,
    pub nucleon_number: usize,
    pub radical_type: usize,
}

/// One bond: zero-based endpoint indices, order, and deferred
/// attributes at their defaults.
#[derive(Clone, Copy, Debug, PartialEq, Eq)]
pub struct Bond {
    pub a1: usize,
    pub a2: usize,
    pub btype: BondType,
    pub ring_count: usize,
    pub arom: bool,
    pub q_arom: bool,
    pub topo: usize,
    pub stereo: usize,
    pub mdl_stereo: usize,
}

/// The parse result: header text, derived totals, and the two record
/// sequences.
#[derive(Debug, PartialEq, Eq)]
pub struct Molecule {
    pub mol_name: Vec<u8>,
    pub mol_comment: Vec<u8>,
    pub n_c_tot: usize,
    pub n_o_tot: usize,
    pub n_n_tot: usize,
    pub n_heavy: usize,
    pub heavy_bonds: usize,
    pub atoms: Vec<Atom>,
    pub bonds: Vec<Bond>,
}

/// The mathematical value of an atom.
#[verifier::ext_equal]
pub struct AtomV {
    pub element: Seq<u8>,
    pub atype: Seq<u8>,
    pub x: Decimal,
    pub y: Decimal,
    pub z: Decimal,
    pub formal_charge: int,
    pub real_charge: Decimal,
    pub hexp: usize,
    pub htot: usize,
    pub neighbor_count: usize,
    pub ring_count: usize,
    pub arom: bool,
    pub q_arom: bool,
    pub stereo_care: bool,
    pub heavy: bool,
    pub metal: bool,
    pub nvalences: usize,
    pub tag: bool,
    pub nucleon_number: usize,
    pub radical_type: usize,
}

/// The mathematical value of a bond.
#[verifier::ext_equal]
pub struct BondV {
    pub a1: usize,
    pub a2: usize,
    pub btype: BondType,
    pub ring_count: usize,
    pub arom: bool,
    pub q_arom: bool,
    pub topo: usize,
    pub stereo: usize,
    pub mdl_stereo: usize,
}

/// The mathematical value of a molecule.
#[verifier::ext_equal]
pub struct MolV {
    pub mol_name: Seq<u8>,
    pub mol_comment: Seq<u8>,
    pub n_c_tot: nat,
    pub n_o_tot: nat,
    pub n_n_tot: nat,
    pub n_heavy: nat,
    pub heavy_bonds: nat,
    pub atoms: Seq<AtomV>,
    pub bonds: Seq<BondV>,
}

impl View for Atom {
    type V = AtomV;

    open spec fn view(&self) -> AtomV {
        AtomV {
            element: self.element@,
            atype: self.atype@,
            x: self.x,
            y: self.y,
            z: self.z,
            formal_charge: self.formal_charge as int,
            real_charge: self.real_charge,
            hexp: self.hexp,
            htot: self.htot,
            neighbor_count: self.neighbor_count,
            ring_count: self.ring_count,
            arom: self.arom,
            q_arom: self.q_arom,
            stereo_care: self.stereo_care,
            heavy: self.heavy,
            metal: self.metal,
            nvalences: self.nvalences,
            tag: self.tag,
            nucleon_number: self.nucleon_number,
            radical_type: self.radical_type,
        }
    }
}

impl View for Bond {
    type V = BondV;

    open spec fn view(&self) -> BondV {
        BondV {
            a1: self.a1,
            a2: self.a2,
            btype: self.btype,
            ring_count: self.ring_count,
            arom: self.arom,
            q_arom: self.q_arom,
            topo: self.topo,
            stereo: self.stereo,
            mdl_stereo: self.mdl_stereo,
        }
    }
}

/// The views of a sequence of atoms.
pub open spec fn atoms_view(s: Seq<Atom>) -> Seq<AtomV> {
    s.map_values(|a: Atom| a@)
}

/// The views of a sequence of bonds.
pub open spec fn bonds_view(s: Seq<Bond>) -> Seq<BondV> {
    s.map_values(|b: Bond| b@)
}

impl View for Molecule {
    type V = MolV;

    open spec fn view(&self) -> MolV {
        MolV {
            mol_name: self.mol_name@,
            mol_comment: self.mol_comment@,
            n_c_tot: self.n_c_tot as nat,
            n_o_tot: self.n_o_tot as nat,
            n_n_tot: self.n_n_tot as nat,
            n_heavy: self.n_heavy as nat,
            heavy_bonds: self.heavy_bonds as nat,
            atoms: atoms_view(self.atoms@),
            bonds: bonds_view(self.bonds@),
        }
    }
}

/// How many atoms carry exactly this element symbol.
pub open spec fn count_elem(atoms: Seq<AtomV>, e: Seq<u8>) -> nat
    decreases atoms.len(),
{
    if atoms.len() == 0 {
        0
    } else {
        count_elem(atoms.drop_last(), e) + if atoms.last().element == e {
            1nat
        } else {
            0nat
        }
    }
}

/// How many atoms are heavy: every element symbol but exactly "H".
pub open spec fn count_heavy(atoms: Seq<AtomV>) -> nat
    decreases atoms.len(),
{
    if atoms.len() == 0 {
        0
    } else {
        count_heavy(atoms.drop_last()) + if atoms.last().element != seq![('H' as u8)] {
            1nat
        } else {
            0nat
        }
    }
}

/// How many bonds join two atoms whose heavy flags are set.
pub open spec fn count_heavy_bonds(atoms: Seq<AtomV>, bonds: Seq<BondV>) -> nat
    decreases bonds.len(),
{
    if bonds.len() == 0 {
        0
    } else {
        count_heavy_bonds(atoms, bonds.drop_last()) + {
            let b = bonds.last();
            if b.a1 < atoms.len() && b.a2 < atoms.len() && atoms[b.a1 as int].heavy
                && atoms[b.a2 as int].heavy {
                1nat
            } else {
                0nat
            }
        }
    }
}

/// How many bonds join two atoms whose element symbols are not "H",
/// judged from the element symbols alone.
pub open spec fn count_heavy_bonds_by_element(atoms: Seq<AtomV>, bonds: Seq<BondV>) -> nat
    decreases bonds.len(),
{
    if bonds.len() == 0 {
        0
    } else {
        count_heavy_bonds_by_element(atoms, bonds.drop_last()) + {
            let b = bonds.last();
            if b.a1 < atoms.len() && b.a2 < atoms.len() && atoms[b.a1 as int].element != seq![('H' as u8)]
                && atoms[b.a2 as int].element != seq![('H' as u8)] {
                1nat
            } else {
                0nat
            }
        }
    }
}

} // verus!
