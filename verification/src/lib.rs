//! Parser for molfile-style chemical connection tables.
//!
//! The input is a line-oriented text: a name line, a reserved line, a
//! comment line, a counts line, then one line per atom and one line per
//! bond.  `Molecule::load` turns such a text into a molecular graph and
//! derives the chemical attributes (valence, heavy-atom classification,
//! normalized atom type) from lookup tables over element symbols.

pub mod laws;
pub mod num;
pub mod parse;
pub mod scan;
pub mod tables;
pub mod types;

pub use crate::num::Decimal;
pub use crate::tables::{bond_type_of_code, convert_mdl_type, get_valence, is_heavy_atom};
pub use crate::types::{Atom, Bond, BondType, MolError, Molecule};
