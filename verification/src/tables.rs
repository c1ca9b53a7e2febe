//! Chemical property tables: valence, heavy-atom classification, and
//! atom-type normalization, each a total function over element symbols.
//!
//! The valence table expects upper-case codes ("CL", "NA") and refuses
//! an unknown symbol; the type table expects mixed-case codes ("Cl",
//! "Na") and maps an unknown symbol to the dummy-atom code "DU".

use vstd::prelude::*;

use crate::types::BondType;

verus! {

/// The valence of an element symbol, upper-case codes, or nothing for a
/// symbol outside the table.
pub open spec fn spec_valence(s: Seq<u8>) -> Option<usize> {
    if s == seq![('H' as u8)] {
        Some(1usize)
    } else if s == seq![('D' as u8)] {
        Some(1usize)
    } else if s == seq![('C' as u8)] {
        Some(4usize)
    } else if s == seq![('N' as u8)] {
        Some(3usize)
    } else if s == seq![('O' as u8)] {
        Some(2usize)
    } else if s == seq![('S' as u8)] {
        Some(2usize)
    } else if s == seq![('S' as u8), ('E' as u8)] {
        Some(2usize)
    } else if s == seq![('T' as u8), ('E' as u8)] {
        Some(2usize)
    } else if s == seq![('P' as u8)] {
        Some(3usize)
    } else if s == seq![('F' as u8)] {
        Some(1usize)
    } else if s == seq![('C' as u8), ('L' as u8)] {
        Some(1usize)
    } else if s == seq![('B' as u8), ('R' as u8)] {
        Some(1usize)
    } else if s == seq![('I' as u8)] {
        Some(1usize)
    } else if s == seq![('B' as u8)] {
        Some(3usize)
    } else if s == seq![('L' as u8), ('I' as u8)] {
        Some(1usize)
    } else if s == seq![('N' as u8), ('A' as u8)] {
        Some(1usize)
    } else if s == seq![('K' as u8)] {
        Some(1usize)
    } else if s == seq![('C' as u8), ('A' as u8)] {
        Some(2usize)
    } else if s == seq![('S' as u8), ('R' as u8)] {
        Some(2usize)
    } else if s == seq![('M' as u8), ('G' as u8)] {
        Some(2usize)
    } else if s == seq![('F' as u8), ('E' as u8)] {
        Some(3usize)
    } else if s == seq![('M' as u8), ('N' as u8)] {
        Some(2usize)
    } else if s == seq![('H' as u8), ('G' as u8)] {
        Some(2usize)
    } else if s == seq![('S' as u8), ('I' as u8)] {
        Some(4usize)
    } else if s == seq![('S' as u8), ('N' as u8)] {
        Some(4usize)
    } else if s == seq![('Z' as u8), ('N' as u8)] {
        Some(2usize)
    } else if s == seq![('C' as u8), ('U' as u8)] {
        Some(2usize)
    } else if s == seq![('A' as u8)] {
        Some(4usize)
    } else if s == seq![('Q' as u8)] {
        Some(4usize)
    } else {
        None
    }
}

/// Heavy means: not exactly the symbol "H".
pub open spec fn spec_heavy(s: Seq<u8>) -> bool {
    s != seq![('H' as u8)]
}

/// The normalized atom-type code of an element symbol, mixed-case
/// codes; an unknown symbol maps to the dummy-atom code "DU".
pub open spec fn spec_mdl_type(s: Seq<u8>) -> Seq<u8> {
    if s == seq![('H' as u8)] {
        seq![('H' as u8)]
    } else if s == seq![('C' as u8)] {
        seq![('C' as u8), ('3' as u8)]
    } else if s == seq![('O' as u8)] {
        seq![('O' as u8), ('2' as u8)]
    } else if s == seq![('N' as u8)] {
        seq![('N' as u8), ('3' as u8)]
    } else if s == seq![('F' as u8)] {
        seq![('F' as u8)]
    } else if s == seq![('C' as u8), ('l' as u8)] {
        seq![('C' as u8), ('L' as u8)]
    } else if s == seq![('B' as u8), ('r' as u8)] {
        seq![('B' as u8), ('R' as u8)]
    } else if s == seq![('I' as u8)] {
        seq![('I' as u8)]
    } else if s == seq![('A' as u8), ('l' as u8)] {
        seq![('A' as u8), ('L' as u8)]
    } else if s == seq![('A' as u8), ('N' as u8), ('Y' as u8)] {
        seq![('A' as u8)]
    } else if s == seq![('C' as u8), ('a' as u8)] {
        seq![('C' as u8), ('A' as u8)]
    } else if s == seq![('D' as u8), ('u' as u8)] {
        seq![('D' as u8), ('U' as u8)]
    } else if s == seq![('K' as u8)] {
        seq![('K' as u8)]
    } else if s == seq![('L' as u8), ('i' as u8)] {
        seq![('L' as u8), ('I' as u8)]
    } else if s == seq![('L' as u8), ('P' as u8)] {
        seq![('L' as u8), ('P' as u8)]
    } else if s == seq![('N' as u8), ('a' as u8)] {
        seq![('N' as u8), ('A' as u8)]
    } else if s == seq![('S' as u8)] {
        seq![('S' as u8), ('3' as u8)]
    } else if s == seq![('S' as u8), ('i' as u8)] {
        seq![('S' as u8), ('I' as u8)]
    } else if s == seq![('P' as u8)] {
        seq![('P' as u8), ('4' as u8)]
    } else if s == seq![('A' as u8)] {
        seq![('A' as u8)]
    } else if s == seq![('Q' as u8)] {
        seq![('Q' as u8)]
    } else {
        seq![('D' as u8), ('U' as u8)]
    }
}

/// The bond type of a bond-order code token, or nothing for a token
/// outside '1' ..= '9'.
pub open spec fn spec_bond_code(t: Seq<u8>) -> Option<BondType> {
    if t == seq![('1' as u8)] {
        Some(BondType::Single)
    } else if t == seq![('2' as u8)] {
        Some(BondType::Double)
    } else if t == seq![('3' as u8)] {
        Some(BondType::Triple)
    } else if t == seq![('4' as u8)] {
        Some(BondType::Aromatic)
    } else if t == seq![('5' as u8)] {
        Some(BondType::SingleOrDouble)
    } else if t == seq![('6' as u8)] {
        Some(BondType::SingleOrAromatic)
    } else if t == seq![('7' as u8)] {
        Some(BondType::DoubleOrAromatic)
    } else if t == seq![('8' as u8)] {
        Some(BondType::Any)
    } else if t == seq![('9' as u8)] {
        Some(BondType::Any)
    } else {
        None
    }
}

/// Is this byte vector the one-byte symbol `c0`?
pub(crate) fn eq1(s: &Vec<u8>, c0: u8) -> (r: bool)
    ensures
        r == (s@ == seq![c0]),
{
    if s.len() == 1 && s[0] == c0 {
        proof {
            assert(s@ =~= seq![c0]);
        }
        true
    } else {
        false
    }
}

/// Is this byte vector the two-byte symbol `c0 c1`?
fn eq2(s: &Vec<u8>, c0: u8, c1: u8) -> (r: bool)
    ensures
        r == (s@ == seq![c0, c1]),
{
    if s.len() == 2 && s[0] == c0 && s[1] == c1 {
        proof {
            assert(s@ =~= seq![c0, c1]);
        }
        true
    } else {
        false
    }
}

/// Is this byte vector the three-byte symbol `c0 c1 c2`?
fn eq3(s: &Vec<u8>, c0: u8, c1: u8, c2: u8) -> (r: bool)
    ensures
        r == (s@ == seq![c0, c1, c2]),
{
    if s.len() == 3 && s[0] == c0 && s[1] == c1 && s[2] == c2 {
        proof {
            assert(s@ =~= seq![c0, c1, c2]);
        }
        true
    } else {
        false
    }
}

/// A fresh one-byte vector.
fn bytes1(c0: u8) -> (r: Vec<u8>)
    ensures
        r@ == seq![c0],
{
    let mut r: Vec<u8> = Vec::new();
    r.push(c0);
    proof {
        assert(r@ =~= seq![c0]);
    }
    r
}

/// A fresh two-byte vector.
fn bytes2(c0: u8, c1: u8) -> (r: Vec<u8>)
    ensures
        r@ == seq![c0, c1],
{
    let mut r: Vec<u8> = Vec::new();
    r.push(c0);
    r.push(c1);
    proof {
        assert(r@ =~= seq![c0, c1]);
    }
    r
}

/// The valence count of an upper-case element symbol, or `None` for an
/// unsupported element, as `spec_valence` describes.
pub fn get_valence(elem: &Vec<u8>) -> (r: Option<usize>)
    ensures
        r == spec_valence(elem@),
{
    if eq1(elem, ('H' as u8)) {
        Some(1)
    } else if eq1(elem, ('D' as u8)) {
        Some(1)
    } else if eq1(elem, ('C' as u8)) {
        Some(4)
    } else if eq1(elem, ('N' as u8)) {
        Some(3)
    } else if eq1(elem, ('O' as u8)) {
        Some(2)
    } else if eq1(elem, ('S' as u8)) {
        Some(2)
    } else if eq2(elem, ('S' as u8), ('E' as u8)) {
        Some(2)
    } else if eq2(elem, ('T' as u8), ('E' as u8)) {
        Some(2)
    } else if eq1(elem, ('P' as u8)) {
        Some(3)
    } else if eq1(elem, ('F' as u8)) {
        Some(1)
    } else if eq2(elem, ('C' as u8), ('L' as u8)) {
        Some(1)
    } else if eq2(elem, ('B' as u8), ('R' as u8)) {
        Some(1)
    } else if eq1(elem, ('I' as u8)) {
        Some(1)
    } else if eq1(elem, ('B' as u8)) {
        Some(3)
    } else if eq2(elem, ('L' as u8), ('I' as u8)) {
        Some(1)
    } else if eq2(elem, ('N' as u8), ('A' as u8)) {
        Some(1)
    } else if eq1(elem, ('K' as u8)) {
        Some(1)
    } else if eq2(elem, ('C' as u8), ('A' as u8)) {
        Some(2)
    } else if eq2(elem, ('S' as u8), ('R' as u8)) {
        Some(2)
    } else if eq2(elem, ('M' as u8), ('G' as u8)) {
        Some(2)
    } else if eq2(elem, ('F' as u8), ('E' as u8)) {
        Some(3)
    } else if eq2(elem, ('M' as u8), ('N' as u8)) {
        Some(2)
    } else if eq2(elem, ('H' as u8), ('G' as u8)) {
        Some(2)
    } else if eq2(elem, ('S' as u8), ('I' as u8)) {
        Some(4)
    } else if eq2(elem, ('S' as u8), ('N' as u8)) {
        Some(4)
    } else if eq2(elem, ('Z' as u8), ('N' as u8)) {
        Some(2)
    } else if eq2(elem, ('C' as u8), ('U' as u8)) {
        Some(2)
    } else if eq1(elem, ('A' as u8)) {
        Some(4)
    } else if eq1(elem, ('Q' as u8)) {
        Some(4)
    } else {
        None
    }
}

/// Whether an element symbol counts as a heavy atom: every symbol but
/// exactly "H", as `spec_heavy` describes.
pub fn is_heavy_atom(elem: &Vec<u8>) -> (r: bool)
    ensures
        r == spec_heavy(elem@),
{
    !eq1(elem, ('H' as u8))
}

/// The normalized atom-type code of a mixed-case element symbol, the
/// dummy-atom code "DU" for an unlisted one, as `spec_mdl_type`
/// describes.
pub fn convert_mdl_type(elem: &Vec<u8>) -> (r: Vec<u8>)
    ensures
        r@ == spec_mdl_type(elem@),
{
    if eq1(elem, ('H' as u8)) {
        bytes1(('H' as u8))
    } else if eq1(elem, ('C' as u8)) {
        bytes2(('C' as u8), ('3' as u8))
    } else if eq1(elem, ('O' as u8)) {
        bytes2(('O' as u8), ('2' as u8))
    } else if eq1(elem, ('N' as u8)) {
        bytes2(('N' as u8), ('3' as u8))
    } else if eq1(elem, ('F' as u8)) {
        bytes1(('F' as u8))
    } else if eq2(elem, ('C' as u8), ('l' as u8)) {
        bytes2(('C' as u8), ('L' as u8))
    } else if eq2(elem, ('B' as u8), ('r' as u8)) {
        bytes2(('B' as u8), ('R' as u8))
    } else if eq1(elem, ('I' as u8)) {
        bytes1(('I' as u8))
    } else if eq2(elem, ('A' as u8), ('l' as u8)) {
        bytes2(('A' as u8), ('L' as u8))
    } else if eq3(elem, ('A' as u8), ('N' as u8), ('Y' as u8)) {
        bytes1(('A' as u8))
    } else if eq2(elem, ('C' as u8), ('a' as u8)) {
        bytes2(('C' as u8), ('A' as u8))
    } else if eq2(elem, ('D' as u8), ('u' as u8)) {
        bytes2(('D' as u8), ('U' as u8))
    } else if eq1(elem, ('K' as u8)) {
        bytes1(('K' as u8))
    } else if eq2(elem, ('L' as u8), ('i' as u8)) {
        bytes2(('L' as u8), ('I' as u8))
    } else if eq2(elem, ('L' as u8), ('P' as u8)) {
        bytes2(('L' as u8), ('P' as u8))
    } else if eq2(elem, ('N' as u8), ('a' as u8)) {
        bytes2(('N' as u8), ('A' as u8))
    } else if eq1(elem, ('S' as u8)) {
        bytes2(('S' as u8), ('3' as u8))
    } else if eq2(elem, ('S' as u8), ('i' as u8)) {
        bytes2(('S' as u8), ('I' as u8))
    } else if eq1(elem, ('P' as u8)) {
        bytes2(('P' as u8), ('4' as u8))
    } else if eq1(elem, ('A' as u8)) {
        bytes1(('A' as u8))
    } else if eq1(elem, ('Q' as u8)) {
        bytes1(('Q' as u8))
    } else {
        bytes2(('D' as u8), ('U' as u8))
    }
}

/// The bond type of a bond-order code token, or `None` for a token
/// outside '1' ..= '9', as `spec_bond_code` describes.
pub fn bond_type_of_code(t: &Vec<u8>) -> (r: Option<BondType>)
    ensures
        r == spec_bond_code(t@),
{
    if eq1(t, ('1' as u8)) {
        Some(BondType::Single)
    } else if eq1(t, ('2' as u8)) {
        Some(BondType::Double)
    } else if eq1(t, ('3' as u8)) {
        Some(BondType::Triple)
    } else if eq1(t, ('4' as u8)) {
        Some(BondType::Aromatic)
    } else if eq1(t, ('5' as u8)) {
        Some(BondType::SingleOrDouble)
    } else if eq1(t, ('6' as u8)) {
        Some(BondType::SingleOrAromatic)
    } else if eq1(t, ('7' as u8)) {
        Some(BondType::DoubleOrAromatic)
    } else if eq1(t, ('8' as u8)) {
        Some(BondType::Any)
    } else if eq1(t, ('9' as u8)) {
        Some(BondType::Any)
    } else {
        None
    }
}

} // verus!
