//! Placement des cellules sur les noeuds de simulation.

use vstd::prelude::*;
use crate::types::CellId;

verus! {

/// Le noeud d'une cellule parmi `nb_noeuds` : le reste de son numero.
pub open spec fn noeud_de(cell: u32, nb_noeuds: usize) -> int {
    cell as int % nb_noeuds as int
}

/// Noeud proprietaire d'une cellule : placement modulo, pour que deux
/// cellules voisines tombent sur deux noeuds differents.
pub fn noeud_de_cellule(cell: CellId, nb_noeuds: usize) -> (n: u32)
    requires
        nb_noeuds > 0,
    ensures
        n == noeud_de(cell.0, nb_noeuds),
        (n as int) < nb_noeuds,
{
    let r: usize = cell.0 as usize % nb_noeuds;
    proof {
        let x = cell.0 as int;
        let n = nb_noeuds as int;
        assert(x % n <= x) by (nonlinear_arith)
            requires
                x >= 0,
                n > 0,
        ;
    }
    r as u32
}

/// Deux cellules consecutives tombent sur deux noeuds differents des qu'il
/// y a plus d'un noeud (le noeud rendu par `noeud_de_cellule` est le reste
/// du numero de cellule par le nombre de noeuds).
pub proof fn loi_voisines_sur_noeuds_distincts(c: u32, nb_noeuds: usize)
    requires
        nb_noeuds > 1,
        c < u32::MAX,
    ensures
        noeud_de(c, nb_noeuds) != noeud_de((c + 1) as u32, nb_noeuds),
        0 <= noeud_de(c, nb_noeuds) < nb_noeuds,
{
    let n = nb_noeuds as int;
    assert((c + 1) as int % n == if c as int % n + 1 == n { 0 } else { c as int % n + 1 }) by (nonlinear_arith)
        requires
            n > 1,
            c >= 0,
    ;
}

} // verus!
