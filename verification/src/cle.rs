//! Cle d'un chronotope sur 128 bits : `(salle, tick, cellule)` empaquetes,
//! dans cet ordre de poids, de sorte que l'ordre des cles soit l'ordre
//! lexicographique de ces triplets.

use vstd::prelude::*;
use crate::types::{CellId, RoomId, Tick};

verus! {

/// 2^96, le poids de la salle.
pub open spec fn poids_salle() -> int {
    0x1_0000_0000_0000_0000_0000_0000
}

/// 2^32, le poids du tick.
pub open spec fn poids_tick() -> int {
    0x1_0000_0000
}

/// Valeur entiere de la cle de `(room, cell, tick)`.
pub open spec fn cle_entiere(room: u32, cell: u32, tick: u64) -> int {
    room as int * poids_salle() + tick as int * poids_tick() + cell as int
}

/// La cle de `(room, cell, tick)`.
pub open spec fn cle(room: u32, cell: u32, tick: u64) -> u128 {
    cle_entiere(room, cell, tick) as u128
}

/// `(r1, t1, c1)` precede strictement `(r2, t2, c2)` dans l'ordre
/// lexicographique.
pub open spec fn precede(r1: u32, c1: u32, t1: u64, r2: u32, c2: u32, t2: u64) -> bool {
    ||| r1 < r2
    ||| r1 == r2 && t1 < t2
    ||| r1 == r2 && t1 == t2 && c1 < c2
}

/// La cle tient sur 128 bits, deux triplets distincts ont des cles
/// distinctes, et l'ordre des cles est l'ordre lexicographique.
pub proof fn lemme_cle(r1: u32, c1: u32, t1: u64, r2: u32, c2: u32, t2: u64)
    ensures
        0 <= cle_entiere(r1, c1, t1) <= u128::MAX,
        cle(r1, c1, t1) as int == cle_entiere(r1, c1, t1),
        cle(r1, c1, t1) == cle(r2, c2, t2) <==> (r1 == r2 && c1 == c2 && t1 == t2),
        cle(r1, c1, t1) < cle(r2, c2, t2) <==> precede(r1, c1, t1, r2, c2, t2),
{
    assert(0 <= cle_entiere(r1, c1, t1) <= u128::MAX) by (nonlinear_arith)
        requires
            0 <= r1 <= u32::MAX,
            0 <= c1 <= u32::MAX,
            0 <= t1 <= u64::MAX,
    ;
    assert(0 <= cle_entiere(r2, c2, t2) <= u128::MAX) by (nonlinear_arith)
        requires
            0 <= r2 <= u32::MAX,
            0 <= c2 <= u32::MAX,
            0 <= t2 <= u64::MAX,
    ;
    let b1 = t1 as int * poids_tick() + c1 as int;
    let b2 = t2 as int * poids_tick() + c2 as int;
    assert(0 <= b1 < poids_salle());
    assert(0 <= b2 < poids_salle());
    if r1 < r2 {
        assert(r1 as int * poids_salle() + poids_salle() <= r2 as int * poids_salle()) by (nonlinear_arith)
            requires
                r1 < r2,
        ;
    } else if r2 < r1 {
        assert(r2 as int * poids_salle() + poids_salle() <= r1 as int * poids_salle()) by (nonlinear_arith)
            requires
                r2 < r1,
        ;
    } else if t1 < t2 {
        assert(t1 as int * poids_tick() + poids_tick() <= t2 as int * poids_tick()) by (nonlinear_arith)
            requires
                t1 < t2,
        ;
    } else if t2 < t1 {
        assert(t2 as int * poids_tick() + poids_tick() <= t1 as int * poids_tick()) by (nonlinear_arith)
            requires
                t2 < t1,
        ;
    }
}

/// La cle de `(room, cell, tick)`.
pub fn cle_de(room: RoomId, cell: CellId, tick: Tick) -> (k: u128)
    ensures
        k == cle(room.0, cell.0, tick.0),
{
    proof {
        lemme_cle(room.0, cell.0, tick.0, room.0, cell.0, tick.0);
    }
    (room.0 as u128) * 0x1_0000_0000_0000_0000_0000_0000 + (tick.0 as u128) * 0x1_0000_0000 + (cell.0 as u128)
}

} // verus!
