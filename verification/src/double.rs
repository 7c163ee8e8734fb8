//! Magasin en memoire volontairement simple : un journal trie par
//! chronotope ouvert, et la suite des chronotopes scelles rangee par
//! `(salle, tick, cellule)`. Il respecte le contrat commun (une ecriture
//! apres le sceau est refusee, sceller est idempotent), adresse toutes les
//! salles et cellules, et ne perime rien.

use vstd::prelude::*;
use std::collections::HashMap;
use crossbeam_channel::Receiver;
use crate::canonique::{canonique, inserer_lww, lww, trie_strict};
use crate::cle::{cle, cle_de, lemme_cle, precede};
use crate::diffusion::{Diffuseur, VueAbonnement};
use crate::store::{cellules_scellees, ChronotopeStore, EtatChrono};
use crate::types::{CellId, Chronotope, EntityId, RoomId, Tick, WriteError};

verus! {

broadcast use vstd::std_specs::hash::group_hash_axioms;

/// La cle d'un chronotope.
pub open spec fn cle_chrono<P>(c: Chronotope<P>) -> u128 {
    cle(c.room.0, c.cell.0, c.tick.0)
}

/// Suite de chronotopes strictement croissante par cle.
pub open spec fn range_par_cle<P>(s: Seq<Chronotope<P>>) -> bool {
    forall|i: int, j: int| 0 <= i < j < s.len() ==> cle_chrono(s[i]) < cle_chrono(s[j])
}

/// Le chronotope de cle `k` dans `s`, s'il y figure.
pub open spec fn sceau_de<P>(s: Seq<Chronotope<P>>, k: u128) -> Option<Chronotope<P>> {
    if exists|i: int| 0 <= i < s.len() && cle_chrono(s[i]) == k {
        Some(s[choose|i: int| 0 <= i < s.len() && cle_chrono(s[i]) == k])
    } else {
        None
    }
}

/// Dans une suite rangee par cle, le chronotope de cle `k` est celui a
/// l'indice qui porte `k`.
proof fn lemme_sceau_unique<P>(s: Seq<Chronotope<P>>, k: u128, i: int)
    requires
        range_par_cle(s),
        0 <= i < s.len(),
        cle_chrono(s[i]) == k,
    ensures
        sceau_de(s, k) == Some(s[i]),
{
    let j = choose|j: int| 0 <= j < s.len() && cle_chrono(s[j]) == k;
    if j < i {
        assert(cle_chrono(s[j]) < cle_chrono(s[i]));
    } else if i < j {
        assert(cle_chrono(s[i]) < cle_chrono(s[j]));
    }
}

/// Le magasin en memoire.
#[verifier::reject_recursive_types(P)]
pub struct StoreMemoire<P> {
    ouverts: HashMap<u128, Vec<(EntityId, P)>>,
    scelles: Vec<Chronotope<P>>,
    diffuseur: Diffuseur<P>,
}

impl<P: Copy> StoreMemoire<P> {
    /// Les abonnements aux sceaux, dans l'ordre d'inscription.
    pub closed spec fn abonnements_inscrits(&self) -> Seq<VueAbonnement<P>> {
        self.diffuseur.vue()
    }

    /// Le numero du prochain abonnement.
    pub closed spec fn numero_suivant(&self) -> nat {
        self.diffuseur.prochain@
    }

    /// Le chronotope scelle sous la cle `k`, s'il y en a un.
    pub closed spec fn sceau(&self, k: u128) -> Option<Chronotope<P>> {
        sceau_de(self.scelles@, k)
    }

    /// Contenu du journal ouvert sous la cle `k`.
    pub closed spec fn ouvert(&self, k: u128) -> Map<u32, P> {
        if self.ouverts@.contains_key(k) {
            lww(self.ouverts@[k]@)
        } else {
            Map::empty()
        }
    }

    /// Invariant : chronotopes scelles ranges par cle, scelles, et tries ;
    /// journaux ouverts tries.
    pub closed spec fn coherent(&self) -> bool {
        &&& range_par_cle(self.scelles@)
        &&& forall|i: int|
            #![trigger self.scelles@[i]]
            0 <= i < self.scelles@.len() ==> self.scelles@[i].sealed && trie_strict(self.scelles@[i].entities@)
        &&& forall|k: u128| #[trigger] self.ouverts@.contains_key(k) ==> trie_strict(self.ouverts@[k]@)
        &&& self.diffuseur.bien_forme()
    }

    /// Un magasin vide.
    pub fn new() -> (s: StoreMemoire<P>)
        ensures
            s.coherent(),
            forall|r: u32, c: u32, t: u64| #[trigger] s.etat(r, c, t) == EtatChrono::<P>::Ouvert(Map::empty()),
    {
        StoreMemoire { ouverts: HashMap::new(), scelles: Vec::new(), diffuseur: Diffuseur::new() }
    }

    /// Recherche dichotomique de la cle `k` parmi les chronotopes scelles :
    /// `(true, i)` si `scelles[i]` la porte, sinon `(false, i)` ou `i` est
    /// la place ou l'inserer.
    fn chercher(&self, k: u128) -> (r: (bool, usize))
        requires
            self.coherent(),
        ensures
            r.1 <= self.scelles@.len(),
            r.0 ==> r.1 < self.scelles@.len() && cle_chrono(self.scelles@[r.1 as int]) == k,
            !r.0 ==> forall|i: int| 0 <= i < self.scelles@.len() ==> (#[trigger] cle_chrono(self.scelles@[i]) < k <==> i < r.1),
            !r.0 ==> forall|i: int| 0 <= i < self.scelles@.len() ==> #[trigger] cle_chrono(self.scelles@[i]) != k,
    {
        let mut bas: usize = 0;
        let mut haut: usize = self.scelles.len();
        while bas < haut
            invariant
                bas <= haut <= self.scelles@.len(),
                range_par_cle(self.scelles@),
                forall|i: int| 0 <= i < bas ==> #[trigger] cle_chrono(self.scelles@[i]) < k,
                forall|i: int| haut <= i < self.scelles@.len() ==> #[trigger] cle_chrono(self.scelles@[i]) > k,
            decreases haut - bas,
        {
            let milieu = bas + (haut - bas) / 2;
            let c = &self.scelles[milieu];
            let km = cle_de(c.room, c.cell, c.tick);
            if km == k {
                return (true, milieu);
            } else if km < k {
                bas = milieu + 1;
            } else {
                haut = milieu;
            }
        }
        (false, bas)
    }

    /// Tous les chronotopes scelles, ranges par `(salle, tick, cellule)`.
    pub fn scelles(&self) -> (v: Vec<Chronotope<P>>)
        requires
            self.coherent(),
        ensures
            forall|i: int, j: int|
                0 <= i < j < v@.len() ==> precede(
                    v@[i].room.0,
                    v@[i].cell.0,
                    v@[i].tick.0,
                    v@[j].room.0,
                    v@[j].cell.0,
                    v@[j].tick.0,
                ),
            forall|i: int|
                #![trigger v@[i]]
                0 <= i < v@.len() ==> {
                    let e = self.etat(v@[i].room.0, v@[i].cell.0, v@[i].tick.0);
                    &&& v@[i].sealed
                    &&& e is Scelle
                    &&& canonique(v@[i].entities@, e.contenu())
                },
            forall|r: u32, c: u32, t: u64|
                #[trigger] self.etat(r, c, t) is Scelle ==> exists|i: int|
                    0 <= i < v@.len() && v@[i].room.0 == r && v@[i].cell.0 == c && v@[i].tick.0 == t,
    {
        let mut v: Vec<Chronotope<P>> = Vec::with_capacity(self.scelles.len());
        let mut i: usize = 0;
        while i < self.scelles.len()
            invariant
                i <= self.scelles@.len(),
                self.coherent(),
                v@.len() == i,
                forall|j: int|
                    #![trigger v@[j]]
                    0 <= j < i ==> {
                        &&& v@[j].room == self.scelles@[j].room
                        &&& v@[j].cell == self.scelles@[j].cell
                        &&& v@[j].tick == self.scelles@[j].tick
                        &&& v@[j].sealed == self.scelles@[j].sealed
                        &&& v@[j].entities@ == self.scelles@[j].entities@
                    },
            decreases self.scelles.len() - i,
        {
            v.push(self.scelles[i].copie());
            i = i + 1;
        }
        proof {
            let s = self.scelles@;
            assert forall|i: int, j: int| 0 <= i < j < v@.len() implies precede(
                v@[i].room.0,
                v@[i].cell.0,
                v@[i].tick.0,
                v@[j].room.0,
                v@[j].cell.0,
                v@[j].tick.0,
            ) by {
                assert(cle_chrono(s[i]) < cle_chrono(s[j]));
                assert(v@[i].room == s[i].room && v@[j].room == s[j].room);
                lemme_cle(s[i].room.0, s[i].cell.0, s[i].tick.0, s[j].room.0, s[j].cell.0, s[j].tick.0);
            }
            assert forall|i: int| #![trigger v@[i]] 0 <= i < v@.len() implies {
                let e = self.etat(v@[i].room.0, v@[i].cell.0, v@[i].tick.0);
                &&& v@[i].sealed
                &&& e is Scelle
                &&& canonique(v@[i].entities@, e.contenu())
            } by {
                assert(v@[i].room == s[i].room);
                lemme_sceau_unique(s, cle_chrono(s[i]), i);
            }
            assert forall|r: u32, c: u32, t: u64| #[trigger] self.etat(r, c, t) is Scelle implies exists|i: int|
                0 <= i < v@.len() && v@[i].room.0 == r && v@[i].cell.0 == c && v@[i].tick.0 == t by {
                let k = cle(r, c, t);
                let i = choose|i: int| 0 <= i < s.len() && cle_chrono(s[i]) == k;
                lemme_cle(r, c, t, s[i].room.0, s[i].cell.0, s[i].tick.0);
                assert(v@[i].room == s[i].room);
            }
        }
        v
    }
}

impl<P: Copy> Default for StoreMemoire<P> {
    /// Un magasin vide.
    fn default() -> (s: StoreMemoire<P>)
        ensures
            s.coherent(),
            forall|r: u32, c: u32, t: u64| #[trigger] s.etat(r, c, t) == EtatChrono::<P>::Ouvert(Map::empty()),
    {
        StoreMemoire::new()
    }
}

impl<P: Copy> ChronotopeStore<P> for StoreMemoire<P> {
    open spec fn bien_forme(&self) -> bool {
        self.coherent()
    }

    open spec fn abonnements(&self) -> Seq<VueAbonnement<P>> {
        self.abonnements_inscrits()
    }

    open spec fn prochain_abonne(&self) -> nat {
        self.numero_suivant()
    }

    open spec fn rediffuse() -> bool {
        false
    }

    open spec fn domaine(&self, room: u32, cell: u32) -> bool {
        true
    }

    open spec fn etat(&self, room: u32, cell: u32, tick: u64) -> EtatChrono<P> {
        match self.sceau(cle(room, cell, tick)) {
            Some(c) => EtatChrono::Scelle(lww(c.entities@)),
            None => EtatChrono::Ouvert(self.ouvert(cle(room, cell, tick))),
        }
    }

    fn ecrire(&mut self, room: RoomId, cell: CellId, tick: Tick, entity: EntityId, pose: P) -> (r: Result<(), WriteError>) {
        let k = cle_de(room, cell, tick);
        let (trouve, i) = self.chercher(k);
        if trouve {
            proof {
                lemme_sceau_unique(self.scelles@, k, i as int);
            }
            return Err(WriteError::AlreadySealed(room, cell, tick));
        }
        let ghost avant = *self;
        let mut journal: Vec<(EntityId, P)> = match self.ouverts.remove(&k) {
            Some(j) => j,
            None => Vec::new(),
        };
        assert(lww(journal@) == avant.ouvert(k));
        inserer_lww(&mut journal, entity, pose);
        self.ouverts.insert(k, journal);
        proof {
            assert forall|a: u32, b: u32, t: u64|
                !(a == room.0 && b == cell.0 && t == tick.0) implies avant.etat(a, b, t).suite_admissible(
                #[trigger] self.etat(a, b, t),
            ) by {
                lemme_cle(a, b, t, room.0, cell.0, tick.0);
            }
        }
        Ok(())
    }

    fn sceller(&mut self, room: RoomId, cell: CellId, tick: Tick) -> (c: Chronotope<P>) {
        let k = cle_de(room, cell, tick);
        let (trouve, i) = self.chercher(k);
        if trouve {
            proof {
                lemme_sceau_unique(self.scelles@, k, i as int);
                let s = self.scelles@[i as int];
                lemme_cle(room.0, cell.0, tick.0, s.room.0, s.cell.0, s.tick.0);
            }
            return self.scelles[i].copie();
        }
        let ghost avant = *self;
        let entities: Vec<(EntityId, P)> = match self.ouverts.remove(&k) {
            Some(j) => j,
            None => Vec::new(),
        };
        assert(lww(entities@) == avant.ouvert(k));
        let chrono = Chronotope { room, cell, tick, sealed: true, entities };
        self.scelles.insert(i, chrono.copie());
        self.diffuseur.diffuser(&chrono);
        proof {
            let s0 = avant.scelles@;
            let s1 = self.scelles@;
            assert(range_par_cle(s1)) by {
                assert forall|a: int, b: int| 0 <= a < b < s1.len() implies cle_chrono(s1[a]) < cle_chrono(s1[b]) by {
                    if b < i {
                        assert(s1[a] == s0[a] && s1[b] == s0[b]);
                    } else if b == i {
                        assert(s1[a] == s0[a]);
                    } else if a < i {
                        assert(s1[a] == s0[a] && s1[b] == s0[b - 1]);
                    } else if a == i {
                        assert(s1[b] == s0[b - 1]);
                    } else {
                        assert(s1[a] == s0[a - 1] && s1[b] == s0[b - 1]);
                    }
                }
            }
            assert forall|j: int| #![trigger s1[j]] 0 <= j < s1.len() implies s1[j].sealed && trie_strict(s1[j].entities@) by {
                if j < i {
                    assert(s1[j] == s0[j]);
                } else if j > i {
                    assert(s1[j] == s0[j - 1]);
                }
            }
            lemme_sceau_unique(s1, k, i as int);
            assert forall|a: u32, b: u32, t: u64|
                !(a == room.0 && b == cell.0 && t == tick.0) implies avant.etat(a, b, t).suite_admissible(
                #[trigger] self.etat(a, b, t),
            ) by {
                lemme_cle(a, b, t, room.0, cell.0, tick.0);
                let ka = cle(a, b, t);
                if exists|j: int| 0 <= j < s0.len() && cle_chrono(s0[j]) == ka {
                    let j = choose|j: int| 0 <= j < s0.len() && cle_chrono(s0[j]) == ka;
                    lemme_sceau_unique(s0, ka, j);
                    if j < i {
                        assert(s1[j] == s0[j]);
                        lemme_sceau_unique(s1, ka, j);
                    } else {
                        assert(s1[j + 1] == s0[j]);
                        lemme_sceau_unique(s1, ka, j + 1);
                    }
                } else {
                    if exists|j: int| 0 <= j < s1.len() && cle_chrono(s1[j]) == ka {
                        let j = choose|j: int| 0 <= j < s1.len() && cle_chrono(s1[j]) == ka;
                        if j < i {
                            assert(s1[j] == s0[j]);
                        } else if j > i {
                            assert(s1[j] == s0[j - 1]);
                        }
                    }
                }
            }
        }
        chrono
    }

    fn lire(&self, room: RoomId, cells: &[CellId], tick: Tick) -> (v: Vec<Chronotope<P>>) {
        let ghost etat = |c: u32| self.etat(room.0, c, tick.0);
        let mut v: Vec<Chronotope<P>> = Vec::new();
        let mut i: usize = 0;
        while i < cells.len()
            invariant
                i <= cells.len(),
                self.coherent(),
                etat == (|c: u32| self.etat(room.0, c, tick.0)),
                v@.len() == cellules_scellees(etat, cells@.take(i as int)).len(),
                forall|j: int|
                    #![trigger v@[j]]
                    0 <= j < v@.len() ==> {
                        let c = cellules_scellees(etat, cells@.take(i as int))[j];
                        &&& v@[j].room == room
                        &&& v@[j].cell == c
                        &&& v@[j].tick == tick
                        &&& v@[j].sealed
                        &&& canonique(v@[j].entities@, self.etat(room.0, c.0, tick.0).contenu())
                    },
            decreases cells.len() - i,
        {
            let cell = cells[i];
            let ghost prefixe = cells@.take(i as int);
            let ghost avant = v@;
            proof {
                assert(cells@.take(i as int + 1).drop_last() =~= prefixe);
                assert(cells@.take(i as int + 1).last() == cell);
                reveal_with_fuel(Seq::<_>::filter, 1);
            }
            let k = cle_de(room, cell, tick);
            let (lisible, p) = self.chercher(k);
            if lisible {
                let c = self.scelles[p].copie();
                proof {
                    lemme_sceau_unique(self.scelles@, k, p as int);
                    let s = self.scelles@[p as int];
                    lemme_cle(room.0, cell.0, tick.0, s.room.0, s.cell.0, s.tick.0);
                }
                v.push(c);
            }
            proof {
                assert(lisible == (etat(cell.0) is Scelle));
                if lisible {
                    assert(cellules_scellees(etat, cells@.take(i as int + 1)) =~= cellules_scellees(etat, prefixe).push(cell));
                    assert forall|j: int| 0 <= j < avant.len() implies v@[j] == avant[j] by {}
                } else {
                    assert(cellules_scellees(etat, cells@.take(i as int + 1)) =~= cellules_scellees(etat, prefixe));
                }
            }
            i = i + 1;
        }
        proof {
            assert(cells@.take(cells.len() as int) =~= cells@);
        }
        v
    }

    fn observer(&mut self, room: RoomId, cells: &[CellId]) -> (rx: Receiver<Chronotope<P>>) {
        let ghost avant = *self;
        let rx = self.diffuseur.abonner(room, cells);
        proof {
            assert forall|a: u32, b: u32, t: u64| #[trigger] self.etat(a, b, t) == avant.etat(a, b, t) by {}
        }
        rx
    }
}

} // verus!
