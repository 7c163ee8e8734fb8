//! Magasin temoin "a ligne" : une pose par couple (cle, entite), rangee
//! dans des tables de hachage, plus un index `cle -> entites` entretenu a
//! l'insertion d'une ligne neuve. Il respecte le meme contrat que le moteur
//! (scellement, refus des ecritures apres coup) ; seule la structure de
//! stockage differe. Il adresse toutes les salles et cellules, et ne perime
//! rien.

use vstd::prelude::*;
use std::collections::{HashMap, HashSet};
use crossbeam_channel::Receiver;
use crate::canonique::{canonique, inserer_lww, lww, trie_strict};
use crate::cle::{cle, cle_de, lemme_cle};
use crate::diffusion::{Diffuseur, VueAbonnement};
use crate::store::{cellules_scellees, ChronotopeStore, EtatChrono};
use crate::types::{CellId, Chronotope, EntityId, RoomId, Tick, WriteError};

verus! {

broadcast use vstd::std_specs::hash::group_hash_axioms;

/// Un index d'entites est exact pour un contenu : sans doublon, et il
/// nomme exactement les entites du contenu.
pub open spec fn index_exact<P>(idx: Seq<EntityId>, m: Map<u32, P>) -> bool {
    &&& forall|i: int, j: int| 0 <= i < j < idx.len() ==> idx[i].0 != idx[j].0
    &&& forall|e: u32| #[trigger] m.contains_key(e) <==> exists|i: int| 0 <= i < idx.len() && idx[i].0 == e
}

/// Les paires de `m` dont l'entite figure parmi les `n` premieres de `idx`.
pub open spec fn deja_pris<P>(idx: Seq<EntityId>, m: Map<u32, P>, n: int) -> Map<u32, P> {
    Map::new(|e: u32| m.contains_key(e) && exists|j: int| 0 <= j < n && idx[j].0 == e, |e: u32| m[e])
}

/// Inscrire une pose garde l'index exact, l'entite ajoutee a l'index si
/// elle est nouvelle.
proof fn lemme_index_inscription<P>(ix: Seq<EntityId>, m: Map<u32, P>, e: EntityId, p: P)
    requires
        index_exact(ix, m),
    ensures
        !m.contains_key(e.0) ==> index_exact(ix.push(e), m.insert(e.0, p)),
        m.contains_key(e.0) ==> index_exact(ix, m.insert(e.0, p)),
{
    let m2 = m.insert(e.0, p);
    if !m.contains_key(e.0) {
        let ix2 = ix.push(e);
        assert forall|i: int, j: int| 0 <= i < j < ix2.len() implies ix2[i].0 != ix2[j].0 by {
            if j == ix.len() {
                if ix2[i].0 == e.0 {
                    assert(ix[i].0 == e.0);
                }
            }
        }
        assert forall|f: u32| #[trigger] m2.contains_key(f) <==> exists|i: int| 0 <= i < ix2.len() && ix2[i].0 == f by {
            if f == e.0 {
                assert(ix2[ix.len() as int].0 == f);
            } else {
                if m2.contains_key(f) {
                    assert(m.contains_key(f));
                    let i = choose|i: int| 0 <= i < ix.len() && ix[i].0 == f;
                    assert(ix2[i].0 == f);
                }
                if exists|i: int| 0 <= i < ix2.len() && ix2[i].0 == f {
                    let i = choose|i: int| 0 <= i < ix2.len() && ix2[i].0 == f;
                    assert(ix[i].0 == f);
                    assert(m.contains_key(f));
                }
            }
        }
    } else {
        assert forall|f: u32| #[trigger] m2.contains_key(f) <==> exists|i: int| 0 <= i < ix.len() && ix[i].0 == f by {
            if f != e.0 {
                assert(m2.contains_key(f) == m.contains_key(f));
            }
        }
    }
}

/// Le magasin a ligne.
#[verifier::reject_recursive_types(P)]
pub struct NaiveRowStore<P> {
    lignes: HashMap<u128, HashMap<u32, P>>,
    index: HashMap<u128, Vec<EntityId>>,
    scelles: HashSet<u128>,
    diffuseur: Diffuseur<P>,
}

impl<P: Copy> NaiveRowStore<P> {
    /// Les abonnements aux sceaux, dans l'ordre d'inscription.
    pub closed spec fn abonnements_inscrits(&self) -> Seq<VueAbonnement<P>> {
        self.diffuseur.vue()
    }

    /// Le numero du prochain abonnement.
    pub closed spec fn numero_suivant(&self) -> nat {
        self.diffuseur.prochain@
    }

    /// Les poses retenues sous la cle `k`.
    pub closed spec fn contenu_cle(&self, k: u128) -> Map<u32, P> {
        if self.lignes@.contains_key(k) {
            self.lignes@[k]@
        } else {
            Map::empty()
        }
    }

    /// La cle `k` est scellee.
    pub closed spec fn scelle_cle(&self, k: u128) -> bool {
        self.scelles@.contains(k)
    }

    /// Invariant : l'index nomme exactement les entites de chaque cle.
    pub closed spec fn coherent(&self) -> bool {
        &&& self.index@.dom() == self.lignes@.dom()
        &&& forall|k: u128| #[trigger] self.index@.contains_key(k) ==> index_exact(self.index@[k]@, self.lignes@[k]@)
        &&& self.diffuseur.bien_forme()
    }

    /// Un magasin vide.
    pub fn new() -> (s: NaiveRowStore<P>)
        ensures
            s.coherent(),
            forall|r: u32, c: u32, t: u64| #[trigger] s.etat(r, c, t) == EtatChrono::<P>::Ouvert(Map::empty()),
    {
        let s = NaiveRowStore {
            lignes: HashMap::new(),
            index: HashMap::new(),
            scelles: HashSet::new(),
            diffuseur: Diffuseur::new(),
        };
        proof {
            assert(s.index@.dom() =~= s.lignes@.dom());
        }
        s
    }

    /// Remet le magasin a vide ; les abonnements restent.
    pub fn vider(&mut self)
        requires
            old(self).coherent(),
        ensures
            final(self).coherent(),
            forall|r: u32, c: u32, t: u64| #[trigger] final(self).etat(r, c, t) == EtatChrono::<P>::Ouvert(Map::empty()),
            final(self).abonnements_inscrits() == old(self).abonnements_inscrits(),
            final(self).numero_suivant() == old(self).numero_suivant(),
    {
        self.lignes.clear();
        self.index.clear();
        self.scelles.clear();
        proof {
            assert(self.index@.dom() =~= self.lignes@.dom());
        }
    }

    /// Forme canonique du contenu de la cle `k`, assemblee ligne a ligne.
    fn assembler(&self, k: u128) -> (r: Vec<(EntityId, P)>)
        requires
            self.coherent(),
        ensures
            canonique(r@, self.contenu_cle(k)),
    {
        let mut out: Vec<(EntityId, P)> = Vec::new();
        match self.index.get(&k) {
            None => {
                proof {
                    assert(!self.lignes@.contains_key(k));
                    assert(lww(out@) =~= self.contenu_cle(k));
                }
            },
            Some(idx) => {
                match self.lignes.get(&k) {
                    None => {
                        proof {
                            assert(self.lignes@.contains_key(k));
                        }
                    },
                    Some(rangee) => {
                        let ghost m = rangee@;
                        assert(index_exact(idx@, m));
                        let mut i: usize = 0;
                        proof {
                            assert(lww(out@) =~= deja_pris(idx@, m, 0));
                        }
                        while i < idx.len()
                            invariant
                                i <= idx@.len(),
                                m == rangee@,
                                index_exact(idx@, m),
                                trie_strict(out@),
                                lww(out@) == deja_pris(idx@, m, i as int),
                            decreases idx.len() - i,
                        {
                            let e = idx[i];
                            assert(m.contains_key(e.0));
                            match rangee.get(&e.0) {
                                Some(p) => {
                                    inserer_lww(&mut out, e, *p);
                                    proof {
                                        assert(deja_pris(idx@, m, i as int + 1) =~= deja_pris(idx@, m, i as int).insert(e.0, m[e.0]));
                                    }
                                },
                                None => {},
                            }
                            i = i + 1;
                        }
                        proof {
                            assert(deja_pris(idx@, m, idx@.len() as int) =~= m);
                        }
                    },
                }
            },
        }
        out
    }
}

impl<P: Copy> Default for NaiveRowStore<P> {
    /// Un magasin vide.
    fn default() -> (s: NaiveRowStore<P>)
        ensures
            s.coherent(),
            forall|r: u32, c: u32, t: u64| #[trigger] s.etat(r, c, t) == EtatChrono::<P>::Ouvert(Map::empty()),
    {
        NaiveRowStore::new()
    }
}

impl<P: Copy> ChronotopeStore<P> for NaiveRowStore<P> {
    open spec fn bien_forme(&self) -> bool {
        self.coherent()
    }

    open spec fn abonnements(&self) -> Seq<VueAbonnement<P>> {
        self.abonnements_inscrits()
    }

    open spec fn prochain_abonne(&self) -> nat {
        self.numero_suivant()
    }

    open spec fn rediffuse() -> bool {
        true
    }

    open spec fn domaine(&self, room: u32, cell: u32) -> bool {
        true
    }

    open spec fn etat(&self, room: u32, cell: u32, tick: u64) -> EtatChrono<P> {
        if self.scelle_cle(cle(room, cell, tick)) {
            EtatChrono::Scelle(self.contenu_cle(cle(room, cell, tick)))
        } else {
            EtatChrono::Ouvert(self.contenu_cle(cle(room, cell, tick)))
        }
    }

    fn ecrire(&mut self, room: RoomId, cell: CellId, tick: Tick, entity: EntityId, pose: P) -> (r: Result<(), WriteError>) {
        let k = cle_de(room, cell, tick);
        if self.scelles.contains(&k) {
            return Err(WriteError::AlreadySealed(room, cell, tick));
        }
        let ghost avant = *self;
        let ghost m0 = avant.contenu_cle(k);
        let ghost ix0 = if avant.index@.contains_key(k) { avant.index@[k]@ } else { Seq::<EntityId>::empty() };
        proof {
            if !avant.index@.contains_key(k) {
                assert(!avant.lignes@.contains_key(k));
                assert(index_exact(ix0, m0));
            }
            lemme_index_inscription(ix0, m0, entity, pose);
        }
        let mut rangee: HashMap<u32, P> = match self.lignes.remove(&k) {
            Some(m) => m,
            None => HashMap::new(),
        };
        assert(rangee@ == m0);
        let ancienne = rangee.insert(entity.0, pose);
        self.lignes.insert(k, rangee);
        if ancienne.is_none() {
            let mut idx: Vec<EntityId> = match self.index.remove(&k) {
                Some(v) => v,
                None => Vec::new(),
            };
            assert(idx@ == ix0);
            idx.push(entity);
            self.index.insert(k, idx);
        }
        proof {
            assert(self.index@.dom() =~= self.lignes@.dom());
            assert(self.lignes@[k]@ == m0.insert(entity.0, pose));
            assert(self.index@[k]@ == (if ancienne.is_none() { ix0.push(entity) } else { ix0 }));
            assert forall|kk: u128| #[trigger] self.index@.contains_key(kk) implies index_exact(
                self.index@[kk]@,
                self.lignes@[kk]@,
            ) by {
                if kk != k {
                    assert(avant.index@.contains_key(kk));
                }
            }
            assert forall|a: u32, b: u32, t: u64|
                !(a == room.0 && b == cell.0 && t == tick.0) implies avant.etat(a, b, t).suite_admissible(
                #[trigger] self.etat(a, b, t),
            ) by {
                lemme_cle(a, b, t, room.0, cell.0, tick.0);
                assert(self.contenu_cle(cle(a, b, t)) == avant.contenu_cle(cle(a, b, t)));
            }
            assert(self.contenu_cle(k) =~= avant.contenu_cle(k).insert(entity.0, pose));
        }
        Ok(())
    }

    fn sceller(&mut self, room: RoomId, cell: CellId, tick: Tick) -> (c: Chronotope<P>) {
        let ghost avant = *self;
        let k = cle_de(room, cell, tick);
        self.scelles.insert(k);
        let entities = self.assembler(k);
        let chrono = Chronotope { room, cell, tick, sealed: true, entities };
        self.diffuseur.diffuser(&chrono);
        proof {
            assert forall|a: u32, b: u32, t: u64|
                !(a == room.0 && b == cell.0 && t == tick.0) implies avant.etat(a, b, t).suite_admissible(
                #[trigger] self.etat(a, b, t),
            ) by {
                lemme_cle(a, b, t, room.0, cell.0, tick.0);
            }
        }
        chrono
    }

    fn lire(&self, room: RoomId, cells: &[CellId], tick: Tick) -> (v: Vec<Chronotope<P>>) {
        let ghost etat = |c: u32| self.etat(room.0, c, tick.0);
        let mut v: Vec<Chronotope<P>> = Vec::new();
        let mut i: usize = 0;
        while i < cells.len()
            invariant
                i <= cells.len(),
                self.coherent(),
                etat == (|c: u32| self.etat(room.0, c, tick.0)),
                v@.len() == cellules_scellees(etat, cells@.take(i as int)).len(),
                forall|j: int|
                    #![trigger v@[j]]
                    0 <= j < v@.len() ==> {
                        let c = cellules_scellees(etat, cells@.take(i as int))[j];
                        &&& v@[j].room == room
                        &&& v@[j].cell == c
                        &&& v@[j].tick == tick
                        &&& v@[j].sealed
                        &&& canonique(v@[j].entities@, self.etat(room.0, c.0, tick.0).contenu())
                    },
            decreases cells.len() - i,
        {
            let cell = cells[i];
            let ghost prefixe = cells@.take(i as int);
            let ghost avant = v@;
            proof {
                assert(cells@.take(i as int + 1).drop_last() =~= prefixe);
                assert(cells@.take(i as int + 1).last() == cell);
                reveal_with_fuel(Seq::<_>::filter, 1);
            }
            let k = cle_de(room, cell, tick);
            let lisible = self.scelles.contains(&k);
            if lisible {
                let entities = self.assembler(k);
                v.push(Chronotope { room, cell, tick, sealed: true, entities });
            }
            proof {
                assert(lisible == (etat(cell.0) is Scelle));
                if lisible {
                    assert(cellules_scellees(etat, cells@.take(i as int + 1)) =~= cellules_scellees(etat, prefixe).push(cell));
                    assert forall|j: int| 0 <= j < avant.len() implies v@[j] == avant[j] by {}
                } else {
                    assert(cellules_scellees(etat, cells@.take(i as int + 1)) =~= cellules_scellees(etat, prefixe));
                }
            }
            i = i + 1;
        }
        proof {
            assert(cells@.take(cells.len() as int) =~= cells@);
        }
        v
    }

    fn observer(&mut self, room: RoomId, cells: &[CellId]) -> (rx: Receiver<Chronotope<P>>) {
        let ghost avant = *self;
        let rx = self.diffuseur.abonner(room, cells);
        proof {
            assert forall|a: u32, b: u32, t: u64| #[trigger] self.etat(a, b, t) == avant.etat(a, b, t) by {}
        }
        rx
    }
}

/// Le magasin a ligne ne perime rien : un chronotope scelle y reste donc
/// scelle, avec le meme contenu, jusqu'a `vider` (voir
/// `loi_scelle_definitif`).
pub proof fn loi_rien_ne_perime<P: Copy>(s: NaiveRowStore<P>, room: u32, cell: u32, tick: u64)
    ensures
        !(s.etat(room, cell, tick) is Perime),
{
}

} // verus!
