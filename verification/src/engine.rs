//! Le substrat : unite de stockage cellule-tick, adressage arithmetique
//! `base[salle] + cellule * ANNEAU + tick mod ANNEAU`, ecriture par ajout au
//! journal de la case, anneau de `ANNEAU` ticks recycle en place.
//!
//! Chaque (salle, cellule) retient les `ANNEAU` derniers ticks a partir du
//! plus recent qu'elle ait vu : un tick plus ancien est perime (ecriture
//! refusee, lecture absente, sceau vide).

use vstd::prelude::*;
use crossbeam_channel::Receiver;
use crate::canonique::{assembler, canonique, lemme_lww_trie, lww, trie_strict};
use crate::diffusion::{Diffuseur, VueAbonnement};
use crate::store::{cellules_scellees, ChronotopeStore, EtatChrono};
use crate::types::{copie_entites, CellId, Chronotope, EntityId, Horizon, RoomId, Tick, WriteError};

verus! {

/// Nombre de salles du moteur par defaut.
pub const SALLES_MAX: u32 = 16;

/// Nombre de cellules par salle du moteur par defaut.
pub const CELLULES_PAR_SALLE: u64 = 64;

/// Nombre de ticks retenus par cellule (l'anneau de l'etage T0).
pub const ANNEAU: u64 = 32;

/// Taille de journal a partir de laquelle une case est compactee (une paire
/// par entite), pour borner le journal d'une entite tres bavarde.
pub const SEUIL_COMPACTION: usize = 256;

/// Une case de l'anneau : le tick qui l'occupe, son sceau, son journal.
#[verifier::reject_recursive_types(P)]
pub struct Case<P> {
    pub tick: Option<u64>,
    pub scelle: bool,
    pub journal: Vec<(EntityId, P)>,
    pub compacte: usize,
}

impl<P> Case<P> {
    fn vide() -> (c: Case<P>)
        ensures
            c.tick is None,
            !c.scelle,
            c.journal@.len() == 0,
    {
        Case { tick: None, scelle: false, journal: Vec::new(), compacte: 0 }
    }
}

/// `t` est sorti de la fenetre retenue quand le plus recent tick vu est `h`.
pub open spec fn perime(h: Option<u64>, t: u64) -> bool {
    match h {
        Some(h) => t < h && h - t >= ANNEAU,
        None => false,
    }
}

/// Le plus recent tick d'une cellule apres une operation acceptee au tick
/// `t`.
pub open spec fn recent_apres(h: Option<u64>, t: u64) -> Option<u64> {
    match h {
        Some(h) => Some(if h > t { h } else { t }),
        None => Some(t),
    }
}

/// Etat d'une case vue depuis le tick `t` (fenetre deja verifiee).
pub open spec fn etat_case<P>(c: Case<P>, t: u64) -> EtatChrono<P> {
    if c.tick == Some(t) {
        if c.scelle {
            EtatChrono::Scelle(lww(c.journal@))
        } else {
            EtatChrono::Ouvert(lww(c.journal@))
        }
    } else {
        EtatChrono::Ouvert(Map::empty())
    }
}

/// Le moteur cellule-tick.
#[verifier::reject_recursive_types(P)]
pub struct ChronotopeEngine<P> {
    horizon: Horizon,
    salles: u32,
    cellules: u64,
    cases: Vec<Case<P>>,
    plus_recent: Vec<Option<u64>>,
    diffuseur: Diffuseur<P>,
}

proof fn lemme_indice(salles: int, cellules: int, r: int, c: int)
    requires
        0 <= r < salles,
        0 <= c < cellules,
    ensures
        0 <= r * cellules + c < salles * cellules,
        r * cellules <= (salles - 1) * cellules,
{
    assert(r * cellules <= (salles - 1) * cellules) by (nonlinear_arith)
        requires
            0 <= r <= salles - 1,
            0 <= cellules,
    ;
    assert((salles - 1) * cellules + cellules == salles * cellules) by (nonlinear_arith);
    assert(0 <= r * cellules) by (nonlinear_arith)
        requires
            0 <= r,
            0 <= cellules,
    ;
}

proof fn lemme_indice_injectif(cellules: int, r1: int, c1: int, r2: int, c2: int)
    requires
        0 <= c1 < cellules,
        0 <= c2 < cellules,
        0 <= r1,
        0 <= r2,
        r1 * cellules + c1 == r2 * cellules + c2,
    ensures
        r1 == r2,
        c1 == c2,
{
    if r1 < r2 {
        assert(r1 * cellules + cellules <= r2 * cellules) by (nonlinear_arith)
            requires
                r1 < r2,
                0 <= cellules,
        ;
    } else if r2 < r1 {
        assert(r2 * cellules + cellules <= r1 * cellules) by (nonlinear_arith)
            requires
                r2 < r1,
                0 <= cellules,
        ;
    }
}

impl<P: Copy> ChronotopeEngine<P> {
    /// Les abonnements aux sceaux, dans l'ordre d'inscription.
    pub closed spec fn abonnements_inscrits(&self) -> Seq<VueAbonnement<P>> {
        self.diffuseur.vue()
    }

    /// Le numero du prochain abonnement.
    pub closed spec fn numero_suivant(&self) -> nat {
        self.diffuseur.prochain@
    }

    /// L'horizon de scellement avec lequel le moteur a ete construit.
    pub closed spec fn horizon_retenu(&self) -> Horizon {
        self.horizon
    }

    /// Nombre de couples (salle, cellule) adressables.
    pub closed spec fn nb_cellules(&self) -> int {
        self.salles as int * self.cellules as int
    }

    pub closed spec fn indice_cellule(&self, r: u32, c: u32) -> int {
        r as int * self.cellules as int + c as int
    }

    pub closed spec fn indice_case(&self, r: u32, c: u32, t: u64) -> int {
        self.indice_cellule(r, c) * ANNEAU as int + (t % ANNEAU) as int
    }

    pub closed spec fn dans_domaine(&self, r: u32, c: u32) -> bool {
        r < self.salles && (c as u64) < self.cellules
    }

    /// Le plus recent tick vu par la cellule `(r, c)` ; `None` hors du
    /// domaine ou si la cellule n'a encore rien vu.
    pub closed spec fn tick_recent(&self, r: u32, c: u32) -> Option<u64> {
        if self.dans_domaine(r, c) {
            self.plus_recent@[self.indice_cellule(r, c)]
        } else {
            None
        }
    }

    pub closed spec fn etat_moteur(&self, r: u32, c: u32, t: u64) -> EtatChrono<P> {
        if !self.dans_domaine(r, c) {
            EtatChrono::Ouvert(Map::empty())
        } else if perime(self.plus_recent@[self.indice_cellule(r, c)], t) {
            EtatChrono::Perime
        } else {
            etat_case(self.cases@[self.indice_case(r, c, t)], t)
        }
    }

    pub closed spec fn coherent(&self) -> bool {
        &&& self.plus_recent@.len() == self.nb_cellules()
        &&& self.nb_cellules() * ANNEAU <= usize::MAX
        &&& self.cases@.len() == self.nb_cellules() * ANNEAU
        &&& self.diffuseur.bien_forme()
        &&& forall|i: int|
            #![trigger self.cases@[i]]
            0 <= i < self.cases@.len() ==> match self.cases@[i].tick {
                Some(t) => {
                    &&& (t % ANNEAU) as int == i % (ANNEAU as int)
                    &&& match self.plus_recent@[i / (ANNEAU as int)] {
                        Some(h) => t <= h,
                        None => false,
                    }
                    &&& self.cases@[i].scelle ==> trie_strict(self.cases@[i].journal@)
                },
                None => true,
            }
    }

    /// Un moteur aux dimensions par defaut.
    pub fn new(horizon: Horizon) -> (m: ChronotopeEngine<P>)
        ensures
            m.coherent(),
            m.horizon_retenu() == horizon,
            forall|r: u32, c: u32| #[trigger] m.dans_domaine(r, c) <==> r < SALLES_MAX && (c as u64) < CELLULES_PAR_SALLE,
            forall|r: u32, c: u32, t: u64| #[trigger] m.etat_moteur(r, c, t) == EtatChrono::<P>::Ouvert(Map::empty()),
            forall|r: u32, c: u32| #[trigger] m.tick_recent(r, c) is None,
    {
        ChronotopeEngine::avec_dimensions(horizon, SALLES_MAX, CELLULES_PAR_SALLE)
    }

    /// Un moteur de `salles` salles de `cellules` cellules, tous ses
    /// chronotopes ouverts et vides.
    pub fn avec_dimensions(horizon: Horizon, salles: u32, cellules: u64) -> (m: ChronotopeEngine<P>)
        requires
            salles as int * cellules as int * ANNEAU <= usize::MAX,
        ensures
            m.coherent(),
            m.horizon_retenu() == horizon,
            forall|r: u32, c: u32| #[trigger] m.dans_domaine(r, c) <==> r < salles && (c as u64) < cellules,
            forall|r: u32, c: u32, t: u64| #[trigger] m.etat_moteur(r, c, t) == EtatChrono::<P>::Ouvert(Map::empty()),
            forall|r: u32, c: u32| #[trigger] m.tick_recent(r, c) is None,
    {
        proof {
            assert(0 <= salles as int * cellules as int) by (nonlinear_arith);
        }
        let nb: usize = (salles as u64 * cellules) as usize;
        let mut plus_recent: Vec<Option<u64>> = Vec::with_capacity(nb);
        let mut i: usize = 0;
        while i < nb
            invariant
                i <= nb,
                plus_recent@.len() == i,
                forall|j: int| 0 <= j < i ==> plus_recent@[j] is None,
            decreases nb - i,
        {
            plus_recent.push(None);
            i = i + 1;
        }
        let total: usize = nb * (ANNEAU as usize);
        let mut cases: Vec<Case<P>> = Vec::with_capacity(total);
        let mut j: usize = 0;
        while j < total
            invariant
                j <= total,
                cases@.len() == j,
                forall|k: int| 0 <= k < j ==> #[trigger] cases@[k].tick is None,
            decreases total - j,
        {
            cases.push(Case::vide());
            j = j + 1;
        }
        let m = ChronotopeEngine { horizon, salles, cellules, cases, plus_recent, diffuseur: Diffuseur::new() };
        proof {
            m.lemme_tout_vide();
            assert forall|r: u32, c: u32| #[trigger] m.tick_recent(r, c) is None by {
                if m.dans_domaine(r, c) {
                    lemme_indice(m.salles as int, m.cellules as int, r as int, c as int);
                }
            }
        }
        m
    }

    /// Sans aucune marque de tick ni occupant, tous les chronotopes sont
    /// ouverts et vides.
    proof fn lemme_tout_vide(&self)
        requires
            self.plus_recent@.len() == self.nb_cellules(),
            self.cases@.len() == self.nb_cellules() * ANNEAU,
            forall|i: int| 0 <= i < self.plus_recent@.len() ==> self.plus_recent@[i] is None,
            forall|i: int| 0 <= i < self.cases@.len() ==> #[trigger] self.cases@[i].tick is None,
        ensures
            forall|r: u32, c: u32, t: u64| #[trigger] self.etat_moteur(r, c, t) == EtatChrono::<P>::Ouvert(Map::empty()),
    {
        assert forall|r: u32, c: u32, t: u64| #[trigger] self.etat_moteur(r, c, t) == EtatChrono::<P>::Ouvert(Map::empty()) by {
            if self.dans_domaine(r, c) {
                lemme_indice(self.salles as int, self.cellules as int, r as int, c as int);
                assert(self.cases@[self.indice_case(r, c, t)].tick is None);
            }
        }
    }

    /// Nombre de ticks que chaque cellule retient.
    pub fn ticks_retenus(&self) -> (n: u64)
        ensures
            n == ANNEAU,
    {
        ANNEAU
    }

    /// Indices de la cellule et de la case de `(room, cell, tick)`.
    fn indices(&self, room: RoomId, cell: CellId, tick: Tick) -> (r: (usize, usize))
        requires
            self.coherent(),
            self.dans_domaine(room.0, cell.0),
        ensures
            r.0 == self.indice_cellule(room.0, cell.0),
            r.1 == self.indice_case(room.0, cell.0, tick.0),
            0 <= r.0 < self.plus_recent@.len(),
            0 <= r.1 < self.cases@.len(),
            r.1 as int / (ANNEAU as int) == r.0,
            r.1 as int % (ANNEAU as int) == (tick.0 % ANNEAU) as int,
    {
        proof {
            lemme_indice(self.salles as int, self.cellules as int, room.0 as int, cell.0 as int);
        }
        let ic: usize = (room.0 as u64 * self.cellules + cell.0 as u64) as usize;
        let k: usize = (tick.0 % ANNEAU) as usize;
        let is: usize = ic * (ANNEAU as usize) + k;
        (ic, is)
    }

    /// Une operation qui ne touche que la case `is` et la marque de la
    /// cellule `ic` (en la faisant croitre) ne change l'etat d'aucune autre
    /// cle, sinon pour la rendre perimee.
    proof fn lemme_cadre(&self, apres: &Self, room: u32, cell: u32, tick: u64)
        requires
            self.coherent(),
            self.dans_domaine(room, cell),
            !perime(self.plus_recent@[self.indice_cellule(room, cell)], tick),
            apres.salles == self.salles,
            apres.cellules == self.cellules,
            apres.plus_recent@.len() == self.plus_recent@.len(),
            apres.cases@.len() == self.cases@.len(),
            forall|i: int| 0 <= i < self.plus_recent@.len() && i != self.indice_cellule(room, cell)
                ==> apres.plus_recent@[i] == self.plus_recent@[i],
            forall|i: int| 0 <= i < self.cases@.len() && i != self.indice_case(room, cell, tick)
                ==> apres.cases@[i] == self.cases@[i],
            apres.plus_recent@[self.indice_cellule(room, cell)] == Some(
                match self.plus_recent@[self.indice_cellule(room, cell)] {
                    Some(h) => if h > tick { h } else { tick },
                    None => tick,
                },
            ),
            apres.cases@[self.indice_case(room, cell, tick)].tick == Some(tick),
        ensures
            forall|a: u32, b: u32, t: u64|
                !(a == room && b == cell && t == tick) ==> self.etat_moteur(a, b, t).suite_admissible(
                    #[trigger] apres.etat_moteur(a, b, t),
                ),
            forall|a: u32, b: u32, t: u64|
                !(a == room && b == cell) ==> #[trigger] apres.etat_moteur(a, b, t) == self.etat_moteur(a, b, t),
            forall|a: u32, b: u32| !(a == room && b == cell) ==> #[trigger] apres.tick_recent(a, b) == self.tick_recent(a, b),
            forall|t: u64|
                t != tick && !perime(apres.tick_recent(room, cell), t) ==> #[trigger] apres.etat_moteur(room, cell, t)
                    == self.etat_moteur(room, cell, t),
    {
        let ic0 = self.indice_cellule(room, cell);
        let is0 = self.indice_case(room, cell, tick);
        lemme_indice(self.salles as int, self.cellules as int, room as int, cell as int);
        assert forall|a: u32, b: u32| !(a == room && b == cell) implies #[trigger] apres.tick_recent(a, b)
            == self.tick_recent(a, b) by {
            if self.dans_domaine(a, b) {
                lemme_indice(self.salles as int, self.cellules as int, a as int, b as int);
                if self.indice_cellule(a, b) == ic0 {
                    lemme_indice_injectif(self.cellules as int, a as int, b as int, room as int, cell as int);
                }
            }
        }
        assert forall|a: u32, b: u32, t: u64| !(a == room && b == cell) implies #[trigger] apres.etat_moteur(a, b, t)
            == self.etat_moteur(a, b, t) by {
            if self.dans_domaine(a, b) {
                lemme_indice(self.salles as int, self.cellules as int, a as int, b as int);
                let ic = self.indice_cellule(a, b);
                let is = self.indice_case(a, b, t);
                if ic == ic0 {
                    lemme_indice_injectif(self.cellules as int, a as int, b as int, room as int, cell as int);
                }
                assert(is / (ANNEAU as int) == ic) by (nonlinear_arith)
                    requires
                        is == ic * (ANNEAU as int) + (t % ANNEAU) as int,
                        0 <= (t % ANNEAU) < ANNEAU,
                ;
                assert(is0 / (ANNEAU as int) == ic0) by (nonlinear_arith)
                    requires
                        is0 == ic0 * (ANNEAU as int) + (tick % ANNEAU) as int,
                        0 <= (tick % ANNEAU) < ANNEAU,
                ;
                assert(is != is0);
                assert(apres.plus_recent@[ic] == self.plus_recent@[ic]);
                assert(apres.cases@[is] == self.cases@[is]);
            }
        }
        assert forall|a: u32, b: u32, t: u64|
            !(a == room && b == cell && t == tick) implies self.etat_moteur(a, b, t).suite_admissible(
                #[trigger] apres.etat_moteur(a, b, t),
            ) by {
            if self.dans_domaine(a, b) {
                lemme_indice(self.salles as int, self.cellules as int, a as int, b as int);
                let ic = self.indice_cellule(a, b);
                let is = self.indice_case(a, b, t);
                assert(apres.indice_cellule(a, b) == ic);
                assert(apres.indice_case(a, b, t) == is);
                if ic != ic0 {
                    assert(is != is0);
                    assert(apres.plus_recent@[ic] == self.plus_recent@[ic]);
                    assert(apres.cases@[is] == self.cases@[is]);
                } else {
                    lemme_indice_injectif(self.cellules as int, a as int, b as int, room as int, cell as int);
                    assert(t != tick);
                    let h0 = self.plus_recent@[ic];
                    let h1 = apres.plus_recent@[ic];
                    if !perime(h1, t) {
                        assert(!perime(h0, t));
                        if is != is0 {
                            assert(apres.cases@[is] == self.cases@[is]);
                        } else {
                            // meme case, autre tick : l'occupant precedent etait t
                            // ou un tick perime ; t ne peut pas etre l'occupant
                            // precedent sans etre perime maintenant.
                            assert((t % ANNEAU) == (tick % ANNEAU));
                            assert(apres.cases@[is].tick == Some(tick));
                            let c0 = self.cases@[is];
                            assert(self.cases@[is] == c0);
                            if c0.tick == Some(t) {
                                assert(is / (ANNEAU as int) == ic);
                                assert(t <= h0->0);
                                if t < tick {
                                    assert(tick - t >= ANNEAU);
                                } else {
                                    assert(t - tick >= ANNEAU);
                                }
                                assert(false);
                            }
                        }
                    }
                }
            }
        }
    }

    /// Un chronotope du moteur est perime exactement quand son tick est sorti
    /// de la fenetre des `ANNEAU` ticks qui precedent le plus recent tick vu
    /// par sa cellule.
    pub proof fn loi_peremption(&self, r: u32, c: u32, t: u64)
        requires
            self.coherent(),
        ensures
            self.etat_moteur(r, c, t) is Perime <==> (self.dans_domaine(r, c) && perime(self.tick_recent(r, c), t)),
    {
    }

    /// Remet toutes les cases a vide en conservant leur journal alloue.
    pub fn vider(&mut self)
        requires
            old(self).coherent(),
        ensures
            final(self).coherent(),
            forall|r: u32, c: u32| #[trigger] final(self).dans_domaine(r, c) == old(self).dans_domaine(r, c),
            forall|r: u32, c: u32, t: u64| #[trigger] final(self).etat_moteur(r, c, t) == EtatChrono::<P>::Ouvert(Map::empty()),
            forall|r: u32, c: u32| #[trigger] final(self).tick_recent(r, c) is None,
            final(self).abonnements_inscrits() == old(self).abonnements_inscrits(),
            final(self).numero_suivant() == old(self).numero_suivant(),
    {
        let n = self.plus_recent.len();
        let mut i: usize = 0;
        while i < n
            invariant
                i <= n,
                n == self.plus_recent@.len(),
                self.cases@.len() == old(self).cases@.len(),
                self.salles == old(self).salles,
                self.cellules == old(self).cellules,
                self.diffuseur == old(self).diffuseur,
                old(self).coherent(),
                forall|j: int| 0 <= j < i ==> self.plus_recent@[j] is None,
                self.plus_recent@.len() == old(self).plus_recent@.len(),
                self.cases@ == old(self).cases@,
            decreases n - i,
        {
            self.plus_recent.set(i, None);
            i = i + 1;
        }
        let m = self.cases.len();
        let mut j: usize = 0;
        while j < m
            invariant
                j <= m,
                m == self.cases@.len(),
                n == self.plus_recent@.len(),
                self.salles == old(self).salles,
                self.cellules == old(self).cellules,
                self.diffuseur == old(self).diffuseur,
                old(self).coherent(),
                forall|k: int| 0 <= k < n ==> self.plus_recent@[k] is None,
                self.plus_recent@.len() == old(self).plus_recent@.len(),
                self.cases@.len() == old(self).cases@.len(),
                forall|k: int| 0 <= k < j ==> #[trigger] self.cases@[k].tick is None,
            decreases m - j,
        {
            let mut c: Case<P> = Case::vide();
            self.cases.set_and_swap(j, &mut c);
            c.journal.clear();
            c.tick = None;
            c.scelle = false;
            c.compacte = 0;
            self.cases.set_and_swap(j, &mut c);
            j = j + 1;
        }
        proof {
            self.lemme_tout_vide();
            assert forall|r: u32, c: u32| #[trigger] self.tick_recent(r, c) is None by {
                if self.dans_domaine(r, c) {
                    lemme_indice(self.salles as int, self.cellules as int, r as int, c as int);
                }
            }
        }
    }
}

impl<P: Copy> ChronotopeStore<P> for ChronotopeEngine<P> {
    open spec fn bien_forme(&self) -> bool {
        self.coherent()
    }

    open spec fn abonnements(&self) -> Seq<VueAbonnement<P>> {
        self.abonnements_inscrits()
    }

    open spec fn prochain_abonne(&self) -> nat {
        self.numero_suivant()
    }

    open spec fn rediffuse() -> bool {
        true
    }

    open spec fn domaine(&self, room: u32, cell: u32) -> bool {
        self.dans_domaine(room, cell)
    }

    open spec fn etat(&self, room: u32, cell: u32, tick: u64) -> EtatChrono<P> {
        self.etat_moteur(room, cell, tick)
    }

    /// L'anneau de chaque cellule est a elle seule : une ecriture ne change
    /// ni l'etat ni le plus recent tick des autres cellules ; dans sa cellule,
    /// un autre tick ne change que s'il sort de la fenetre des `ANNEAU`
    /// ticks qui precedent le plus recent.
    fn ecrire(&mut self, room: RoomId, cell: CellId, tick: Tick, entity: EntityId, pose: P) -> (r: Result<(), WriteError>)
        ensures
            forall|a: u32, b: u32, t: u64|
                !(a == room.0 && b == cell.0) ==> #[trigger] final(self).etat(a, b, t) == old(self).etat(a, b, t),
            forall|a: u32, b: u32|
                !(a == room.0 && b == cell.0) ==> #[trigger] final(self).tick_recent(a, b) == old(self).tick_recent(a, b),
            r is Ok ==> final(self).tick_recent(room.0, cell.0) == recent_apres(old(self).tick_recent(room.0, cell.0), tick.0),
            r is Err ==> final(self).tick_recent(room.0, cell.0) == old(self).tick_recent(room.0, cell.0),
            forall|t: u64|
                t != tick.0 && !perime(final(self).tick_recent(room.0, cell.0), t) ==> #[trigger] final(self).etat(
                    room.0,
                    cell.0,
                    t,
                ) == old(self).etat(room.0, cell.0, t),
    {
        let (ic, is) = self.indices(room, cell, tick);
        let h = self.plus_recent[ic];
        if let Some(h) = h {
            if tick.0 < h && h - tick.0 >= ANNEAU {
                return Err(WriteError::AlreadySealed(room, cell, tick));
            }
        }
        let ghost avant = *self;
        let mut c: Case<P> = Case::vide();
        self.cases.set_and_swap(is, &mut c);
        let occupee = match c.tick {
            Some(t) => t == tick.0,
            None => false,
        };
        if occupee && c.scelle {
            self.cases.set_and_swap(is, &mut c);
            proof {
                assert(self.cases@ =~= avant.cases@);
            }
            return Err(WriteError::AlreadySealed(room, cell, tick));
        }
        if !occupee {
            c.tick = Some(tick.0);
            c.scelle = false;
            c.journal.clear();
            c.compacte = 0;
        }
        let ghost journal_avant = c.journal@;
        c.journal.push((entity, pose));
        proof {
            assert(c.journal@.drop_last() =~= journal_avant);
            assert(lww(c.journal@) == lww(journal_avant).insert(entity.0, pose));
        }
        if c.journal.len() >= SEUIL_COMPACTION && (c.journal.len() - SEUIL_COMPACTION) / 2 >= c.compacte {
            let compacte = assembler(&c.journal);
            c.compacte = compacte.len();
            c.journal = compacte;
        }
        let ghost cc = c;
        self.cases.set_and_swap(is, &mut c);
        let nouveau = match h {
            Some(h) => if h > tick.0 { h } else { tick.0 },
            None => tick.0,
        };
        self.plus_recent.set(ic, Some(nouveau));
        proof {
            assert forall|i: int|
                #![trigger self.cases@[i]]
                0 <= i < self.cases@.len() implies match self.cases@[i].tick {
                    Some(t) => {
                        &&& (t % ANNEAU) as int == i % (ANNEAU as int)
                        &&& match self.plus_recent@[i / (ANNEAU as int)] {
                            Some(h) => t <= h,
                            None => false,
                        }
                        &&& self.cases@[i].scelle ==> trie_strict(self.cases@[i].journal@)
                    },
                    None => true,
                } by {
                if i != is {
                    assert(self.cases@[i] == avant.cases@[i]);
                    if i / (ANNEAU as int) == ic as int {
                        match avant.cases@[i].tick {
                            Some(t) => {
                                assert(t <= avant.plus_recent@[ic as int]->0);
                            },
                            None => {},
                        }
                    }
                }
            }
            avant.lemme_cadre(self, room.0, cell.0, tick.0);
            assert(self.cases@[is as int] == cc);
            assert(!perime(self.plus_recent@[ic as int], tick.0));
            assert(lww(cc.journal@) == avant.etat(room.0, cell.0, tick.0).contenu().insert(entity.0, pose));
        }
        Ok(())
    }

    /// Comme pour `ecrire` : les autres cellules ne changent pas, et dans la
    /// cellule un autre tick ne change que s'il sort de la fenetre. Le sceau
    /// d'un tick deja sorti de la fenetre ne change rien.
    fn sceller(&mut self, room: RoomId, cell: CellId, tick: Tick) -> (chrono: Chronotope<P>)
        ensures
            forall|a: u32, b: u32, t: u64|
                !(a == room.0 && b == cell.0) ==> #[trigger] final(self).etat(a, b, t) == old(self).etat(a, b, t),
            forall|a: u32, b: u32|
                !(a == room.0 && b == cell.0) ==> #[trigger] final(self).tick_recent(a, b) == old(self).tick_recent(a, b),
            !perime(old(self).tick_recent(room.0, cell.0), tick.0) ==> final(self).tick_recent(room.0, cell.0)
                == recent_apres(old(self).tick_recent(room.0, cell.0), tick.0),
            perime(old(self).tick_recent(room.0, cell.0), tick.0) ==> final(self).tick_recent(room.0, cell.0) == old(
                self,
            ).tick_recent(room.0, cell.0),
            forall|t: u64|
                t != tick.0 && !perime(final(self).tick_recent(room.0, cell.0), t) ==> #[trigger] final(self).etat(
                    room.0,
                    cell.0,
                    t,
                ) == old(self).etat(room.0, cell.0, t),
    {
        let (ic, is) = self.indices(room, cell, tick);
        let h = self.plus_recent[ic];
        let mut hors_fenetre = false;
        if let Some(h) = h {
            if tick.0 < h && h - tick.0 >= ANNEAU {
                hors_fenetre = true;
            }
        }
        let chrono = if hors_fenetre {
            Chronotope { room, cell, tick, sealed: true, entities: Vec::new() }
        } else {
            let ghost avant = *self;
            let mut c: Case<P> = Case::vide();
            self.cases.set_and_swap(is, &mut c);
            let occupee = match c.tick {
                Some(t) => t == tick.0,
                None => false,
            };
            if occupee {
                if !c.scelle {
                    let canon = assembler(&c.journal);
                    c.compacte = canon.len();
                    c.journal = canon;
                    c.scelle = true;
                }
            } else {
                c.tick = Some(tick.0);
                c.scelle = true;
                c.journal.clear();
                c.compacte = 0;
            }
            proof {
                if occupee && avant.cases@[is as int].scelle {
                    assert(trie_strict(c.journal@));
                }
            }
            let entities = copie_entites(&c.journal);
            let ghost jc = c.journal@;
            let ghost cc = c;
            self.cases.set_and_swap(is, &mut c);
            let nouveau = match h {
                Some(h) => if h > tick.0 { h } else { tick.0 },
                None => tick.0,
            };
            self.plus_recent.set(ic, Some(nouveau));
            proof {
                assert forall|i: int|
                    #![trigger self.cases@[i]]
                    0 <= i < self.cases@.len() implies match self.cases@[i].tick {
                        Some(t) => {
                            &&& (t % ANNEAU) as int == i % (ANNEAU as int)
                            &&& match self.plus_recent@[i / (ANNEAU as int)] {
                                Some(h) => t <= h,
                                None => false,
                            }
                            &&& self.cases@[i].scelle ==> trie_strict(self.cases@[i].journal@)
                        },
                        None => true,
                    } by {
                    if i != is {
                        assert(self.cases@[i] == avant.cases@[i]);
                        if i / (ANNEAU as int) == ic as int {
                            match avant.cases@[i].tick {
                                Some(t) => {
                                    assert(t <= avant.plus_recent@[ic as int]->0);
                                },
                                None => {},
                            }
                        }
                    }
                }
                avant.lemme_cadre(self, room.0, cell.0, tick.0);
                assert(self.cases@[is as int] == cc);
                assert(entities@ == jc);
                assert(!perime(self.plus_recent@[ic as int], tick.0));
            }
            Chronotope { room, cell, tick, sealed: true, entities }
        };
        if !hors_fenetre {
            let ghost avant_diffusion = *self;
            self.diffuseur.diffuser(&chrono);
            proof {
                assert forall|a: u32, b: u32, t: u64| #[trigger] self.etat(a, b, t) == avant_diffusion.etat(a, b, t) by {}
                assert forall|a: u32, b: u32| #[trigger] self.tick_recent(a, b) == avant_diffusion.tick_recent(a, b) by {}
            }
        }
        chrono
    }

    fn lire(&self, room: RoomId, cells: &[CellId], tick: Tick) -> (v: Vec<Chronotope<P>>) {
        let ghost etat = |c: u32| self.etat(room.0, c, tick.0);
        let mut v: Vec<Chronotope<P>> = Vec::new();
        let mut i: usize = 0;
        while i < cells.len()
            invariant
                i <= cells.len(),
                self.coherent(),
                forall|j: int| 0 <= j < cells@.len() ==> self.dans_domaine(room.0, #[trigger] cells@[j].0),
                etat == (|c: u32| self.etat(room.0, c, tick.0)),
                v@.len() == cellules_scellees(etat, cells@.take(i as int)).len(),
                forall|j: int|
                    #![trigger v@[j]]
                    0 <= j < v@.len() ==> {
                        let c = cellules_scellees(etat, cells@.take(i as int))[j];
                        &&& v@[j].room == room
                        &&& v@[j].cell == c
                        &&& v@[j].tick == tick
                        &&& v@[j].sealed
                        &&& canonique(v@[j].entities@, self.etat(room.0, c.0, tick.0).contenu())
                    },
            decreases cells.len() - i,
        {
            let cell = cells[i];
            let ghost prefixe = cells@.take(i as int);
            let ghost avant = v@;
            proof {
                assert(cells@.take(i as int + 1).drop_last() =~= prefixe);
                assert(cells@.take(i as int + 1).last() == cell);
                reveal_with_fuel(Seq::<_>::filter, 1);
            }
            let (ic, is) = self.indices(room, cell, tick);
            let mut lisible = false;
            let hors_fenetre = match self.plus_recent[ic] {
                Some(h) => tick.0 < h && h - tick.0 >= ANNEAU,
                None => false,
            };
            if !hors_fenetre {
                let c = &self.cases[is];
                let occupee = match c.tick {
                    Some(t) => t == tick.0,
                    None => false,
                };
                if occupee && c.scelle {
                    lisible = true;
                    let entities = copie_entites(&c.journal);
                    proof {
                        lemme_lww_trie(entities@);
                        assert(lww(entities@) == lww(c.journal@));
                    }
                    v.push(Chronotope { room, cell, tick, sealed: true, entities });
                }
            }
            proof {
                assert(lisible == (etat(cell.0) is Scelle));
                if lisible {
                    assert(cellules_scellees(etat, cells@.take(i as int + 1)) =~= cellules_scellees(etat, prefixe).push(cell));
                    assert forall|j: int| 0 <= j < avant.len() implies v@[j] == avant[j] by {}
                } else {
                    assert(cellules_scellees(etat, cells@.take(i as int + 1)) =~= cellules_scellees(etat, prefixe));
                }
            }
            i = i + 1;
        }
        proof {
            assert(cells@.take(cells.len() as int) =~= cells@);
        }
        v
    }

    fn observer(&mut self, room: RoomId, cells: &[CellId]) -> (rx: Receiver<Chronotope<P>>)
        ensures
            forall|a: u32, b: u32| #[trigger] final(self).tick_recent(a, b) == old(self).tick_recent(a, b),
    {
        let ghost avant = *self;
        let rx = self.diffuseur.abonner(room, cells);
        proof {
            assert forall|a: u32, b: u32, t: u64| #[trigger] self.etat(a, b, t) == avant.etat(a, b, t) by {}
            assert forall|a: u32, b: u32| #[trigger] self.tick_recent(a, b) == avant.tick_recent(a, b) by {}
        }
        rx
    }
}

} // verus!
