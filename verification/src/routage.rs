//! Le routage entite -> (noeud, cellule) tel que le harnais le consomme :
//! `ou_est` et `migrer`, plus un annuaire en memoire a hysteresis comptee en
//! tentatives consecutives refusees.
//!
//! `migrer` peut etre ignoree (c'est le role de l'hysteresis) : l'appelant
//! relit `ou_est` et ecrit la pose la ou l'annuaire fait autorite, ce qui
//! garantit qu'une entite n'est jamais inscrite a deux endroits au meme tick.

use vstd::prelude::*;
use std::collections::HashMap;
use crate::types::{CellId, EntityId};

verus! {

broadcast use vstd::std_specs::hash::group_hash_axioms;

/// Emplacement d'autorite d'une entite.
#[derive(Debug, Clone, Copy, PartialEq, Eq, PartialOrd, Ord, Hash, Structural)]
pub struct Emplacement {
    pub noeud: u32,
    pub cellule: CellId,
}

/// Annuaire vu par le harnais.
pub trait Routeur: Sized {
    /// Emplacement d'autorite de chaque entite inscrite.
    spec fn autorite(&self) -> Map<u32, Emplacement>;

    /// Le routeur peut encore enregistrer une demande (ses compteurs ne
    /// debordent pas).
    spec fn disponible(&self) -> bool;

    /// Emplacement d'autorite courant, `None` si l'entite est inconnue.
    fn ou_est(&mut self, entity: EntityId) -> (r: Option<Emplacement>)
        ensures
            r == (if old(self).autorite().contains_key(entity.0) {
                Some(old(self).autorite()[entity.0])
            } else {
                None
            }),
            final(self).autorite() == old(self).autorite(),
            final(self).disponible() == old(self).disponible(),
    ;

    /// Demande de migration : `true` si elle a pris effet, `false` si
    /// l'hysteresis l'a refusee (rien n'a alors bouge).
    fn migrer(&mut self, entity: EntityId, dest: Emplacement) -> (r: bool)
        requires
            old(self).disponible(),
        ensures
            r ==> final(self).autorite() == old(self).autorite().insert(entity.0, dest),
            !r ==> final(self).autorite() == old(self).autorite(),
    ;
}

/// Entree de l'annuaire en memoire.
#[derive(Debug, Clone, Copy, PartialEq, Eq, Structural)]
pub struct EntreeRoutage {
    pub emplacement: Emplacement,
    pub tentatives_consecutives: u32,
}

/// Seuil effectif de tentatives : au moins une.
pub open spec fn seuil(hysteresis_ticks: u32) -> u32 {
    if hysteresis_ticks >= 1 {
        hysteresis_ticks
    } else {
        1
    }
}

/// L'entree apres une demande de migration vers `dest`, et si elle est
/// accordee.
pub open spec fn apres_demande(h: u32, en: EntreeRoutage, dest: Emplacement) -> (EntreeRoutage, bool) {
    if en.emplacement == dest {
        (EntreeRoutage { emplacement: dest, tentatives_consecutives: 0 }, true)
    } else if en.tentatives_consecutives + 1 >= seuil(h) {
        (EntreeRoutage { emplacement: dest, tentatives_consecutives: 0 }, true)
    } else {
        (EntreeRoutage { emplacement: en.emplacement, tentatives_consecutives: (en.tentatives_consecutives + 1) as u32 }, false)
    }
}

/// Annuaire en memoire : une entite doit etre demandee hors de sa cellule
/// d'autorite pendant `hysteresis_ticks` tentatives consecutives avant que
/// la bascule soit accordee.
#[derive(Debug, Clone)]
pub struct AnnuaireMemoire {
    hysteresis_ticks: u32,
    entrees: HashMap<u32, EntreeRoutage>,
    migrations_accordees: u64,
    migrations_refusees: u64,
}

impl AnnuaireMemoire {
    pub closed spec fn entrees_vue(&self) -> Map<u32, EntreeRoutage> {
        self.entrees@
    }

    pub closed spec fn reglage(&self) -> u32 {
        self.hysteresis_ticks
    }

    pub closed spec fn accordees(&self) -> u64 {
        self.migrations_accordees
    }

    pub closed spec fn refusees(&self) -> u64 {
        self.migrations_refusees
    }

    /// Chaque entree a moins de tentatives en cours que le seuil.
    pub closed spec fn coherent(&self) -> bool {
        forall|k: u32| #[trigger] self.entrees@.contains_key(k) ==> self.entrees@[k].tentatives_consecutives < seuil(self.hysteresis_ticks)
    }

    /// `hysteresis_ticks` de 0 ou 1 accorde toute migration des la premiere
    /// tentative.
    pub fn new(hysteresis_ticks: u32) -> (a: AnnuaireMemoire)
        ensures
            a.coherent(),
            a.reglage() == hysteresis_ticks,
            a.entrees_vue() == Map::<u32, EntreeRoutage>::empty(),
            a.accordees() == 0,
            a.refusees() == 0,
    {
        AnnuaireMemoire { hysteresis_ticks, entrees: HashMap::new(), migrations_accordees: 0, migrations_refusees: 0 }
    }

    pub fn migrations_accordees(&self) -> (n: u64)
        ensures
            n == self.accordees(),
    {
        self.migrations_accordees
    }

    pub fn migrations_refusees(&self) -> (n: u64)
        ensures
            n == self.refusees(),
    {
        self.migrations_refusees
    }

    pub fn hysteresis_ticks(&self) -> (n: u32)
        ensures
            n == self.reglage(),
    {
        self.hysteresis_ticks
    }
}

impl Default for AnnuaireMemoire {
    /// Trois tentatives.
    fn default() -> (a: AnnuaireMemoire)
        ensures
            a.coherent(),
            a.reglage() == 3,
            a.entrees_vue() == Map::<u32, EntreeRoutage>::empty(),
            a.accordees() == 0,
            a.refusees() == 0,
    {
        AnnuaireMemoire::new(3)
    }
}

impl Routeur for AnnuaireMemoire {
    open spec fn autorite(&self) -> Map<u32, Emplacement> {
        self.entrees_vue().map_values(|e: EntreeRoutage| e.emplacement)
    }

    open spec fn disponible(&self) -> bool {
        &&& self.coherent()
        &&& self.accordees() < u64::MAX
        &&& self.refusees() < u64::MAX
    }

    /// Une consultation ne change rien : ni les emplacements, ni les
    /// tentatives en cours, ni le reglage, ni les compteurs.
    fn ou_est(&mut self, entity: EntityId) -> (r: Option<Emplacement>)
        ensures
            *final(self) == *old(self),
    {
        match self.entrees.get(&entity.0) {
            Some(e) => Some(e.emplacement),
            None => None,
        }
    }

    /// Premiere inscription : toujours accordee. Destination courante :
    /// accordee, le compte de tentatives repart de zero. Sinon la tentative
    /// est comptee ; la bascule est accordee a la `hysteresis_ticks`-ieme
    /// tentative consecutive.
    fn migrer(&mut self, entity: EntityId, dest: Emplacement) -> (r: bool)
        ensures
            final(self).coherent(),
            final(self).reglage() == old(self).reglage(),
            !old(self).entrees_vue().contains_key(entity.0) ==> {
                &&& r
                &&& final(self).entrees_vue() == old(self).entrees_vue().insert(
                    entity.0,
                    EntreeRoutage { emplacement: dest, tentatives_consecutives: 0 },
                )
                &&& final(self).accordees() == old(self).accordees() + 1
                &&& final(self).refusees() == old(self).refusees()
            },
            old(self).entrees_vue().contains_key(entity.0) ==> {
                let (en, accorde) = apres_demande(old(self).reglage(), old(self).entrees_vue()[entity.0], dest);
                let bascule = old(self).entrees_vue()[entity.0].emplacement != dest && accorde;
                &&& r == accorde
                &&& final(self).entrees_vue() == old(self).entrees_vue().insert(entity.0, en)
                &&& final(self).accordees() == old(self).accordees() + (if bascule { 1int } else { 0int })
                &&& final(self).refusees() == old(self).refusees() + (if accorde { 0int } else { 1int })
            },
            r ==> final(self).entrees_vue().contains_key(entity.0) && final(self).entrees_vue()[entity.0] == (EntreeRoutage {
                emplacement: dest,
                tentatives_consecutives: 0,
            }),
            !r ==> old(self).entrees_vue().contains_key(entity.0) && final(self).entrees_vue()[entity.0] == (EntreeRoutage {
                emplacement: old(self).entrees_vue()[entity.0].emplacement,
                tentatives_consecutives: (old(self).entrees_vue()[entity.0].tentatives_consecutives + 1) as u32,
            }),
    {
        let ghost avant = self.entrees@;
        match self.entrees.get(&entity.0) {
            None => {
                self.entrees.insert(entity.0, EntreeRoutage { emplacement: dest, tentatives_consecutives: 0 });
                self.migrations_accordees = self.migrations_accordees + 1;
                proof {
                    assert(self.autorite() =~= old(self).autorite().insert(entity.0, dest));
                }
                true
            },
            Some(en) => {
                let en = *en;
                if en.emplacement == dest {
                    self.entrees.insert(entity.0, EntreeRoutage { emplacement: dest, tentatives_consecutives: 0 });
                    proof {
                        assert(self.autorite() =~= old(self).autorite().insert(entity.0, dest));
                    }
                    true
                } else {
                    let tentatives = en.tentatives_consecutives + 1;
                    let seuil_effectif = if self.hysteresis_ticks >= 1 { self.hysteresis_ticks } else { 1 };
                    if tentatives >= seuil_effectif {
                        self.entrees.insert(entity.0, EntreeRoutage { emplacement: dest, tentatives_consecutives: 0 });
                        self.migrations_accordees = self.migrations_accordees + 1;
                        proof {
                            assert(self.autorite() =~= old(self).autorite().insert(entity.0, dest));
                        }
                        true
                    } else {
                        self.entrees.insert(
                            entity.0,
                            EntreeRoutage { emplacement: en.emplacement, tentatives_consecutives: tentatives },
                        );
                        self.migrations_refusees = self.migrations_refusees + 1;
                        proof {
                            assert(self.autorite() =~= old(self).autorite());
                        }
                        false
                    }
                }
            },
        }
    }
}

/// La bascule est retardee d'un nombre exact de tentatives : depuis une
/// entree sans tentative en cours, les `seuil - 1` premieres demandes
/// consecutives vers une autre destination sont refusees, la suivante est
/// accordee.
pub proof fn loi_bascule_a_la_tentative_exacte(h: u32, en: EntreeRoutage, dest: Emplacement, k: u32)
    requires
        en.emplacement != dest,
        en.tentatives_consecutives == 0,
        k < seuil(h),
    ensures
        ({
            let courante = EntreeRoutage { emplacement: en.emplacement, tentatives_consecutives: k };
            let (suivante, accorde) = apres_demande(h, courante, dest);
            &&& accorde <==> k + 1 == seuil(h)
            &&& accorde ==> suivante.emplacement == dest
            &&& !accorde ==> suivante == EntreeRoutage { emplacement: en.emplacement, tentatives_consecutives: (k + 1) as u32 }
        }),
{
}

/// Demander la destination courante est toujours accorde, ne bouge rien et
/// remet le compte de tentatives a zero.
pub proof fn loi_destination_courante(h: u32, en: EntreeRoutage)
    ensures
        apres_demande(h, en, en.emplacement) == (EntreeRoutage { emplacement: en.emplacement, tentatives_consecutives: 0 }, true),
{
}

/// L'entree apres `k` demandes consecutives vers `dest`, et si la derniere
/// a ete accordee (`k >= 1`).
pub open spec fn demandes_repetees(h: u32, en: EntreeRoutage, dest: Emplacement, k: nat) -> (EntreeRoutage, bool)
    decreases k,
{
    if k == 0 {
        (en, false)
    } else {
        apres_demande(h, demandes_repetees(h, en, dest, (k - 1) as nat).0, dest)
    }
}

/// Toute bascule, pas seulement la premiere, demande exactement `seuil(h)`
/// tentatives consecutives : apres une bascule accordee vers `d1`, l'entree
/// est a `d1` sans tentative en cours, et des demandes repetees vers un
/// autre emplacement `d2` sont refusees (l'entite restant a `d1`) jusqu'a la
/// `seuil(h)`-ieme, qui est accordee.
pub proof fn loi_chaque_bascule_demande_le_seuil(h: u32, en: EntreeRoutage, d1: Emplacement, d2: Emplacement, k: nat)
    requires
        en.emplacement != d1,
        apres_demande(h, en, d1).1,
        d2 != d1,
        1 <= k <= seuil(h),
    ensures
        apres_demande(h, en, d1).0 == (EntreeRoutage { emplacement: d1, tentatives_consecutives: 0 }),
        demandes_repetees(h, apres_demande(h, en, d1).0, d2, k).1 <==> k == seuil(h),
        k < seuil(h) ==> demandes_repetees(h, apres_demande(h, en, d1).0, d2, k).0 == (EntreeRoutage {
            emplacement: d1,
            tentatives_consecutives: k as u32,
        }),
        k == seuil(h) ==> demandes_repetees(h, apres_demande(h, en, d1).0, d2, k).0.emplacement == d2,
    decreases k,
{
    let e = apres_demande(h, en, d1).0;
    if k > 1 {
        loi_chaque_bascule_demande_le_seuil(h, en, d1, d2, (k - 1) as nat);
    }
    assert(demandes_repetees(h, e, d2, 0) == (e, false));
}

} // verus!
