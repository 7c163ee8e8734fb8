//! Annuaire entite -> (noeud, cellule) et migration sans transfert d'etat :
//! migrer une entite, c'est ecrire une entree de l'annuaire, rien d'autre.
//!
//! Hysteresis : un delai minimum, en ticks, entre deux migrations acceptees
//! de la meme entite. L'annuaire ne connait que des cellules, jamais une
//! geometrie ; le tick, fourni par l'appelant, est son unique horloge.

use vstd::prelude::*;
use std::collections::HashMap;
use crate::types::{CellId, EntityId, Tick};

verus! {

broadcast use vstd::std_specs::hash::group_hash_axioms;

/// Identifiant de noeud de simulation.
#[derive(Debug, Clone, Copy, PartialEq, Eq, PartialOrd, Ord, Hash, Structural)]
pub struct NodeId(pub u32);

/// Emplacement d'une entite : le noeud qui fait autorite et sa cellule.
#[derive(Debug, Clone, Copy, PartialEq, Eq, Structural)]
pub struct Location {
    pub node: NodeId,
    pub cell: CellId,
}

/// Delai minimum, en ticks, entre deux migrations de la meme entite.
#[derive(Debug, Clone, Copy, PartialEq, Eq, Structural)]
pub struct Hysteresis {
    pub ticks_min_entre_migrations: u64,
}

impl Hysteresis {
    /// Aucune bande de recouvrement (le temoin sujet au thrashing).
    pub fn aucune() -> (h: Hysteresis)
        ensures
            h.ticks_min_entre_migrations == 0,
    {
        Hysteresis { ticks_min_entre_migrations: 0 }
    }

    /// Au moins `n` ticks entre deux migrations.
    pub fn ticks(n: u64) -> (h: Hysteresis)
        ensures
            h.ticks_min_entre_migrations == n,
    {
        Hysteresis { ticks_min_entre_migrations: n }
    }
}

impl Default for Hysteresis {
    /// 4 ticks : a 20 Hz, 200 ms, soit deux horizons par defaut.
    fn default() -> (h: Hysteresis)
        ensures
            h.ticks_min_entre_migrations == 4,
    {
        Hysteresis::ticks(4)
    }
}

/// Ce qu'a fait une migration acceptee.
#[derive(Debug, Clone, Copy, PartialEq, Eq, Structural)]
pub enum Migration {
    /// L'annuaire a ete ecrit ; `depuis` vaut `None` pour une premiere
    /// inscription.
    Effectuee { depuis: Option<Location> },
    /// L'entite est deja a cet emplacement : aucune ecriture, et l'horloge
    /// d'hysteresis n'est pas relancee.
    Inchangee,
}

/// Migration refusee par l'hysteresis : l'appelant reemet son intention
/// plus tard.
#[derive(Debug, Clone, Copy, PartialEq, Eq, Structural)]
pub struct RefusHysteresis {
    pub entite: EntityId,
    pub dest: Location,
    pub ticks_restants: u64,
}

/// Entree de l'annuaire : emplacement courant et tick de la derniere
/// migration acceptee (aucun pour une inscription).
#[derive(Debug, Clone, Copy, PartialEq, Eq, Structural)]
pub struct Entree {
    pub loc: Location,
    pub derniere_migration: Option<Tick>,
}

/// Ticks ecoules de `depuis` a `at`, zero si `at` est anterieur.
pub open spec fn ecoule(depuis: u64, at: u64) -> u64 {
    if at >= depuis {
        (at - depuis) as u64
    } else {
        0
    }
}

/// Issue d'une demande de migration de `e` vers `dest` au tick `at`, dans
/// un annuaire `vue` d'hysteresis `h`.
pub open spec fn issue_migration(h: u64, vue: Map<u32, Entree>, e: EntityId, dest: Location, at: u64) -> Result<
    Migration,
    RefusHysteresis,
> {
    if !vue.contains_key(e.0) {
        Ok(Migration::Effectuee { depuis: None })
    } else if vue[e.0].loc == dest {
        Ok(Migration::Inchangee)
    } else {
        match vue[e.0].derniere_migration {
            Some(p) => if ecoule(p.0, at) < h {
                Err(RefusHysteresis { entite: e, dest, ticks_restants: (h - ecoule(p.0, at)) as u64 })
            } else {
                Ok(Migration::Effectuee { depuis: Some(vue[e.0].loc) })
            },
            None => Ok(Migration::Effectuee { depuis: Some(vue[e.0].loc) }),
        }
    }
}

/// L'annuaire apres cette demande : une premiere inscription ne demarre
/// pas l'horloge ; une migration effectuee la relance a `at` ; un refus ou
/// une destination inchangee ne touchent a rien.
pub open spec fn vue_apres_migration(h: u64, vue: Map<u32, Entree>, e: EntityId, dest: Location, at: u64) -> Map<
    u32,
    Entree,
> {
    if !vue.contains_key(e.0) {
        vue.insert(e.0, Entree { loc: dest, derniere_migration: None })
    } else {
        match issue_migration(h, vue, e, dest, at) {
            Ok(Migration::Effectuee { .. }) => vue.insert(e.0, Entree { loc: dest, derniere_migration: Some(Tick(at)) }),
            _ => vue,
        }
    }
}

/// Annuaire entite -> emplacement courant, a hysteresis.
pub struct Directory {
    hysteresis: Hysteresis,
    entrees: HashMap<u32, Entree>,
}

impl Directory {
    /// Les entrees de l'annuaire, par identifiant d'entite.
    pub closed spec fn vue(&self) -> Map<u32, Entree> {
        self.entrees@
    }

    /// L'hysteresis de l'annuaire.
    pub closed spec fn reglage(&self) -> u64 {
        self.hysteresis.ticks_min_entre_migrations
    }

    /// Annuaire vide, hysteresis par defaut (4 ticks).
    pub fn new() -> (d: Directory)
        ensures
            d.vue() == Map::<u32, Entree>::empty(),
            d.vue().dom().finite(),
            d.reglage() == 4,
    {
        Directory::avec_hysteresis(Hysteresis::default())
    }

    /// Annuaire vide avec l'hysteresis donnee.
    pub fn avec_hysteresis(hysteresis: Hysteresis) -> (d: Directory)
        ensures
            d.vue() == Map::<u32, Entree>::empty(),
            d.vue().dom().finite(),
            d.reglage() == hysteresis.ticks_min_entre_migrations,
    {
        Directory { hysteresis, entrees: HashMap::new() }
    }

    pub fn hysteresis(&self) -> (h: Hysteresis)
        ensures
            h.ticks_min_entre_migrations == self.reglage(),
    {
        self.hysteresis
    }

    /// Nombre d'entites inscrites.
    pub fn len(&self) -> (n: usize)
        ensures
            n == self.vue().len(),
            self.vue().dom().finite(),
    {
        self.entrees.len()
    }

    pub fn is_empty(&self) -> (b: bool)
        ensures
            b == (self.vue().len() == 0),
    {
        self.entrees.len() == 0
    }

    /// Inscription (ou replacement autoritaire) sans hysteresis ; rend
    /// l'emplacement precedent s'il y en avait un. L'horloge d'hysteresis de
    /// l'entite repart de zero.
    pub fn inscrire(&mut self, entity: EntityId, dest: Location, at: Tick) -> (precedent: Option<Location>)
        ensures
            final(self).vue() == old(self).vue().insert(entity.0, Entree { loc: dest, derniere_migration: None }),
            old(self).vue().dom().finite(),
            final(self).vue().dom().finite(),
            final(self).reglage() == old(self).reglage(),
            precedent == (if old(self).vue().contains_key(entity.0) {
                Some(old(self).vue()[entity.0].loc)
            } else {
                None
            }),
    {
        let ancien = self.entrees.insert(entity.0, Entree { loc: dest, derniere_migration: None });
        match ancien {
            Some(e) => Some(e.loc),
            None => None,
        }
    }

    /// Emplacement courant de l'entite, `None` si elle est inconnue.
    pub fn locate(&self, entity: EntityId) -> (loc: Option<Location>)
        ensures
            loc == (if self.vue().contains_key(entity.0) {
                Some(self.vue()[entity.0].loc)
            } else {
                None
            }),
    {
        match self.entrees.get(&entity.0) {
            Some(e) => Some(e.loc),
            None => None,
        }
    }

    /// Demande de migration de `entity` vers `dest` au tick `at`. Une
    /// entite inconnue est inscrite ; une destination egale a l'emplacement
    /// courant n'ecrit rien ; sinon la migration est refusee tant que moins
    /// de `ticks_min_entre_migrations` ticks se sont ecoules depuis la
    /// derniere migration acceptee de cette entite (un tick anterieur compte
    /// pour zero tick ecoule).
    pub fn migrer(&mut self, entity: EntityId, dest: Location, at: Tick) -> (r: Result<Migration, RefusHysteresis>)
        ensures
            r == issue_migration(old(self).reglage(), old(self).vue(), entity, dest, at.0),
            !old(self).vue().contains_key(entity.0) ==> {
                &&& r == Ok::<Migration, RefusHysteresis>(Migration::Effectuee { depuis: None })
                &&& final(self).vue() == old(self).vue().insert(entity.0, Entree { loc: dest, derniere_migration: None })
            },
            old(self).vue().dom().finite(),
            final(self).vue().dom().finite(),
            final(self).vue() == vue_apres_migration(old(self).reglage(), old(self).vue(), entity, dest, at.0),
            final(self).reglage() == old(self).reglage(),
    {
        let courante = match self.entrees.get(&entity.0) {
            None => {
                self.entrees.insert(entity.0, Entree { loc: dest, derniere_migration: None });
                return Ok(Migration::Effectuee { depuis: None });
            },
            Some(e) => *e,
        };
        if courante.loc == dest {
            return Ok(Migration::Inchangee);
        }
        if let Some(precedente) = courante.derniere_migration {
            let ecoule: u64 = if at.0 >= precedente.0 { at.0 - precedente.0 } else { 0 };
            let requis = self.hysteresis.ticks_min_entre_migrations;
            if ecoule < requis {
                return Err(RefusHysteresis { entite: entity, dest, ticks_restants: requis - ecoule });
            }
        }
        self.entrees.insert(entity.0, Entree { loc: dest, derniere_migration: Some(at) });
        Ok(Migration::Effectuee { depuis: Some(courante.loc) })
    }

    /// Vue complete de l'annuaire, dans un ordre quelconque : chaque entite
    /// inscrite exactement une fois, avec son emplacement.
    pub fn instantane(&self) -> (v: Vec<(EntityId, Location)>)
        ensures
            v@.len() == self.vue().len(),
            forall|i: int| 0 <= i < v@.len() ==> #[trigger] self.vue().contains_key(v@[i].0.0) && self.vue()[v@[i].0.0].loc == v@[i].1,
            forall|i: int, j: int| 0 <= i < j < v@.len() ==> v@[i].0 != v@[j].0,
            forall|k: u32| #[trigger] self.vue().contains_key(k) ==> exists|i: int| 0 <= i < v@.len() && v@[i].0.0 == k,
    {
        let mut v: Vec<(EntityId, Location)> = Vec::new();
        for paire in it: self.entrees.iter()
            invariant
                v@.len() == it.index(),
                it.seq().len() == self.entrees@.len(),
                it.seq().no_duplicates(),
                forall|i: int| 0 <= i < v@.len() ==> v@[i].0.0 == *it.seq()[i].0 && v@[i].1 == it.seq()[i].1.loc,
                forall|i: int| 0 <= i < it.seq().len() ==> #[trigger] self.entrees@.contains_key(*it.seq()[i].0) && self.entrees@[*it.seq()[i].0] == *it.seq()[i].1,
                forall|i: int, j: int| 0 <= i < j < v@.len() ==> v@[i].0 != v@[j].0,
        {
            let ghost idx = v@.len() as int;
            let (k, e) = paire;
            v.push((EntityId(*k), e.loc));
            proof {
                let s = it.seq();
                assert forall|i: int, j: int| 0 <= i < j < v@.len() implies v@[i].0 != v@[j].0 by {
                    if j == idx && v@[i].0 == v@[j].0 {
                        assert(self.entrees@.contains_key(*s[i].0));
                        assert(self.entrees@.contains_key(*s[j].0));
                        assert(s[i] == s[j]);
                    }
                }
            }
        }
        v
    }
}

impl Default for Directory {
    fn default() -> (d: Directory)
        ensures
            d.vue() == Map::<u32, Entree>::empty(),
            d.reglage() == 4,
    {
        Directory::new()
    }
}

/// Un refus ne change rien : ni l'emplacement, ni l'horloge d'hysteresis.
pub proof fn loi_refus_sans_effet(h: u64, vue: Map<u32, Entree>, e: EntityId, dest: Location, at: u64)
    requires
        issue_migration(h, vue, e, dest, at) is Err,
    ensures
        vue_apres_migration(h, vue, e, dest, at) == vue,
        issue_migration(h, vue, e, dest, at)->Err_0.entite == e,
        issue_migration(h, vue, e, dest, at)->Err_0.dest == dest,
        0 < issue_migration(h, vue, e, dest, at)->Err_0.ticks_restants <= h,
{
}

/// Une migration effectuee rend l'emplacement precedent (aucun pour une
/// premiere inscription) et place l'entite a destination.
pub proof fn loi_effectuee(h: u64, vue: Map<u32, Entree>, e: EntityId, dest: Location, at: u64)
    requires
        issue_migration(h, vue, e, dest, at) is Ok,
    ensures
        vue_apres_migration(h, vue, e, dest, at).contains_key(e.0),
        vue_apres_migration(h, vue, e, dest, at)[e.0].loc == dest,
        issue_migration(h, vue, e, dest, at) == Ok::<Migration, RefusHysteresis>(Migration::Inchangee) <==> (
        vue.contains_key(e.0) && vue[e.0].loc == dest),
        issue_migration(h, vue, e, dest, at) == Ok::<Migration, RefusHysteresis>(Migration::Inchangee) ==> vue_apres_migration(
            h,
            vue,
            e,
            dest,
            at,
        ) == vue,
        issue_migration(h, vue, e, dest, at) is Ok && issue_migration(h, vue, e, dest, at) != Ok::<
            Migration,
            RefusHysteresis,
        >(Migration::Inchangee) ==> issue_migration(h, vue, e, dest, at) == Ok::<Migration, RefusHysteresis>(
            Migration::Effectuee {
                depuis: if vue.contains_key(e.0) {
                    Some(vue[e.0].loc)
                } else {
                    None
                },
            },
        ),
{
}

/// Une entite a toujours exactement un emplacement, et c'est toujours un
/// emplacement demande pour elle : une migration n'invente ni ne perd
/// aucune entite, et ne touche a aucune autre.
pub proof fn loi_emplacement_demande(h: u64, vue: Map<u32, Entree>, e: EntityId, dest: Location, at: u64)
    ensures
        vue_apres_migration(h, vue, e, dest, at).dom() == vue.dom().insert(e.0),
        forall|k: u32|
            k != e.0 && vue.contains_key(k) ==> #[trigger] vue_apres_migration(h, vue, e, dest, at)[k] == vue[k],
        vue_apres_migration(h, vue, e, dest, at)[e.0].loc == dest || vue_apres_migration(h, vue, e, dest, at)[e.0]
            == vue[e.0],
{
    assert(vue_apres_migration(h, vue, e, dest, at).dom() =~= vue.dom().insert(e.0));
}

/// Sans hysteresis, l'annuaire suit toujours la derniere intention.
pub proof fn loi_sans_hysteresis(vue: Map<u32, Entree>, e: EntityId, dest: Location, at: u64)
    ensures
        issue_migration(0, vue, e, dest, at) is Ok,
        vue_apres_migration(0, vue, e, dest, at)[e.0].loc == dest,
{
}

/// Deux migrations effectuees de la meme entite sont separees d'au moins
/// `h` ticks, quels que soient les ticks fournis (meme non monotones).
pub proof fn loi_espacement(h: u64, vue: Map<u32, Entree>, e: EntityId, dest: Location, at: u64)
    requires
        h >= 1,
        vue.contains_key(e.0),
        vue[e.0].derniere_migration is Some,
        issue_migration(h, vue, e, dest, at) matches Ok(Migration::Effectuee { .. }),
    ensures
        at >= (vue[e.0].derniere_migration->0).0 + h,
        vue_apres_migration(h, vue, e, dest, at)[e.0].derniere_migration == Some(Tick(at)),
{
}

/// Rejoue une suite de demandes `(destination, tick)` pour une entite ;
/// rend l'annuaire obtenu et le nombre de migrations effectuees depuis un
/// emplacement connu.
pub open spec fn rejouer(h: u64, vue: Map<u32, Entree>, e: EntityId, ops: Seq<(Location, u64)>) -> (Map<u32, Entree>, nat)
    decreases ops.len(),
{
    if ops.len() == 0 {
        (vue, 0)
    } else {
        let (v, n) = rejouer(h, vue, e, ops.drop_last());
        let (dest, at) = ops.last();
        let compte = v.contains_key(e.0) && issue_migration(h, v, e, dest, at) matches Ok(Migration::Effectuee { .. });
        (vue_apres_migration(h, v, e, dest, at), if compte {
            n + 1
        } else {
            n
        })
    }
}

/// Le nombre de migrations acceptees est borne par l'hysteresis : apres
/// `n` migrations effectuees depuis une inscription, la derniere a eu lieu
/// au moins `(n - 1) * h` ticks apres le tick zero ; donc `n <= 1 + t / h`
/// ou `t` est le tick de la derniere.
pub proof fn loi_migrations_bornees(h: u64, vue: Map<u32, Entree>, e: EntityId, ops: Seq<(Location, u64)>)
    requires
        h >= 1,
        vue.contains_key(e.0),
        vue[e.0].derniere_migration is None,
    ensures
        ({
            let (v, n) = rejouer(h, vue, e, ops);
            &&& v.contains_key(e.0)
            &&& (n == 0 <==> v[e.0].derniere_migration is None)
            &&& n > 0 ==> (n - 1) * h <= (v[e.0].derniere_migration->0).0
        }),
    decreases ops.len(),
{
    if ops.len() > 0 {
        loi_migrations_bornees(h, vue, e, ops.drop_last());
        let (v, n) = rejouer(h, vue, e, ops.drop_last());
        let (dest, at) = ops.last();
        let v2 = vue_apres_migration(h, v, e, dest, at);
        let compte = v.contains_key(e.0) && issue_migration(h, v, e, dest, at) matches Ok(Migration::Effectuee { .. });
        assert(rejouer(h, vue, e, ops) == (v2, if compte { n + 1 } else { n }));
        assert(v2.contains_key(e.0));
        if compte {
            assert(v2[e.0].derniere_migration == Some(Tick(at)));
            let n2: nat = n + 1;
            assert((n2 - 1) * h == n * h);
            if n > 0 {
                assert(((n - 1) * h + h) == n * h) by (nonlinear_arith);
                assert(at >= (v[e.0].derniere_migration->0).0 + h);
            } else {
                assert(n * h == 0) by (nonlinear_arith) requires n == 0;
            }
            assert((n2 - 1) * h <= (v2[e.0].derniere_migration->0).0);
        } else {
            assert(v2 == v);
        }
    }
}

/// Inscrire une entite inconnue par `migrer` ne demarre pas son horloge
/// d'hysteresis : la migration suivante vers un autre emplacement est
/// effectuee quels que soient le reglage et le tick, depuis l'emplacement
/// d'inscription.
pub proof fn loi_inscription_sans_horloge(
    h: u64,
    vue: Map<u32, Entree>,
    e: EntityId,
    dest: Location,
    at: u64,
    dest2: Location,
    at2: u64,
)
    requires
        !vue.contains_key(e.0),
        dest2 != dest,
    ensures
        vue_apres_migration(h, vue, e, dest, at)[e.0].derniere_migration is None,
        issue_migration(h, vue_apres_migration(h, vue, e, dest, at), e, dest2, at2) == Ok::<Migration, RefusHysteresis>(
            Migration::Effectuee { depuis: Some(dest) },
        ),
        vue_apres_migration(h, vue_apres_migration(h, vue, e, dest, at), e, dest2, at2)[e.0].loc == dest2,
{
}

} // verus!
