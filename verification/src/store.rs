//! Le contrat de stockage commun a tous les magasins de chronotopes, et le
//! modele abstrait dans lequel il est ecrit.
//!
//! Chaque cle `(salle, cellule, tick)` est dans l'un de trois etats :
//! ouverte (elle accepte des ecritures, derniere ecriture gagnante par
//! entite), scellee (immuable, lisible), ou perimee (sortie de la fenetre
//! que le magasin retient : elle n'accepte plus rien et n'est plus lisible).

use vstd::prelude::*;
use crossbeam_channel::Receiver;
use crate::canal::{vue_chrono, VueChrono, CAPACITE_CANAL};
use crate::diffusion::{contient_cellule, diffusion, VueAbonnement};
use crate::canonique::{canonique, lemme_canonique_unique, lemme_lww_domaine, lemme_lww_trie, lww, trie_strict};
use crate::types::{CellId, Chronotope, EntityId, RoomId, Tick, WriteError};

verus! {

/// Etat abstrait d'un chronotope.
pub enum EtatChrono<P> {
    Ouvert(Map<u32, P>),
    Scelle(Map<u32, P>),
    Perime,
}

impl<P> EtatChrono<P> {
    /// Poses retenues, par entite ; vide pour un chronotope perime.
    pub open spec fn contenu(self) -> Map<u32, P> {
        match self {
            EtatChrono::Ouvert(m) => m,
            EtatChrono::Scelle(m) => m,
            EtatChrono::Perime => Map::empty(),
        }
    }

    /// L'etat apres une ecriture de `p` pour l'entite `e` : seul un
    /// chronotope ouvert change.
    pub open spec fn apres_ecriture(self, e: u32, p: P) -> EtatChrono<P> {
        match self {
            EtatChrono::Ouvert(m) => EtatChrono::Ouvert(m.insert(e, p)),
            autre => autre,
        }
    }

    /// L'etat apres un scellement : un chronotope ouvert devient scelle avec
    /// le meme contenu, les autres restent tels quels.
    pub open spec fn apres_sceau(self) -> EtatChrono<P> {
        match self {
            EtatChrono::Ouvert(m) => EtatChrono::Scelle(m),
            autre => autre,
        }
    }

    /// Ce qu'une operation sur une AUTRE cle peut faire de cet etat : rien,
    /// ou le faire sortir de la fenetre retenue.
    pub open spec fn suite_admissible(self, apres: EtatChrono<P>) -> bool {
        apres == self || apres is Perime
    }
}

/// Les cellules de `cells` dont le chronotope au tick donne est scelle, dans
/// l'ordre de la demande.
pub open spec fn cellules_scellees<P>(etat: spec_fn(u32) -> EtatChrono<P>, cells: Seq<CellId>) -> Seq<CellId> {
    cells.filter(|c: CellId| etat(c.0) is Scelle)
}

/// Le contrat fige des magasins : ecrire, sceller, lire, observer.
pub trait ChronotopeStore<P: Copy>: Sized {
    /// Invariant interne du magasin.
    spec fn bien_forme(&self) -> bool;

    /// Les couples (salle, cellule) que le magasin sait adresser.
    spec fn domaine(&self, room: u32, cell: u32) -> bool;

    /// Les abonnements aux sceaux, dans l'ordre d'inscription : pour chacun,
    /// son numero, la salle et l'ensemble des cellules suivies, les
    /// chronotopes confies a son canal, le recepteur de ce canal et sa
    /// capacite.
    spec fn abonnements(&self) -> Seq<VueAbonnement<P>>;

    /// Le numero que recevra le prochain abonnement.
    spec fn prochain_abonne(&self) -> nat;

    /// Sceller de nouveau un chronotope deja scelle le pousse encore aux
    /// abonnes.
    spec fn rediffuse() -> bool;

    /// Etat abstrait de la cle `(room, cell, tick)`.
    spec fn etat(&self, room: u32, cell: u32, tick: u64) -> EtatChrono<P>;

    /// Ecrit la pose d'une entite. Accepte si et seulement si le chronotope
    /// est ouvert ; la derniere ecriture d'une entite gagne. Refuse, rien ne
    /// change.
    fn ecrire(&mut self, room: RoomId, cell: CellId, tick: Tick, entity: EntityId, pose: P) -> (r: Result<(), WriteError>)
        requires
            old(self).bien_forme(),
            old(self).domaine(room.0, cell.0),
        ensures
            final(self).bien_forme(),
            forall|a: u32, b: u32| #[trigger] final(self).domaine(a, b) == old(self).domaine(a, b),
            r is Ok <==> old(self).etat(room.0, cell.0, tick.0) is Ouvert,
            r is Err ==> r == Err::<(), WriteError>(WriteError::AlreadySealed(room, cell, tick)),
            final(self).etat(room.0, cell.0, tick.0) == old(self).etat(room.0, cell.0, tick.0).apres_ecriture(entity.0, pose),
            forall|a: u32, b: u32, t: u64|
                !(a == room.0 && b == cell.0 && t == tick.0) ==> old(self).etat(a, b, t).suite_admissible(
                    #[trigger] final(self).etat(a, b, t),
                ),
            r is Err ==> forall|a: u32, b: u32, t: u64| #[trigger] final(self).etat(a, b, t) == old(self).etat(a, b, t),
            final(self).abonnements() == old(self).abonnements(),
            final(self).prochain_abonne() == old(self).prochain_abonne(),
    ;

    /// Scelle `(room, cell, tick)` et rend le chronotope scelle, entites
    /// triees sans doublon. Idempotent : un chronotope deja scelle reste
    /// tel quel. Un chronotope perime se scelle vide, sans rien changer.
    /// Le chronotope rendu est confie au canal de chaque abonnement qui suit
    /// sa salle et sa cellule, et d'aucun autre ; un abonnement dont le
    /// recepteur est abandonne est retire. Un sceau repete n'est confie que
    /// si le magasin `rediffuse` ; le sceau d'un chronotope perime ne l'est
    /// jamais.
    fn sceller(&mut self, room: RoomId, cell: CellId, tick: Tick) -> (c: Chronotope<P>)
        requires
            old(self).bien_forme(),
            old(self).domaine(room.0, cell.0),
        ensures
            final(self).bien_forme(),
            forall|a: u32, b: u32| #[trigger] final(self).domaine(a, b) == old(self).domaine(a, b),
            c.room == room,
            c.cell == cell,
            c.tick == tick,
            c.sealed,
            canonique(c.entities@, old(self).etat(room.0, cell.0, tick.0).contenu()),
            final(self).etat(room.0, cell.0, tick.0) == old(self).etat(room.0, cell.0, tick.0).apres_sceau(),
            forall|a: u32, b: u32, t: u64|
                !(a == room.0 && b == cell.0 && t == tick.0) ==> old(self).etat(a, b, t).suite_admissible(
                    #[trigger] final(self).etat(a, b, t),
                ),
            final(self).prochain_abonne() == old(self).prochain_abonne(),
            old(self).etat(room.0, cell.0, tick.0) is Ouvert || (old(self).etat(room.0, cell.0, tick.0) is Scelle
                && Self::rediffuse()) ==> diffusion(old(self).abonnements(), final(self).abonnements(), vue_chrono(c)),
            old(self).etat(room.0, cell.0, tick.0) is Perime || (old(self).etat(room.0, cell.0, tick.0) is Scelle
                && !Self::rediffuse()) ==> final(self).abonnements() == old(self).abonnements(),
    ;

    /// Chronotopes scelles des cellules demandees au tick donne, dans
    /// l'ordre de la demande ; une cellule non scellee est absente, jamais
    /// rendue partiellement.
    fn lire(&self, room: RoomId, cells: &[CellId], tick: Tick) -> (v: Vec<Chronotope<P>>)
        requires
            self.bien_forme(),
            forall|i: int| 0 <= i < cells@.len() ==> self.domaine(room.0, #[trigger] cells@[i].0),
        ensures
            v@.len() == cellules_scellees(|c: u32| self.etat(room.0, c, tick.0), cells@).len(),
            forall|i: int|
                #![trigger v@[i]]
                0 <= i < v@.len() ==> {
                    let c = cellules_scellees(|c: u32| self.etat(room.0, c, tick.0), cells@)[i];
                    &&& v@[i].room == room
                    &&& v@[i].cell == c
                    &&& v@[i].tick == tick
                    &&& v@[i].sealed
                    &&& canonique(v@[i].entities@, self.etat(room.0, c.0, tick.0).contenu())
                },
    ;

    /// Abonne l'appelant aux sceaux a venir de `cells` dans `room` : un
    /// abonnement `(room, cellules)` s'ajoute apres les autres, son canal
    /// vide, de capacite `CAPACITE_CANAL`, et `rx` est son recepteur. Le canal est
    /// borne ; un abonne trop lent perd des sceaux. Aucun chronotope ne
    /// change.
    fn observer(&mut self, room: RoomId, cells: &[CellId]) -> (rx: Receiver<Chronotope<P>>)
        requires
            old(self).bien_forme(),
        ensures
            final(self).bien_forme(),
            forall|a: u32, b: u32| #[trigger] final(self).domaine(a, b) == old(self).domaine(a, b),
            forall|a: u32, b: u32, t: u64| #[trigger] final(self).etat(a, b, t) == old(self).etat(a, b, t),
            final(self).abonnements() == old(self).abonnements().push(
                (
                    old(self).prochain_abonne(),
                    room.0,
                    Set::new(|c: u32| contient_cellule(cells@, c)),
                    Seq::<VueChrono<P>>::empty(),
                    rx,
                    CAPACITE_CANAL as nat,
                ),
            ),
            final(self).prochain_abonne() == old(self).prochain_abonne() + 1,
    ;
}

/// Sceller est idempotent : sceller un chronotope deja scelle ne change ni
/// son etat ni son contenu.
pub proof fn loi_sceller_idempotent<P>(e: EtatChrono<P>)
    ensures
        e.apres_sceau().apres_sceau() == e.apres_sceau(),
        e.apres_sceau().contenu() == e.contenu(),
{
}

/// Un chronotope scelle refuse toute ecriture, quelle qu'elle soit.
pub proof fn loi_scelle_refuse_tout<P>(e: EtatChrono<P>, entite: u32, p: P)
    ensures
        !(e.apres_sceau() is Ouvert),
        e.apres_sceau().apres_ecriture(entite, p) == e.apres_sceau(),
{
}

/// Dernier ecrivain gagnant : deux ecritures de la meme entite avant le
/// sceau valent la seconde seule.
pub proof fn loi_dernier_ecrivain_gagne<P>(e: EtatChrono<P>, entite: u32, p1: P, p2: P)
    ensures
        e.apres_ecriture(entite, p1).apres_ecriture(entite, p2) == e.apres_ecriture(entite, p2),
{
    match e {
        EtatChrono::Ouvert(m) => {
            assert(m.insert(entite, p1).insert(entite, p2) =~= m.insert(entite, p2));
        },
        _ => {},
    }
}

/// Une ecriture acceptee n'est jamais perdue : apres le sceau, l'entite
/// porte la pose ecrite (tant qu'aucune ecriture ulterieure ne l'a
/// remplacee), et les autres entites gardent la leur.
pub proof fn loi_ecriture_acceptee_conservee<P>(e: EtatChrono<P>, entite: u32, p: P)
    requires
        e is Ouvert,
    ensures
        e.apres_ecriture(entite, p).apres_sceau().contenu() == e.contenu().insert(entite, p),
        e.apres_ecriture(entite, p).apres_sceau() is Scelle,
{
}

/// Deux sceaux d'un meme contenu rendent les memes entites, dans le meme
/// ordre : la forme rendue ne depend que du contenu.
pub proof fn loi_sceau_determine_par_le_contenu<P>(s1: Seq<(EntityId, P)>, s2: Seq<(EntityId, P)>, m: Map<u32, P>)
    requires
        canonique(s1, m),
        canonique(s2, m),
    ensures
        s1 == s2,
{
    lemme_canonique_unique(s1, s2, m);
}

/// Une lecture d'un chronotope scelle rend exactement ce que son sceau a
/// rendu.
pub proof fn loi_lecture_rend_le_sceau<P>(avant: EtatChrono<P>, sceau: Seq<(EntityId, P)>, lu: Seq<(EntityId, P)>)
    requires
        canonique(sceau, avant.contenu()),
        canonique(lu, avant.apres_sceau().contenu()),
    ensures
        lu == sceau,
{
    lemme_canonique_unique(lu, sceau, avant.contenu());
}

/// Une ecriture acceptee figure, avec sa pose, dans le chronotope que rend
/// le sceau qui la suit.
pub proof fn loi_ecriture_lue_au_sceau<P>(e: EtatChrono<P>, entite: EntityId, p: P, rendu: Seq<(EntityId, P)>)
    requires
        e is Ouvert,
        canonique(rendu, e.apres_ecriture(entite.0, p).apres_sceau().contenu()),
    ensures
        exists|i: int| 0 <= i < rendu.len() && rendu[i] == (entite, p),
{
    lemme_lww_domaine(rendu);
    lemme_lww_trie(rendu);
    assert(e.apres_ecriture(entite.0, p).apres_sceau().contenu().contains_key(entite.0));
    let i = choose|i: int| 0 <= i < rendu.len() && rendu[i].0.0 == entite.0;
    assert(rendu[i] == (entite, p));
}

/// Un pas que le contrat permet a l'etat d'une cle : une ecriture ou un
/// sceau sur cette cle, ou une operation sur une autre cle.
pub open spec fn pas_admissible<P>(a: EtatChrono<P>, b: EtatChrono<P>) -> bool {
    ||| a.suite_admissible(b)
    ||| exists|e: u32, p: P| b == a.apres_ecriture(e, p)
    ||| b == a.apres_sceau()
}

/// Un chronotope scelle le reste, avec le meme contenu, a travers toute
/// suite d'operations tant qu'il ne sort pas de la fenetre retenue : les
/// sceaux suivants rendent le meme chronotope, les ecritures sont refusees.
pub proof fn loi_scelle_definitif<P>(etats: Seq<EtatChrono<P>>)
    requires
        etats.len() > 0,
        etats[0] is Scelle,
        forall|i: int| 0 < i < etats.len() ==> pas_admissible(etats[i - 1], #[trigger] etats[i]),
        forall|i: int| 0 <= i < etats.len() ==> !(#[trigger] etats[i] is Perime),
    ensures
        forall|i: int| 0 <= i < etats.len() ==> #[trigger] etats[i] == etats[0],
    decreases etats.len(),
{
    if etats.len() > 1 {
        let d = etats.drop_last();
        assert forall|i: int| 0 < i < d.len() implies pas_admissible(d[i - 1], #[trigger] d[i]) by {
            assert(d[i - 1] == etats[i - 1] && d[i] == etats[i]);
        }
        assert forall|i: int| 0 <= i < d.len() implies !(#[trigger] d[i] is Perime) by {
            assert(d[i] == etats[i]);
        }
        loi_scelle_definitif(d);
        let n = etats.len() - 1;
        assert(d[n - 1] == etats[n - 1]);
        assert(pas_admissible(etats[n - 1], etats[n]));
        assert(!(etats[n] is Perime));
        assert forall|i: int| 0 <= i < etats.len() implies #[trigger] etats[i] == etats[0] by {
            if i < n {
                assert(d[i] == etats[i]);
            }
        }
    }
}

/// L'entite `k` figure dans la suite `s`.
pub open spec fn figure<P>(s: Seq<(EntityId, P)>, k: u32) -> bool {
    exists|i: int| 0 <= i < s.len() && s[i].0.0 == k
}

/// L'etat d'une cle apres une suite d'ecritures `(entite, pose)`, dans
/// l'ordre.
pub open spec fn apres_ecritures<P>(e: EtatChrono<P>, w: Seq<(EntityId, P)>) -> EtatChrono<P>
    decreases w.len(),
{
    if w.len() == 0 {
        e
    } else {
        apres_ecritures(e, w.drop_last()).apres_ecriture(w.last().0.0, w.last().1)
    }
}

proof fn lemme_apres_ecritures<P>(w: Seq<(EntityId, P)>)
    ensures
        apres_ecritures(EtatChrono::Ouvert(Map::<u32, P>::empty()), w) == EtatChrono::Ouvert(lww(w)),
    decreases w.len(),
{
    if w.len() > 0 {
        lemme_apres_ecritures(w.drop_last());
    }
}

/// Dans le contenu d'un journal, la pose d'une entite est celle de sa
/// derniere ecriture.
proof fn lemme_lww_derniere<P>(w: Seq<(EntityId, P)>, k: u32)
    requires
        lww(w).contains_key(k),
    ensures
        exists|j: int|
            0 <= j < w.len() && w[j].0.0 == k && w[j].1 == lww(w)[k] && forall|j2: int|
                j < j2 < w.len() ==> #[trigger] w[j2].0.0 != k,
    decreases w.len(),
{
    let n = w.len() - 1;
    if w.last().0.0 == k {
        assert(w[n].0.0 == k && w[n].1 == lww(w)[k]);
    } else {
        lemme_lww_derniere(w.drop_last(), k);
        let j = choose|j: int|
            0 <= j < w.drop_last().len() && w.drop_last()[j].0.0 == k && w.drop_last()[j].1 == lww(w.drop_last())[k]
                && forall|j2: int| j < j2 < w.drop_last().len() ==> #[trigger] w.drop_last()[j2].0.0 != k;
        assert(w[j] == w.drop_last()[j]);
        assert forall|j2: int| j < j2 < w.len() implies #[trigger] w[j2].0.0 != k by {
            if j2 < n {
                assert(w[j2] == w.drop_last()[j2]);
            }
        }
    }
}

/// Le sceau d'un chronotope ecrit, depuis qu'il est vide, par une suite
/// d'ecritures acceptees : entites triees sans doublon, exactement les
/// entites ecrites, chacune avec la pose de sa derniere ecriture.
pub proof fn loi_sceau_de_l_historique<P>(w: Seq<(EntityId, P)>, c: Seq<(EntityId, P)>)
    requires
        canonique(c, apres_ecritures(EtatChrono::Ouvert(Map::<u32, P>::empty()), w).apres_sceau().contenu()),
    ensures
        trie_strict(c),
        forall|k: u32| #[trigger] figure(c, k) <==> figure(w, k),
        forall|i: int|
            #![trigger c[i]]
            0 <= i < c.len() ==> exists|j: int|
                #![trigger w[j]]
                0 <= j < w.len() && w[j] == c[i] && forall|j2: int| j < j2 < w.len() ==> #[trigger] w[j2].0.0 != c[i].0.0,
{
    lemme_apres_ecritures(w);
    assert(lww(c) == lww(w));
    lemme_lww_domaine(c);
    lemme_lww_domaine(w);
    lemme_lww_trie(c);
    assert forall|k: u32| #[trigger] figure(c, k) <==> figure(w, k) by {
        assert(lww(c).contains_key(k) == lww(w).contains_key(k));
    }
    assert forall|i: int| #![trigger c[i]] 0 <= i < c.len() implies exists|j: int|
        #![trigger w[j]]
        0 <= j < w.len() && w[j] == c[i] && forall|j2: int| j < j2 < w.len() ==> #[trigger] w[j2].0.0 != c[i].0.0 by {
        let k = c[i].0.0;
        assert(lww(c).contains_key(k) && lww(c)[k] == c[i].1);
        lemme_lww_derniere(w, k);
        let j = choose|j: int|
            0 <= j < w.len() && w[j].0.0 == k && w[j].1 == lww(w)[k] && forall|j2: int|
                j < j2 < w.len() ==> #[trigger] w[j2].0.0 != k;
        assert(w[j] == c[i]);
    }
}

} // verus!
