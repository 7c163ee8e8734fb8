//! Registre des abonnements de `observer`, commun aux magasins : un canal
//! borne par abonne, pousse uniquement au scellement.

use vstd::prelude::*;
use crossbeam_channel::Receiver;
use crate::canal::{canal_borne, tenter_envoi, vue_chrono, Canal, IssueEnvoi, VueChrono, CAPACITE_CANAL};
use crate::types::{CellId, Chronotope, RoomId};

verus! {

/// Suite de cellules strictement croissante.
pub open spec fn cellules_triees(s: Seq<CellId>) -> bool {
    forall|i: int, j: int| 0 <= i < j < s.len() ==> s[i].0 < s[j].0
}

/// `cell` figure dans la suite.
pub open spec fn contient_cellule(s: Seq<CellId>, cell: u32) -> bool {
    exists|i: int| 0 <= i < s.len() && s[i].0 == cell
}

/// Un abonnement : une salle, des cellules (triees, sans doublon), le cote
/// emetteur de son canal, et son numero d'inscription.
#[verifier::reject_recursive_types(P)]
pub struct Abonnement<P> {
    pub room: RoomId,
    pub cells: Vec<CellId>,
    pub canal: Canal<P>,
    pub id: Ghost<nat>,
}

impl<P> Abonnement<P> {
    /// L'abonnement veut les sceaux de `(room, cell)`.
    pub open spec fn concerne(&self, room: u32, cell: u32) -> bool {
        self.room.0 == room && contient_cellule(self.cells@, cell)
    }
}

/// Un abonnement vu de l'exterieur : son numero, sa salle, ses cellules,
/// les chronotopes confies a son canal, le recepteur de ce canal et sa
/// capacite.
pub type VueAbonnement<P> = (nat, u32, Set<u32>, Seq<VueChrono<P>>, Receiver<Chronotope<P>>, nat);

/// La vue d'un abonnement.
pub open spec fn vue_abonnement<P>(a: Abonnement<P>) -> VueAbonnement<P> {
    (
        a.id@,
        a.room.0,
        Set::new(|c: u32| contient_cellule(a.cells@, c)),
        a.canal.confies(),
        a.canal.recepteur(),
        a.canal.capacite(),
    )
}

/// Les vues d'une suite d'abonnements.
pub open spec fn vues<P>(s: Seq<Abonnement<P>>) -> Seq<VueAbonnement<P>> {
    s.map_values(|a: Abonnement<P>| vue_abonnement(a))
}

/// L'abonnement `v` veut les sceaux de `(room, cell)`.
pub open spec fn veut<P>(v: VueAbonnement<P>, room: u32, cell: u32) -> bool {
    v.1 == room && v.2.contains(cell)
}

/// L'abonnement `v` apres qu'on a confie `c` a son canal.
pub open spec fn avec_confie<P>(v: VueAbonnement<P>, c: VueChrono<P>) -> VueAbonnement<P> {
    (v.0, v.1, v.2, v.3.push(c), v.4, v.5)
}

/// Les abonnements apres une offre de `c` : chacun qui veut `c` l'a recu
/// dans son canal, une fois ; les autres sont inchanges.
pub open spec fn apres_envoi<P>(abos: Seq<VueAbonnement<P>>, c: VueChrono<P>) -> Seq<VueAbonnement<P>> {
    Seq::new(
        abos.len(),
        |i: int|
            if veut(abos[i], c.0.0, c.1.0) {
                avec_confie(abos[i], c)
            } else {
                abos[i]
            },
    )
}

/// Ce qui reste de chaque abonnement apres une diffusion a `(room, cell)` :
/// il n'est retire que s'il voulait le sceau et que son recepteur est
/// abandonne.
pub open spec fn gardes<P>(abos: Seq<VueAbonnement<P>>, room: u32, cell: u32, issues: Seq<IssueEnvoi>) -> Seq<bool> {
    Seq::new(abos.len(), |i: int| !(veut(abos[i], room, cell) && issues[i] is Deconnecte))
}

/// Une diffusion de `c` fait passer les abonnements de `abos` a `abos2` :
/// pour une issue d'envoi par abonnement, chaque abonnement qui veut `c` se
/// voit confier `c` et aucun autre, puis n'est retire que si son recepteur
/// est abandonne.
pub open spec fn diffusion<P>(abos: Seq<VueAbonnement<P>>, abos2: Seq<VueAbonnement<P>>, c: VueChrono<P>) -> bool {
    exists|issues: Seq<IssueEnvoi>|
        #![trigger gardes(abos, c.0.0, c.1.0, issues)]
        {
            &&& issues.len() == abos.len()
            &&& abos2 == filtrer(apres_envoi(abos, c), gardes(abos, c.0.0, c.1.0, issues))
        }
}

/// Sous-suite des elements de `s` dont la garde vaut `true`, dans l'ordre.
pub open spec fn filtrer<A>(s: Seq<A>, garde: Seq<bool>) -> Seq<A>
    decreases s.len(),
{
    if s.len() == 0 {
        Seq::empty()
    } else {
        let r = filtrer(s.drop_last(), garde.drop_last());
        if garde.last() {
            r.push(s.last())
        } else {
            r
        }
    }
}

/// Un abonnement est garde si et seulement si son envoi n'a pas trouve le
/// recepteur abandonne.
pub fn garder(issue: &IssueEnvoi) -> (b: bool)
    ensures
        b == !(*issue is Deconnecte),
{
    match issue {
        IssueEnvoi::Deconnecte => false,
        _ => true,
    }
}

/// Les abonnes de `observer`, dans l'ordre de leur inscription, et le numero
/// du prochain abonnement.
#[verifier::reject_recursive_types(P)]
pub struct Diffuseur<P> {
    pub abonnes: Vec<Abonnement<P>>,
    pub prochain: Ghost<nat>,
}

impl<P: Copy> Diffuseur<P> {
    pub open spec fn bien_forme(&self) -> bool {
        forall|i: int| 0 <= i < self.abonnes@.len() ==> cellules_triees(#[trigger] self.abonnes@[i].cells@)
    }

    /// Les abonnements inscrits, dans l'ordre de leur inscription.
    pub open spec fn vue(&self) -> Seq<VueAbonnement<P>> {
        vues(self.abonnes@)
    }

    pub fn new() -> (d: Diffuseur<P>)
        ensures
            d.bien_forme(),
            d.abonnes@.len() == 0,
            d.vue() == Seq::<VueAbonnement<P>>::empty(),
            d.prochain@ == 0,
    {
        let d = Diffuseur { abonnes: Vec::new(), prochain: Ghost(0) };
        proof {
            assert(d.vue() =~= Seq::<VueAbonnement<P>>::empty());
        }
        d
    }

    /// Inscrit un abonne aux sceaux de `cells` dans `room`, sous le numero
    /// `prochain`, et rend le recepteur de son canal, vide, de capacite
    /// `CAPACITE_CANAL`.
    pub fn abonner(&mut self, room: RoomId, cells: &[CellId]) -> (rx: Receiver<Chronotope<P>>)
        requires
            old(self).bien_forme(),
        ensures
            final(self).bien_forme(),
            final(self).vue() == old(self).vue().push(
                (
                    old(self).prochain@,
                    room.0,
                    Set::new(|c: u32| contient_cellule(cells@, c)),
                    Seq::<VueChrono<P>>::empty(),
                    rx,
                    CAPACITE_CANAL as nat,
                ),
            ),
            final(self).prochain@ == old(self).prochain@ + 1,
    {
        let (canal, rx) = canal_borne(CAPACITE_CANAL);
        let triees = trier_sans_doublon(cells);
        let id = Ghost(self.prochain@);
        self.abonnes.push(Abonnement { room, cells: triees, canal, id });
        self.prochain = Ghost(self.prochain@ + 1);
        proof {
            let dernier = self.abonnes@.last();
            assert(Set::new(|c: u32| contient_cellule(dernier.cells@, c)) =~= Set::new(
                |c: u32| contient_cellule(cells@, c),
            ));
            assert(self.vue() =~= old(self).vue().push(
                (
                    old(self).prochain@,
                    room.0,
                    Set::new(|c: u32| contient_cellule(cells@, c)),
                    Seq::<VueChrono<P>>::empty(),
                    rx,
                    CAPACITE_CANAL as nat,
                ),
            ));
        }
        rx
    }

    /// Confie une copie du chronotope au canal de chaque abonne concerne
    /// par sa salle et sa cellule, sans jamais attendre. Canal plein : le
    /// sceau est perdu pour cet abonne. Recepteur abandonne : l'abonnement
    /// est retire. Les autres abonnes restent, dans leur ordre.
    pub fn diffuser(&mut self, chrono: &Chronotope<P>)
        requires
            old(self).bien_forme(),
        ensures
            final(self).bien_forme(),
            final(self).prochain@ == old(self).prochain@,
            diffusion(old(self).vue(), final(self).vue(), vue_chrono(*chrono)),
    {
        let mut anciens: Vec<Abonnement<P>> = Vec::new();
        std::mem::swap(&mut anciens, &mut self.abonnes);
        let ghost depart = anciens@;
        let ghost vc = vue_chrono(*chrono);
        let ghost room = chrono.room.0;
        let ghost cell = chrono.cell.0;
        let ghost mut garde: Seq<bool> = Seq::empty();
        let ghost mut issues: Seq<IssueEnvoi> = Seq::empty();
        let mut restants: Vec<Abonnement<P>> = Vec::new();
        proof {
            assert(vues(depart.take(0)) =~= Seq::<VueAbonnement<P>>::empty());
            assert(gardes(vues(depart.take(0)), room, cell, issues) =~= garde);
            assert(vues(restants@) =~= filtrer(apres_envoi(vues(depart.take(0)), vc), garde));
        }
        for ab in it: anciens
            invariant
                depart == it.seq(),
                vc == vue_chrono(*chrono),
                room == chrono.room.0,
                cell == chrono.cell.0,
                garde.len() == it.index(),
                issues.len() == it.index(),
                garde == gardes(vues(depart.take(it.index() as int)), room, cell, issues),
                vues(restants@) == filtrer(apres_envoi(vues(depart.take(it.index() as int)), vc), garde),
                forall|i: int| 0 <= i < depart.len() ==> cellules_triees(#[trigger] depart[i].cells@),
                forall|i: int| 0 <= i < restants@.len() ==> cellules_triees(#[trigger] restants@[i].cells@),
        {
            let ghost k = garde.len() as int;
            let ghost v = vue_abonnement(ab);
            let mut ab = ab;
            let concerne = ab.room.0 == chrono.room.0 && cellule_presente(&ab.cells, chrono.cell.0);
            let mut garde_ab = true;
            let ghost mut issue = IssueEnvoi::Livre;
            if concerne {
                let copie = chrono.copie();
                assert(vue_chrono(copie) == vc);
                let envoi = tenter_envoi(&mut ab.canal, copie);
                garde_ab = garder(&envoi);
                proof {
                    issue = envoi;
                }
            }
            let ghost g0 = garde;
            let ghost i0 = issues;
            let ghost r0 = restants@;
            proof {
                assert(v == vue_abonnement(depart[k]));
                assert(concerne == veut(v, room, cell));
                if concerne {
                    assert(vue_abonnement(ab) =~= avec_confie(v, vc));
                } else {
                    assert(vue_abonnement(ab) == v);
                }
                garde = garde.push(garde_ab);
                issues = issues.push(issue);
                assert(depart.take(k + 1).drop_last() =~= depart.take(k));
                assert(depart.take(k + 1).last() == depart[k]);
                let pre = vues(depart.take(k));
                let pre1 = vues(depart.take(k + 1));
                assert(pre1 =~= pre.push(v));
                assert(issues.drop_last() =~= i0);
                assert(garde.drop_last() =~= g0);
                assert(garde =~= gardes(pre1, room, cell, issues));
                let nouveau = if concerne { avec_confie(v, vc) } else { v };
                assert(apres_envoi(pre1, vc) =~= apres_envoi(pre, vc).push(nouveau));
                assert(apres_envoi(pre1, vc).drop_last() =~= apres_envoi(pre, vc));
                assert(apres_envoi(pre1, vc).last() == nouveau);
                assert(vue_abonnement(ab) == nouveau);
                assert(filtrer(apres_envoi(pre1, vc), garde) == (if garde_ab {
                    filtrer(apres_envoi(pre, vc), g0).push(nouveau)
                } else {
                    filtrer(apres_envoi(pre, vc), g0)
                }));
            }
            if garde_ab {
                restants.push(ab);
                proof {
                    assert(vues(restants@) =~= vues(r0).push(vue_abonnement(ab)));
                }
            }
        }
        proof {
            assert(depart.take(depart.len() as int) =~= depart);
        }
        self.abonnes = restants;
        proof {
            assert(issues.len() == vues(depart).len());
            assert(gardes(vues(depart), room, cell, issues) == garde);
        }
    }
}

/// Recherche dichotomique d'une cellule dans une suite triee : `(true, i)`
/// si `s[i]` est `cell`, sinon `(false, i)` ou `i` est sa place.
pub fn position_cellule(s: &Vec<CellId>, cell: u32) -> (r: (bool, usize))
    requires
        cellules_triees(s@),
    ensures
        r.1 <= s.len(),
        r.0 ==> r.1 < s.len() && s@[r.1 as int].0 == cell,
        !r.0 ==> forall|i: int| 0 <= i < s.len() ==> (#[trigger] s@[i].0 < cell <==> i < r.1),
        !r.0 ==> forall|i: int| 0 <= i < s.len() ==> #[trigger] s@[i].0 != cell,
{
    let mut bas: usize = 0;
    let mut haut: usize = s.len();
    while bas < haut
        invariant
            bas <= haut <= s.len(),
            cellules_triees(s@),
            forall|i: int| 0 <= i < bas ==> #[trigger] s@[i].0 < cell,
            forall|i: int| haut <= i < s.len() ==> #[trigger] s@[i].0 > cell,
        decreases haut - bas,
    {
        let milieu = bas + (haut - bas) / 2;
        let c = s[milieu].0;
        if c == cell {
            return (true, milieu);
        } else if c < cell {
            bas = milieu + 1;
        } else {
            haut = milieu;
        }
    }
    (false, bas)
}

/// `cell` figure dans la suite triee `s`.
pub fn cellule_presente(s: &Vec<CellId>, cell: u32) -> (r: bool)
    requires
        cellules_triees(s@),
    ensures
        r == contient_cellule(s@, cell),
{
    let (trouve, _) = position_cellule(s, cell);
    trouve
}

/// Les cellules de `cells`, triees et sans doublon.
pub fn trier_sans_doublon(cells: &[CellId]) -> (r: Vec<CellId>)
    ensures
        cellules_triees(r@),
        forall|c: u32| contient_cellule(r@, c) <==> contient_cellule(cells@, c),
{
    let mut r: Vec<CellId> = Vec::new();
    let mut i: usize = 0;
    while i < cells.len()
        invariant
            i <= cells.len(),
            cellules_triees(r@),
            forall|c: u32| contient_cellule(r@, c) <==> contient_cellule(cells@.take(i as int), c),
        decreases cells.len() - i,
    {
        let c = cells[i];
        let ghost avant = r@;
        let (trouve, bas) = position_cellule(&r, c.0);
        if !trouve {
            r.insert(bas, c);
            proof {
                assert forall|a: int, b: int| 0 <= a < b < r@.len() implies r@[a].0 < r@[b].0 by {
                    if b < bas {
                        assert(r@[a] == avant[a] && r@[b] == avant[b]);
                    } else if b == bas {
                        assert(r@[a] == avant[a]);
                    } else if a < bas {
                        assert(r@[a] == avant[a] && r@[b] == avant[b - 1]);
                    } else if a == bas {
                        assert(r@[b] == avant[b - 1]);
                    } else {
                        assert(r@[a] == avant[a - 1] && r@[b] == avant[b - 1]);
                    }
                }
            }
        }
        proof {
            let pre = cells@.take(i as int);
            let post = cells@.take(i as int + 1);
            assert(post =~= pre.push(c));
            assert forall|x: u32| contient_cellule(r@, x) <==> contient_cellule(post, x) by {
                if contient_cellule(r@, x) {
                    let j = choose|j: int| 0 <= j < r@.len() && r@[j].0 == x;
                    if x != c.0 {
                        if r@.len() == avant.len() {
                            assert(avant[j].0 == x);
                        } else if j < bas {
                            assert(avant[j].0 == x);
                        } else {
                            assert(j != bas);
                            assert(avant[j - 1].0 == x);
                        }
                        assert(contient_cellule(avant, x));
                        let t = choose|t: int| 0 <= t < pre.len() && pre[t].0 == x;
                        assert(post[t].0 == x);
                    } else {
                        assert(post[i as int].0 == x);
                    }
                }
                if contient_cellule(post, x) {
                    let t = choose|t: int| 0 <= t < post.len() && post[t].0 == x;
                    if t < i {
                        assert(pre[t].0 == x);
                        assert(contient_cellule(avant, x));
                        let j = choose|j: int| 0 <= j < avant.len() && avant[j].0 == x;
                        if r@.len() == avant.len() {
                            assert(r@[j].0 == x);
                        } else if j < bas {
                            assert(r@[j].0 == x);
                        } else {
                            assert(r@[j + 1].0 == x);
                        }
                    } else {
                        assert(r@[bas as int].0 == x);
                    }
                }
            }
        }
        i = i + 1;
    }
    proof {
        assert(cells@.take(cells.len() as int) =~= cells@);
    }
    r
}

} // verus!
