//! Decisions de la frontiere HTTP : authentification par secret partage,
//! rejet des salles et cellules hors domaine avant tout appel au moteur,
//! lecture de la liste de cellules d'une requete.

use vstd::prelude::*;
use vstd::string::StringSliceAdditionalSpecFns;
use subtle::ConstantTimeEq;
use crate::engine::{CELLULES_PAR_SALLE, SALLES_MAX};
use crate::canonique::canonique;
use crate::engine::ChronotopeEngine;
use crate::store::{cellules_scellees, ChronotopeStore};
use crate::types::{CellId, Chronotope, EntityId, RoomId, Tick, WriteError};

verus! {

broadcast use vstd::utf8::encode_utf8_decode_utf8;

/// Appelle `subtle::ConstantTimeEq::ct_eq` sur deux tranches d'octets, puis
/// `bool::from`. Le code de `subtle` rend 0 si les longueurs different, et
/// sinon le ET des comparaisons octet par octet : vrai si et seulement si les
/// deux tranches sont egales.
#[verifier::external_body]
fn egal_en_temps_constant(a: &[u8], b: &[u8]) -> (r: bool)
    ensures
        r == (a@ == b@),
{
    bool::from(a.ct_eq(b))
}

/// Le secret fourni est le secret configure. Comparaison a temps constant ;
/// la longueur est comparee d'abord (elle n'est pas l'information
/// sensible).
pub fn secret_valide(configure: &str, fourni: Option<&str>) -> (r: bool)
    ensures
        r == (fourni is Some && fourni->0@ == configure@),
{
    match fourni {
        None => false,
        Some(fourni) => {
            let egal = fourni.len() == configure.len() && egal_en_temps_constant(fourni.as_bytes(), configure.as_bytes());
            proof {
                if fourni@ == configure@ {
                    assert(fourni.spec_bytes() == configure.spec_bytes());
                }
                if fourni.spec_bytes() == configure.spec_bytes() {
                    assert(vstd::utf8::decode_utf8(fourni.spec_bytes()) == fourni@);
                    assert(vstd::utf8::decode_utf8(configure.spec_bytes()) == configure@);
                }
            }
            egal
        },
    }
}

/// Le prefixe d'un en-tete `Authorization` porteur.
pub open spec fn prefixe_bearer() -> Seq<char> {
    seq!['B', 'e', 'a', 'r', 'e', 'r', ' ']
}

/// Le jeton d'un en-tete `Authorization: Bearer <jeton>`, `None` sans ce
/// prefixe.
pub fn jeton_bearer(valeur: &str) -> (r: Option<&str>)
    ensures
        match r {
            Some(j) => valeur@.len() >= 7 && valeur@.take(7) == prefixe_bearer() && j@ == valeur@.skip(7),
            None => !(valeur@.len() >= 7 && valeur@.take(7) == prefixe_bearer()),
        },
{
    let n = valeur.unicode_len();
    if n < 7 {
        return None;
    }
    let attendu = ['B', 'e', 'a', 'r', 'e', 'r', ' '];
    let mut i: usize = 0;
    while i < 7
        invariant
            i <= 7,
            n == valeur@.len(),
            n >= 7,
            attendu@ == prefixe_bearer(),
            forall|j: int| 0 <= j < i ==> valeur@[j] == prefixe_bearer()[j],
        decreases 7 - i,
    {
        if valeur.get_char(i) != attendu[i] {
            proof {
                assert(valeur@.take(7)[i as int] != prefixe_bearer()[i as int]);
            }
            return None;
        }
        i = i + 1;
    }
    proof {
        assert(valeur@.take(7) =~= prefixe_bearer());
    }
    let j = valeur.substring_char(7, n);
    proof {
        assert(j@ =~= valeur@.skip(7));
    }
    Some(j)
}

/// Decision d'authentification d'une requete : l'en-tete `Authorization`
/// (s'il est present et lisible) porte `Bearer ` suivi du secret configure.
pub fn authentification_acceptee(configure: &str, entete: Option<&str>) -> (r: bool)
    ensures
        r == (entete is Some && entete->0@.len() >= 7 && entete->0@.take(7) == prefixe_bearer()
            && entete->0@.skip(7) == configure@),
{
    match entete {
        None => false,
        Some(v) => secret_valide(configure, jeton_bearer(v)),
    }
}

/// Le secret partage lu dans l'environnement : refuse (fail-closed) s'il
/// est absent ou vide.
pub fn secret_depuis_env(v: Option<String>) -> (r: Result<String, &'static str>)
    ensures
        match v {
            Some(s) => if s@.len() > 0 {
                r == Ok::<String, &'static str>(s)
            } else {
                r is Err
            },
            None => r is Err,
        },
        r matches Err(m) ==> m@ == "CHRONOTOPE_INTERNAL_SECRET manquant ou vide"@,
{
    match v {
        Some(s) => {
            if s.as_str().is_empty() {
                Err("CHRONOTOPE_INTERNAL_SECRET manquant ou vide")
            } else {
                Ok(s)
            }
        },
        None => Err("CHRONOTOPE_INTERNAL_SECRET manquant ou vide"),
    }
}

/// `room` ou `cell` hors du domaine du moteur par defaut : a rejeter ici,
/// avant tout appel au moteur.
pub fn room_ou_cell_hors_domaine(room: u32, cell: u32) -> (r: bool)
    ensures
        r == (room >= SALLES_MAX || cell as u64 >= CELLULES_PAR_SALLE),
{
    room >= SALLES_MAX || (cell as u64) >= CELLULES_PAR_SALLE
}

/// Blanc au sens de la propriete Unicode `White_Space` (celle que
/// `char::is_whitespace` teste).
pub open spec fn blanc(c: char) -> bool {
    let u = c as u32;
    ||| 0x9 <= u <= 0xd
    ||| u == 0x20
    ||| u == 0x85
    ||| u == 0xa0
    ||| u == 0x1680
    ||| 0x2000 <= u <= 0x200a
    ||| u == 0x2028
    ||| u == 0x2029
    ||| u == 0x202f
    ||| u == 0x205f
    ||| u == 0x3000
}

/// `s` sans ses blancs de tete.
pub open spec fn rogne_debut(s: Seq<char>) -> Seq<char>
    decreases s.len(),
{
    if s.len() > 0 && blanc(s[0]) {
        rogne_debut(s.drop_first())
    } else {
        s
    }
}

/// `s` sans ses blancs de queue.
pub open spec fn rogne_fin(s: Seq<char>) -> Seq<char>
    decreases s.len(),
{
    if s.len() > 0 && blanc(s.last()) {
        rogne_fin(s.drop_last())
    } else {
        s
    }
}

/// `s` sans ses blancs de tete ni de queue.
pub open spec fn rogne(s: Seq<char>) -> Seq<char> {
    rogne_fin(rogne_debut(s))
}

/// Chiffre decimal ASCII.
pub open spec fn chiffre(c: char) -> bool {
    0x30 <= (c as u32) <= 0x39
}

/// Valeur decimale d'une suite de chiffres.
pub open spec fn valeur(d: Seq<char>) -> nat
    decreases d.len(),
{
    if d.len() == 0 {
        0
    } else {
        valeur(d.drop_last()) * 10 + ((d.last() as u32) - 0x30) as nat
    }
}

/// Lecture decimale d'une suite de caracteres : au moins un chiffre, rien
/// d'autre, et une valeur representable sur 32 bits.
pub open spec fn decimal_u32(d: Seq<char>) -> Option<u32> {
    if d.len() > 0 && (forall|i: int| 0 <= i < d.len() ==> chiffre(#[trigger] d[i])) && valeur(d) <= u32::MAX {
        Some(valeur(d) as u32)
    } else {
        None
    }
}

/// Lecture d'un `u32` decimal : un `+` facultatif puis la lecture decimale
/// du reste.
pub open spec fn entier_u32(s: Seq<char>) -> Option<u32> {
    decimal_u32(if s.len() > 0 && s[0] == '+' { s.drop_first() } else { s })
}

/// Les champs de `s` separes par des virgules (un champ vide compris).
pub open spec fn champs(s: Seq<char>) -> Seq<Seq<char>>
    decreases s.len(),
{
    if s.len() == 0 {
        seq![Seq::<char>::empty()]
    } else {
        let p = champs(s.drop_last());
        if s.last() == ',' {
            p.push(Seq::<char>::empty())
        } else {
            p.update(p.len() - 1, p.last().push(s.last()))
        }
    }
}

/// La cellule que designe un champ, s'il en designe une du domaine.
pub open spec fn cellule_du_champ(f: Seq<char>) -> Option<CellId> {
    let r = entier_u32(rogne(f));
    if r is Some && (r->0 as u64) < CELLULES_PAR_SALLE {
        Some(CellId(r->0))
    } else {
        None
    }
}

/// Les cellules designees par une suite de champs, dans leur ordre.
pub open spec fn selection(fs: Seq<Seq<char>>) -> Seq<CellId>
    decreases fs.len(),
{
    if fs.len() == 0 {
        Seq::empty()
    } else {
        let avant = selection(fs.drop_last());
        match cellule_du_champ(fs.last()) {
            Some(c) => avant.push(c),
            None => avant,
        }
    }
}

/// Les cellules d'une liste `cells` de requete : champs separes par des
/// virgules, chacun rogne de ses blancs et lu comme un `u32` decimal ; un
/// champ illisible ou hors du domaine est ecarte.
pub open spec fn cellules_de_la_requete(s: Seq<char>) -> Seq<CellId> {
    selection(champs(s))
}

proof fn lemme_champs_non_vide(s: Seq<char>)
    ensures
        champs(s).len() >= 1,
    decreases s.len(),
{
    if s.len() > 0 {
        lemme_champs_non_vide(s.drop_last());
    }
}

proof fn lemme_valeur_croissante(d: Seq<char>, k: int)
    requires
        0 <= k <= d.len(),
    ensures
        valeur(d.take(k)) <= valeur(d),
    decreases d.len(),
{
    if k == d.len() {
        assert(d.take(k) =~= d);
    } else {
        lemme_valeur_croissante(d.drop_last(), k);
        assert(d.drop_last().take(k) =~= d.take(k));
    }
}

fn est_blanc(c: char) -> (r: bool)
    ensures
        r == blanc(c),
{
    let u = c as u32;
    (0x9 <= u && u <= 0xd) || u == 0x20 || u == 0x85 || u == 0xa0 || u == 0x1680 || (0x2000 <= u && u <= 0x200a)
        || u == 0x2028 || u == 0x2029 || u == 0x202f || u == 0x205f || u == 0x3000
}

/// Bornes de la partie d'un champ qui reste une fois rogne de ses blancs.
fn bornes_utiles(champ: &Vec<char>) -> (r: (usize, usize))
    ensures
        r.0 <= r.1 <= champ@.len(),
        rogne(champ@) == champ@.subrange(r.0 as int, r.1 as int),
{
    let n = champ.len();
    let mut a: usize = 0;
    proof {
        assert(champ@.subrange(0, n as int) =~= champ@);
    }
    while a < n && est_blanc(champ[a])
        invariant
            a <= n,
            n == champ@.len(),
            rogne_debut(champ@) == rogne_debut(champ@.subrange(a as int, n as int)),
        decreases n - a,
    {
        proof {
            assert(champ@.subrange(a as int, n as int).drop_first() =~= champ@.subrange(a as int + 1, n as int));
        }
        a = a + 1;
    }
    let mut b: usize = n;
    while b > a && est_blanc(champ[b - 1])
        invariant
            a <= b <= n,
            n == champ@.len(),
            rogne_debut(champ@) == champ@.subrange(a as int, n as int),
            rogne(champ@) == rogne_fin(champ@.subrange(a as int, b as int)),
        decreases b - a,
    {
        proof {
            assert(champ@.subrange(a as int, b as int).drop_last() =~= champ@.subrange(a as int, b as int - 1));
        }
        b = b - 1;
    }
    (a, b)
}

/// Lecture decimale de `champ[debut..fin]`.
fn lire_decimal(champ: &Vec<char>, debut: usize, fin: usize) -> (r: Option<u32>)
    requires
        debut <= fin <= champ@.len(),
    ensures
        r == decimal_u32(champ@.subrange(debut as int, fin as int)),
{
    let ghost d = champ@.subrange(debut as int, fin as int);
    if debut == fin {
        return None;
    }
    let mut k: usize = debut;
    let mut acc: u64 = 0;
    proof {
        assert(d.take(0) =~= Seq::<char>::empty());
    }
    while k < fin
        invariant
            debut <= k <= fin <= champ@.len(),
            d == champ@.subrange(debut as int, fin as int),
            acc == valeur(d.take(k - debut)),
            acc <= u32::MAX,
            forall|i: int| 0 <= i < k - debut ==> chiffre(#[trigger] d[i]),
        decreases fin - k,
    {
        let c = champ[k];
        assert(d[k - debut] == c);
        if !((c as u32) >= 0x30 && (c as u32) <= 0x39) {
            return None;
        }
        let nouveau: u64 = acc * 10 + ((c as u32) - 0x30) as u64;
        proof {
            assert(d.take(k - debut + 1).drop_last() =~= d.take(k - debut));
            lemme_valeur_croissante(d, k - debut + 1);
        }
        if nouveau > 0xffff_ffff {
            return None;
        }
        acc = nouveau;
        k = k + 1;
    }
    proof {
        assert(d.take(d.len() as int) =~= d);
    }
    Some(acc as u32)
}

/// Lecture d'un champ : l'entier qu'il porte une fois rogne, s'il en porte
/// un.
fn lire_champ(champ: &Vec<char>) -> (r: Option<u32>)
    ensures
        r == entier_u32(rogne(champ@)),
{
    let (a, b) = bornes_utiles(champ);
    let ghost t = champ@.subrange(a as int, b as int);
    if a < b && champ[a] == '+' {
        proof {
            assert(t.drop_first() =~= champ@.subrange(a as int + 1, b as int));
        }
        lire_decimal(champ, a + 1, b)
    } else {
        lire_decimal(champ, a, b)
    }
}

/// Ajoute a `v` la cellule que designe `champ`, s'il en designe une.
fn retenir(v: &mut Vec<CellId>, champ: &Vec<char>)
    ensures
        final(v)@ == match cellule_du_champ(champ@) {
            Some(c) => old(v)@.push(c),
            None => old(v)@,
        },
{
    match lire_champ(champ) {
        Some(x) => {
            if (x as u64) < CELLULES_PAR_SALLE {
                v.push(CellId(x));
            }
        },
        None => {},
    }
}

/// Les cellules d'une liste `cells` de requete (voir
/// `cellules_de_la_requete`).
pub fn cellules_demandees(cells: &str) -> (v: Vec<CellId>)
    ensures
        v@ == cellules_de_la_requete(cells@),
{
    let n = cells.unicode_len();
    let mut courant: Vec<char> = Vec::new();
    let mut v: Vec<CellId> = Vec::new();
    let mut i: usize = 0;
    proof {
        assert(cells@.take(0) =~= Seq::<char>::empty());
    }
    while i < n
        invariant
            i <= n,
            n == cells@.len(),
            champs(cells@.take(i as int)).len() >= 1,
            courant@ == champs(cells@.take(i as int)).last(),
            v@ == selection(champs(cells@.take(i as int)).drop_last()),
        decreases n - i,
    {
        let c = cells.get_char(i);
        let ghost p = champs(cells@.take(i as int));
        proof {
            assert(cells@.take(i as int + 1).drop_last() =~= cells@.take(i as int));
            assert(cells@.take(i as int + 1).last() == c);
        }
        if c == ',' {
            retenir(&mut v, &courant);
            courant = Vec::new();
            proof {
                assert(p.push(Seq::<char>::empty()).drop_last() =~= p);
            }
        } else {
            courant.push(c);
            proof {
                assert(p.update(p.len() - 1, p.last().push(c)).drop_last() =~= p.drop_last());
            }
        }
        i = i + 1;
    }
    retenir(&mut v, &courant);
    proof {
        assert(cells@.take(n as int) =~= cells@);
    }
    v
}


/// Un moteur tel que le serveur le construit : bien forme, et adressant
/// exactement les salles `< SALLES_MAX` et les cellules
/// `< CELLULES_PAR_SALLE`.
pub open spec fn moteur_par_defaut<P: Copy>(m: ChronotopeEngine<P>) -> bool {
    &&& m.bien_forme()
    &&& forall|a: u32, b: u32| #[trigger] m.domaine(a, b) <==> (a < SALLES_MAX && (b as u64) < CELLULES_PAR_SALLE)
}

/// Issue d'une requete d'ecriture.
#[derive(Debug, Clone, Copy, PartialEq, Eq, Structural)]
pub enum IssueEcriture {
    /// Le moteur a accepte l'ecriture.
    Acceptee,
    /// `room` ou `cell` hors du domaine : le moteur n'a pas ete appele.
    HorsDomaine,
    /// Le moteur a refuse l'ecriture.
    Refusee(WriteError),
}

impl IssueEcriture {
    /// Succes semantique de la requete (ce que comptent les metriques).
    pub fn succes(&self) -> (r: bool)
        ensures
            r == (*self is Acceptee),
    {
        match self {
            IssueEcriture::Acceptee => true,
            _ => false,
        }
    }
}

/// Requete `/write` : rejetee a la frontiere si `room` ou `cell` sort du
/// domaine, sinon confiee au moteur.
pub fn traiter_ecriture<P: Copy>(
    moteur: &mut ChronotopeEngine<P>,
    room: u32,
    cell: u32,
    tick: u64,
    entity: u32,
    pose: P,
) -> (r: IssueEcriture)
    requires
        moteur_par_defaut(*old(moteur)),
    ensures
        moteur_par_defaut(*final(moteur)),
        (room >= SALLES_MAX || cell as u64 >= CELLULES_PAR_SALLE) ==> {
            &&& r is HorsDomaine
            &&& forall|a: u32, b: u32, t: u64| #[trigger] final(moteur).etat(a, b, t) == old(moteur).etat(a, b, t)
        },
        !(room >= SALLES_MAX || cell as u64 >= CELLULES_PAR_SALLE) ==> {
            &&& r is Acceptee <==> old(moteur).etat(room, cell, tick) is Ouvert
            &&& !(r is Acceptee) ==> r == IssueEcriture::Refusee(WriteError::AlreadySealed(RoomId(room), CellId(cell), Tick(tick)))
            &&& final(moteur).etat(room, cell, tick) == old(moteur).etat(room, cell, tick).apres_ecriture(entity, pose)
            &&& forall|a: u32, b: u32, t: u64|
                !(a == room && b == cell && t == tick) ==> old(moteur).etat(a, b, t).suite_admissible(
                    #[trigger] final(moteur).etat(a, b, t),
                )
        },
{
    if room_ou_cell_hors_domaine(room, cell) {
        return IssueEcriture::HorsDomaine;
    }
    match moteur.ecrire(RoomId(room), CellId(cell), Tick(tick), EntityId(entity), pose) {
        Ok(()) => IssueEcriture::Acceptee,
        Err(e) => IssueEcriture::Refusee(e),
    }
}

/// Requete `/seal` : `None` si `room` ou `cell` sort du domaine (le moteur
/// n'est pas appele), sinon le chronotope que rend le moteur.
pub fn traiter_scellement<P: Copy>(moteur: &mut ChronotopeEngine<P>, room: u32, cell: u32, tick: u64) -> (r: Option<Chronotope<P>>)
    requires
        moteur_par_defaut(*old(moteur)),
    ensures
        moteur_par_defaut(*final(moteur)),
        r is None <==> (room >= SALLES_MAX || cell as u64 >= CELLULES_PAR_SALLE),
        r is None ==> forall|a: u32, b: u32, t: u64| #[trigger] final(moteur).etat(a, b, t) == old(moteur).etat(a, b, t),
        r matches Some(c) ==> {
            &&& c.room == RoomId(room) && c.cell == CellId(cell) && c.tick == Tick(tick) && c.sealed
            &&& canonique(c.entities@, old(moteur).etat(room, cell, tick).contenu())
            &&& final(moteur).etat(room, cell, tick) == old(moteur).etat(room, cell, tick).apres_sceau()
            &&& forall|a: u32, b: u32, t: u64|
                !(a == room && b == cell && t == tick) ==> old(moteur).etat(a, b, t).suite_admissible(
                    #[trigger] final(moteur).etat(a, b, t),
                )
        },
{
    if room_ou_cell_hors_domaine(room, cell) {
        return None;
    }
    Some(moteur.sceller(RoomId(room), CellId(cell), Tick(tick)))
}

/// Requete `/read` : `None` si `room` sort du domaine, sinon la lecture des
/// cellules de la liste `cells` (les champs illisibles ou hors domaine
/// ecartes, voir `cellules_de_la_requete`).
pub fn traiter_lecture<P: Copy>(moteur: &ChronotopeEngine<P>, room: u32, cells: &str, tick: u64) -> (r: Option<Vec<Chronotope<P>>>)
    requires
        moteur_par_defaut(*moteur),
    ensures
        r is None <==> room >= SALLES_MAX,
        r matches Some(v) ==> {
            let demandees = cellules_de_la_requete(cells@);
            let scellees = cellules_scellees(|c: u32| moteur.etat(room, c, tick), demandees);
            &&& v@.len() == scellees.len()
            &&& forall|i: int|
                #![trigger v@[i]]
                0 <= i < v@.len() ==> {
                    &&& v@[i].room == RoomId(room)
                    &&& v@[i].cell == scellees[i]
                    &&& v@[i].tick == Tick(tick)
                    &&& v@[i].sealed
                    &&& canonique(v@[i].entities@, moteur.etat(room, scellees[i].0, tick).contenu())
                }
        },
{
    if room >= SALLES_MAX {
        return None;
    }
    let demandees = cellules_demandees(cells);
    proof {
        loi_cellules_demandees_dans_le_domaine(cells@);
    }
    Some(moteur.lire(RoomId(room), demandees.as_slice(), Tick(tick)))
}

proof fn lemme_selection_dans_le_domaine(fs: Seq<Seq<char>>, i: int)
    requires
        0 <= i < selection(fs).len(),
    ensures
        (selection(fs)[i].0 as u64) < CELLULES_PAR_SALLE,
    decreases fs.len(),
{
    if fs.len() > 0 {
        let avant = selection(fs.drop_last());
        if i < avant.len() {
            lemme_selection_dans_le_domaine(fs.drop_last(), i);
        }
    }
}

/// Une liste de cellules de requete ne designe jamais une cellule hors du
/// domaine : une valeur trop grande est ecartee, jamais transmise au
/// moteur.
pub proof fn loi_cellules_demandees_dans_le_domaine(s: Seq<char>)
    ensures
        forall|i: int|
            0 <= i < cellules_de_la_requete(s).len() ==> (#[trigger] cellules_de_la_requete(s)[i].0 as u64) < CELLULES_PAR_SALLE,
{
    assert forall|i: int| 0 <= i < cellules_de_la_requete(s).len() implies (#[trigger] cellules_de_la_requete(
        s,
    )[i].0 as u64) < CELLULES_PAR_SALLE by {
        lemme_selection_dans_le_domaine(champs(s), i);
    }
}

} // verus!
