//! Identifiants du domaine, horizon de scellement, erreur d'ecriture et
//! chronotope rendu aux appelants.

use vstd::prelude::*;
use vstd::string::StringExecFns;
use std::time::Duration;
use crate::texte::{decimal, ecrire_decimal};

verus! {

/// Salle causalement disjointe : aucune relation "arrive-avant" entre deux
/// salles distinctes n'est a preserver.
#[derive(Debug, Clone, Copy, PartialEq, Eq, PartialOrd, Ord, Hash, Structural)]
pub struct RoomId(pub u32);

/// Cellule spatiale ; ce crate ne prescrit aucune fonction de decoupage.
#[derive(Debug, Clone, Copy, PartialEq, Eq, PartialOrd, Ord, Hash, Structural)]
pub struct CellId(pub u32);

/// Tick logique monotone par salle (pas une horloge murale).
#[derive(Debug, Clone, Copy, PartialEq, Eq, PartialOrd, Ord, Hash, Structural)]
pub struct Tick(pub u64);

impl Tick {
    /// Tick suivant. Le dernier tick representable n'a pas de suivant.
    pub fn next(self) -> (r: Tick)
        requires
            self.0 < u64::MAX,
        ensures
            r.0 == self.0 + 1,
    {
        Tick(self.0 + 1)
    }
}

/// Identite d'entite (avatar, objet tenu : un seul ecrivain possible).
#[derive(Debug, Clone, Copy, PartialEq, Eq, PartialOrd, Ord, Hash, Structural)]
pub struct EntityId(pub u32);

/// Nombre de millisecondes que porte une `Duration` (ce que rend
/// `Duration::as_millis`).
pub uninterp spec fn millis(d: Duration) -> u128;

/// Appelle `Duration::from_millis`. Sa documentation garantit qu'une duree
/// construite depuis `ms` millisecondes en porte exactement `ms`.
#[verifier::external_body]
fn duree_depuis_millis(ms: u64) -> (d: Duration)
    ensures
        millis(d) == ms as u128,
{
    Duration::from_millis(ms)
}

/// Horizon de scellement : il reprend le delai d'interpolation que le client
/// subit deja. Parametre d'execution, jamais une constante du moteur.
#[derive(Debug, Clone, Copy, PartialEq)]
pub struct Horizon(pub Duration);

impl Default for Horizon {
    /// 100 ms.
    fn default() -> (h: Horizon)
        ensures
            millis(h.0) == 100,
    {
        Horizon(duree_depuis_millis(100))
    }
}

/// Refus d'ecriture : uniquement parce que le chronotope vise est deja
/// scelle (ou n'est plus retenu, ce qui revient au meme pour l'ecrivain).
#[derive(Debug, Clone, Copy, PartialEq, Eq, Structural)]
pub enum WriteError {
    AlreadySealed(RoomId, CellId, Tick),
}

impl WriteError {
    /// Le texte du refus, identifiants ecrits comme `Debug` les ecrit :
    /// `chronotope (RoomId(r), CellId(c), Tick(t)) deja scelle — ecriture rejetee`.
    pub open spec fn texte(self) -> Seq<char> {
        match self {
            WriteError::AlreadySealed(r, c, t) => "chronotope (RoomId("@ + decimal(r.0 as nat) + "), CellId("@
                + decimal(c.0 as nat) + "), Tick("@ + decimal(t.0 as nat) + ")) deja scelle — ecriture rejetee"@,
        }
    }

    /// Le message d'erreur rendu a un client.
    pub fn message(&self) -> (s: String)
        ensures
            s@ == self.texte(),
    {
        match self {
            WriteError::AlreadySealed(r, c, t) => {
                let mut s = String::new();
                s.append("chronotope (RoomId(");
                ecrire_decimal(&mut s, r.0 as u64);
                s.append("), CellId(");
                ecrire_decimal(&mut s, c.0 as u64);
                s.append("), Tick(");
                ecrire_decimal(&mut s, t.0);
                s.append(")) deja scelle — ecriture rejetee");
                proof {
                    assert(s@ =~= self.texte());
                }
                s
            },
        }
    }
}

/// Un chronotope : l'etat empaquete des entites d'une cellule a un tick.
/// `entities` est triee par `EntityId`, sans doublon.
#[derive(Debug, Clone, PartialEq)]
pub struct Chronotope<P> {
    pub room: RoomId,
    pub cell: CellId,
    pub tick: Tick,
    pub sealed: bool,
    pub entities: Vec<(EntityId, P)>,
}

impl<P: Copy> Chronotope<P> {
    /// Copie champ a champ.
    pub fn copie(&self) -> (c: Chronotope<P>)
        ensures
            c.room == self.room,
            c.cell == self.cell,
            c.tick == self.tick,
            c.sealed == self.sealed,
            c.entities@ == self.entities@,
    {
        Chronotope {
            room: self.room,
            cell: self.cell,
            tick: self.tick,
            sealed: self.sealed,
            entities: copie_entites(&self.entities),
        }
    }
}

/// Copie element par element d'une suite de paires (entite, pose).
pub fn copie_entites<P: Copy>(v: &Vec<(EntityId, P)>) -> (r: Vec<(EntityId, P)>)
    ensures
        r@ == v@,
{
    let mut r: Vec<(EntityId, P)> = Vec::with_capacity(v.len());
    let mut i: usize = 0;
    while i < v.len()
        invariant
            i <= v.len(),
            r@ == v@.take(i as int),
        decreases v.len() - i,
    {
        let x = v[i];
        r.push(x);
        proof {
            assert(v@.take(i as int + 1) =~= v@.take(i as int).push(x));
        }
        i = i + 1;
    }
    proof {
        assert(v@.take(v.len() as int) =~= v@);
    }
    r
}

} // verus!
