//! Dilatation temporelle par cellule : quand la charge d'une cellule passe
//! un seuil, sa cadence de scellement descend par paliers (un sceau par
//! tick, puis par 2, puis par 4 ticks) au lieu de refuser des entrees. Tout
//! ici ne depend que de la charge de LA cellule.

use vstd::prelude::*;

verus! {

/// Palier de degradation d'une cellule, du nominal au plus degrade.
#[derive(Debug, Clone, Copy, PartialEq, Eq, PartialOrd, Ord, Hash, Structural)]
pub enum Palier {
    /// Un sceau par tick (20 Hz, horizon 100 ms).
    Nominal,
    /// Un sceau tous les 2 ticks (10 Hz, horizon 200 ms).
    Demi,
    /// Un sceau tous les 4 ticks (5 Hz, horizon 400 ms) : le plancher,
    /// jamais un refus d'ecriture.
    Quart,
}

/// Gravite d'un palier : 0, 1 ou 2.
pub open spec fn rang(p: Palier) -> int {
    match p {
        Palier::Nominal => 0,
        Palier::Demi => 1,
        Palier::Quart => 2,
    }
}

/// Nombre de ticks regroupes dans un chronotope a ce palier.
pub open spec fn diviseur_de(p: Palier) -> u64 {
    match p {
        Palier::Nominal => 1,
        Palier::Demi => 2,
        Palier::Quart => 4,
    }
}

impl Palier {
    /// Nombre de ticks de simulation regroupes dans un seul chronotope
    /// scelle.
    pub fn diviseur(self) -> (d: u64)
        ensures
            d == diviseur_de(self),
    {
        match self {
            Palier::Nominal => 1,
            Palier::Demi => 2,
            Palier::Quart => 4,
        }
    }
}

/// Seuils de charge et horizon nominal d'une cellule.
#[derive(Debug, Clone, Copy, PartialEq, Eq, Structural)]
pub struct PolitiqueCadence {
    /// Horizon au palier nominal, en ticks de simulation.
    pub horizon_nominal_ticks: u64,
    /// Charge (entites dans la cellule) a partir de laquelle on passe au
    /// palier `Demi`.
    pub seuil_demi: usize,
    /// Charge a partir de laquelle on passe au palier `Quart`.
    pub seuil_quart: usize,
}

impl Default for PolitiqueCadence {
    /// Horizon de 2 ticks, seuils a 16 et 32 entites.
    fn default() -> (p: PolitiqueCadence)
        ensures
            p.horizon_nominal_ticks == 2,
            p.seuil_demi == 16,
            p.seuil_quart == 32,
    {
        PolitiqueCadence { horizon_nominal_ticks: 2, seuil_demi: 16, seuil_quart: 32 }
    }
}

impl PolitiqueCadence {
    /// Palier d'une cellule d'apres sa charge seule.
    pub open spec fn palier_de(&self, charge: usize) -> Palier {
        if charge >= self.seuil_quart && charge >= self.seuil_demi {
            Palier::Quart
        } else if charge >= self.seuil_demi {
            Palier::Demi
        } else {
            Palier::Nominal
        }
    }

    /// Palier d'une cellule d'apres sa charge seule ; monotone meme si les
    /// seuils sont configures dans le desordre.
    pub fn palier(&self, charge: usize) -> (p: Palier)
        ensures
            p == self.palier_de(charge),
            p == Palier::Quart <==> (charge >= self.seuil_demi && charge >= self.seuil_quart),
            p == Palier::Demi <==> (charge >= self.seuil_demi && charge < self.seuil_quart),
            p == Palier::Nominal <==> charge < self.seuil_demi,
    {
        let seuil_haut = if self.seuil_quart >= self.seuil_demi { self.seuil_quart } else { self.seuil_demi };
        if charge >= seuil_haut {
            Palier::Quart
        } else if charge >= self.seuil_demi {
            Palier::Demi
        } else {
            Palier::Nominal
        }
    }

    /// Horizon de la cellule a ce palier, en ticks.
    pub fn horizon_ticks(&self, palier: Palier) -> (h: u64)
        requires
            self.horizon_nominal_ticks * diviseur_de(palier) <= u64::MAX,
        ensures
            h == self.horizon_nominal_ticks * diviseur_de(palier),
    {
        self.horizon_nominal_ticks * palier.diviseur()
    }

    /// Tick du chronotope dans lequel tombe le tick de simulation `tick` a
    /// ce palier : le debut de son groupe de `diviseur` ticks.
    pub fn tick_de_sceau(&self, palier: Palier, tick: u64) -> (t: u64)
        ensures
            t == tick - tick % diviseur_de(palier),
    {
        let d = palier.diviseur();
        tick - tick % d
    }
}

/// La degradation est monotone en la charge : plus de charge ne rend
/// jamais la cadence plus rapide.
pub proof fn loi_palier_monotone(p: PolitiqueCadence, c1: usize, c2: usize)
    requires
        c1 <= c2,
    ensures
        rang(p.palier_de(c1)) <= rang(p.palier_de(c2)),
{
}

/// Un palier plus degrade a un horizon plus long, et un chronotope n'est
/// jamais scelle avant sa derniere ecriture : l'horizon d'un palier depasse
/// le dernier tick de son groupe.
pub proof fn loi_horizon(p: PolitiqueCadence, a: Palier, b: Palier)
    requires
        p.horizon_nominal_ticks >= 1,
        rang(a) <= rang(b),
    ensures
        p.horizon_nominal_ticks * diviseur_de(a) <= p.horizon_nominal_ticks * diviseur_de(b),
        p.horizon_nominal_ticks * diviseur_de(a) > diviseur_de(a) - 1,
{
    let h = p.horizon_nominal_ticks as int;
    let da = diviseur_de(a) as int;
    let db = diviseur_de(b) as int;
    assert(h * da <= h * db) by (nonlinear_arith)
        requires
            h >= 1,
            1 <= da <= db,
    ;
    assert(h * da >= da) by (nonlinear_arith)
        requires
            h >= 1,
            da >= 1,
    ;
}

/// Un sceau degrade regroupe des ticks contigus : le tick de sceau est un
/// multiple du diviseur, au plus `diviseur - 1` ticks avant le tick.
pub proof fn loi_tick_de_sceau(palier: Palier, tick: u64)
    ensures
        (tick - tick % diviseur_de(palier)) % (diviseur_de(palier) as int) == 0,
        0 <= tick - (tick - tick % diviseur_de(palier)) < diviseur_de(palier),
        palier == Palier::Nominal ==> tick - tick % diviseur_de(palier) == tick,
{
    let d = diviseur_de(palier) as int;
    let t = tick as int;
    assert((t - t % d) % d == 0 && 0 <= t % d < d) by (nonlinear_arith)
        requires
            d >= 1,
            t >= 0,
    ;
}

/// Le palier ne depend que de la comparaison de la charge aux deux seuils
/// configures : `Quart` des que la charge atteint le plus haut des deux,
/// sinon `Demi` des qu'elle atteint `seuil_demi`, sinon `Nominal`.
pub proof fn loi_palier_par_les_seuils(p: PolitiqueCadence, charge: usize)
    ensures
        p.palier_de(charge) == Palier::Quart <==> (charge >= p.seuil_demi && charge >= p.seuil_quart),
        p.palier_de(charge) == Palier::Demi <==> (p.seuil_demi <= charge && charge < p.seuil_quart),
        p.palier_de(charge) == Palier::Nominal <==> charge < p.seuil_demi,
{
}

} // verus!
