//! Compteurs par route et leur exposition au format texte de Prometheus
//! (`# HELP`, `# TYPE`, puis `nom{etiquettes} valeur`).
//!
//! Les compteurs sont ceux de compteurs atomiques relaches : chaque
//! incrementation se fait modulo 2^64.

use vstd::prelude::*;
use vstd::string::StringExecFns;
use std::time::Duration;
use crate::texte::{chiffres_fixes, decimal, ecrire_chiffres_fixes, ecrire_decimal};

verus! {

/// 2^64 : le module des compteurs.
pub open spec fn module_compteur() -> int {
    0x1_0000_0000_0000_0000
}

/// Nombre de microsecondes que porte une `Duration` (ce que rend
/// `Duration::as_micros`).
pub uninterp spec fn micros(d: Duration) -> u128;

/// Appelle `Duration::as_micros`.
#[verifier::external_body]
fn micros_de(d: Duration) -> (r: u128)
    ensures
        r == micros(d),
{
    d.as_micros()
}

/// Compteurs d'une route : requetes reussies, echouees, et somme des
/// latences en microsecondes.
#[derive(Debug)]
pub struct RouteCounters {
    pub ok: u64,
    pub err: u64,
    pub latence_us_total: u64,
}

impl Default for RouteCounters {
    /// Tous les compteurs a zero.
    fn default() -> (r: RouteCounters)
        ensures
            r.ok == 0,
            r.err == 0,
            r.latence_us_total == 0,
    {
        RouteCounters { ok: 0, err: 0, latence_us_total: 0 }
    }
}

impl RouteCounters {
    /// Enregistre une requete terminee. `succes` est le resultat
    /// semantique de la requete (une ecriture refusee par le moteur est un
    /// echec, quel que soit le statut HTTP). La latence est ajoutee en
    /// microsecondes, tronquee a 64 bits.
    pub fn observer(&mut self, succes: bool, duree: Duration)
        ensures
            final(self).ok == (if succes { (old(self).ok + 1) % module_compteur() } else { old(self).ok as int }),
            final(self).err == (if succes { old(self).err as int } else { (old(self).err + 1) % module_compteur() }),
            final(self).latence_us_total == (old(self).latence_us_total + (micros(duree) as u64)) % module_compteur(),
    {
        if succes {
            self.ok = self.ok.wrapping_add(1);
        } else {
            self.err = self.err.wrapping_add(1);
        }
        let us: u64 = micros_de(duree) as u64;
        self.latence_us_total = self.latence_us_total.wrapping_add(us);
    }

    /// Nombre de requetes observees.
    pub fn total(&self) -> (r: u64)
        requires
            self.ok + self.err <= u64::MAX,
        ensures
            r == self.ok + self.err,
    {
        self.ok + self.err
    }
}

/// Les compteurs du serveur : trois routes et les rejets
/// d'authentification.
#[derive(Debug)]
pub struct Metrics {
    pub write: RouteCounters,
    pub seal: RouteCounters,
    pub read: RouteCounters,
    pub auth_rejected: u64,
}

impl Default for Metrics {
    /// Tous les compteurs a zero.
    fn default() -> (r: Metrics)
        ensures
            r.write.ok == 0 && r.write.err == 0 && r.write.latence_us_total == 0,
            r.seal.ok == 0 && r.seal.err == 0 && r.seal.latence_us_total == 0,
            r.read.ok == 0 && r.read.err == 0 && r.read.latence_us_total == 0,
            r.auth_rejected == 0,
    {
        Metrics {
            write: RouteCounters::default(),
            seal: RouteCounters::default(),
            read: RouteCounters::default(),
            auth_rejected: 0,
        }
    }
}

/// Les deux lignes `chronotope_requests_total` d'une route.
pub open spec fn lignes_requetes(nom: Seq<char>, c: RouteCounters) -> Seq<char> {
    "chronotope_requests_total{route=\""@ + nom + "\",result=\"ok\"} "@ + decimal(c.ok as nat) + "\n"@
        + "chronotope_requests_total{route=\""@ + nom + "\",result=\"err\"} "@ + decimal(c.err as nat) + "\n"@
}

/// Une duree en microsecondes ecrite en secondes a six decimales.
pub open spec fn secondes(us: nat) -> Seq<char> {
    decimal(us / 1_000_000) + seq!['.'] + chiffres_fixes(us % 1_000_000, 6)
}

/// La ligne de somme des latences d'une route.
pub open spec fn ligne_latence(nom: Seq<char>, c: RouteCounters) -> Seq<char> {
    "chronotope_request_duration_seconds_sum{route=\""@ + nom + "\"} "@ + secondes(c.latence_us_total as nat) + "\n"@
}

/// La ligne du nombre d'observations d'une route.
pub open spec fn ligne_nombre(nom: Seq<char>, c: RouteCounters) -> Seq<char> {
    "chronotope_request_duration_seconds_count{route=\""@ + nom + "\"} "@ + decimal((c.ok + c.err) as nat) + "\n"@
}

/// Le texte d'exposition complet.
pub open spec fn texte_prometheus(m: Metrics) -> Seq<char> {
    "# HELP chronotope_requests_total Nombre de requetes par route et resultat.\n"@
        + "# TYPE chronotope_requests_total counter\n"@
        + lignes_requetes("write"@, m.write) + lignes_requetes("seal"@, m.seal) + lignes_requetes("read"@, m.read)
        + "# HELP chronotope_request_duration_seconds_sum Somme des latences observees.\n"@
        + "# TYPE chronotope_request_duration_seconds_sum counter\n"@
        + ligne_latence("write"@, m.write) + ligne_latence("seal"@, m.seal) + ligne_latence("read"@, m.read)
        + "# HELP chronotope_request_duration_seconds_count Nombre d'observations.\n"@
        + "# TYPE chronotope_request_duration_seconds_count counter\n"@
        + ligne_nombre("write"@, m.write) + ligne_nombre("seal"@, m.seal) + ligne_nombre("read"@, m.read)
        + "# HELP chronotope_auth_rejected_total Requetes rejetees par le secret partage (401).\n"@
        + "# TYPE chronotope_auth_rejected_total counter\n"@
        + "chronotope_auth_rejected_total "@ + decimal(m.auth_rejected as nat) + "\n"@
}

fn ecrire_lignes_requetes(sortie: &mut String, nom: &str, c: &RouteCounters)
    ensures
        final(sortie)@ == old(sortie)@ + lignes_requetes(nom@, *c),
{
    sortie.append("chronotope_requests_total{route=\"");
    sortie.append(nom);
    sortie.append("\",result=\"ok\"} ");
    ecrire_decimal(sortie, c.ok);
    sortie.append("\n");
    sortie.append("chronotope_requests_total{route=\"");
    sortie.append(nom);
    sortie.append("\",result=\"err\"} ");
    ecrire_decimal(sortie, c.err);
    sortie.append("\n");
    proof {
        assert(sortie@ =~= old(sortie)@ + lignes_requetes(nom@, *c));
    }
}

fn ecrire_ligne_latence(sortie: &mut String, nom: &str, c: &RouteCounters)
    ensures
        final(sortie)@ == old(sortie)@ + ligne_latence(nom@, *c),
{
    sortie.append("chronotope_request_duration_seconds_sum{route=\"");
    sortie.append(nom);
    sortie.append("\"} ");
    let us = c.latence_us_total;
    ecrire_decimal(sortie, us / 1_000_000);
    proof {
        reveal_strlit(".");
    }
    sortie.append(".");
    ecrire_chiffres_fixes(sortie, us % 1_000_000, 6);
    sortie.append("\n");
    proof {
        assert(sortie@ =~= old(sortie)@ + ligne_latence(nom@, *c));
    }
}

fn ecrire_ligne_nombre(sortie: &mut String, nom: &str, c: &RouteCounters)
    requires
        c.ok + c.err <= u64::MAX,
    ensures
        final(sortie)@ == old(sortie)@ + ligne_nombre(nom@, *c),
{
    sortie.append("chronotope_request_duration_seconds_count{route=\"");
    sortie.append(nom);
    sortie.append("\"} ");
    ecrire_decimal(sortie, c.total());
    sortie.append("\n");
    proof {
        assert(sortie@ =~= old(sortie)@ + ligne_nombre(nom@, *c));
    }
}

impl Metrics {
    /// Compte une requete rejetee par l'authentification.
    pub fn rejet_authentification(&mut self)
        ensures
            final(self).auth_rejected == (old(self).auth_rejected + 1) % module_compteur(),
            final(self).write == old(self).write,
            final(self).seal == old(self).seal,
            final(self).read == old(self).read,
    {
        self.auth_rejected = self.auth_rejected.wrapping_add(1);
    }

    /// Le texte d'exposition Prometheus des compteurs.
    pub fn render_prometheus(&self) -> (s: String)
        requires
            self.write.ok + self.write.err <= u64::MAX,
            self.seal.ok + self.seal.err <= u64::MAX,
            self.read.ok + self.read.err <= u64::MAX,
        ensures
            s@ == texte_prometheus(*self),
    {
        let mut sortie = String::new();
        sortie.append("# HELP chronotope_requests_total Nombre de requetes par route et resultat.\n");
        sortie.append("# TYPE chronotope_requests_total counter\n");
        ecrire_lignes_requetes(&mut sortie, "write", &self.write);
        ecrire_lignes_requetes(&mut sortie, "seal", &self.seal);
        ecrire_lignes_requetes(&mut sortie, "read", &self.read);
        sortie.append("# HELP chronotope_request_duration_seconds_sum Somme des latences observees.\n");
        sortie.append("# TYPE chronotope_request_duration_seconds_sum counter\n");
        ecrire_ligne_latence(&mut sortie, "write", &self.write);
        ecrire_ligne_latence(&mut sortie, "seal", &self.seal);
        ecrire_ligne_latence(&mut sortie, "read", &self.read);
        sortie.append("# HELP chronotope_request_duration_seconds_count Nombre d'observations.\n");
        sortie.append("# TYPE chronotope_request_duration_seconds_count counter\n");
        ecrire_ligne_nombre(&mut sortie, "write", &self.write);
        ecrire_ligne_nombre(&mut sortie, "seal", &self.seal);
        ecrire_ligne_nombre(&mut sortie, "read", &self.read);
        sortie.append("# HELP chronotope_auth_rejected_total Requetes rejetees par le secret partage (401).\n");
        sortie.append("# TYPE chronotope_auth_rejected_total counter\n");
        sortie.append("chronotope_auth_rejected_total ");
        ecrire_decimal(&mut sortie, self.auth_rejected);
        sortie.append("\n");
        proof {
            assert(sortie@ =~= texte_prometheus(*self));
        }
        sortie
    }
}

} // verus!
