//! Le cote emetteur d'un canal d'observation : un `Sender` de crossbeam,
//! avec, en modele, le recepteur qui lui fait face, la capacite du canal et
//! la suite des chronotopes confies a `try_send` par cet emetteur. Seuls
//! `canal_borne` et `tenter_envoi` fixent ce modele.

use vstd::prelude::*;
use crossbeam_channel::{Receiver, Sender, TrySendError};
use crate::types::{CellId, Chronotope, EntityId, RoomId, Tick};

verus! {

#[verifier::external_type_specification]
#[verifier::external_body]
#[verifier::reject_recursive_types(T)]
pub struct ExSender<T>(Sender<T>);

#[verifier::external_type_specification]
#[verifier::external_body]
#[verifier::reject_recursive_types(T)]
pub struct ExReceiver<T>(Receiver<T>);

/// Borne du canal d'observation : un abonne trop lent perd des sceaux
/// plutot que de faire grossir la memoire du magasin.
pub const CAPACITE_CANAL: usize = 1024;

/// Issue d'une tentative d'envoi non bloquante.
pub enum IssueEnvoi {
    Livre,
    Plein,
    Deconnecte,
}

/// Un chronotope vu de l'exterieur : ses champs, ses entites par leur vue.
pub type VueChrono<P> = (RoomId, CellId, Tick, bool, Seq<(EntityId, P)>);

/// La vue d'un chronotope.
pub open spec fn vue_chrono<P>(c: Chronotope<P>) -> VueChrono<P> {
    (c.room, c.cell, c.tick, c.sealed, c.entities@)
}

/// L'emetteur d'un canal de chronotopes.
#[verifier::reject_recursive_types(P)]
pub struct Canal<P> {
    tx: Sender<Chronotope<P>>,
    recepteur: Ghost<Receiver<Chronotope<P>>>,
    capacite: Ghost<nat>,
    confies: Ghost<Seq<VueChrono<P>>>,
}

impl<P> Canal<P> {
    /// Le recepteur qui fait face a cet emetteur.
    pub closed spec fn recepteur(&self) -> Receiver<Chronotope<P>> {
        self.recepteur@
    }

    /// La capacite du canal.
    pub closed spec fn capacite(&self) -> nat {
        self.capacite@
    }

    /// Les chronotopes confies a `try_send` par cet emetteur, dans l'ordre.
    pub closed spec fn confies(&self) -> Seq<VueChrono<P>> {
        self.confies@
    }
}

/// Appelle `crossbeam_channel::bounded`, qui cree un canal de capacite
/// `capacite` et rend son emetteur et son recepteur (il panique si la
/// capacite est demesuree, d'ou la borne). Affirme : l'emetteur rendu fait
/// face au recepteur rendu, sur un canal de cette capacite, et rien ne lui a
/// encore ete confie.
#[verifier::external_body]
pub fn canal_borne<P>(capacite: usize) -> (r: (Canal<P>, Receiver<Chronotope<P>>))
    requires
        0 < capacite <= CAPACITE_CANAL,
    ensures
        r.0.recepteur() == r.1,
        r.0.capacite() == capacite,
        r.0.confies() == Seq::<VueChrono<P>>::empty(),
{
    let (tx, rx) = crossbeam_channel::bounded(capacite);
    (Canal { tx, recepteur: Ghost(rx.clone()), capacite: Ghost(capacite as nat), confies: Ghost(Seq::empty()) }, rx)
}

/// Appelle `Sender::try_send`, qui n'attend jamais. Affirme : le message
/// remis a `try_send` s'ajoute aux chronotopes confies a cet emetteur ; le
/// canal reste le meme. Son issue (livre, canal plein, recepteur abandonne)
/// depend de ce que fait le recepteur dans un autre fil : rien n'en est
/// affirme.
#[verifier::external_body]
pub fn tenter_envoi<P>(canal: &mut Canal<P>, message: Chronotope<P>) -> (r: IssueEnvoi)
    ensures
        final(canal).confies() == old(canal).confies().push(vue_chrono(message)),
        final(canal).recepteur() == old(canal).recepteur(),
        final(canal).capacite() == old(canal).capacite(),
{
    match canal.tx.try_send(message) {
        Ok(()) => IssueEnvoi::Livre,
        Err(TrySendError::Full(_)) => IssueEnvoi::Plein,
        Err(TrySendError::Disconnected(_)) => IssueEnvoi::Deconnecte,
    }
}

} // verus!
