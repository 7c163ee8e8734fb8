use chronotope::double::StoreMemoire;
use chronotope::engine::{ChronotopeEngine, CELLULES_PAR_SALLE, SALLES_MAX};
use chronotope::naive::NaiveRowStore;
use chronotope::store::ChronotopeStore;
use chronotope::types::{CellId, EntityId, Horizon, RoomId, Tick, WriteError};

#[derive(Debug, Clone, Copy, PartialEq)]
struct Pose {
    pos: [f32; 3],
    yaw: f32,
}

fn pose(x: f32) -> Pose {
    Pose {
        pos: [x, 0.0, 0.0],
        yaw: 0.0,
    }
}

const CELLULE_A: CellId = CellId(1);

// --- le magasin en memoire ---------------------------------------------------

#[test]
fn une_ecriture_apres_sceau_est_rejetee() {
    let mut s = StoreMemoire::new();
    s.ecrire(RoomId(0), CellId(0), Tick(0), EntityId(1), pose(1.0))
        .unwrap();
    s.sceller(RoomId(0), CellId(0), Tick(0));
    assert_eq!(
        s.ecrire(RoomId(0), CellId(0), Tick(0), EntityId(2), pose(2.0)),
        Err(WriteError::AlreadySealed(RoomId(0), CellId(0), Tick(0)))
    );
}

#[test]
fn sceller_est_idempotent() {
    let mut s = StoreMemoire::new();
    s.ecrire(RoomId(0), CellId(0), Tick(0), EntityId(1), pose(1.0))
        .unwrap();
    let a = s.sceller(RoomId(0), CellId(0), Tick(0));
    let b = s.sceller(RoomId(0), CellId(0), Tick(0));
    assert_eq!(a, b);
    assert_eq!(a.entities.len(), 1);
}

#[test]
fn les_entites_restent_triees_et_la_derniere_ecriture_gagne() {
    let mut s = StoreMemoire::new();
    for e in [7u32, 3, 9, 1] {
        s.ecrire(RoomId(0), CellId(0), Tick(0), EntityId(e), pose(e as f32))
            .unwrap();
    }
    s.ecrire(RoomId(0), CellId(0), Tick(0), EntityId(3), pose(42.0))
        .unwrap();
    let c = s.sceller(RoomId(0), CellId(0), Tick(0));
    let ids: Vec<u32> = c.entities.iter().map(|(e, _)| e.0).collect();
    assert_eq!(ids, vec![1, 3, 7, 9]);
    assert_eq!(c.entities[1].1, pose(42.0));
}

#[test]
fn lire_ne_renvoie_que_du_scelle() {
    let mut s = StoreMemoire::new();
    s.ecrire(RoomId(0), CellId(0), Tick(0), EntityId(1), pose(1.0))
        .unwrap();
    assert!(s.lire(RoomId(0), &[CellId(0)], Tick(0)).is_empty());
    s.sceller(RoomId(0), CellId(0), Tick(0));
    assert_eq!(s.lire(RoomId(0), &[CellId(0)], Tick(0)).len(), 1);
}

#[test]
fn observer_pousse_au_scellement_uniquement() {
    let mut s = StoreMemoire::new();
    let rx = s.observer(RoomId(0), &[CellId(0)]);
    s.ecrire(RoomId(0), CellId(0), Tick(0), EntityId(1), pose(1.0))
        .unwrap();
    assert!(rx.try_recv().is_err());
    s.sceller(RoomId(0), CellId(0), Tick(0));
    assert!(rx.try_recv().is_ok());
}

#[test]
fn scelles_sont_ranges_par_salle_tick_cellule() {
    let mut s: StoreMemoire<Pose> = StoreMemoire::default();
    s.sceller(RoomId(1), CellId(0), Tick(0));
    s.sceller(RoomId(0), CellId(5), Tick(3));
    s.sceller(RoomId(0), CellId(2), Tick(3));
    s.sceller(RoomId(0), CellId(9), Tick(1));
    s.sceller(RoomId(0), CellId(2), Tick(3));
    let cles: Vec<(u32, u64, u32)> = s
        .scelles()
        .iter()
        .map(|c| (c.room.0, c.tick.0, c.cell.0))
        .collect();
    assert_eq!(cles, vec![(0, 1, 9), (0, 3, 2), (0, 3, 5), (1, 0, 0)]);
}

// --- le moteur ----------------------------------------------------------------

#[test]
fn le_moteur_reel_honore_les_clauses_dont_le_harnais_depend() {
    let mut engine = ChronotopeEngine::new(Horizon::default());
    let pose = Pose {
        pos: [1.0, 2.0, 3.0],
        yaw: 0.0,
    };
    engine
        .ecrire(RoomId(0), CELLULE_A, Tick(0), EntityId(1), pose)
        .expect("premiere ecriture refusee");

    let a = engine.sceller(RoomId(0), CELLULE_A, Tick(0));
    let b = engine.sceller(RoomId(0), CELLULE_A, Tick(0));
    assert_eq!(a, b, "sceller n'est pas idempotent");
    assert!(a.sealed);

    assert_eq!(
        engine.ecrire(RoomId(0), CELLULE_A, Tick(0), EntityId(2), pose),
        Err(WriteError::AlreadySealed(RoomId(0), CELLULE_A, Tick(0))),
        "une ecriture apres sceau a ete acceptee ou fusionnee"
    );
}

#[test]
fn bornes_hautes_valides_du_domaine_fonctionnent() {
    let mut moteur = ChronotopeEngine::new(Horizon::default());
    let room = RoomId(SALLES_MAX - 1);
    let cell = CellId(CELLULES_PAR_SALLE as u32 - 1);

    moteur
        .ecrire(room, cell, Tick(0), EntityId(u32::MAX), pose(1.0))
        .unwrap();
    let scelle = moteur.sceller(room, cell, Tick(0));
    assert_eq!(scelle.entities, vec![(EntityId(u32::MAX), pose(1.0))]);
}

#[test]
fn tick_u64_max_ne_deborde_pas() {
    let mut moteur = ChronotopeEngine::new(Horizon::default());
    let (room, cell) = (RoomId(0), CellId(0));

    moteur
        .ecrire(room, cell, Tick(u64::MAX), EntityId(1), pose(7.0))
        .unwrap();
    let scelle = moteur.sceller(room, cell, Tick(u64::MAX));
    assert_eq!(scelle.entities, vec![(EntityId(1), pose(7.0))]);
    assert_eq!(moteur.lire(room, &[cell], Tick(u64::MAX)), vec![scelle]);
}

#[test]
fn sceller_un_tick_recycle_par_une_ecriture_plus_recente_ne_panique_pas() {
    let mut moteur = ChronotopeEngine::avec_dimensions(Horizon::default(), 16, 4);
    let (room, cell) = (RoomId(0), CellId(1));

    moteur
        .ecrire(room, cell, Tick(0), EntityId(1), pose(1.0))
        .unwrap();
    moteur
        .ecrire(room, cell, Tick(100), EntityId(2), pose(2.0))
        .unwrap();

    let scelle = moteur.sceller(room, cell, Tick(0));
    assert!(scelle.sealed);
    assert!(
        scelle.entities.is_empty(),
        "sceller un tick deja recycle ne doit jamais renvoyer les entites de l'occupant courant"
    );
}

#[test]
fn ecriture_tres_loin_dans_le_futur_est_acceptee() {
    let mut moteur = ChronotopeEngine::avec_dimensions(Horizon::default(), 16, 4);
    let (room, cell) = (RoomId(0), CellId(2));
    let futur = Tick(1_000_000_000);

    moteur
        .ecrire(room, cell, futur, EntityId(1), pose(3.0))
        .unwrap();
    let scelle = moteur.sceller(room, cell, futur);
    assert_eq!(scelle.entities, vec![(EntityId(1), pose(3.0))]);
}

#[test]
fn un_tick_sorti_de_la_fenetre_refuse_l_ecriture_et_ne_se_lit_plus() {
    let mut moteur = ChronotopeEngine::new(Horizon::default());
    let (room, cell) = (RoomId(2), CellId(3));
    moteur.ecrire(room, cell, Tick(0), EntityId(1), pose(1.0)).unwrap();
    moteur.sceller(room, cell, Tick(0));
    let anneau = moteur.ticks_retenus();
    moteur
        .ecrire(room, cell, Tick(anneau), EntityId(1), pose(2.0))
        .unwrap();
    assert_eq!(
        moteur.ecrire(room, cell, Tick(0), EntityId(1), pose(3.0)),
        Err(WriteError::AlreadySealed(room, cell, Tick(0)))
    );
    assert!(moteur.lire(room, &[cell], Tick(0)).is_empty());
}

#[test]
fn vider_rend_un_moteur_vierge() {
    let mut moteur = ChronotopeEngine::new(Horizon::default());
    moteur.ecrire(RoomId(0), CellId(0), Tick(5), EntityId(1), pose(1.0)).unwrap();
    moteur.sceller(RoomId(0), CellId(0), Tick(5));
    moteur.vider();
    assert!(moteur.lire(RoomId(0), &[CellId(0)], Tick(5)).is_empty());
    assert!(moteur
        .ecrire(RoomId(0), CellId(0), Tick(5), EntityId(2), pose(2.0))
        .is_ok());
}

#[test]
fn le_moteur_pousse_les_sceaux_aux_abonnes_concernes() {
    let mut moteur = ChronotopeEngine::new(Horizon::default());
    let rx = moteur.observer(RoomId(1), &[CellId(4), CellId(2)]);
    let autre = moteur.observer(RoomId(0), &[CellId(4)]);
    moteur.ecrire(RoomId(1), CellId(4), Tick(0), EntityId(1), pose(1.0)).unwrap();
    assert!(rx.try_recv().is_err());
    let scelle = moteur.sceller(RoomId(1), CellId(4), Tick(0));
    assert_eq!(rx.try_recv().unwrap(), scelle);
    assert!(autre.try_recv().is_err());
    moteur.sceller(RoomId(1), CellId(3), Tick(0));
    assert!(rx.try_recv().is_err());
}

// --- le contrat commun, exerce sur les trois magasins --------------------------

fn contrat_commun<S: ChronotopeStore<Pose>>(s: &mut S) {
    let (room, cell, tick) = (RoomId(1), CellId(2), Tick(3));

    // Lire un chronotope ouvert ne rend rien.
    s.ecrire(room, cell, tick, EntityId(5), pose(5.0)).unwrap();
    s.ecrire(room, cell, tick, EntityId(2), pose(2.0)).unwrap();
    s.ecrire(room, cell, tick, EntityId(5), pose(6.0)).unwrap();
    assert!(s.lire(room, &[cell], tick).is_empty());

    // Le sceau rend les entites triees, la derniere ecriture de chacune.
    let c = s.sceller(room, cell, tick);
    assert!(c.sealed);
    assert_eq!((c.room, c.cell, c.tick), (room, cell, tick));
    assert_eq!(c.entities, vec![(EntityId(2), pose(2.0)), (EntityId(5), pose(6.0))]);

    // Apres le sceau : refus, et le contenu ne bouge pas.
    assert_eq!(
        s.ecrire(room, cell, tick, EntityId(9), pose(9.0)),
        Err(WriteError::AlreadySealed(room, cell, tick))
    );
    assert_eq!(s.sceller(room, cell, tick), c);

    // Une cle voisine n'est pas touchee.
    s.ecrire(room, CellId(3), tick, EntityId(1), pose(1.0)).unwrap();
    s.ecrire(room, cell, Tick(4), EntityId(1), pose(1.0)).unwrap();

    // Lire rend les cellules scellees dans l'ordre de la demande.
    let vide = s.sceller(room, CellId(0), tick);
    assert!(vide.entities.is_empty());
    let lus = s.lire(room, &[CellId(3), cell, CellId(0), cell], tick);
    assert_eq!(lus.len(), 3);
    assert_eq!(lus[0], c);
    assert_eq!(lus[1], vide);
    assert_eq!(lus[2], c);
}

#[test]
fn le_moteur_respecte_le_contrat_commun() {
    contrat_commun(&mut ChronotopeEngine::new(Horizon::default()));
}

#[test]
fn le_magasin_a_ligne_respecte_le_contrat_commun() {
    contrat_commun(&mut NaiveRowStore::new());
}

#[test]
fn le_magasin_en_memoire_respecte_le_contrat_commun() {
    contrat_commun(&mut StoreMemoire::new());
}

#[test]
fn vider_le_magasin_a_ligne_garde_les_abonnes() {
    let mut s = NaiveRowStore::default();
    let rx = s.observer(RoomId(0), &[CellId(0)]);
    s.ecrire(RoomId(0), CellId(0), Tick(0), EntityId(1), pose(1.0)).unwrap();
    s.sceller(RoomId(0), CellId(0), Tick(0));
    assert!(rx.try_recv().is_ok());
    s.vider();
    assert!(s.lire(RoomId(0), &[CellId(0)], Tick(0)).is_empty());
    s.ecrire(RoomId(0), CellId(0), Tick(0), EntityId(2), pose(2.0)).unwrap();
    let c = s.sceller(RoomId(0), CellId(0), Tick(0));
    assert_eq!(c.entities, vec![(EntityId(2), pose(2.0))]);
    assert_eq!(rx.try_recv().unwrap(), c);
}

#[test]
fn horizon_par_defaut_et_tick_suivant() {
    assert_eq!(Horizon::default().0.as_millis(), 100);
    assert_eq!(Tick(41).next(), Tick(42));
}

#[test]
fn message_du_refus_d_ecriture() {
    let e = WriteError::AlreadySealed(RoomId(1), CellId(20), Tick(300));
    assert_eq!(
        e.message(),
        "chronotope (RoomId(1), CellId(20), Tick(300)) deja scelle — ecriture rejetee"
    );
}

#[test]
fn l_anneau_d_une_cellule_ne_perime_pas_celui_des_autres() {
    let mut moteur = ChronotopeEngine::new(Horizon::default());
    moteur.ecrire(RoomId(0), CellId(1), Tick(0), EntityId(1), pose(1.0)).unwrap();
    let c = moteur.sceller(RoomId(0), CellId(1), Tick(0));
    moteur.ecrire(RoomId(0), CellId(2), Tick(1_000), EntityId(2), pose(2.0)).unwrap();
    moteur.sceller(RoomId(0), CellId(2), Tick(1_000));
    assert_eq!(moteur.lire(RoomId(0), &[CellId(1)], Tick(0)), vec![c.clone()]);
    assert_eq!(moteur.sceller(RoomId(0), CellId(1), Tick(0)), c);
    // Dans la meme cellule, le tick reste lisible tant qu'il est dans la fenetre.
    let anneau = moteur.ticks_retenus();
    moteur.ecrire(RoomId(0), CellId(1), Tick(anneau - 1), EntityId(3), pose(3.0)).unwrap();
    assert_eq!(moteur.lire(RoomId(0), &[CellId(1)], Tick(0)), vec![c]);
}

#[test]
fn le_sceau_d_un_tick_perime_n_est_pas_pousse() {
    let mut moteur = ChronotopeEngine::new(Horizon::default());
    let rx = moteur.observer(RoomId(0), &[CellId(1)]);
    moteur.ecrire(RoomId(0), CellId(1), Tick(100), EntityId(1), pose(1.0)).unwrap();
    let vide = moteur.sceller(RoomId(0), CellId(1), Tick(0));
    assert!(vide.sealed && vide.entities.is_empty());
    assert!(rx.try_recv().is_err());
    moteur.sceller(RoomId(0), CellId(1), Tick(100));
    assert!(rx.try_recv().is_ok());
}
