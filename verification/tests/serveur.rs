use chronotope::engine::{ChronotopeEngine, CELLULES_PAR_SALLE, SALLES_MAX};
use chronotope::serveur::{
    authentification_acceptee, cellules_demandees, jeton_bearer, room_ou_cell_hors_domaine, secret_depuis_env,
    secret_valide, traiter_ecriture, traiter_lecture, traiter_scellement, IssueEcriture,
};
use chronotope::types::{CellId, Horizon, RoomId, Tick, WriteError};

#[derive(Debug, Clone, Copy, PartialEq)]
struct Pose {
    pos: [f32; 3],
    yaw: f32,
}

const POSE: Pose = Pose {
    pos: [0.0, 0.0, 0.0],
    yaw: 0.0,
};

// --- secret_valide / secret_depuis_env ---------------------------------------

#[test]
fn secret_valide_accepte_le_bon_secret() {
    assert!(secret_valide("abc123", Some("abc123")));
}

#[test]
fn secret_valide_refuse_un_mauvais_secret_meme_longueur() {
    assert!(!secret_valide("abc123", Some("xbc123")));
}

#[test]
fn secret_valide_refuse_une_longueur_differente() {
    assert!(!secret_valide("abc123", Some("abc1234")));
    assert!(!secret_valide("abc123", Some("abc12")));
}

#[test]
fn secret_valide_refuse_l_absence_de_secret() {
    assert!(!secret_valide("abc123", None));
}

#[test]
fn secret_valide_refuse_un_secret_client_vide() {
    assert!(!secret_valide("abc123", Some("")));
}

#[test]
fn secret_depuis_env_accepte_une_valeur_non_vide() {
    assert_eq!(secret_depuis_env(Some("x".to_string())), Ok("x".to_string()));
}

#[test]
fn secret_depuis_env_refuse_une_valeur_vide() {
    assert!(secret_depuis_env(Some(String::new())).is_err());
}

#[test]
fn secret_depuis_env_refuse_une_variable_absente() {
    assert!(secret_depuis_env(None).is_err());
}

// --- en-tete Authorization ------------------------------------------------------

#[test]
fn le_jeton_suit_le_prefixe_bearer() {
    assert_eq!(jeton_bearer("Bearer abc"), Some("abc"));
    assert_eq!(jeton_bearer("Bearer "), Some(""));
    assert_eq!(jeton_bearer("bearer abc"), None);
    assert_eq!(jeton_bearer("Bearer"), None);
    assert_eq!(jeton_bearer("Basic abc"), None);
    assert_eq!(jeton_bearer("Bearer é"), Some("é"));
}

#[test]
fn authentification_exige_bearer_et_le_bon_secret() {
    assert!(authentification_acceptee("secret-de-test", Some("Bearer secret-de-test")));
    assert!(!authentification_acceptee("secret-de-test", Some("Bearer mauvais-secret")));
    assert!(!authentification_acceptee("secret-de-test", Some("secret-de-test")));
    assert!(!authentification_acceptee("secret-de-test", None));
    assert!(!authentification_acceptee("secret-de-test", Some("Bearer secret-de-test ")));
}

// --- domaine et liste de cellules ---------------------------------------------

#[test]
fn domaine_de_la_frontiere() {
    assert!(!room_ou_cell_hors_domaine(0, 0));
    assert!(!room_ou_cell_hors_domaine(SALLES_MAX - 1, CELLULES_PAR_SALLE as u32 - 1));
    assert!(room_ou_cell_hors_domaine(SALLES_MAX, 0));
    assert!(room_ou_cell_hors_domaine(0, CELLULES_PAR_SALLE as u32));
}

#[test]
fn la_liste_de_cellules_ecarte_l_illisible_et_le_hors_domaine() {
    let cells = format!("0,{CELLULES_PAR_SALLE},99999999");
    assert_eq!(cellules_demandees(&cells), vec![CellId(0)]);
    assert_eq!(
        cellules_demandees(" 3 ,+4,x,,-1,5\t,63,64,007"),
        vec![CellId(3), CellId(4), CellId(5), CellId(63), CellId(7)]
    );
    assert_eq!(cellules_demandees(""), Vec::<CellId>::new());
    assert_eq!(cellules_demandees("+"), Vec::<CellId>::new());
    assert_eq!(cellules_demandees("4294967296,4294967295"), Vec::<CellId>::new());
    assert_eq!(cellules_demandees("\u{a0}12\u{3000}"), vec![CellId(12)]);
    assert_eq!(cellules_demandees("1 2"), Vec::<CellId>::new());
}

// --- requetes sur le moteur -----------------------------------------------------

#[test]
fn ecriture_scellement_lecture_par_la_frontiere() {
    let mut moteur = ChronotopeEngine::new(Horizon::default());
    assert_eq!(traiter_ecriture(&mut moteur, 1, 1, 1, 1, POSE), IssueEcriture::Acceptee);
    assert!(IssueEcriture::Acceptee.succes());

    let c = traiter_scellement(&mut moteur, 1, 1, 1).unwrap();
    assert_eq!(c.entities.len(), 1);
    assert!(c.sealed);

    let lus = traiter_lecture(&moteur, 1, "1", 1).unwrap();
    assert_eq!(lus.len(), 1);

    let refus = traiter_ecriture(&mut moteur, 1, 1, 1, 2, POSE);
    assert_eq!(refus, IssueEcriture::Refusee(WriteError::AlreadySealed(RoomId(1), CellId(1), Tick(1))));
    assert!(!refus.succes());
}

#[test]
fn hors_domaine_rejete_avant_le_moteur() {
    let mut moteur: ChronotopeEngine<Pose> = ChronotopeEngine::new(Horizon::default());
    assert_eq!(traiter_ecriture(&mut moteur, SALLES_MAX, 0, 0, 0, POSE), IssueEcriture::HorsDomaine);
    assert_eq!(
        traiter_ecriture(&mut moteur, 0, CELLULES_PAR_SALLE as u32, 0, 0, POSE),
        IssueEcriture::HorsDomaine
    );
    assert!(!IssueEcriture::HorsDomaine.succes());
    assert!(traiter_scellement(&mut moteur, SALLES_MAX, 0, 0).is_none());
    assert!(traiter_scellement(&mut moteur, 0, CELLULES_PAR_SALLE as u32, 0).is_none());
    assert!(traiter_lecture(&moteur, SALLES_MAX, "0", 0).is_none());
    let cells = format!("0,{CELLULES_PAR_SALLE},99999999");
    assert_eq!(traiter_lecture(&moteur, 0, &cells, 0).map(|v| v.len()), Some(0));
}
