use chronotope::routage::{AnnuaireMemoire, Emplacement, Routeur};
use chronotope::topologie::noeud_de_cellule;
use chronotope::types::{CellId, EntityId};

fn emp(noeud: u32, cellule: u32) -> Emplacement {
    Emplacement {
        noeud,
        cellule: CellId(cellule),
    }
}

#[test]
fn la_premiere_inscription_est_toujours_accordee() {
    let mut a = AnnuaireMemoire::new(5);
    assert!(a.migrer(EntityId(1), emp(0, 0)));
    assert_eq!(a.ou_est(EntityId(1)), Some(emp(0, 0)));
}

#[test]
fn l_hysteresis_retarde_la_bascule_d_un_nombre_exact_de_tentatives() {
    let mut a = AnnuaireMemoire::new(3);
    a.migrer(EntityId(1), emp(0, 0));
    assert!(!a.migrer(EntityId(1), emp(1, 1)));
    assert!(!a.migrer(EntityId(1), emp(1, 1)));
    assert!(a.migrer(EntityId(1), emp(1, 1)));
    assert_eq!(a.ou_est(EntityId(1)), Some(emp(1, 1)));
}

#[test]
fn sans_hysteresis_la_bascule_est_immediate() {
    for h in [0u32, 1] {
        let mut a = AnnuaireMemoire::new(h);
        a.migrer(EntityId(1), emp(0, 0));
        assert!(a.migrer(EntityId(1), emp(1, 1)));
    }
}

#[test]
fn une_oscillation_frontaliere_est_amortie() {
    let mut a = AnnuaireMemoire::new(4);
    a.migrer(EntityId(1), emp(0, 0));
    for t in 0..100 {
        let cible = if t % 2 == 0 { emp(1, 1) } else { emp(0, 0) };
        if a.ou_est(EntityId(1)) != Some(cible) {
            a.migrer(EntityId(1), cible);
        }
    }
    assert!(
        a.migrations_accordees() <= 100 / 4 + 1,
        "thrashing non amorti : {} migrations accordees",
        a.migrations_accordees()
    );
}

#[test]
fn migrer_vers_l_emplacement_courant_est_un_no_op_reussi() {
    let mut a = AnnuaireMemoire::new(3);
    a.migrer(EntityId(1), emp(0, 0));
    assert!(a.migrer(EntityId(1), emp(0, 0)));
    assert_eq!(a.migrations_refusees(), 0);
}

#[test]
fn compteurs_de_l_annuaire_en_memoire() {
    let mut a = AnnuaireMemoire::new(2);
    assert_eq!(a.hysteresis_ticks(), 2);
    assert!(a.migrer(EntityId(7), emp(0, 0)));
    assert!(!a.migrer(EntityId(7), emp(1, 1)));
    assert!(a.migrer(EntityId(7), emp(1, 1)));
    assert_eq!(a.migrations_accordees(), 2);
    assert_eq!(a.migrations_refusees(), 1);
    assert_eq!(a.ou_est(EntityId(8)), None);
    assert_eq!(AnnuaireMemoire::default().hysteresis_ticks(), 3);
}

#[test]
fn les_tentatives_comptent_par_entite_quelle_que_soit_la_cible() {
    // Le compte de tentatives consecutives porte sur l'entite : changer de
    // cible en cours de route ne le remet pas a zero.
    let mut a = AnnuaireMemoire::new(3);
    a.migrer(EntityId(1), emp(0, 0));
    assert!(!a.migrer(EntityId(1), emp(1, 1)));
    assert!(!a.migrer(EntityId(1), emp(2, 2)));
    assert!(a.migrer(EntityId(1), emp(2, 2)));
    assert_eq!(a.ou_est(EntityId(1)), Some(emp(2, 2)));
}

#[test]
fn cellules_voisines_tombent_sur_des_noeuds_differents() {
    assert_ne!(
        noeud_de_cellule(CellId(1), 2),
        noeud_de_cellule(CellId(2), 2)
    );
}

#[test]
fn noeud_de_cellule_est_le_reste_modulo() {
    assert_eq!(noeud_de_cellule(CellId(0), 3), 0);
    assert_eq!(noeud_de_cellule(CellId(7), 3), 1);
    assert_eq!(noeud_de_cellule(CellId(u32::MAX), 1), 0);
    assert_eq!(noeud_de_cellule(CellId(9), 4), 1);
}
