use chronotope::directory::{Directory, Hysteresis, Location, Migration, NodeId, RefusHysteresis};
use chronotope::types::{CellId, EntityId, Tick};

fn loc(node: u32, cell: u32) -> Location {
    Location {
        node: NodeId(node),
        cell: CellId(cell),
    }
}

#[test]
fn migrer_puis_locate_renvoie_le_nouvel_emplacement() {
    let mut annuaire = Directory::new();
    let a = loc(1, 10);
    let b = loc(2, 11);

    annuaire.inscrire(EntityId(1), a, Tick(0));
    assert_eq!(annuaire.locate(EntityId(1)), Some(a));

    assert_eq!(
        annuaire.migrer(EntityId(1), b, Tick(1)),
        Ok(Migration::Effectuee { depuis: Some(a) })
    );
    assert_eq!(annuaire.locate(EntityId(1)), Some(b));
}

#[test]
fn entite_inconnue_est_introuvable() {
    let annuaire = Directory::new();
    assert_eq!(annuaire.locate(EntityId(404)), None);
    assert!(annuaire.is_empty());
}

#[test]
fn migrer_une_entite_inconnue_l_inscrit() {
    let mut annuaire = Directory::new();
    assert_eq!(
        annuaire.migrer(EntityId(1), loc(1, 10), Tick(0)),
        Ok(Migration::Effectuee { depuis: None })
    );
    assert_eq!(annuaire.len(), 1);
}

#[test]
fn destination_courante_ne_declenche_ni_ecriture_ni_hysteresis() {
    let mut annuaire = Directory::avec_hysteresis(Hysteresis::ticks(4));
    let a = loc(1, 10);
    let b = loc(2, 11);
    annuaire.inscrire(EntityId(1), a, Tick(0));

    for t in 0..10 {
        assert_eq!(
            annuaire.migrer(EntityId(1), a, Tick(t)),
            Ok(Migration::Inchangee)
        );
    }
    assert!(annuaire.migrer(EntityId(1), b, Tick(10)).is_ok());
}

#[test]
fn hysteresis_refuse_puis_laisse_passer_au_tick_exact() {
    let mut annuaire = Directory::avec_hysteresis(Hysteresis::ticks(3));
    let a = loc(1, 10);
    let b = loc(2, 11);
    annuaire.inscrire(EntityId(1), a, Tick(0));

    assert!(annuaire.migrer(EntityId(1), b, Tick(10)).is_ok());
    for (tick, restants) in [(10, 3), (11, 2), (12, 1)] {
        assert_eq!(
            annuaire.migrer(EntityId(1), a, Tick(tick)),
            Err(RefusHysteresis {
                entite: EntityId(1),
                dest: a,
                ticks_restants: restants,
            })
        );
    }
    assert!(annuaire.migrer(EntityId(1), a, Tick(13)).is_ok());
    assert_eq!(annuaire.locate(EntityId(1)), Some(a));
}

#[test]
fn hysteresis_nulle_accepte_toute_migration() {
    let mut annuaire = Directory::avec_hysteresis(Hysteresis::aucune());
    let a = loc(1, 10);
    let b = loc(2, 11);
    annuaire.inscrire(EntityId(1), a, Tick(0));

    for t in 1..20 {
        let dest = if t % 2 == 0 { a } else { b };
        assert!(matches!(
            annuaire.migrer(EntityId(1), dest, Tick(t)),
            Ok(Migration::Effectuee { .. })
        ));
    }
}

#[test]
fn hysteresis_est_par_entite_pas_globale() {
    let mut annuaire = Directory::avec_hysteresis(Hysteresis::ticks(8));
    let a = loc(1, 10);
    let b = loc(2, 11);
    annuaire.inscrire(EntityId(1), a, Tick(0));
    annuaire.inscrire(EntityId(2), a, Tick(0));

    assert!(annuaire.migrer(EntityId(1), b, Tick(1)).is_ok());
    assert!(annuaire.migrer(EntityId(2), b, Tick(1)).is_ok());
    assert!(annuaire.migrer(EntityId(1), a, Tick(2)).is_err());
    assert!(annuaire.migrer(EntityId(2), a, Tick(2)).is_err());
}

#[test]
fn tick_non_monotone_ne_panique_pas() {
    let mut annuaire = Directory::avec_hysteresis(Hysteresis::ticks(4));
    let a = loc(1, 10);
    let b = loc(2, 11);
    annuaire.inscrire(EntityId(1), a, Tick(0));

    assert!(annuaire.migrer(EntityId(1), b, Tick(100)).is_ok());
    assert!(annuaire.migrer(EntityId(1), a, Tick(3)).is_err());
}

#[test]
fn tick_regressif_est_refuse_de_facon_correcte_pas_seulement_non_panique() {
    let mut annuaire = Directory::avec_hysteresis(Hysteresis::ticks(10));
    let a = loc(1, 10);
    let b = loc(2, 11);
    annuaire.inscrire(EntityId(1), a, Tick(1_000));
    assert!(annuaire.migrer(EntityId(1), b, Tick(1_010)).is_ok());

    let refus = annuaire.migrer(EntityId(1), a, Tick(0)).unwrap_err();
    assert_eq!(
        refus,
        RefusHysteresis {
            entite: EntityId(1),
            dest: a,
            ticks_restants: 10,
        }
    );
    assert_eq!(annuaire.locate(EntityId(1)), Some(b));
}

#[test]
fn tick_zero_repete_des_milliers_de_fois_ne_corrompt_pas_l_etat() {
    let mut annuaire = Directory::avec_hysteresis(Hysteresis::ticks(5));
    let a = loc(1, 10);
    let b = loc(2, 11);
    let c = loc(3, 12);
    annuaire.inscrire(EntityId(1), a, Tick(0));
    assert!(annuaire.migrer(EntityId(1), b, Tick(0)).is_ok());

    for _ in 0..5_000 {
        assert_eq!(
            annuaire.migrer(EntityId(1), c, Tick(0)),
            Err(RefusHysteresis {
                entite: EntityId(1),
                dest: c,
                ticks_restants: 5,
            })
        );
    }
    assert_eq!(annuaire.locate(EntityId(1)), Some(b));
}

#[test]
fn tick_u64_max_ne_deborde_pas_et_verrouille_les_migrations_suivantes() {
    let mut annuaire = Directory::avec_hysteresis(Hysteresis::ticks(4));
    let a = loc(1, 10);
    let b = loc(2, 11);
    annuaire.inscrire(EntityId(1), a, Tick(u64::MAX));
    assert!(annuaire.migrer(EntityId(1), b, Tick(u64::MAX)).is_ok());

    assert!(annuaire.migrer(EntityId(1), a, Tick(u64::MAX - 1)).is_err());
    assert!(annuaire.migrer(EntityId(1), a, Tick(0)).is_err());
    assert!(annuaire.migrer(EntityId(1), a, Tick(u64::MAX)).is_err());
    assert_eq!(annuaire.locate(EntityId(1)), Some(b));
}

#[test]
fn hysteresis_u64_max_ne_deborde_pas() {
    let mut annuaire = Directory::avec_hysteresis(Hysteresis::ticks(u64::MAX));
    let a = loc(1, 10);
    let b = loc(2, 11);
    annuaire.inscrire(EntityId(1), a, Tick(0));
    assert!(annuaire.migrer(EntityId(1), b, Tick(1)).is_ok());

    let refus = annuaire.migrer(EntityId(1), a, Tick(u64::MAX)).unwrap_err();
    assert_eq!(refus.ticks_restants, 1);
}

#[test]
fn hysteresis_ticks_zero_se_comporte_comme_aucune() {
    assert_eq!(Hysteresis::ticks(0), Hysteresis::aucune());
}

#[test]
fn un_refus_ne_modifie_ni_l_emplacement_ni_l_horloge_d_hysteresis() {
    let mut annuaire = Directory::avec_hysteresis(Hysteresis::ticks(10));
    let a = loc(1, 10);
    let b = loc(2, 11);
    let c = loc(3, 12);
    annuaire.inscrire(EntityId(1), a, Tick(0));
    assert!(annuaire.migrer(EntityId(1), b, Tick(0)).is_ok());

    assert!(annuaire.migrer(EntityId(1), a, Tick(3)).is_err());
    assert!(annuaire.migrer(EntityId(1), c, Tick(5)).is_err());
    assert_eq!(annuaire.locate(EntityId(1)), Some(b));

    assert!(annuaire.migrer(EntityId(1), c, Tick(9)).is_err());
    assert!(annuaire.migrer(EntityId(1), c, Tick(10)).is_ok());
}

#[test]
fn spam_de_la_destination_courante_reste_sans_effet_a_grande_echelle() {
    let mut annuaire = Directory::avec_hysteresis(Hysteresis::ticks(10));
    let a = loc(1, 10);
    let b = loc(2, 11);
    annuaire.inscrire(EntityId(1), a, Tick(0));
    assert!(annuaire.migrer(EntityId(1), b, Tick(0)).is_ok());

    for t in 1..5_000u64 {
        assert_eq!(
            annuaire.migrer(EntityId(1), b, Tick(t)),
            Ok(Migration::Inchangee)
        );
    }
    assert!(annuaire.migrer(EntityId(1), a, Tick(9)).is_err());
    assert!(annuaire.migrer(EntityId(1), a, Tick(10)).is_ok());
}

#[test]
fn inscrire_replace_sans_hysteresis_et_renvoie_le_precedent() {
    let mut annuaire = Directory::avec_hysteresis(Hysteresis::ticks(100));
    let a = loc(1, 10);
    let b = loc(2, 11);
    annuaire.inscrire(EntityId(1), a, Tick(0));
    assert!(annuaire.migrer(EntityId(1), b, Tick(1)).is_ok());

    assert_eq!(annuaire.inscrire(EntityId(1), a, Tick(2)), Some(b));
    assert_eq!(annuaire.locate(EntityId(1)), Some(a));
    assert!(annuaire.migrer(EntityId(1), b, Tick(2)).is_ok());
}

#[test]
fn instantane_reflete_l_annuaire() {
    let mut annuaire = Directory::new();
    annuaire.inscrire(EntityId(1), loc(1, 10), Tick(0));
    annuaire.inscrire(EntityId(2), loc(2, 20), Tick(0));

    let mut vue = annuaire.instantane();
    vue.sort_by_key(|(e, _)| e.0);
    assert_eq!(
        vue,
        vec![(EntityId(1), loc(1, 10)), (EntityId(2), loc(2, 20))]
    );
}

#[test]
fn hysteresis_par_defaut_est_de_quatre_ticks() {
    assert_eq!(Hysteresis::default(), Hysteresis::ticks(4));
    assert_eq!(Directory::new().hysteresis(), Hysteresis::ticks(4));
    assert_eq!(Directory::default().hysteresis(), Hysteresis::ticks(4));
}

#[test]
fn loi_espacement_sur_des_valeurs_concretes() {
    // Deux migrations effectuees sont separees d'au moins h ticks.
    let mut annuaire = Directory::avec_hysteresis(Hysteresis::ticks(6));
    let a = loc(1, 1);
    let b = loc(2, 2);
    annuaire.inscrire(EntityId(9), a, Tick(0));
    assert!(annuaire.migrer(EntityId(9), b, Tick(3)).is_ok());
    assert!(annuaire.migrer(EntityId(9), a, Tick(8)).is_err());
    assert_eq!(
        annuaire.migrer(EntityId(9), a, Tick(9)),
        Ok(Migration::Effectuee { depuis: Some(b) })
    );
}
