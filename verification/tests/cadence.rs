use chronotope::cadence::{Palier, PolitiqueCadence};

/// Cadence de scellement d'un palier pour une boucle a `hz_nominale` Hz.
fn hz(palier: Palier, hz_nominale: f64) -> f64 {
    hz_nominale / palier.diviseur() as f64
}

const HZ_NOMINALE: f64 = 20.0;

#[test]
fn les_paliers_suivent_le_document() {
    let p = PolitiqueCadence::default();
    assert_eq!(hz(Palier::Nominal, HZ_NOMINALE), 20.0);
    assert_eq!(hz(Palier::Demi, HZ_NOMINALE), 10.0);
    assert_eq!(hz(Palier::Quart, HZ_NOMINALE), 5.0);
    assert_eq!(p.horizon_ticks(Palier::Nominal), 2);
    assert_eq!(p.horizon_ticks(Palier::Demi), 4);
    assert_eq!(p.horizon_ticks(Palier::Quart), 8);
}

#[test]
fn le_palier_ne_depend_que_de_la_charge_de_la_cellule() {
    let p = PolitiqueCadence::default();
    assert_eq!(p.palier(0), Palier::Nominal);
    assert_eq!(p.palier(15), Palier::Nominal);
    assert_eq!(p.palier(16), Palier::Demi);
    assert_eq!(p.palier(31), Palier::Demi);
    assert_eq!(p.palier(32), Palier::Quart);
    assert_eq!(p.palier(10_000), Palier::Quart);
}

#[test]
fn un_sceau_degrade_regroupe_des_ticks_contigus() {
    let p = PolitiqueCadence::default();
    for t in 0..16u64 {
        assert_eq!(p.tick_de_sceau(Palier::Nominal, t), t);
        assert_eq!(p.tick_de_sceau(Palier::Demi, t), t - t % 2);
        assert_eq!(p.tick_de_sceau(Palier::Quart, t), t - t % 4);
    }
}

#[test]
fn un_chronotope_n_est_jamais_scelle_avant_sa_derniere_ecriture() {
    let p = PolitiqueCadence::default();
    for palier in [Palier::Nominal, Palier::Demi, Palier::Quart] {
        let derniere_ecriture = palier.diviseur() - 1;
        assert!(p.horizon_ticks(palier) > derniere_ecriture);
    }
}

#[test]
fn des_seuils_dans_le_desordre_restent_monotones() {
    let p = PolitiqueCadence {
        horizon_nominal_ticks: 2,
        seuil_demi: 40,
        seuil_quart: 10,
    };
    assert_eq!(p.palier(9), Palier::Nominal);
    assert_eq!(p.palier(10), Palier::Nominal);
    assert_eq!(p.palier(39), Palier::Nominal);
    assert_eq!(p.palier(40), Palier::Quart);
}

#[test]
fn le_diviseur_double_a_chaque_palier() {
    assert_eq!(Palier::Nominal.diviseur(), 1);
    assert_eq!(Palier::Demi.diviseur(), 2);
    assert_eq!(Palier::Quart.diviseur(), 4);
    assert!(Palier::Nominal < Palier::Demi && Palier::Demi < Palier::Quart);
}
