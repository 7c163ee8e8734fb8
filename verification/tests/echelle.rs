use std::collections::HashSet;
use std::time::{Duration, Instant};

use chronotope::directory::{Directory, Hysteresis, Location, Migration, NodeId};
use chronotope::types::{CellId, EntityId, Tick};

const SOURCE: Location = Location {
    node: NodeId(1),
    cell: CellId(10),
};
const DESTINATION: Location = Location {
    node: NodeId(2),
    cell: CellId(11),
};

fn cout_moyen_migration(occupation: u32, lots: u32, migrations_par_lot: u32) -> Duration {
    let mut annuaire = Directory::avec_hysteresis(Hysteresis::aucune());
    let migrante = EntityId(u32::MAX);

    for i in 0..occupation {
        annuaire.inscrire(EntityId(i), DESTINATION, Tick(0));
    }
    annuaire.inscrire(migrante, SOURCE, Tick(0));

    let mut meilleur = Duration::MAX;
    let mut tick = 1u64;
    for _ in 0..lots {
        let debut = Instant::now();
        for i in 0..migrations_par_lot {
            let dest = if i % 2 == 0 { DESTINATION } else { SOURCE };
            let issue = annuaire.migrer(migrante, dest, Tick(tick));
            assert!(matches!(issue, Ok(Migration::Effectuee { .. })));
            tick += 1;
        }
        meilleur = meilleur.min(debut.elapsed() / migrations_par_lot);
    }
    meilleur
}

#[test]
fn migrer_est_o1_independamment_de_l_occupation_de_la_destination() {
    let _ = cout_moyen_migration(64, 2, 1_000);

    let petit = cout_moyen_migration(64, 8, 20_000);
    let grand = cout_moyen_migration(64_000, 8, 20_000);

    let rapport = grand.as_secs_f64() / petit.as_secs_f64().max(f64::MIN_POSITIVE);
    println!(
        "migrer : {petit:?}/op a 64 entites, {grand:?}/op a 64 000 entites (occupation x1000) — rapport {rapport:.2}"
    );

    assert!(
        rapport < 25.0,
        "cout de migration proportionnel a l'occupation : {petit:?} -> {grand:?} (rapport {rapport:.2} pour une occupation multipliee par 1000)"
    );
}

#[test]
fn locate_reste_correct_a_grande_echelle() {
    let mut annuaire = Directory::new();
    for i in 0..50_000u32 {
        annuaire.inscrire(
            EntityId(i),
            Location {
                node: NodeId(i % 4),
                cell: CellId(i % 128),
            },
            Tick(0),
        );
    }
    assert_eq!(annuaire.len(), 50_000);

    assert_eq!(
        annuaire.migrer(EntityId(1234), DESTINATION, Tick(100)),
        Ok(Migration::Effectuee {
            depuis: Some(Location {
                node: NodeId(1234 % 4),
                cell: CellId(1234 % 128),
            })
        })
    );
    assert_eq!(annuaire.locate(EntityId(1234)), Some(DESTINATION));
    assert_eq!(
        annuaire.locate(EntityId(1235)),
        Some(Location {
            node: NodeId(1235 % 4),
            cell: CellId(1235 % 128),
        })
    );
    assert_eq!(annuaire.len(), 50_000);
}

const N: u32 = 150_000;
const NOEUDS: u32 = 8;
const CELLULES: u32 = 4_096;

#[test]
fn instantane_et_locate_restent_corrects_a_150k_entites() {
    let mut annuaire = Directory::avec_hysteresis(Hysteresis::aucune());
    for i in 0..N {
        annuaire.inscrire(
            EntityId(i),
            Location {
                node: NodeId(i % NOEUDS),
                cell: CellId(i % CELLULES),
            },
            Tick(0),
        );
    }
    assert_eq!(annuaire.len(), N as usize);

    for i in (0..N).step_by(2) {
        let dest = Location {
            node: NodeId((i + 1) % NOEUDS),
            cell: CellId((i + 1) % CELLULES),
        };
        assert!(matches!(
            annuaire.migrer(EntityId(i), dest, Tick(1)),
            Ok(Migration::Effectuee { .. })
        ));
    }

    let vue = annuaire.instantane();
    assert_eq!(
        vue.len(),
        N as usize,
        "instantane ne doit ni perdre ni dupliquer d'entite"
    );
    let distinctes: HashSet<_> = vue.iter().map(|(e, _)| *e).collect();
    assert_eq!(distinctes.len(), N as usize);

    for i in 0..N {
        let attendu = if i % 2 == 0 {
            Location {
                node: NodeId((i + 1) % NOEUDS),
                cell: CellId((i + 1) % CELLULES),
            }
        } else {
            Location {
                node: NodeId(i % NOEUDS),
                cell: CellId(i % CELLULES),
            }
        };
        assert_eq!(annuaire.locate(EntityId(i)), Some(attendu));
    }
}
