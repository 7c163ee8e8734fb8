use std::time::Duration;

use chronotope::metriques::{Metrics, RouteCounters};

#[test]
fn render_prometheus_reflete_les_incrementations() {
    let mut m = Metrics::default();
    m.write.observer(true, Duration::from_millis(10));
    m.write.observer(true, Duration::from_millis(20));
    m.write.observer(false, Duration::from_millis(5));
    m.rejet_authentification();
    m.rejet_authentification();

    let texte = m.render_prometheus();
    assert!(texte.contains("chronotope_requests_total{route=\"write\",result=\"ok\"} 2"));
    assert!(texte.contains("chronotope_requests_total{route=\"write\",result=\"err\"} 1"));
    assert!(texte.contains("chronotope_requests_total{route=\"seal\",result=\"ok\"} 0"));
    assert!(texte.contains("chronotope_request_duration_seconds_count{route=\"write\"} 3"));
    assert!(texte.contains("chronotope_auth_rejected_total 2"));
}

#[test]
fn compteurs_vides_par_defaut() {
    let m = Metrics::default();
    let texte = m.render_prometheus();
    assert!(texte.contains("chronotope_requests_total{route=\"write\",result=\"ok\"} 0"));
    assert!(texte.contains("chronotope_request_duration_seconds_sum{route=\"read\"} 0.000000"));
    assert!(texte.contains("chronotope_auth_rejected_total 0"));
}

#[test]
fn latence_totale_cumule_plusieurs_observations() {
    let mut c = RouteCounters::default();
    c.observer(true, Duration::from_micros(1_500_000));
    c.observer(true, Duration::from_micros(500_000));
    assert_eq!(c.latence_us_total, 2_000_000);
    assert_eq!(c.total(), 2);
}

#[test]
fn texte_complet_d_exposition() {
    let mut m = Metrics::default();
    m.seal.observer(true, Duration::from_micros(1_234_567));
    m.read.observer(false, Duration::from_micros(42));
    m.rejet_authentification();
    let attendu = "# HELP chronotope_requests_total Nombre de requetes par route et resultat.\n\
# TYPE chronotope_requests_total counter\n\
chronotope_requests_total{route=\"write\",result=\"ok\"} 0\n\
chronotope_requests_total{route=\"write\",result=\"err\"} 0\n\
chronotope_requests_total{route=\"seal\",result=\"ok\"} 1\n\
chronotope_requests_total{route=\"seal\",result=\"err\"} 0\n\
chronotope_requests_total{route=\"read\",result=\"ok\"} 0\n\
chronotope_requests_total{route=\"read\",result=\"err\"} 1\n\
# HELP chronotope_request_duration_seconds_sum Somme des latences observees.\n\
# TYPE chronotope_request_duration_seconds_sum counter\n\
chronotope_request_duration_seconds_sum{route=\"write\"} 0.000000\n\
chronotope_request_duration_seconds_sum{route=\"seal\"} 1.234567\n\
chronotope_request_duration_seconds_sum{route=\"read\"} 0.000042\n\
# HELP chronotope_request_duration_seconds_count Nombre d'observations.\n\
# TYPE chronotope_request_duration_seconds_count counter\n\
chronotope_request_duration_seconds_count{route=\"write\"} 0\n\
chronotope_request_duration_seconds_count{route=\"seal\"} 1\n\
chronotope_request_duration_seconds_count{route=\"read\"} 1\n\
# HELP chronotope_auth_rejected_total Requetes rejetees par le secret partage (401).\n\
# TYPE chronotope_auth_rejected_total counter\n\
chronotope_auth_rejected_total 1\n";
    assert_eq!(m.render_prometheus(), attendu);
}

#[test]
fn les_compteurs_bouclent_modulo_2_puissance_64() {
    let mut c = RouteCounters {
        ok: u64::MAX,
        err: 0,
        latence_us_total: u64::MAX,
    };
    c.observer(true, Duration::from_micros(2));
    assert_eq!(c.ok, 0);
    assert_eq!(c.err, 0);
    assert_eq!(c.latence_us_total, 1);
}

#[test]
fn secondes_a_six_decimales() {
    let mut m = Metrics::default();
    m.write.observer(true, Duration::from_secs(12));
    m.write.observer(true, Duration::from_micros(3));
    assert!(m
        .render_prometheus()
        .contains("chronotope_request_duration_seconds_sum{route=\"write\"} 12.000003\n"));
}
