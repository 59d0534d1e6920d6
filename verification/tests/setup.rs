use xtal::compile::Engine;
use xtal::config::{DocFormat, PartialConfig};
use xtal::setup::{
    config_inicial, engine_pkg, formato_elegido, motor_elegido, pick_engine, pick_format, pick_theme, pide_reconfigurar,
    Eleccion,
};

fn themes(v: &[&str]) -> Vec<String> {
    v.iter().map(|s| s.to_string()).collect()
}

fn con_theme(t: Option<&str>) -> PartialConfig {
    PartialConfig { theme: t.map(|s| s.to_string()), format: None, monochrome: None }
}

#[test]
fn el_theme_sin_preguntar() {
    let ts = themes(&["fiuba", "itba"]);
    match pick_theme(true, &ts, &con_theme(None)) {
        Eleccion::Lista(t) => assert_eq!(t, "itba"),
        _ => panic!("con --yes no se pregunta"),
    }
    match pick_theme(true, &ts, &con_theme(Some("unlp"))) {
        Eleccion::Lista(t) => assert_eq!(t, "fiuba"),
        _ => panic!("con --yes no se pregunta"),
    }
    match pick_theme(false, &themes(&[]), &con_theme(None)) {
        Eleccion::Lista(t) => assert_eq!(t, "itba"),
        _ => panic!("sin themes no hay qué preguntar"),
    }
}

#[test]
fn el_theme_se_pregunta_ofreciendo_el_configurado() {
    let ts = themes(&["fiuba", "itba", "unlp"]);
    match pick_theme(false, &ts, &con_theme(Some("unlp"))) {
        Eleccion::Preguntar(i) => assert_eq!(i, 2),
        _ => panic!("hay para elegir"),
    }
    match pick_theme(false, &ts, &con_theme(Some("otro"))) {
        Eleccion::Preguntar(i) => assert_eq!(i, 0),
        _ => panic!("hay para elegir"),
    }
}

#[test]
fn formato_y_motor() {
    let paper = PartialConfig { theme: None, format: Some(DocFormat::Paper), monochrome: None };
    assert!(matches!(pick_format(true, &paper), Eleccion::Lista(DocFormat::Paper)));
    assert!(matches!(pick_format(false, &paper), Eleccion::Preguntar(1)));
    assert!(matches!(pick_format(false, &con_theme(None)), Eleccion::Preguntar(0)));
    assert_eq!(formato_elegido(1), DocFormat::Paper);
    assert!(matches!(pick_engine(true, true), Eleccion::Lista(Engine::Pdflatex)));
    assert!(matches!(pick_engine(false, true), Eleccion::Lista(Engine::Tectonic)));
    assert!(matches!(pick_engine(false, false), Eleccion::Preguntar(0)));
    assert_eq!(motor_elegido(0), Engine::Tectonic);
    assert!(pide_reconfigurar(&con_theme(Some("itba")), false));
    assert!(!pide_reconfigurar(&con_theme(Some("itba")), true));
    assert!(!pide_reconfigurar(&con_theme(None), false));
}

#[test]
fn tectonic_no_esta_en_apt() {
    let p = engine_pkg(Engine::Tectonic);
    assert_eq!(p.apt, None);
    assert_eq!(p.brew, Some("tectonic"));
    assert_eq!(engine_pkg(Engine::Pdflatex).apt, Some("texlive-latex-extra"));
    let c = config_inicial();
    assert_eq!(c.theme.as_deref(), Some("itba"));
    assert_eq!(c.format, Some(DocFormat::Facultad));
}
