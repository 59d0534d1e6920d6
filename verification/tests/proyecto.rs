use xtal::proyecto::{
    acortar, con_reciente, ids_de_themes, nombre_de_theme, ordenar_themes, reciente, slug, valor,
    Theme, TOPE,
};

#[test]
fn el_slug_coincide_con_el_de_la_cli() {
    let s = |x: &str| slug(x.to_string());
    assert_eq!(s("TP 3 — Filtro RLC"), "tp-3-filtro-rlc");
    assert_eq!(s("Informe   de   Física"), "informe-de-física");
    assert_eq!(s("  espacios  "), "espacios");
    assert_eq!(s("???"), "");
}

#[test]
fn las_tildes_se_conservan() {
    assert_eq!(slug("Análisis".to_string()), "análisis");
}

#[test]
fn la_carpeta_abierta_sube_al_tope_sin_duplicarse() {
    let v: Vec<String> = vec!["C:\\TP1".into(), "c:\\tp3".into(), "D:\\x".into()];
    let r = con_reciente(v, "C:\\TP3".into());
    assert_eq!(r, vec!["C:\\TP3", "C:\\TP1", "D:\\x"]);
    let muchas: Vec<String> = (0..20).map(|i| format!("/p/{i}")).collect();
    let r = con_reciente(muchas, "/nueva".into());
    assert_eq!(r.len(), TOPE);
    assert_eq!(r[0], "/nueva");
    assert_eq!(r[1], "/p/0");
}

#[test]
fn la_ruta_corta_usa_la_tilde() {
    assert_eq!(acortar("/home/manu/tp3", Some("/home/manu")), "~/tp3");
    assert_eq!(acortar("/otra/tp3", Some("/home/manu")), "/otra/tp3");
    assert_eq!(acortar("/home/manu/tp3", None), "/home/manu/tp3");
    let r = reciente("/home/manu/TP 3".into(), Some("/home/manu"));
    assert_eq!(r.nombre, "TP 3");
    assert_eq!(r.ruta_corta, "~/TP 3");
}

#[test]
fn el_nombre_del_theme_sale_de_su_toml() {
    let toml = "[institucion]\n  nombre = \"Instituto Tecnológico\"\nsigla=  \"ITBA\" \n";
    assert_eq!(valor("sigla", toml).as_deref(), Some("ITBA"));
    assert_eq!(valor("nombre", toml).as_deref(), Some("Instituto Tecnológico"));
    assert_eq!(valor("logo", toml), None);
    assert_eq!(nombre_de_theme("itba", toml), "ITBA");
    assert_eq!(nombre_de_theme("generico", ""), "Sin institución");
    assert_eq!(nombre_de_theme("fiuba", "sigla = \"\"\n"), "FIUBA");
}

#[test]
fn el_generico_va_al_final() {
    let ids = ids_de_themes(&vec![".DS_Store".into(), "utn".into(), "itba".into()]);
    assert_eq!(ids, vec!["itba", "generico", "utn"]);
    let lista = vec![
        Theme { id: "generico".into(), nombre: "Sin institución".into() },
        Theme { id: "utn".into(), nombre: "UTN".into() },
        Theme { id: "itba".into(), nombre: "ITBA".into() },
    ];
    let r = ordenar_themes(lista);
    let ids: Vec<&str> = r.iter().map(|t| t.id.as_str()).collect();
    assert_eq!(ids, vec!["itba", "utn", "generico"]);
}
