use xtal::config::{parse_format, partial_get, partial_set, resolve, DocFormat, PartialConfig};

#[test]
fn defaults_when_everything_empty() {
    let r = resolve(&PartialConfig::default(), None, &PartialConfig::default());
    assert_eq!(r.theme, "itba");
    assert_eq!(r.format, DocFormat::Facultad);
    assert!(!r.monochrome);
}

#[test]
fn global_overrides_defaults() {
    let global = PartialConfig { theme: Some("uba".to_string()), ..Default::default() };
    let r = resolve(&global, None, &PartialConfig::default());
    assert_eq!(r.theme, "uba");
}

#[test]
fn project_overrides_global() {
    let global = PartialConfig { theme: Some("uba".to_string()), ..Default::default() };
    // La capa del proyecto: su theme y su formato (del monocromo no opina).
    let project = PartialConfig { theme: Some("utn".to_string()), ..Default::default() };
    let r = resolve(&global, Some(&project), &PartialConfig::default());
    assert_eq!(r.theme, "utn");
}

#[test]
fn flag_overrides_everything() {
    let global = PartialConfig { theme: Some("uba".to_string()), monochrome: Some(false), ..Default::default() };
    let project = PartialConfig { theme: Some("utn".to_string()), ..Default::default() };
    let cli = PartialConfig { theme: Some("itba".to_string()), monochrome: Some(true), ..Default::default() };
    let r = resolve(&global, Some(&project), &cli);
    assert_eq!(r.theme, "itba");
    assert!(r.monochrome);
}

#[test]
fn el_proyecto_no_opina_del_monocromo() {
    let global = PartialConfig { monochrome: Some(true), format: Some(DocFormat::Paper), ..Default::default() };
    let project = PartialConfig { monochrome: Some(false), format: Some(DocFormat::Facultad), ..Default::default() };
    let r = resolve(&global, Some(&project), &PartialConfig::default());
    assert!(r.monochrome);
    assert_eq!(r.format, DocFormat::Facultad);
}

#[test]
fn config_get_y_set() {
    let mut c = PartialConfig::default();
    assert_eq!(partial_get(&c, "theme").unwrap(), "");
    partial_set(&mut c, "format", "PAPER").unwrap();
    assert_eq!(partial_get(&c, "format").unwrap(), "Paper");
    partial_set(&mut c, "monochrome", "true").unwrap();
    assert_eq!(partial_get(&c, "monochrome").unwrap(), "true");
    assert_eq!(partial_set(&mut c, "monochrome", "si"), Err("monochrome es true|false".to_string()));
    assert_eq!(c.monochrome, Some(true));
    assert_eq!(partial_set(&mut c, "color", "x"), Err("clave desconocida 'color' (theme|format|monochrome)".to_string()));
    assert_eq!(parse_format("Otro"), Err("formato desconocido 'otro' (facultad|paper)".to_string()));
    assert_eq!(parse_format("Facultad"), Ok(DocFormat::Facultad));
}

#[test]
fn lo_que_se_pone_se_lee() {
    let mut c = PartialConfig::default();
    partial_set(&mut c, "theme", "fiuba").unwrap();
    assert_eq!(partial_get(&c, "theme").unwrap(), "fiuba");
    partial_set(&mut c, "monochrome", "false").unwrap();
    assert_eq!(partial_get(&c, "monochrome").unwrap(), "false");
    partial_set(&mut c, "format", "PAPER").unwrap();
    assert_eq!(partial_get(&c, "format").unwrap(), "Paper");
    // Lo que no se acepta deja la capa como estaba.
    assert!(partial_set(&mut c, "monochrome", "si").is_err());
    assert_eq!(partial_get(&c, "monochrome").unwrap(), "false");
}
