use xtal::store::{
    archivos_de_secciones, assign_section_files, find_project_root, fold, list_circuits, list_measurements, list_plots,
    slug, taken_section_files,
};
use xtal::secciones::Section;

#[test]
fn find_root_walks_up() {
    let ancestros = vec!["/tp/a/b".to_string(), "/tp/a".to_string(), "/tp".to_string(), "/".to_string()];
    let hay = |p: &str| p == "/tp/xtal.toml";
    assert_eq!(find_project_root(&ancestros, &hay).unwrap(), "/tp");
    let nada = |_: &str| false;
    assert!(find_project_root(&ancestros, &nada).is_err());
}

#[test]
fn los_ids_salen_ordenados_y_sin_extension() {
    let nombres: Vec<String> = ["vout.toml", "vout.csv", "a.b.toml", ".toml", "sin", "bode.toml"]
        .iter()
        .map(|s| s.to_string())
        .collect();
    assert_eq!(list_measurements(&nombres), vec!["a.b", "bode", "vout"]);
    assert_eq!(list_plots(&nombres), vec!["a.b", "bode", "vout"]);
    let cir: Vec<String> = ["rc.cir", "rc.asc", "..", "filtro.cir"].iter().map(|s| s.to_string()).collect();
    assert_eq!(list_circuits(&cir), vec!["filtro", "rc"]);
}

fn seccion(titulo: &str, archivo: Option<&str>, sub: Vec<Section>) -> Section {
    Section {
        title: titulo.to_string(),
        body: String::new(),
        body_file: archivo.map(|a| a.to_string()),
        figures: vec![],
        subsections: sub,
    }
}

fn archivo(s: &Section) -> &str {
    s.body_file.as_deref().unwrap()
}

#[test]
fn el_nombre_del_archivo_va_sin_acentos() {
    assert_eq!(slug("Modelo teórico"), "modelo-teorico");
    assert_eq!(slug("¡Ñandú, 2 veces!"), "nandu-2-veces");
    assert_eq!(slug("  ¿?  "), "");
    assert_eq!(fold('Ú'), 'U');
    assert_eq!(fold('ß'), 'ß');
}

#[test]
fn una_seccion_nueva_recibe_su_archivo_numerado() {
    let mut s = seccion("Modelo teórico", None, vec![]);
    s.body = "El polo está en \\SI{1}{\\kilo\\hertz}.".to_string();
    s.figures = vec!["bode".to_string()];
    let r = archivos_de_secciones(vec![s]);
    assert_eq!(archivo(&r[0]), "secciones/01-modelo-teorico.tex");
    // El resto de la sección queda como estaba.
    assert_eq!(r[0].body, "El polo está en \\SI{1}{\\kilo\\hertz}.");
    assert_eq!(r[0].figures, vec!["bode"]);
    // Un título que no deja nada se llama `seccion`.
    let r = archivos_de_secciones(vec![seccion("¿?", None, vec![])]);
    assert_eq!(archivo(&r[0]), "secciones/01-seccion.tex");
}

#[test]
fn el_archivo_de_una_seccion_no_se_renombra_al_cambiar_el_titulo() {
    let r = archivos_de_secciones(vec![seccion("Objetivo", None, vec![])]);
    assert_eq!(archivo(&r[0]), "secciones/01-objetivo.tex");
    let otra = vec![seccion("Otro título", Some(archivo(&r[0])), vec![])];
    let r = archivos_de_secciones(otra);
    assert_eq!(archivo(&r[0]), "secciones/01-objetivo.tex");
    assert_eq!(r[0].title, "Otro título");
}

#[test]
fn las_subsecciones_se_numeran_en_el_orden_del_informe() {
    let secs = vec![
        seccion("Objetivo", None, vec![]),
        seccion("Circuito", None, vec![seccion("Medición", None, vec![])]),
    ];
    let r = archivos_de_secciones(secs);
    assert_eq!(archivo(&r[0]), "secciones/01-objetivo.tex");
    assert_eq!(archivo(&r[1]), "secciones/02-circuito.tex");
    assert_eq!(archivo(&r[1].subsections[0]), "secciones/03-medicion.tex");
    assert_eq!(r[1].subsections[0].title, "Medición");
    assert_eq!(
        taken_section_files(&r),
        vec!["secciones/01-objetivo.tex", "secciones/02-circuito.tex", "secciones/03-medicion.tex"]
    );
}

#[test]
fn un_nombre_tomado_se_saltea() {
    let secs = vec![seccion("X", Some("secciones/02-x.tex"), vec![]), seccion("X", None, vec![])];
    let r = archivos_de_secciones(secs);
    assert_eq!(archivo(&r[0]), "secciones/02-x.tex");
    assert_eq!(archivo(&r[1]), "secciones/03-x.tex");
}

#[test]
fn desde_diez_van_dos_cifras_sin_cero() {
    let mut taken: Vec<String> = (1..=9).map(|n| format!("otro/{n}.tex")).collect();
    let r = assign_section_files(vec![seccion("Anexo", None, vec![])], &mut taken);
    assert_eq!(archivo(&r[0]), "secciones/10-anexo.tex");
    assert_eq!(taken.len(), 10);
    assert_eq!(taken[9], "secciones/10-anexo.tex");
}
