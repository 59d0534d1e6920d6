use xtal::plan::{
    aplicar_entrevista, completo, con_entrada, cuantos_por_defecto, describe_sources, entrada_de_la_entrevista,
    estado_del_plan, faltan, id_unico, listo_en_el_pdf, nombre_de_tipo, nombre_fuente, parse_kind, pista, sin_entrada,
    tiene_figura, todo_completo, valida_cuantos, valida_titulo, Grafico, MeasurementKind, Medicion, PlannedPlot,
    PlotKind,
};
use xtal::secciones::Section;

fn seccion(titulo: &str, figuras: &[&str], sub: Vec<Section>) -> Section {
    Section {
        title: titulo.to_string(),
        body: String::new(),
        body_file: None,
        figures: figuras.iter().map(|f| f.to_string()).collect(),
        subsections: sub,
    }
}

#[test]
fn dos_graficos_con_el_mismo_nombre_no_se_pisan() {
    let ya = vec![PlannedPlot::new("bode".to_string())];
    assert_eq!(id_unico("bode".to_string(), &ya), "bode-2");
    assert_eq!(id_unico("otro".to_string(), &ya), "otro");

    let ya = vec![PlannedPlot::new("bode".to_string()), PlannedPlot::new("bode-2".to_string())];
    assert_eq!(id_unico("bode".to_string(), &ya), "bode-3");
}

#[test]
fn tiene_figura_busca_en_subsecciones() {
    let padre = || seccion("Resultados", &[], vec![seccion("Respuesta en frecuencia", &["bode"], vec![])]);
    assert!(tiene_figura(&vec![padre()], "bode"));
    assert!(!tiene_figura(&vec![padre()], "transitorio"));
}

#[test]
fn describe_sources_es_legible() {
    assert_eq!(
        describe_sources(&vec![MeasurementKind::Theoretical, MeasurementKind::Measured]),
        "teórica + medida"
    );
    assert_eq!(describe_sources(&vec![]), "sin fuentes declaradas");
}

#[test]
fn cada_fuente_tiene_una_pista_accionable() {
    for kind in [MeasurementKind::Theoretical, MeasurementKind::Simulated, MeasurementKind::Measured] {
        assert!(pista(kind, "bode").starts_with("xtal "), "la pista de {kind:?} no es un comando");
    }
    assert_eq!(pista(MeasurementKind::Random, "bode"), "xtal plot add-series bode --measurement <id>");
    assert_eq!(nombre_fuente(MeasurementKind::Random), "sintética");
}

#[test]
fn los_tipos_de_grafico_por_nombre() {
    assert_eq!(parse_kind("bode"), PlotKind::Bode);
    assert_eq!(parse_kind("time"), PlotKind::Time);
    assert_eq!(parse_kind("xy"), PlotKind::Xy);
    assert_eq!(parse_kind("Bode"), PlotKind::Generic);
}

fn plan(id: &str, fuentes: &[MeasurementKind]) -> PlannedPlot {
    let mut p = PlannedPlot::new(id.to_string());
    p.sources = fuentes.to_vec();
    p
}

#[test]
fn el_estado_cruza_el_plan_con_lo_que_hay() {
    let plan = vec![
        plan("bode", &[MeasurementKind::Theoretical, MeasurementKind::Measured]),
        plan("transitorio", &[MeasurementKind::Simulated]),
    ];
    let mediciones = vec![
        Medicion { id: "teo".to_string(), kind: MeasurementKind::Theoretical },
        Medicion { id: "med".to_string(), kind: MeasurementKind::Measured },
        Medicion { id: "med2".to_string(), kind: MeasurementKind::Measured },
    ];
    let graficos = vec![Grafico {
        id: "bode".to_string(),
        series: vec!["med".to_string(), "teo".to_string(), "fantasma".to_string(), "med2".to_string()],
    }];
    let secciones = vec![seccion("Resultados", &["bode"], vec![])];
    let informe = estado_del_plan(&plan, &mediciones, &graficos, &secciones);
    assert_eq!(informe.len(), 2);

    let bode = &informe[0];
    assert!(bode.existe && bode.en_informe);
    assert_eq!(bode.fuentes[0].presentes, vec!["teo"]);
    assert_eq!(bode.fuentes[1].presentes, vec!["med", "med2"]);
    assert!(completo(bode));
    assert!(listo_en_el_pdf(bode));

    // El transitorio no existe ni está en ninguna sección: faltan su curva y
    // la figura.
    let tr = &informe[1];
    assert!(!tr.existe && !tr.en_informe);
    assert!(tr.fuentes[0].presentes.is_empty());
    assert!(!completo(tr));
    assert_eq!(faltan(&informe), 2);
    assert!(!todo_completo(&informe));
}

#[test]
fn sin_plan_no_esta_completo() {
    assert!(!todo_completo(&vec![]));
    assert_eq!(faltan(&vec![]), 0);
    // Un gráfico que existe, sin fuentes y en el informe: completo.
    let plan = vec![plan("bode", &[])];
    let graficos = vec![Grafico { id: "bode".to_string(), series: vec![] }];
    let secciones = vec![seccion("A", &[], vec![seccion("B", &["bode"], vec![])])];
    let informe = estado_del_plan(&plan, &vec![], &graficos, &secciones);
    assert!(todo_completo(&informe));
}

fn ids(v: &[PlannedPlot]) -> Vec<&str> {
    v.iter().map(|p| p.id.as_str()).collect()
}

#[test]
fn agregar_dos_veces_no_deja_basura() {
    let v = vec![plan("bode", &[]), plan("fase", &[])];
    let mut nuevo = plan("bode", &[MeasurementKind::Measured]);
    nuevo.title = Some("Bode".to_string());
    let (v, reemplazo) = con_entrada(v, nuevo.clone());
    assert!(reemplazo);
    assert_eq!(ids(&v), vec!["bode", "fase"]);
    assert_eq!(v[0].sources, vec![MeasurementKind::Measured]);
    let (v, reemplazo) = con_entrada(v, nuevo);
    assert!(reemplazo);
    assert_eq!(ids(&v), vec!["bode", "fase"]);
    let (v, reemplazo) = con_entrada(v, plan("transitorio", &[]));
    assert!(!reemplazo);
    assert_eq!(ids(&v), vec!["bode", "fase", "transitorio"]);
}

#[test]
fn sacar_del_plan() {
    let v = vec![plan("bode", &[]), plan("fase", &[])];
    let v = sin_entrada(v, "bode").unwrap();
    assert_eq!(ids(&v), vec!["fase"]);
    let e = sin_entrada(v, "bode").unwrap_err();
    assert_eq!(e, "'bode' no está en el plan (mirá `xtal plan list`)");
}

#[test]
fn las_respuestas_de_la_entrevista() {
    assert_eq!(cuantos_por_defecto(&vec![]), 2);
    assert_eq!(cuantos_por_defecto(&vec![plan("a", &[]), plan("b", &[]), plan("c", &[])]), 3);
    assert_eq!(valida_cuantos(0), Err("tiene que ser al menos uno"));
    assert!(valida_cuantos(30).is_ok());
    assert!(valida_cuantos(31).is_err());
    assert!(valida_titulo("???").is_err());
    assert!(valida_titulo("Bode de salida").is_ok());

    let primero = entrada_de_la_entrevista("Bode de salida".to_string(), 0, &vec![0, 2], &vec![]);
    assert_eq!(primero.id, "bode-de-salida");
    assert_eq!(primero.kind, PlotKind::Bode);
    assert_eq!(primero.sources, vec![MeasurementKind::Theoretical, MeasurementKind::Measured]);
    let nuevos = vec![primero];
    let segundo = entrada_de_la_entrevista("Bode de salida".to_string(), 3, &vec![1], &nuevos);
    assert_eq!(segundo.id, "bode-de-salida-2");
    assert_eq!(segundo.kind, PlotKind::Generic);
    assert_eq!(nombre_de_tipo(segundo.kind), "generic");
}

#[test]
fn la_entrevista_deja_el_esqueleto_del_informe() {
    let mut a = plan("bode", &[MeasurementKind::Theoretical]);
    a.title = Some("Respuesta en frecuencia".to_string());
    let b = plan("transitorio", &[]);
    let plan0 = vec![plan("bode", &[]), plan("viejo", &[])];
    let secciones = vec![seccion("Resultados", &["transitorio"], vec![])];
    let (p, s) = aplicar_entrevista(plan0, secciones, &vec![a, b]);
    assert_eq!(ids(&p), vec!["bode", "viejo", "transitorio"]);
    assert_eq!(p[0].sources, vec![MeasurementKind::Theoretical]);
    // El transitorio ya tenía su sección; el Bode recibe una con su figura.
    assert_eq!(s.len(), 2);
    assert_eq!(s[1].title, "Respuesta en frecuencia");
    assert_eq!(s[1].figures, vec!["bode"]);
}
