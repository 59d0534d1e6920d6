use xtal::arbol::{es_generado, ordenar_nodos, relativa, se_muestra, Nodo};
use xtal::modelo::{carpeta, esta_completo, estado, explicar, ruta, PESO};
use xtal::proceso::Plataforma;
use xtal::secciones::{aplanar, Section};
use xtal::xtal_cli::{como_instalar, error_de, Salida};

fn hoja(nombre: &str, carpeta: bool) -> Nodo {
    Nodo {
        ruta: format!("/p/{nombre}"),
        nombre: nombre.to_string(),
        relativa: nombre.to_string(),
        es_carpeta: carpeta,
        hijos: vec![],
        es_generado: false,
    }
}

#[test]
fn la_ruta_relativa_va_siempre_con_barras() {
    assert_eq!(relativa("/p/informe/secciones/01.tex", "/p/informe"), "secciones/01.tex");
    assert_eq!(relativa("/p/informe//salida/./main.pdf", "/p/informe/"), "salida/main.pdf");
    assert_eq!(relativa("otra/cosa.txt", "/p/informe"), "otra/cosa.txt");
    assert!(es_generado("salida/main.tex"));
    assert!(!es_generado("secciones/salida/x.tex"));
    assert!(!se_muestra(".git"));
    assert!(!se_muestra("xtal.toml"));
    assert!(se_muestra("main.tex"));
}

#[test]
fn carpetas_primero_y_sin_mirar_mayusculas() {
    let r = ordenar_nodos(vec![hoja("Zeta.tex", false), hoja("salida", true), hoja("alfa.csv", false), hoja("Fuentes", true)]);
    let nombres: Vec<&str> = r.iter().map(|n| n.nombre.as_str()).collect();
    assert_eq!(nombres, vec!["Fuentes", "salida", "alfa.csv", "Zeta.tex"]);
}

#[test]
fn el_arbol_se_aplana_con_su_nivel() {
    let c = |t: &str, b: &str, f: Vec<&str>, s: Vec<Section>| Section {
        title: t.into(),
        body: b.into(),
        body_file: None,
        figures: f.into_iter().map(String::from).collect(),
        subsections: s,
    };
    let crudas = vec![
        c("Objetivo", "a", vec![], vec![]),
        c("Circuito", "b", vec!["bode"], vec![c("Netlist", "c", vec![], vec![])]),
    ];
    let secs = aplanar(crudas, 0);
    assert_eq!(secs.len(), 3);
    assert_eq!(secs[1].titulo, "Circuito");
    assert_eq!(secs[2].titulo, "Netlist");
    assert_eq!(secs[2].nivel, 1);
    assert_eq!(secs[1].figuras, vec!["bode"]);
}

#[test]
fn sin_subsections_en_el_json_no_explota() {
    let secs = aplanar(
        vec![Section { title: "Sola".into(), body: "".into(), body_file: None, figures: vec![], subsections: vec![] }],
        0,
    );
    assert_eq!(secs.len(), 1);
}

#[test]
fn la_salida_muestra_el_error_si_fallo() {
    let s = Salida::nueva(1, " salida \n".into(), "  error!\n".into());
    assert!(!s.ok);
    assert_eq!(s.texto, "error!");
    let s = Salida::nueva(2, " lo de latex \n".into(), "   \n".into());
    assert_eq!(s.texto, "lo de latex");
    assert_eq!(error_de(&s).as_deref(), Some("lo de latex"));
    let s = Salida::nueva(0, "{}".into(), "aviso".into());
    assert!(s.ok);
    assert_eq!(s.texto, "{}");
    assert_eq!(error_de(&s), None);
    let s = Salida::nueva(3, "".into(), "".into());
    assert_eq!(error_de(&s).as_deref(), Some("el comando falló sin decir nada"));
    assert!(como_instalar(true).contains("PowerShell"));
    assert!(como_instalar(false).contains("install.sh | sh"));
}

#[test]
fn sin_archivo_no_esta_completo() {
    assert!(!esta_completo(None));
    assert!(!esta_completo(Some(300_000_000)));
    assert!(esta_completo(Some(PESO)));
    assert_eq!(carpeta(Plataforma::Linux, "/home/m/.local"), "/home/m/.local/xtal/modelos");
    assert!(ruta(Plataforma::Linux, "/tmp").ends_with(".gguf"));
    assert_eq!(
        ruta(Plataforma::Windows, "C:\\Users\\m\\AppData\\Local"),
        "C:\\Users\\m\\AppData\\Local\\xtal\\modelos\\Qwen2.5-Coder-1.5B.Q4_K_M.gguf"
    );
    let e = estado("/x.gguf".into(), Some(10));
    assert_eq!(e.ocupado, 10);
    assert!(!e.completo);
    assert_eq!(explicar("DNS error"), "No hay internet. Probá de nuevo cuando vuelva.");
    assert_eq!(explicar("operation timed out"), "La conexión tardó demasiado. Probá de nuevo.");
    assert_eq!(explicar("404"), "No pude bajar el modelo: 404");
}
