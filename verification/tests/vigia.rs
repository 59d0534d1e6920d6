use xtal::vigia::interesa;

#[test]
fn los_intermedios_de_latex_no_avisan() {
    for f in ["main.aux", "main.log", "main.out", "main.fdb_latexmk"] {
        assert!(!interesa(f), "{f} no debería avisar");
    }
}

#[test]
fn lo_que_uno_escribe_si_avisa() {
    for f in ["secciones/01.tex", "xtal.toml", "fuentes/datos.csv", "LICENSE"] {
        assert!(interesa(f), "{f} debería avisar");
    }
}

#[test]
fn git_no_se_dispara_a_si_mismo() {
    assert!(!interesa("/proyecto/.git/index.lock"));
    assert!(!interesa("C:\\proyecto\\.git\\ORIG_HEAD"));
}

#[test]
fn el_temporal_del_guardado_no_avisa() {
    assert!(!interesa("secciones/.01.tex.xtal-tmp"));
}

#[test]
fn la_extension_se_mira_sin_distinguir_mayusculas() {
    assert!(!interesa("salida/MAIN.AUX"));
    assert!(!interesa("web/node_modules/x/index.js"));
    assert!(interesa("salida/main.pdf"));
    assert!(interesa("/"));
    assert!(interesa("informe.final/"));
}
