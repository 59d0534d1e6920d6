use xtal::arbol::primera_seccion;
use xtal::proceso::{Entorno, Plataforma};
use xtal::xtal_cli::{candidatos, ruta_binario};

fn vacio() -> Entorno {
    Entorno {
        path: String::new(),
        local_app_data: None,
        user_profile: None,
        program_data: None,
        program_files: None,
        home: None,
    }
}

fn con_home(home: &str) -> Entorno {
    Entorno { home: Some(home.to_string()), ..vacio() }
}

#[test]
fn en_linux_lo_del_usuario_va_antes_que_lo_del_sistema() {
    let c = candidatos(Plataforma::Linux, &con_home("/home/ana"));
    assert_eq!(
        c,
        vec![
            "/home/ana/.local/bin/xtal",
            "/home/ana/.cargo/bin/xtal",
            "/home/ana/.linuxbrew/bin/xtal",
            "/opt/homebrew/bin/xtal",
            "/usr/local/bin/xtal",
            "/home/linuxbrew/.linuxbrew/bin/xtal",
            "/snap/bin/xtal",
            "/usr/bin/xtal",
        ]
    );
    // Sin home quedan las del sistema; en macOS no hay las de Linux.
    assert_eq!(
        candidatos(Plataforma::MacOs, &vacio()),
        vec!["/opt/homebrew/bin/xtal", "/usr/local/bin/xtal"]
    );
    // Un home que ya termina en `/` no suma otra barra.
    assert_eq!(candidatos(Plataforma::MacOs, &con_home("/Users/ana/"))[0], "/Users/ana/.local/bin/xtal");
}

#[test]
fn en_windows_se_arma_con_barras_invertidas() {
    let e = Entorno {
        local_app_data: Some("C:\\Users\\ana\\AppData\\Local".to_string()),
        user_profile: Some("C:\\Users\\ana".to_string()),
        program_files: Some("C:\\Program Files".to_string()),
        ..vacio()
    };
    assert_eq!(
        candidatos(Plataforma::Windows, &e),
        vec![
            "C:\\Users\\ana\\AppData\\Local\\Programs\\xtal\\xtal.exe",
            "C:\\Users\\ana\\scoop\\shims\\xtal.exe",
            "C:\\Users\\ana\\.cargo\\bin\\xtal.exe",
            "C:\\Program Files\\xtal\\xtal.exe",
        ]
    );
}

#[test]
fn xtal_bin_manda_sobre_todo() {
    let todo = |_: &str| true;
    let nunca = |_: &str| false;
    let e = con_home("/home/ana");
    let r = ruta_binario(Plataforma::Linux, &e, Some("/tmp/xtal".to_string()), None, &todo, &nunca);
    assert_eq!(r.as_deref(), Some("/tmp/xtal"));
    // Sin XTAL_BIN, el del repositorio de desarrollo.
    let r = ruta_binario(Plataforma::Linux, &e, None, None, &todo, &nunca);
    assert_eq!(r.as_deref(), Some("/home/ana/dev/personal/xtal/target/debug/xtal"));
}

#[test]
fn el_instalado_le_gana_al_del_paquete() {
    let e = con_home("/home/ana");
    let instalado = |p: &str| p == "/usr/bin/xtal" || p == "/opt/Xtal/resources/xtal";
    let nunca = |_: &str| false;
    let r = ruta_binario(Plataforma::Linux, &e, None, Some("/opt/Xtal".to_string()), &instalado, &nunca);
    assert_eq!(r.as_deref(), Some("/usr/bin/xtal"));
    // En Linux el del paquete está en `../lib/<producto>/resources`.
    let empaquetado = |p: &str| p == "/usr/bin/../lib/xtal/resources/xtal";
    let r = ruta_binario(Plataforma::Linux, &e, None, Some("/usr/bin".to_string()), &empaquetado, &nunca);
    assert_eq!(r.as_deref(), Some("/usr/bin/../lib/xtal/resources/xtal"));
    // En macOS esa ruta no se prueba.
    let r = ruta_binario(Plataforma::MacOs, &e, None, Some("/usr/bin".to_string()), &empaquetado, &nunca);
    assert_eq!(r, None);
}

#[test]
fn sin_ninguno_queda_el_del_path_si_responde() {
    let nunca = |_: &str| false;
    let responde = |b: &str| b == "xtal.exe";
    let r = ruta_binario(Plataforma::Windows, &vacio(), None, None, &nunca, &responde);
    assert_eq!(r.as_deref(), Some("xtal.exe"));
    let r = ruta_binario(Plataforma::Linux, &vacio(), None, None, &nunca, &responde);
    assert_eq!(r, None);
}

#[test]
fn la_primera_seccion_es_la_primera_en_orden() {
    let nombres: Vec<String> = ["02-circuito.tex", "01-objetivo.TEX", "notas.txt", "00.tex.bak", ".tex"]
        .iter()
        .map(|s| s.to_string())
        .collect();
    assert_eq!(
        primera_seccion(Plataforma::Linux, "/home/ana/tp", &nombres).as_deref(),
        Some("/home/ana/tp/secciones/01-objetivo.TEX")
    );
    assert_eq!(
        primera_seccion(Plataforma::Windows, "C:\\tp", &nombres).as_deref(),
        Some("C:\\tp\\secciones\\01-objetivo.TEX")
    );
    let sin_tex: Vec<String> = vec!["notas.txt".to_string(), ".tex".to_string()];
    assert_eq!(primera_seccion(Plataforma::Linux, "/tp", &sin_tex), None);
}
