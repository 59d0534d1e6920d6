use xtal::proceso::{carpetas_extra, de_mas_nuevo_a_mas_viejo, path_ampliado, Entorno, Plataforma};

fn entorno(path: &str, home: Option<&str>) -> Entorno {
    Entorno {
        path: path.to_string(),
        local_app_data: None,
        user_profile: None,
        program_data: None,
        program_files: None,
        home: home.map(|h| h.to_string()),
    }
}

#[test]
fn el_path_no_pierde_lo_que_ya_habia() {
    let actual = "/usr/bin:/bin";
    for so in [Plataforma::MacOs, Plataforma::Linux] {
        let ampliado = path_ampliado(so, &entorno(actual, Some("/home/ana")), vec![]).expect("siempre hay algo que agregar");
        assert!(ampliado.starts_with(actual));
        assert!(ampliado.len() > actual.len());
    }
    // En Windows, sin ninguna de sus variables, no hay nada que agregar.
    assert_eq!(path_ampliado(Plataforma::Windows, &entorno("C:\\x", None), vec![]), None);
}

#[test]
fn esta_donde_el_instalador_deja_las_cosas() {
    for so in [Plataforma::MacOs, Plataforma::Linux, Plataforma::Otra] {
        let p = path_ampliado(so, &entorno("/bin", Some("/home/ana")), vec![]).unwrap();
        assert!(p.contains("/home/ana/.local/bin"));
        assert!(p.contains("/home/ana/.cargo/bin"));
    }
}

#[test]
fn en_linux_estan_los_prefijos_que_no_estan_en_el_path() {
    let p = path_ampliado(Plataforma::Linux, &entorno("/bin", None), vec![]).unwrap();
    for esperado in ["/home/linuxbrew/.linuxbrew/bin", "/snap/bin", "/var/lib/flatpak/exports/bin"] {
        assert!(p.contains(esperado), "falta {esperado} en el PATH ampliado");
    }
}

#[test]
fn en_windows_se_separa_con_punto_y_coma() {
    let mut e = entorno("C:\\Windows", None);
    e.local_app_data = Some("C:\\Users\\ana\\AppData\\Local".into());
    e.program_files = Some("C:\\Program Files".into());
    let p = path_ampliado(Plataforma::Windows, &e, vec!["/no/se/usa".into()]).unwrap();
    assert_eq!(
        p,
        "C:\\Windows;C:\\Users\\ana\\AppData\\Local\\Programs\\xtal;C:\\Users\\ana\\AppData\\Local\\Programs\\MiKTeX\\miktex\\bin\\x64;C:\\Users\\ana\\AppData\\Local\\Microsoft\\WindowsApps;C:\\Program Files\\MiKTeX\\miktex\\bin\\x64;C:\\Program Files\\Git\\cmd"
    );
}

#[test]
fn el_texlive_mas_nuevo_va_primero() {
    let anios = de_mas_nuevo_a_mas_viejo(vec!["2023".into(), "2025".into(), "2024".into()]);
    assert_eq!(anios, vec!["2025".to_string(), "2024".to_string(), "2023".to_string()]);
    let v = carpetas_extra(
        Plataforma::Linux,
        &entorno("", Some("/h")),
        vec!["/usr/local/texlive/2025/bin/x86_64-linux".into()],
    );
    assert_eq!(
        v,
        vec![
            "/usr/local/bin",
            "/home/linuxbrew/.linuxbrew/bin",
            "/snap/bin",
            "/var/lib/flatpak/exports/bin",
            "/h/.linuxbrew/bin",
            "/h/.local/share/flatpak/exports/bin",
            "/usr/local/texlive/2025/bin/x86_64-linux",
            "/h/.local/bin",
            "/h/.cargo/bin",
        ]
    );
}
