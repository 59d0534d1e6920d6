use xtal::update::como_sacar_el_binario;
use xtal::update::{
    checksums_url, detect_install_method, is_newer, macos_app_url, notes_url, parse_version, tag_de,
    Canal, InstallMethod, Lanzamiento, Respuesta,
};

#[test]
fn parsea_versiones_normales_y_con_sufijo() {
    assert_eq!(parse_version("1.2.3"), Some((1, 2, 3)));
    assert_eq!(parse_version("0.1.0"), Some((0, 1, 0)));
    assert_eq!(parse_version("2.0.0-rc1"), Some((2, 0, 0)));
    assert_eq!(parse_version("no-es-una-version"), None);
}

#[test]
fn compara_bien_las_versiones() {
    assert!(is_newer("0.2.0", "0.1.0"));
    assert!(is_newer("1.0.0", "0.9.9"));
    assert!(is_newer("0.1.1", "0.1.0"));
    assert!(!is_newer("0.1.0", "0.1.0"));
    assert!(!is_newer("0.1.0", "0.2.0"), "no debe sugerir bajar de version");
}

#[test]
fn ante_la_duda_no_sugiere_actualizar() {
    assert!(!is_newer("ultima", "0.1.0"));
    assert!(!is_newer("0.2.0", "raro"));
}

#[test]
fn el_canal_se_escribe_en_castellano_y_en_ingles() {
    assert_eq!(Canal::parse("estable").unwrap(), Canal::Estable);
    assert_eq!(Canal::parse("Stable").unwrap(), Canal::Estable);
    assert_eq!(Canal::parse("beta").unwrap(), Canal::Beta);
    assert!(Canal::parse("nightly").is_err());
}

#[test]
fn el_canal_estable_no_mira_las_prereleases() {
    assert!(Canal::Estable.url().ends_with("/releases/latest"));
    assert!(Canal::Beta.url().contains("/releases?"));
}

#[test]
fn las_urls_de_los_assets_son_las_que_publica_el_release() {
    assert_eq!(
        macos_app_url("0.6.0"),
        "https://github.com/mcorcos/xtal/releases/download/v0.6.0/Xtal-0.6.0-macos.zip"
    );
    assert_eq!(
        checksums_url("0.6.0"),
        "https://github.com/mcorcos/xtal/releases/download/v0.6.0/SHA256SUMS"
    );
}

#[test]
fn lee_el_tag_de_un_objeto_y_de_una_lista() {
    let uno = Respuesta::Objeto(Some("v0.5.0".to_string()));
    assert_eq!(tag_de(&uno).as_deref(), Some("0.5.0"));
    let varios = Respuesta::Lista(vec![
        Lanzamiento { tag: Some("v0.6.0-rc1".to_string()), borrador: Some(false) },
        Lanzamiento { tag: Some("v0.5.0".to_string()), borrador: Some(false) },
    ]);
    assert_eq!(tag_de(&varios).as_deref(), Some("0.6.0-rc1"));
}

#[test]
fn un_borrador_no_se_ofrece() {
    let varios = Respuesta::Lista(vec![
        Lanzamiento { tag: Some("v0.7.0".to_string()), borrador: Some(true) },
        Lanzamiento { tag: Some("v0.6.0".to_string()), borrador: Some(false) },
    ]);
    assert_eq!(tag_de(&varios).as_deref(), Some("0.6.0"));
}

#[test]
fn sin_tag_no_hay_version() {
    assert_eq!(tag_de(&Respuesta::Objeto(None)), None);
    assert_eq!(tag_de(&Respuesta::Otra), None);
    assert_eq!(tag_de(&Respuesta::Lista(vec![])), None);
    // Without `draft` a release counts as published; its missing tag ends the search.
    let l = Respuesta::Lista(vec![
        Lanzamiento { tag: None, borrador: None },
        Lanzamiento { tag: Some("v1.0.0".to_string()), borrador: Some(false) },
    ]);
    assert_eq!(tag_de(&l), None);
}

#[test]
fn las_versiones_cortas_completan_con_cero() {
    assert_eq!(parse_version("3"), Some((3, 0, 0)));
    assert_eq!(parse_version("1.4+build.7"), Some((1, 4, 0)));
    assert_eq!(parse_version("1.2.3.9"), Some((1, 2, 3)));
    assert_eq!(parse_version("1..2"), None);
    assert_eq!(parse_version("4294967296.0.0"), None);
    assert!(is_newer("1.0.0-rc1", "0.9"));
    assert!(!is_newer("1.0.0-rc1", "1.0.0"));
}

#[test]
fn el_canal_tiene_su_clave_y_un_error_que_lo_nombra() {
    assert_eq!(Canal::parse("  PRUEBA ").unwrap(), Canal::Beta);
    assert_eq!(Canal::Estable.clave(), "estable");
    assert_eq!(Canal::Beta.clave(), "beta");
    assert_eq!(
        Canal::parse(" Nightly").unwrap_err(),
        "canal desconocido: 'nightly'. Los que hay son `estable` y `beta`."
    );
    assert_eq!(notes_url("0.6.0"), "https://github.com/mcorcos/xtal/releases/tag/v0.6.0");
}

#[test]
fn brew_se_actualiza_con_brew_y_el_script_con_el_instalador() {
    assert_eq!(detect_install_method("/opt/homebrew/Cellar/xtal/0.6.0/bin/xtal"), InstallMethod::Homebrew);
    assert_eq!(detect_install_method("/home/linuxbrew/.linuxbrew/bin/xtal"), InstallMethod::Homebrew);
    assert_eq!(detect_install_method("/home/manu/.local/bin/xtal"), InstallMethod::Script);
    let (cmd, args) = InstallMethod::Homebrew.upgrade_command(false);
    assert_eq!(cmd, "brew");
    assert_eq!(args, vec!["upgrade", "mcorcos/xtal/xtal"]);
    let (cmd, args) = InstallMethod::Script.upgrade_command(false);
    assert_eq!(cmd, "sh");
    assert_eq!(args[1], "curl -fsSL https://raw.githubusercontent.com/mcorcos/xtal/main/install.sh | sh");
    let (cmd, args) = InstallMethod::Script.upgrade_command(true);
    assert_eq!(cmd, "powershell");
    assert_eq!(args.len(), 5);
    assert_eq!(InstallMethod::Script.clave(), "script");
}

#[test]
fn el_binario_lo_saca_quien_lo_instalo() {
    assert_eq!(como_sacar_el_binario(Some("/opt/homebrew/Cellar/xtal/0.4.0/bin/xtal")), "brew uninstall xtal");
    assert_eq!(como_sacar_el_binario(Some("/home/ana/.local/bin/xtal")), "rm /home/ana/.local/bin/xtal");
    assert_eq!(como_sacar_el_binario(None), "rm ~/.local/bin/xtal");
}
