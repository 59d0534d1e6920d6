use xtal::rutas::{config_dir_desde, dentro_de};

#[test]
fn la_carpeta_de_config_cuelga_del_home() {
    let d = config_dir_desde(Some(("/home/ana".to_string(), "/home/ana/.config".to_string())));
    assert_eq!(d, Some("/home/ana/.config/xtal".to_string()));
}

#[test]
fn sin_home_no_hay_carpeta_de_config() {
    assert_eq!(config_dir_desde(None), None);
}

#[test]
fn un_archivo_dentro_de_la_carpeta() {
    let f = dentro_de(Some("/home/ana/.config/xtal".to_string()), "themes");
    assert_eq!(f, Some("/home/ana/.config/xtal/themes".to_string()));
    assert_eq!(dentro_de(None, "agents.toml"), None);
}
