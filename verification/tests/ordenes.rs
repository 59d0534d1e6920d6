use xtal::cli::{AppAbrirArgs, AppCmd, AppPanelArgs, PanelAppArg};
use xtal::ordenes::{armar, codificar, desescapar, parsear, ruta_de};

#[test]
fn una_orden_con_valor() {
    let o = parsear("xtal://modo/agente").unwrap();
    assert_eq!(o.que, "modo");
    assert_eq!(o.valor.as_deref(), Some("agente"));
}

#[test]
fn una_ruta_de_windows_llega_entera() {
    let o = parsear("xtal://abrir?carpeta=C%3A%5CUsers%5Cmanu%5CTP%203").unwrap();
    assert_eq!(o.carpeta.as_deref(), Some(r"C:\Users\manu\TP 3"));
}

#[test]
fn sin_ver_el_panel_es_un_interruptor() {
    assert_eq!(parsear("xtal://panel/pdf").unwrap().ver, None);
    assert_eq!(parsear("xtal://panel/pdf?ver=0").unwrap().ver, Some(false));
    assert_eq!(parsear("xtal://panel/pdf?ver=1").unwrap().ver, Some(true));
}

#[test]
fn la_url_pelada_trae_al_frente() {
    assert_eq!(parsear("xtal://").unwrap().que, "frente");
}

#[test]
fn lo_que_no_es_del_esquema_no_se_atiende() {
    assert!(parsear("https://example.com").is_none());
}

#[test]
fn la_url_lleva_el_foco_solo_si_se_pide() {
    assert_eq!(armar("compilar", false), "xtal://compilar");
    assert_eq!(armar("compilar", true), "xtal://compilar?frente=1");
    assert_eq!(armar("panel/pdf?ver=1", true), "xtal://panel/pdf?ver=1&frente=1");
    assert_eq!(armar("", true), "xtal://?frente=1");
}

#[test]
fn una_ruta_con_espacios_y_acentos_se_codifica() {
    assert_eq!(codificar("/Users/manu/TP 3"), "/Users/manu/TP%203");
    assert_eq!(codificar("/tmp/informe ñ"), "/tmp/informe%20%C3%B1");
}

#[test]
fn lo_codificado_se_lee_entero() {
    for s in ["C:\\Users\\manu\\TP 3", "/tmp/informe ñ", "a&b=c?d%e+f", "", "日本"] {
        assert_eq!(desescapar(&codificar(s)), s);
        let c = codificar(s);
        assert!(c.is_ascii() && !c.contains(' '));
    }
}

#[test]
fn un_escape_incompleto_o_un_mas_quedan_como_estan() {
    assert_eq!(desescapar("100%"), "100%");
    assert_eq!(desescapar("%zz%4"), "%zz%4");
    assert_eq!(desescapar("a+b"), "a+b");
    // `u8::from_str_radix` takes a leading `+`.
    assert_eq!(desescapar("%+9"), "\t");
    assert_eq!(desescapar("%e2%82%ac"), "€");
}

#[test]
fn el_ultimo_parametro_repetido_gana_y_los_segmentos_vacios_no_cuentan() {
    let o = parsear("xtal:////ver//pdf/extra?carpeta=a&&carpeta=b&ver").unwrap();
    assert_eq!(o.que, "ver");
    assert_eq!(o.valor.as_deref(), Some("pdf"));
    assert_eq!(o.carpeta.as_deref(), Some("b"));
    assert_eq!(o.ver, Some(false));
}

#[test]
fn la_url_pelada_ignora_los_parametros() {
    let o = parsear("xtal://?carpeta=x&frente=1").unwrap();
    assert_eq!(o.que, "frente");
    assert_eq!(o.carpeta, None);
    assert_eq!(o.valor, None);
}

#[test]
fn abrir_con_foco_llega_con_la_carpeta() {
    let ruta = "/Users/manu/TP 3 ñ";
    let url = armar(&format!("abrir?carpeta={}", codificar(ruta)), true);
    let o = parsear(&url).unwrap();
    assert_eq!(o.que, "abrir");
    assert_eq!(o.carpeta.as_deref(), Some(ruta));
}

#[test]
fn lo_que_manda_xtal_app_la_app_lo_entiende() {
    let panel = Some(AppCmd::Panel(AppPanelArgs { cual: PanelAppArg::Terminal, on: true, off: false }));
    let (r, _) = ruta_de(&panel, "").unwrap();
    for frente in [false, true] {
        let o = parsear(&armar(&r, frente)).unwrap();
        assert_eq!(o.que, "panel");
        assert_eq!(o.valor.as_deref(), Some("terminal"));
        assert_eq!(o.ver, Some(true));
        assert_eq!(o.carpeta, None);
    }
    let (r, _) = ruta_de(&None, "").unwrap();
    assert_eq!(parsear(&armar(&r, true)).unwrap().que, "frente");
    let abrir = Some(AppCmd::Abrir(AppAbrirArgs { carpeta: None }));
    let carpeta = r"C:\Users\manu\TP 3 & otros?=";
    let (r, _) = ruta_de(&abrir, carpeta).unwrap();
    let o = parsear(&armar(&r, true)).unwrap();
    assert_eq!(o.que, "abrir");
    assert_eq!(o.carpeta.as_deref(), Some(carpeta));
    assert_eq!(o.ver, None);
}
