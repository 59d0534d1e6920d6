use xtal::commands::slugify;
use xtal::cli::{AppAbrirArgs, AppArgs, AppCmd, AppModoArgs, AppPanelArgs, AppVerArgs, ModoAppArg, PanelAppArg, VistaAppArg};
use xtal::compile::{extract_latex_errors, pdf_path, CompileError, Engine};
use xtal::mcp::{clasificar, no_soportado, resultado_tool, version_negociada, Metodo, Session, METHOD_NOT_FOUND};
use xtal::ordenes::{armar, lleva_frente, parsear, ruta_de};
use xtal::random::{default_seed, RandomShape, SweepScale, XorShift64};

#[test]
fn extracts_error_lines() {
    let log = "blah blah\n! Undefined control sequence.\nl.5 \\foo\n   bar\nmore noise\n";
    let out = extract_latex_errors(log);
    assert!(out.contains("Undefined control sequence"));
    assert_eq!(out, "! Undefined control sequence.\nl.5 \\foo\n   bar\nmore noise\n");
}

#[test]
fn sin_errores_reconocibles_quedan_las_ultimas_lineas() {
    let log: String = (1..=20).map(|i| format!("linea {i}\n")).collect();
    let out = extract_latex_errors(&log);
    assert!(out.starts_with("linea 6\n"));
    assert!(out.ends_with("linea 20"));
    assert_eq!(extract_latex_errors("x.tex:3: LaTeX Error: falta algo"), "x.tex:3: LaTeX Error: falta algo\n");
}

#[test]
fn el_pdf_sale_con_el_nombre_del_tex() {
    assert_eq!(pdf_path("informe/main.tex", "salida"), "salida/main.pdf");
    assert_eq!(pdf_path("tp.final.tex", "/tmp/out/"), "/tmp/out/tp.final.pdf");
    assert_eq!(pdf_path("/", "salida"), "salida/main.pdf");
    assert_eq!(Engine::Tectonic.binary(), "tectonic");
    assert_eq!(Engine::Pdflatex.binary(), "pdflatex");
    assert_eq!(
        CompileError::EngineNotFound("tectonic".into()).mensaje(),
        "no encontré el motor LaTeX 'tectonic' en el PATH. Instalá Tectonic o usá --pdflatex"
    );
}

#[test]
fn el_generador_es_deterministico_y_nunca_se_queda_en_cero() {
    let mut a = XorShift64::new(7);
    let mut b = XorShift64::new(7);
    for _ in 0..100 {
        assert_eq!(a.next_u64(), b.next_u64());
        assert_ne!(a.state, 0);
    }
    let g = XorShift64::new(0u64.wrapping_sub(0x9E3779B97F4A7C15));
    assert_eq!(g.state, 1);
    assert_eq!(default_seed(), 42);
    assert_eq!(RandomShape::default(), RandomShape::Noise);
    assert_eq!(SweepScale::default(), SweepScale::Linear);
}

#[test]
fn initialize_devuelve_la_version_que_pide_el_cliente() {
    assert_eq!(version_negociada(Some("2024-11-05")), "2024-11-05");
}

#[test]
fn initialize_cae_a_la_mas_nueva_si_no_conoce_la_version() {
    assert_eq!(version_negociada(Some("1999-01-01")), "2025-06-18");
    assert_eq!(version_negociada(None), "2025-06-18");
}

#[test]
fn las_notificaciones_no_llevan_respuesta_y_lo_desconocido_no_existe() {
    assert_eq!(clasificar(false, "notifications/initialized"), Metodo::Notificacion);
    assert_eq!(clasificar(true, "tools/list"), Metodo::ToolsList);
    assert_eq!(clasificar(true, "cualquier/cosa"), Metodo::Desconocido);
    let e = no_soportado("cualquier/cosa");
    assert_eq!(e.code, METHOD_NOT_FOUND);
    assert_eq!(e.message, "método no soportado: cualquier/cosa");
}

#[test]
fn el_project_del_argumento_le_gana_al_de_la_sesion() {
    let mut s = Session::new("/bin/xtal".into());
    assert_eq!(s.project_for(None), None);
    s.project = Some("/tp1".into());
    assert_eq!(s.project_for(None).as_deref(), Some("/tp1"));
    assert_eq!(s.project_for(Some("/tp2".into())).as_deref(), Some("/tp2"));
}

#[test]
fn un_error_del_comando_vuelve_como_mensaje() {
    let args = vec!["meas".to_string(), "list".to_string()];
    assert_eq!(resultado_tool(true, " {} \n", "", &args), Ok("{}".to_string()));
    assert_eq!(resultado_tool(true, "", " aviso ", &args), Ok("aviso".to_string()));
    assert_eq!(resultado_tool(false, "x", " no hay proyecto ", &args), Err("no hay proyecto".to_string()));
    assert_eq!(resultado_tool(false, "x", "", &args), Err("`xtal meas list` falló sin mensaje".to_string()));
}

#[test]
fn cada_orden_de_xtal_app_llega_a_la_app() {
    let casos: Vec<(Option<AppCmd>, &str)> = vec![
        (None, ""),
        (Some(AppCmd::Compilar), "compilar"),
        (Some(AppCmd::Modo(AppModoArgs { modo: ModoAppArg::Agente })), "modo/agente"),
        (Some(AppCmd::Ver(AppVerArgs { que: VistaAppArg::Errores })), "ver/errores"),
        (Some(AppCmd::Panel(AppPanelArgs { cual: PanelAppArg::Pdf, on: false, off: true })), "panel/pdf?ver=0"),
        (Some(AppCmd::Terminal), "terminal/nueva"),
    ];
    for (cmd, ruta) in casos {
        let (r, _) = ruta_de(&cmd, "").unwrap();
        assert_eq!(r, ruta);
    }
    let abrir = Some(AppCmd::Abrir(AppAbrirArgs { carpeta: None }));
    let (r, detalle) = ruta_de(&abrir, "/Users/manu/TP 3").unwrap();
    assert_eq!(r, "abrir?carpeta=/Users/manu/TP%203");
    assert_eq!(detalle, "abrir /Users/manu/TP 3");
    let o = parsear(&armar(&r, false)).unwrap();
    assert_eq!(o.carpeta.as_deref(), Some("/Users/manu/TP 3"));
    let ambos = Some(AppCmd::Panel(AppPanelArgs { cual: PanelAppArg::Informe, on: true, off: true }));
    assert_eq!(ruta_de(&ambos, "").unwrap_err(), "--on y --off no van juntos");
    let (_, d) = ruta_de(&Some(AppCmd::Panel(AppPanelArgs { cual: PanelAppArg::Archivos, on: false, off: false })), "").unwrap();
    assert_eq!(d, "panel archivos (alternar)");
    assert!(lleva_frente(&AppArgs { frente: false, command: None }));
    assert!(lleva_frente(&AppArgs { frente: false, command: Some(AppCmd::Frente) }));
    assert!(!lleva_frente(&AppArgs { frente: false, command: Some(AppCmd::Compilar) }));
    assert!(lleva_frente(&AppArgs { frente: true, command: Some(AppCmd::Compilar) }));
}

#[test]
fn slugify_basic() {
    assert_eq!(slugify("TP4 - Filtros LLC"), "tp4-filtros-llc");
    assert_eq!(slugify("  Hola  Mundo "), "hola-mundo");
    assert_eq!(slugify("Eléctrica"), "eléctrica");
}

#[test]
fn un_titulo_sin_letras_ni_numeros_no_da_un_id_vacio() {
    assert!(slugify("???").is_empty());
    assert!(slugify("   ").is_empty());
    assert!(!slugify("Bode de salida").is_empty());
}
