use xtal::inventory::{
    carpetas_del_proyecto, comando, escanear, extension, nombres_citados, omitir, orden, Archivo,
    Clase,
};

fn hallado(path: &str) -> Archivo {
    let nombre = path.rsplit('/').next().unwrap();
    Archivo {
        path: path.to_string(),
        clase: Clase::de_extension(&extension(nombre)),
        usado: false,
        deberia_ir_en: None,
        comando: None,
    }
}

#[test]
fn clasifica_por_extension_y_sabe_donde_va_cada_cosa() {
    assert_eq!(Clase::de_extension("csv"), Clase::Datos);
    assert_eq!(Clase::de_extension("raw"), Clase::Rawfile);
    assert_eq!(Clase::de_extension("asc"), Clase::Esquematico);
    assert_eq!(Clase::de_extension("JPG".to_lowercase().as_str()), Clase::Imagen);
    assert_eq!(Clase::Datos.carpeta(), Some("fuentes"));
    assert_eq!(Clase::Imagen.carpeta(), Some("imagenes"));
    assert_eq!(Clase::Latex.carpeta(), None);
}

#[test]
fn un_csv_en_la_raiz_esta_fuera_de_lugar_y_sin_usar() {
    let citados = nombres_citados("sections = []\n");
    let inv = escanear(vec![hallado("datos.csv")], &citados, &vec![]);
    let a = inv.archivos.iter().find(|a| a.path == "datos.csv").unwrap();
    assert_eq!(a.deberia_ir_en, Some("fuentes"));
    assert!(!a.usado);
    assert!(a.comando.as_ref().unwrap().contains("xtal meas import"));
    assert_eq!(inv.sin_usar().len(), 1);
}

#[test]
fn un_csv_ya_importado_no_aparece_como_pendiente() {
    let texto = "sections = []\n\nid = \"medida\"\n\n[csv]\nfile = \"fuentes/bode.csv\"\n\n";
    let citados = nombres_citados(texto);
    let inv = escanear(vec![hallado("fuentes/bode.csv")], &citados, &vec![]);
    let a = inv.archivos.iter().find(|a| a.path == "fuentes/bode.csv").unwrap();
    assert!(a.usado, "el CSV está referenciado por una medición");
    assert!(a.deberia_ir_en.is_none(), "está en su carpeta");
    assert_eq!(inv.sin_usar().len(), 0);
}

#[test]
fn no_mira_adentro_de_lo_que_genera_xtal() {
    assert!(omitir("salida", true, true));
    assert!(omitir("mediciones", true, false));
    assert!(!omitir("fuentes", true, true));
    assert!(omitir(".git", true, true));
    assert!(omitir(".DS_Store", false, false));
    assert!(omitir("xtal.toml", false, true));
    assert!(!omitir("xtal.toml", false, false));
    assert!(!omitir("salida", false, true));
}

#[test]
fn una_imagen_citada_en_el_informe_cuenta_como_usada() {
    let citados = nombres_citados("sections = [{ title = \"X\", body = \"\\\\includegraphics{banco.jpg}\" }]\n\n");
    let inv = escanear(vec![hallado("imagenes/mesa.jpg"), hallado("imagenes/banco.jpg")], &citados, &vec![]);
    let usadas: Vec<_> = inv.archivos.iter().filter(|a| a.usado).collect();
    assert_eq!(usadas.len(), 1);
    assert_eq!(usadas[0].path, "imagenes/banco.jpg");
    // Sorted by path.
    assert_eq!(inv.archivos[0].path, "imagenes/banco.jpg");
    assert_eq!(inv.fuera_de_lugar().len(), 0);
}

#[test]
fn los_nombres_citados_salen_sin_puntos_de_mas() {
    let n = nombres_citados("ver ..figura.png. y (tabla_1.csv), no esto; ni...");
    assert_eq!(n, vec!["figura.png", "tabla_1.csv", "ni"]);
}

#[test]
fn un_netlist_copiado_a_esquematicos_cuenta_como_usado() {
    let inv = escanear(vec![hallado("fuentes/filtro.cir"), hallado("fuentes/otro.cir")], &vec![], &vec!["filtro.cir".to_string()]);
    assert!(inv.archivos[0].usado);
    assert!(!inv.archivos[1].usado);
    assert_eq!(inv.archivos[0].comando.as_deref(), Some("xtal circuit import fuentes/filtro.cir --as filtro"));
}

#[test]
fn cada_clase_tiene_su_comando() {
    assert_eq!(
        comando(Clase::Datos, "fuentes/bode final-2.csv").as_deref(),
        Some("xtal meas import fuentes/bode final-2.csv --id bode_final_2 --kind measured  (antes: --inspect para ver las columnas)")
    );
    assert_eq!(comando(Clase::Rawfile, "sim.raw").as_deref(), Some("xtal raw import sim.raw --as sim  (antes: --inspect)"));
    assert_eq!(
        comando(Clase::Imagen, "imagenes/banco.jpg").as_deref(),
        Some("citala en el cuerpo de una sección: \\includegraphics[width=0.8\\linewidth]{banco.jpg}")
    );
    assert_eq!(comando(Clase::Latex, "main.tex").as_deref(), Some("xtal compile main.tex"));
    assert_eq!(comando(Clase::Otro, "notas.txt"), None);
    assert_eq!(comando(Clase::Bibliografia, "refs.bib"), None);
    // Without an extension the whole path is the id.
    assert_eq!(comando(Clase::Netlist, "fuentes/red").as_deref(), Some("xtal circuit import fuentes/red --as fuentes/red"));
}

#[test]
fn el_orden_de_la_carpeta() {
    assert_eq!(
        carpetas_del_proyecto(),
        vec!["fuentes", "imagenes", "esquematicos", "mediciones", "graficos", "salida"]
    );
    let o = orden();
    assert!(!o[0].generada && !o[1].generada);
    assert!(o[2..].iter().all(|c| c.generada));
    assert_eq!(extension("Foto.JPG"), "jpg");
    assert_eq!(extension(".bashrc"), "");
    assert_eq!(extension("sin_punto"), "");
    assert_eq!(Clase::Esquematico.nombre(), "esquemático");
    assert_eq!(Clase::Esquematico.clave(), "schematic");
}

#[test]
fn los_archivos_se_agrupan_por_carpeta() {
    let inv = escanear(
        vec![hallado("fuentes/b.csv"), hallado("notas.txt"), hallado("fuentes/a.csv"), hallado("imagenes/x.png")],
        &vec![],
        &vec![],
    );
    let grupos = inv.por_carpeta();
    let claves: Vec<&str> = grupos.iter().map(|(c, _)| c.as_str()).collect();
    assert_eq!(claves, vec![".", "fuentes", "imagenes"]);
    let fuentes: Vec<&str> = grupos[1].1.iter().map(|a| a.path.as_str()).collect();
    assert_eq!(fuentes, vec!["fuentes/a.csv", "fuentes/b.csv"]);
    assert_eq!(grupos[0].1.len(), 1);
}
