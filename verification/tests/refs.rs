use xtal::refs::{extraer, filtrar, recolectar};

#[test]
fn una_figura_se_lleva_su_epigrafe() {
    let t = r"
\begin{figure}[htbp]
  \centering
  \includegraphics{bode.pdf}
  \caption{Respuesta en frecuencia del filtro}
  \label{fig:bode}
\end{figure}
";
    let r = extraer("secciones/05.tex", t);
    assert_eq!(r.len(), 1);
    assert_eq!(r[0].id, "fig:bode");
    assert_eq!(r[0].tipo, "figura");
    assert_eq!(r[0].texto, "Respuesta en frecuencia del filtro");
}

#[test]
fn el_epigrafe_sale_limpio_de_comandos() {
    let t = r"\begin{table}\caption{La \textbf{ganancia} en \si{\decibel}}\label{tab:g}\end{table}";
    let r = extraer("a.tex", t);
    assert_eq!(r[0].tipo, "tabla");
    assert_eq!(r[0].texto, "La ganancia en dB");
}

#[test]
fn un_comando_que_envuelve_no_mete_su_ejemplo() {
    let t = r"\begin{figure}\caption{Medido en \si{\ohm}}\label{fig:o}\end{figure}";
    assert_eq!(extraer("a.tex", t)[0].texto, "Medido en Ω");
}

#[test]
fn las_tildes_sobreviven() {
    let t = "\\begin{table}\\caption{Parámetros del filtro}\\label{tab:p}\\end{table}";
    assert_eq!(extraer("a.tex", t)[0].texto, "Parámetros del filtro");
}

#[test]
fn una_seccion_se_lleva_su_titulo() {
    let t = "\\section{El modelo teórico}\n\\label{sec:modelo}\n";
    let r = extraer("a.tex", t);
    assert_eq!(r[0].tipo, "seccion");
    assert_eq!(r[0].texto, "El modelo teórico");
}

#[test]
fn un_caption_no_se_le_pega_a_la_etiqueta_de_la_figura_siguiente() {
    let t = r"
\begin{figure}\caption{La primera}\label{fig:a}\end{figure}
\label{suelta}
";
    let r = extraer("a.tex", t);
    assert_eq!(r.len(), 2);
    assert_eq!(r[1].id, "suelta");
    assert_eq!(r[1].texto, "");
}

#[test]
fn una_etiqueta_comentada_no_existe() {
    let t = "% \\label{fig:vieja}\n\\label{fig:buena}\n";
    let r = extraer("a.tex", t);
    assert_eq!(r.len(), 1);
    assert_eq!(r[0].id, "fig:buena");
}

#[test]
fn la_linea_es_la_de_la_etiqueta() {
    let t = "uno\ndos\n\\label{x}\n";
    assert_eq!(extraer("a.tex", t)[0].linea, 3);
}

#[test]
fn el_caption_puede_ocupar_varios_renglones() {
    let t = "\\begin{figure}\n\\caption{Una medición\nque sigue abajo}\n\\label{fig:m}\n\\end{figure}\n";
    let r = extraer("a.tex", t);
    assert_eq!(r[0].texto, "Una medición que sigue abajo");
    assert_eq!(r[0].linea, 4, "la línea se corrió al saltar el caption");
}

#[test]
fn el_argumento_corto_del_caption_no_confunde() {
    let t = r"\begin{figure}\caption[corto]{El largo de verdad}\label{fig:c}\end{figure}";
    assert_eq!(extraer("a.tex", t)[0].texto, "El largo de verdad");
}

#[test]
fn sin_entorno_ni_titulo_se_adivina_por_el_prefijo() {
    let t = "\\label{tab:sola}\n";
    assert_eq!(extraer("a.tex", t)[0].tipo, "tabla");
}

#[test]
fn una_ecuacion_se_reconoce_por_el_entorno() {
    let t = "\\begin{align}\n a &= b \\\\\n\\label{eq:uno}\n\\end{align}\n";
    assert_eq!(extraer("a.tex", t)[0].tipo, "ecuacion");
}

#[test]
fn los_graficos_de_xtal_tambien_se_citan() {
    let textos = vec![
        ("secciones/02.tex".to_string(), "\\section{Resultados}\\label{sec:res}\n".to_string()),
        (
            "main.tex".to_string(),
            "\\begin{figure}\\caption{Foto}\\label{fig:foto}\\end{figure}\n\n\\label{fig:bode}\n".to_string(),
        ),
    ];
    let graficos = vec![("bode".to_string(), Some("Bode".to_string())), ("tr".to_string(), None)];
    let refs = recolectar(&textos, &graficos);
    let ids: Vec<&str> = refs.iter().map(|r| r.id.as_str()).collect();
    // Por archivo y línea; `fig:bode` ya está escrito, así que no se repite.
    assert_eq!(ids, vec!["fig:tr", "fig:foto", "fig:bode", "sec:res"]);
    assert_eq!(refs[0].tipo, "grafico");
    assert_eq!(refs[0].texto, "tr");
    assert_eq!(refs[0].archivo, "graficos/tr.toml");
    assert_eq!(refs[0].linea, 1);
}

#[test]
fn la_consulta_busca_en_el_id_y_el_texto() {
    let textos = vec![(
        "main.tex".to_string(),
        "\\section{Ganancia}\\label{sec:g}\n\\begin{table}\\caption{Valores}\\label{tab:v}\\end{table}\n".to_string(),
    )];
    let refs = recolectar(&textos, &vec![]);
    assert_eq!(filtrar(refs.clone(), Some("  GAN ")).len(), 1);
    assert_eq!(filtrar(refs.clone(), Some("tab:")).len(), 1);
    assert_eq!(filtrar(refs.clone(), Some("   ")).len(), 2);
    assert_eq!(filtrar(refs.clone(), None).len(), 2);
    assert!(filtrar(refs, Some("nada")).is_empty());
}

#[test]
fn cada_etiqueta_queda_recortada_y_en_su_linea() {
    let t = "intro\n\\label{  eq:uno  }\n\\label{   }\n% \\label{comentada}\n\\label{fig:dos}";
    let refs = extraer("cap.tex", t);
    let ids: Vec<&str> = refs.iter().map(|r| r.id.as_str()).collect();
    assert_eq!(ids, vec!["eq:uno", "fig:dos"]);
    assert_eq!(refs[0].linea, 2);
    assert_eq!(refs[1].linea, 5);
    assert!(refs.iter().all(|r| r.archivo == "cap.tex" && r.linea >= 1 && r.linea <= 5));
}
