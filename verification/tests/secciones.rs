use xtal::secciones::{
    lineas_de_secciones, section_add, section_remove, section_rename, section_set, trae_manifiesto, Section,
};

fn sec(titulo: &str, sub: Vec<Section>) -> Section {
    let mut s = Section::new(titulo);
    s.subsections = sub;
    s
}

fn informe() -> Vec<Section> {
    vec![sec("Objetivo", vec![]), sec("Circuito", vec![sec("Netlist", vec![])])]
}

fn titulos(v: &[Section]) -> Vec<&str> {
    v.iter().map(|s| s.title.as_str()).collect()
}

#[test]
fn agregar_va_al_final_o_adentro_del_padre() {
    let v = section_add(informe(), "Conclusiones", vec![], None, None).unwrap();
    assert_eq!(titulos(&v), vec!["Objetivo", "Circuito", "Conclusiones"]);
    assert_eq!(v[2].body, "");

    let v = section_add(informe(), "Mediciones", vec!["bode".to_string()], Some("Texto.".to_string()), Some("Circuito".to_string()))
        .unwrap();
    assert_eq!(titulos(&v[1].subsections), vec!["Netlist", "Mediciones"]);
    assert_eq!(v[1].subsections[1].body, "Texto.");
    assert_eq!(v[1].subsections[1].figures, vec!["bode"]);

    // Se busca también adentro de las subsecciones.
    let v = section_add(informe(), "Nodos", vec![], None, Some("Netlist".to_string())).unwrap();
    assert_eq!(v[1].subsections[0].subsections[0].title, "Nodos");

    let e = section_add(informe(), "X", vec![], None, Some("Anexo".to_string())).unwrap_err();
    assert_eq!(e, "no encontré la sección padre 'Anexo'");
}

#[test]
fn set_cambia_el_texto_y_las_figuras_de_la_primera() {
    let v = section_set(informe(), "Netlist", Some("R1 1 2 1k".to_string()), Some(vec!["esq".to_string()])).unwrap();
    assert_eq!(v[1].subsections[0].body, "R1 1 2 1k");
    assert_eq!(v[1].subsections[0].figures, vec!["esq"]);
    // Lo que no se da queda como estaba.
    let v = section_set(v, "Netlist", None, None).unwrap();
    assert_eq!(v[1].subsections[0].body, "R1 1 2 1k");

    let e = section_set(informe(), "Anexo", None, None).unwrap_err();
    assert_eq!(e, "no encontré la sección 'Anexo'");
}

#[test]
fn un_xtal_toml_no_entra_como_texto_de_una_seccion() {
    let toml = "[project]\nname = \"tp\"\n\n  [[sections]]\ntitle = \"Objetivo\"\n".to_string();
    assert!(trae_manifiesto(&toml));
    assert!(!trae_manifiesto("el [[sections]] de xtal.toml guarda las secciones"));
    let e = section_set(informe(), "Objetivo", Some(toml.clone()), None).unwrap_err();
    assert!(e.starts_with("el cuerpo trae un `[[sections]]` adentro"));
    // Si la sección no está, el error es ese.
    let e = section_set(informe(), "Anexo", Some(toml), None).unwrap_err();
    assert_eq!(e, "no encontré la sección 'Anexo'");
}

#[test]
fn renombrar_y_volver_deja_todo_igual() {
    let v = section_rename(informe(), "Netlist", "Circuito equivalente".to_string()).unwrap();
    assert_eq!(v[1].subsections[0].title, "Circuito equivalente");
    let v = section_rename(v, "Circuito equivalente", "Netlist".to_string()).unwrap();
    assert_eq!(titulos(&v), vec!["Objetivo", "Circuito"]);
    assert_eq!(titulos(&v[1].subsections), vec!["Netlist"]);
    assert_eq!(section_rename(informe(), "Anexo", "B".to_string()).unwrap_err(), "no encontré la sección 'Anexo'");
}

#[test]
fn sacar_busca_primero_en_su_nivel_y_se_lleva_las_subsecciones() {
    // Una `B` arriba le gana a la `B` de adentro de `A`, aunque esté después.
    let v = vec![sec("A", vec![sec("B", vec![])]), sec("B", vec![])];
    let v = section_remove(v, "B").unwrap();
    assert_eq!(titulos(&v), vec!["A"]);
    assert_eq!(titulos(&v[0].subsections), vec!["B"]);

    let v = section_remove(informe(), "Circuito").unwrap();
    assert_eq!(titulos(&v), vec!["Objetivo"]);
    let v = section_remove(informe(), "Netlist").unwrap();
    assert!(v[1].subsections.is_empty());
    assert_eq!(section_remove(informe(), "Anexo").unwrap_err(), "no encontré la sección 'Anexo'");
}

#[test]
fn agregar_y_sacar_deja_todo_igual() {
    let v = section_add(informe(), "Anexo", vec![], None, None).unwrap();
    let v = section_remove(v, "Anexo").unwrap();
    assert_eq!(titulos(&v), vec!["Objetivo", "Circuito"]);
    assert_eq!(titulos(&v[1].subsections), vec!["Netlist"]);
}

#[test]
fn la_lista_muestra_el_arbol_con_sangria() {
    let mut v = informe();
    v[1].figures = vec!["bode".to_string(), "fase".to_string()];
    assert_eq!(
        lineas_de_secciones(&v, 0),
        vec!["- Objetivo", "- Circuito  [figuras: bode, fase]", "  - Netlist"]
    );
}
