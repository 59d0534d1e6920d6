use xtal::deps::DepKind;
use xtal::doctor::{dependencies, paquetes, veredicto};

#[test]
fn las_dependencias_van_por_importancia() {
    let d = dependencies();
    let bins: Vec<&str> = d.iter().map(|d| d.bin).collect();
    assert_eq!(bins, vec!["tectonic", "pdflatex", "ngspice"]);
    assert_eq!(d[0].kind, DepKind::Core);
    assert_eq!(d[1].kind, DepKind::Optional);
    assert_eq!(paquetes("pdflatex").apt, Some("texlive-latex-extra"));
    assert_eq!(paquetes("tectonic").apt, None);
    assert_eq!(paquetes("ngspice").brew, Some("ngspice"));
}

#[test]
fn el_veredicto_dice_lo_que_falta() {
    let v = veredicto(&vec![true, true, true], &vec![true, true]);
    assert!(v.todo_listo && !v.ia_rota && !v.sin_latex && !v.falta_opcional);
    // Con el skill sin instalar, "todo listo" sería mentira.
    let v = veredicto(&vec![true, true, true], &vec![true, false]);
    assert!(!v.todo_listo && v.ia_rota);
    // Sin tectonic ni pdflatex no compila nada.
    let v = veredicto(&vec![false, false, true], &vec![]);
    assert!(v.sin_latex && !v.falta_opcional);
    assert_eq!(v.faltantes, vec!["tectonic", "pdflatex"]);
    // Falta solo lo opcional: compila igual.
    let v = veredicto(&vec![true, false, false], &vec![]);
    assert!(!v.sin_latex && v.falta_opcional && !v.todo_listo);
    assert_eq!(v.faltantes, vec!["pdflatex", "ngspice"]);
}
