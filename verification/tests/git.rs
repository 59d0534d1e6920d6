use xtal::git::{parsear, EstadoGit};

#[test]
fn lee_rama_y_distancia_al_remoto() {
    let e = parsear("# branch.head main\n# branch.ab +2 -3\n");
    assert_eq!(e.rama, "main");
    assert_eq!(e.adelante, 2);
    assert_eq!(e.atras, 3);
    assert!(e.es_repo);
}

#[test]
fn cuenta_cada_tipo_de_cambio() {
    // A `D` in either letter of the `xy` field is a deletion.
    let e = parsear(
        "# branch.head main\n\
         1 .M N... 100644 100644 100644 aaa bbb secciones/01.tex\n\
         1 D. N... 100644 000000 000000 aaa bbb viejo.tex\n\
         ? nuevo.tex\n\
         u UU N... 100644 100644 100644 100644 a b c choque.tex\n",
    );
    assert_eq!(e.modificados, 1);
    assert_eq!(e.borrados, 1);
    assert_eq!(e.nuevos, 1);
    assert_eq!(e.conflictos, 1);
}

#[test]
fn sin_upstream_no_hay_distancia() {
    let e = parsear("# branch.head nueva\n");
    assert_eq!(e.adelante, 0);
    assert_eq!(e.atras, 0);
}

#[test]
fn una_distancia_ilegible_cuenta_cero() {
    let e = parsear("# branch.ab +x -7\n2 R. N... 100644 100644 100644 a b R100 n.tex\tv.tex\n");
    assert_eq!(e.adelante, 0);
    assert_eq!(e.atras, 7);
    assert_eq!(e.modificados, 1);
    assert_eq!(e.rama, "");
}

#[test]
fn la_rama_sale_sin_blancos_y_lo_demas_no_cuenta() {
    let e = parsear("# branch.head   dev  \r\n# branch.oid abc\n! ignorado.log\n");
    assert_eq!(e.rama, "dev");
    assert_eq!(e.nuevos + e.modificados + e.borrados + e.conflictos, 0);
}

#[test]
fn sin_repo_no_hay_nada() {
    let e = EstadoGit::default();
    assert!(!e.es_repo);
    assert_eq!(e.rama, "");
    assert_eq!(e.adelante + e.atras, 0);
}
