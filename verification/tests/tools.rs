use xtal::mcp::{clasificar, no_soportado, Metodo, Session, INVALID_PARAMS, INVALID_REQUEST, METHOD_NOT_FOUND};
use xtal::esquemas::{esquema, valores, Tipo, Valores};
use xtal::tools::{all, argv, buscar_tool, comando, opt_list, req_str, Argumentos, Valor};

fn args(campos: Vec<(&str, Valor)>) -> Argumentos {
    Argumentos { campos: campos.into_iter().map(|(k, v)| (k.to_string(), v)).collect() }
}

fn texto(s: &str) -> Valor {
    Valor::Texto(s.to_string())
}

#[test]
fn los_nombres_de_tool_son_unicos_y_prefijados() {
    let tools = all();
    let mut names: Vec<&str> = tools.iter().map(|t| t.name).collect();
    names.sort_unstable();
    let total = names.len();
    names.dedup();
    assert_eq!(names.len(), total, "hay nombres de tool repetidos");
    assert!(tools.iter().all(|t| t.name.starts_with("xtal_")));
}

#[test]
fn los_schemas_son_objetos_validos() {
    for tool in all() {
        let schema = esquema(tool.name);
        assert!(schema.is_some(), "{} no tiene schema", tool.name);
        let schema = schema.unwrap();
        for r in &schema.requeridas {
            assert!(
                schema.propiedades.iter().any(|p| p.nombre == *r),
                "el schema de {} pide {} sin declararlo",
                tool.name,
                r
            );
        }
    }
    assert!(esquema("xtal_no_existe").is_none());
}

#[test]
fn el_schema_de_plan_add() {
    let e = esquema("xtal_plan_add").unwrap();
    let nombres: Vec<&str> = e.propiedades.iter().map(|p| p.nombre).collect();
    assert_eq!(nombres, vec!["id", "title", "kind", "sources", "note", "project"]);
    assert_eq!(e.requeridas, vec!["id"]);
    let sources = &e.propiedades[3];
    assert_eq!(sources.tipo, Tipo::Textos);
    assert_eq!(valores(sources.valores), vec!["theoretical", "simulated", "measured"]);
    let depth = esquema("xtal_list_projects").unwrap().propiedades[1];
    assert_eq!((depth.minimo, depth.maximo), (Some(1), Some(8)));
    assert_eq!(valores(Valores::Ninguno), Vec::<&str>::new());
    assert!(esquema("xtal_doctor").unwrap().propiedades.is_empty());
}

#[test]
fn opt_list_acepta_un_string_suelto() {
    let a = args(vec![("nodes", texto("v(out)"))]);
    assert_eq!(opt_list(&a, "nodes"), vec!["v(out)".to_string()]);
    let a = args(vec![("nodes", Valor::Lista(vec![Some("v(out)".into()), Some("v(in)".into())]))]);
    assert_eq!(opt_list(&a, "nodes").len(), 2);
    // Lo que no es un string se saltea; un string vacío no es una lista.
    let a = args(vec![("nodes", Valor::Lista(vec![None, Some("x".into())])), ("otra", texto(""))]);
    assert_eq!(opt_list(&a, "nodes"), vec!["x".to_string()]);
    assert!(opt_list(&a, "otra").is_empty());
}

#[test]
fn las_notificaciones_no_llevan_respuesta() {
    assert_eq!(clasificar(false, "notifications/initialized"), Metodo::Notificacion);
}

#[test]
fn un_metodo_desconocido_da_method_not_found() {
    assert_eq!(clasificar(true, "cualquier/cosa"), Metodo::Desconocido);
    assert_eq!(no_soportado("cualquier/cosa").code, METHOD_NOT_FOUND);
}

#[test]
fn una_tool_inexistente_da_invalid_params() {
    let tools = all();
    let e = buscar_tool(&tools, Some("no_existe"), true).unwrap_err();
    assert_eq!(e.code, INVALID_PARAMS);
    assert_eq!(e.message, "no existe la tool `no_existe`");
    assert_eq!(buscar_tool(&tools, None, true).unwrap_err().code, INVALID_REQUEST);
    assert_eq!(buscar_tool(&tools, Some("xtal_scan"), false).unwrap_err().code, INVALID_PARAMS);
    let k = buscar_tool(&tools, Some("xtal_scan"), true).unwrap();
    assert_eq!(tools[k].name, "xtal_scan");
}

#[test]
fn un_argumento_faltante_es_error_de_tool_no_de_protocolo() {
    let tools = all();
    // La tool existe: no hay error de protocolo.
    assert!(buscar_tool(&tools, Some("xtal_open_project"), true).is_ok());
    // La falta de `path` es el mensaje que el modelo lee para corregir.
    let e = req_str(&args(vec![]), "path").unwrap_err();
    assert!(e.contains("path"));
    assert_eq!(e, "falta el argumento obligatorio `path` (string)");
    // Lo mismo en una tool que corre un comando.
    assert_eq!(
        argv("xtal_new_plot", &args(vec![])),
        Some(Err("falta el argumento obligatorio `id` (string)".to_string()))
    );
}

fn v(xs: &[&str]) -> Vec<String> {
    xs.iter().map(|s| s.to_string()).collect()
}

#[test]
fn cada_tool_arma_su_linea_de_comando() {
    let a = args(vec![
        ("id", texto("bode")),
        ("title", texto("Respuesta")),
        ("kind", texto("")),
        ("sources", Valor::Lista(vec![Some("measured".into()), Some("simulated".into())])),
    ]);
    assert_eq!(
        argv("xtal_plan_add", &a),
        Some(Ok(v(&["plan", "add", "bode", "--title", "Respuesta", "--source", "measured", "--source", "simulated", "--json"])))
    );
    let a = args(vec![
        ("file", texto("scope.csv")),
        ("inspect", Valor::Logico(true)),
        ("skip_rows", Valor::Numero { decimal: "3".into(), cantidad: 3 }),
    ]);
    assert_eq!(
        argv("xtal_import_measurement", &a),
        Some(Ok(v(&["meas", "import", "scope.csv", "--inspect", "--id", "inspect", "--skip-rows", "3"])))
    );
    let a = args(vec![
        ("id", texto("rc")),
        ("expr", texto("1/f")),
        ("from", Valor::Numero { decimal: "10".into(), cantidad: 10 }),
        ("to", Valor::Numero { decimal: "1e5".into(), cantidad: 100000 }),
        ("points", Valor::Numero { decimal: "20.5".into(), cantidad: 20 }),
    ]);
    assert_eq!(
        argv("xtal_formula_measurement", &a),
        Some(Ok(v(&["meas", "formula", "--id", "rc", "--expr", "1/f", "--from", "10", "--to", "1e5", "--points", "20", "--json"])))
    );
    let sin_to = args(vec![("id", texto("rc")), ("expr", texto("1/f")), ("from", Valor::Numero { decimal: "1".into(), cantidad: 1 })]);
    assert_eq!(
        argv("xtal_formula_measurement", &sin_to),
        Some(Err("falta el argumento obligatorio `to` (número)".to_string()))
    );
    let a = args(vec![("tex_only", Valor::Logico(true)), ("pdflatex", Valor::Logico(true)), ("monochrome", Valor::Logico(true))]);
    assert_eq!(argv("xtal_build_report", &a), Some(Ok(v(&["export", "--monochrome"]))));
    assert_eq!(
        argv("xtal_run_command", &args(vec![("args", Valor::Lista(vec![]))])),
        Some(Err("`args` no puede estar vacío".to_string()))
    );
    assert_eq!(argv("xtal_list_projects", &args(vec![])), None);
    assert_eq!(argv("no_existe", &args(vec![])), None);
}

#[test]
fn el_proyecto_de_cada_comando() {
    let mut s = Session::new("xtal".into());
    s.project = Some("/tmp/sesion".into());
    let c = comando(&s, "xtal_scan", &args(vec![])).unwrap().unwrap();
    assert_eq!(c.proyecto.as_deref(), Some("/tmp/sesion"));
    let c = comando(&s, "xtal_scan", &args(vec![("project", texto("/tmp/otro"))])).unwrap().unwrap();
    assert_eq!(c.proyecto.as_deref(), Some("/tmp/otro"));
    assert_eq!(c.argv, v(&["scan", "--json"]));
    let c = comando(&s, "xtal_doctor", &args(vec![("project", texto("/tmp/otro"))])).unwrap().unwrap();
    assert_eq!(c.proyecto, None);
    let c = comando(&s, "xtal_new_project", &args(vec![("name", texto("TP 1")), ("parent", texto("/home/x"))])).unwrap().unwrap();
    assert_eq!(c.proyecto, None);
    assert_eq!(c.carpeta.as_deref(), Some("/home/x"));
    assert_eq!(c.argv, v(&["new", "TP 1", "--json"]));
}
