use xtal::csv_scope::{
    celdas_xy, inspect, Celda, lines_after_skip, looks_like_header, parece_numero, read_records, resolve_column,
    sniff_delimiter, ColumnRef, CsvImportOptions, CsvSpec, DataError,
};

#[test]
fn inspect_reports_delimiter_and_columns() {
    let insp = inspect("a;b;c\n1;2;3\n", &CsvImportOptions::default(), 5).unwrap();
    assert_eq!(insp.detected_delimiter, ';');
    assert_eq!(insp.column_count, 3);
    assert_eq!(insp.header_guess, Some(vec!["a".to_string(), "b".to_string(), "c".to_string()]));
    assert_eq!(insp.first_rows.len(), 2);
}

#[test]
fn la_metadata_se_saltea_y_el_delimitador_se_adivina() {
    let opts = CsvImportOptions { skip_rows: 3, ..Default::default() };
    let insp = inspect("Model;DS1054Z\nIncrement;1e-6\nTime;CH1\n0;0.5\n1;0.7\n", &opts, 1).unwrap();
    assert_eq!(insp.detected_delimiter, ';');
    assert_eq!(insp.header_guess, None);
    assert_eq!(insp.first_rows, vec![vec!["0".to_string(), "0.5".to_string()]]);
    let lineas = lines_after_skip("a\nb\nc", 1);
    assert_eq!(lineas.len(), 2);
    assert!(lines_after_skip("a\nb", 5).is_empty());
}

#[test]
fn el_delimitador_es_el_que_mas_aparece() {
    assert_eq!(sniff_delimiter("a,b,c"), b',');
    assert_eq!(sniff_delimiter("a;b;c,d"), b';');
    assert_eq!(sniff_delimiter("a\tb\tc"), b'\t');
    assert_eq!(sniff_delimiter("sin nada"), b',');
    assert_eq!(sniff_delimiter("a;b,c"), b',');
}

#[test]
fn una_columna_por_numero_o_por_nombre() {
    assert_eq!(ColumnRef::parse("2"), ColumnRef::Index(2));
    assert_eq!(ColumnRef::parse("vout"), ColumnRef::Name("vout".to_string()));
    assert_eq!(ColumnRef::Index(12).texto(), "12");
    let header = vec!["Time ".to_string(), "CH1".to_string()];
    assert_eq!(resolve_column(&ColumnRef::Name(" ch1".into()), Some(&header)).unwrap(), 1);
    assert!(matches!(resolve_column(&ColumnRef::Name("ch2".into()), Some(&header)), Err(DataError::ColumnNotFound(n)) if n == "ch2"));
    assert!(matches!(resolve_column(&ColumnRef::Name("t".into()), None), Err(DataError::ColumnNotFound(_))));
    assert_eq!(resolve_column(&ColumnRef::Index(7), None).unwrap(), 7);
}

#[test]
fn los_numeros_son_los_que_lee_f64() {
    for s in ["1", "-2.5", "+.5", "3.", "1e-6", "2E+3", "inf", "-Infinity", "NaN", "0.5e1"] {
        let c: Vec<char> = s.chars().collect();
        assert!(parece_numero(&c), "{s}");
        assert!(s.parse::<f64>().is_ok(), "{s}");
    }
    for s in ["", ".", "e5", "1e", "1.2.3", "freq", "1,5", "--1", "infin", "1e+"] {
        let c: Vec<char> = s.chars().collect();
        assert!(!parece_numero(&c), "{s}");
        assert!(s.parse::<f64>().is_err(), "{s}");
    }
    let fila = vec!["freq".to_string(), "1.0".to_string()];
    assert!(looks_like_header(&fila, 0, 1));
    let fila = vec![" 10 ".to_string(), "0.5".to_string()];
    assert!(!looks_like_header(&fila, 0, 1));
    assert!(looks_like_header(&fila, 0, 5));
}

#[test]
fn el_bloque_csv_guarda_como_se_leyo() {
    let opts = CsvImportOptions {
        delimiter: Some(b';'),
        skip_rows: 2,
        x_col: ColumnRef::Index(0),
        y_col: ColumnRef::Name("CH1".into()),
    };
    let s = CsvSpec::new("fuentes/bode.csv", &opts);
    assert_eq!(s.file, "fuentes/bode.csv");
    assert_eq!(s.skip_rows, 2);
    assert_eq!(s.x_col, "0");
    assert_eq!(s.y_col, "CH1");
    assert_eq!(s.delimiter.as_deref(), Some(";"));
    let r = read_records("x,\"y,z\"\n1,2\n", b',').unwrap();
    assert_eq!(r, vec![vec!["x".to_string(), "y,z".to_string()], vec!["1".to_string(), "2".to_string()]]);
}

/// Lo que hace el programa con los pares: leer cada celda limpia como `f64`.
fn read_csv_xy(text: &str, opts: &CsvImportOptions) -> Vec<(f64, f64)> {
    let num = |c: &Celda| match c {
        Celda::Hay { limpio, .. } => limpio.parse::<f64>().unwrap(),
        Celda::Falta(m) => panic!("falta {m}"),
    };
    celdas_xy(text, opts).unwrap().iter().map(|p| (num(&p.x), num(&p.y))).collect()
}

#[test]
fn simple_two_column_with_header() {
    let data = read_csv_xy("freq,vout\n10,1.0\n100,0.5\n1000,0.1\n", &CsvImportOptions::default());
    assert_eq!(data.len(), 3);
    assert_eq!(data[0], (10.0, 1.0));
    assert_eq!(data[2], (1000.0, 0.1));
}

#[test]
fn columns_by_name() {
    let opts = CsvImportOptions {
        x_col: ColumnRef::Name("t".to_string()),
        y_col: ColumnRef::Name("vout".to_string()),
        ..Default::default()
    };
    let data = read_csv_xy("t,a,vout\n0,9,1.0\n1,9,2.0\n", &opts);
    assert_eq!(data, vec![(0.0, 1.0), (1.0, 2.0)]);
}

#[test]
fn skip_metadata_rows_and_semicolon() {
    // Estilo osciloscopio: 2 líneas de basura, delimitador ';'.
    let opts = CsvImportOptions { skip_rows: 3, ..Default::default() };
    let data = read_csv_xy("Model;DS1054Z\nIncrement;1e-6\nTime;CH1\n0;0.5\n1;0.7\n", &opts);
    assert_eq!(data, vec![(0.0, 0.5), (1.0, 0.7)]);
}

#[test]
fn trailing_empty_rows_ignored() {
    let data = read_csv_xy("x,y\n1,2\n3,4\n\n\n", &CsvImportOptions::default());
    assert_eq!(data.len(), 2);
}

#[test]
fn las_celdas_dicen_que_falta_y_como_se_leen() {
    let p = celdas_xy("x;y\n1; 2,5\n3\n", &CsvImportOptions { delimiter: Some(b';'), ..Default::default() }).unwrap();
    assert_eq!(p.len(), 2);
    assert_eq!(p[0].y, Celda::Hay { crudo: " 2,5".into(), limpio: "2.5".into() });
    assert_eq!(p[1].fila, 1);
    assert_eq!(p[1].y, Celda::Falta("y (índice 1)".into()));
    let por_nombre = CsvImportOptions { x_col: ColumnRef::Name("nada".into()), ..Default::default() };
    assert!(matches!(celdas_xy("a,b\n1,2\n", &por_nombre), Err(DataError::ColumnNotFound(n)) if n == "nada"));
}
