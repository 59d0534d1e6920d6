use xtal::synctex::{descomprimir, campos, leer};

const MUESTRA: &str = "SyncTeX Version:1\n\
    Input:1:/proyecto/salida/main.tex\n\
    Output:pdf\n\
    Unit:1\n\
    Content:\n\
    {1\n\
    [1,0:0,0:0,0,0\n\
    Input:2:../secciones/01-objetivo.tex\n\
    (2,8:8404076,31680000:26094516,1886453,1494487\n\
    (2,8:8404076,31680000:1000000,500000,100000\n\
    }1\n";

#[test]
fn los_input_intercalados_tambien_cuentan() {
    let l = leer(MUESTRA);
    assert_eq!(l.archivos.len(), 2);
    assert_eq!(l.archivos[0], (1, "/proyecto/salida/main.tex".to_string()));
    let (tag, ruta) = &l.archivos[1];
    assert_eq!(*tag, 2);
    assert!(ruta.ends_with("secciones/01-objetivo.tex"), "quedó {ruta}");
}

#[test]
fn la_pagina_se_cuenta_desde_cero() {
    let l = leer(MUESTRA);
    assert_eq!(l.cajas.len(), 3);
    assert!(l.cajas.iter().all(|c| c.pagina == 0));
}

#[test]
fn los_scaled_points_se_pasan_a_puntos() {
    let l = leer(MUESTRA);
    assert_eq!(l.unidades, vec!["1".to_string()]);
    let unidad: f64 = l.unidades[0].trim().parse().unwrap();
    let escala = unidad / 65536.0;
    let c = l.cajas.iter().find(|c| c.ancho as f64 * escala > 300.0).unwrap();
    // 26094516 sp / 65536 = 398,17 pt, el ancho de texto de un A4.
    assert!((c.ancho as f64 * escala - 398.17).abs() < 0.1, "ancho {}", c.ancho);
    assert_eq!(c.linea, 8);
    assert_eq!(c.unidad, Some(0));
}

#[test]
fn una_caja_se_lee_con_sus_siete_numeros() {
    assert_eq!(
        campos("212,8:8404076,31680000:26094516,1886453,1494487"),
        Some((212, 8, 8404076, 31680000, 26094516, 1886453, 1494487))
    );
    // La columna, cuando está, se ignora; los espacios también.
    assert_eq!(campos(" 3 , 4 ,9:-1,2:3,4,5"), Some((3, 4, -1, 2, 3, 4, 5)));
    // Le falta un grupo, o un número, o un número no se lee.
    assert_eq!(campos("1,2:3,4"), None);
    assert_eq!(campos("1,2:3,4:5,6"), None);
    assert_eq!(campos("1:3,4:5,6,7"), None);
    assert_eq!(campos("1,x:3,4:5,6,7"), None);
    assert_eq!(campos("1,-2:3,4:5,6,7"), None);
}

#[test]
fn antes_de_la_primera_pagina_no_hay_cajas() {
    let l = leer("(1,2:3,4:5,6,7\n{3\nh1,2:3,4:5,6,7\nx1,2:3,4:5,6,7\n<junk\nv9,9:0,0:1,1,1\n");
    assert_eq!(l.cajas.len(), 2);
    assert_eq!(l.cajas[0].pagina, 2);
    assert_eq!(l.cajas[0].unidad, None);
    // Un número de página que no se lee es la página 1.
    assert_eq!(l.cajas[1].pagina, 0);
    assert_eq!(l.cajas[1].linea, 9);
}

#[test]
fn el_texto_sin_comprimir_tambien_se_lee() {
    assert_eq!(descomprimir(b"Input:1:a.tex\n").unwrap(), "Input:1:a.tex\n");
}

#[test]
fn el_gzip_se_descomprime_y_uno_roto_no() {
    let mut e = flate2::write::GzEncoder::new(Vec::new(), flate2::Compression::default());
    std::io::Write::write_all(&mut e, "Input:1:teoría.tex\n".as_bytes()).unwrap();
    let gz = e.finish().unwrap();
    assert_eq!(descomprimir(&gz).unwrap(), "Input:1:teoría.tex\n");
    assert_eq!(descomprimir(&[0x1f, 0x8b, 0x00, 0x01]), None);
    // Lo que no es UTF-8 se reemplaza en vez de perder todo el mapa.
    assert_eq!(descomprimir(&[0x61, 0xff, 0x62]).unwrap(), "a\u{fffd}b");
}
