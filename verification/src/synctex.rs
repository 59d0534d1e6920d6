//! The map that LaTeX leaves of which line of the source each box of the PDF
//! came from (SyncTeX).
//!
//! The engine leaves `main.synctex.gz` beside the PDF. Inside it is text: a
//! table of `Input:<tag>:<path>` (the number that names each file), and then,
//! page by page, a tree of boxes. Each box says which tag and line it comes
//! from, where it is and how large:
//!
//! ```text
//! (212,8:8404076,31680000:26094516,1886453,1494487
//!  tag,line:x,y:width,height,depth
//! ```
//!
//! The `Input:` lines are not all in the header: they come among the content
//! as the engine opens each file, so they are read wherever they are. All is
//! in scaled points (65536 sp to a point), times the `Unit:` in effect.
//!
//! Reading the file is decided here; resolving the paths on this machine and
//! converting to points are the program's part.
use vstd::prelude::*;
use crate::ordenes::{texto_de_bytes, texto_utf8};
use crate::texto::{
    antes_de, caracteres, cadena, despues_de, empieza_con, hasta, hasta_exec, i64_de, leer_i64,
    leer_u32, lineas, partir_en, partir_lineas, recortado, recortar, tramo, trozos, u32_de, vistas,
    aparece, lema_hasta,
};

verus! {

broadcast use vstd::string::group_string_axioms;

/// Where something of the PDF came from: a file and a line of it.
#[derive(Debug, Clone)]
pub struct Origen {
    pub archivo: String,
    pub linea: u32,
}

/// A box as the file gives it, in scaled points and with the origin at the
/// top left.
#[derive(Debug, Clone, Copy, PartialEq, Eq, Structural)]
pub struct Cruda {
    /// The page, counted from 0.
    pub pagina: usize,
    pub tag: i64,
    pub linea: u32,
    pub x: i64,
    /// The baseline; the box goes from `y - alto` to `y + profundidad`.
    pub y: i64,
    pub ancho: i64,
    pub alto: i64,
    pub profundidad: i64,
    /// Which of the `Unit:` lines was in effect (`None` before any: a unit of
    /// one).
    pub unidad: Option<usize>,
}

/// What a reading of the file gives.
#[derive(Debug)]
pub struct Lectura {
    /// Each `Input:` as it came: its tag and its path, as written.
    pub archivos: Vec<(i64, String)>,
    /// What each `Unit:` line says, as written.
    pub unidades: Vec<String>,
    pub cajas: Vec<Cruda>,
}

/// The seven numbers of `tag,linea[,columna]:x,y:ancho,alto,profundidad`:
/// the text is cut at its first two `:` (the third group is all the rest),
/// each group at its `,`, and each number is read as `str::parse` reads it
/// after `str::trim`; a group with too few numbers, or a number that does not
/// read, gives `None`.
pub open spec fn campos_de(s: Seq<char>) -> Option<(i64, u32, i64, i64, i64, i64, i64)> {
    let resto = despues_de(s, ':');
    if hasta(s, 0, ':') >= s.len() || hasta(resto, 0, ':') >= resto.len() {
        None
    } else {
        let ids = trozos(antes_de(s, ':'), ',');
        let pos = trozos(antes_de(resto, ':'), ',');
        let dim = trozos(despues_de(resto, ':'), ',');
        if ids.len() < 2 || pos.len() < 2 || dim.len() < 3 {
            None
        } else {
            match (
                i64_de(recortado(ids[0])),
                u32_de(recortado(ids[1])),
                i64_de(recortado(pos[0])),
                i64_de(recortado(pos[1])),
                i64_de(recortado(dim[0])),
                i64_de(recortado(dim[1])),
                i64_de(recortado(dim[2])),
            ) {
                (Some(a), Some(b), Some(c), Some(d), Some(e), Some(f), Some(g)) => Some((a, b, c, d, e, f, g)),
                _ => None,
            }
        }
    }
}

/// The `k`-th piece, trimmed and read as an `i64`.
fn numero(piezas: &Vec<Vec<char>>, k: usize) -> (r: Option<i64>)
    requires
        k < piezas@.len(),
    ensures
        r == i64_de(recortado(piezas@[k as int]@)),
{
    leer_i64(&recortar(&piezas[k]))
}

/// The numbers of a box line, after its first character.
pub fn campos(s: &str) -> (r: Option<(i64, u32, i64, i64, i64, i64, i64)>)
    ensures
        r == campos_de(s@),
{
    campos_en(&caracteres(s))
}

/// `campos` on characters.
fn campos_en(t: &[char]) -> (r: Option<(i64, u32, i64, i64, i64, i64, i64)>)
    ensures
        r == campos_de(t@),
{
    let j = hasta_exec(&t, 0, ':');
    if j >= t.len() {
        return None;
    }
    let ids = tramo(&t, 0, j);
    let resto = tramo(&t, j + 1, t.len());
    assert(resto@ == despues_de(t@, ':'));
    let k = hasta_exec(&resto, 0, ':');
    if k >= resto.len() {
        return None;
    }
    let pos = tramo(&resto, 0, k);
    let dim = tramo(&resto, k + 1, resto.len());
    let ids = partir_en(&ids, ',');
    let pos = partir_en(&pos, ',');
    let dim = partir_en(&dim, ',');
    if ids.len() < 2 || pos.len() < 2 || dim.len() < 3 {
        return None;
    }
    proof {
        assert(vistas(ids@)[0] == ids@[0]@);
        assert(vistas(ids@)[1] == ids@[1]@);
        assert(vistas(pos@)[0] == pos@[0]@);
        assert(vistas(pos@)[1] == pos@[1]@);
        assert(vistas(dim@)[0] == dim@[0]@);
        assert(vistas(dim@)[1] == dim@[1]@);
        assert(vistas(dim@)[2] == dim@[2]@);
    }
    let tag = numero(&ids, 0);
    let linea = leer_u32(&recortar(&ids[1]));
    let x = numero(&pos, 0);
    let y = numero(&pos, 1);
    let ancho = numero(&dim, 0);
    let alto = numero(&dim, 1);
    let prof = numero(&dim, 2);
    match (tag, linea, x, y, ancho, alto, prof) {
        (Some(a), Some(b), Some(c), Some(d), Some(e), Some(f), Some(g)) => Some((a, b, c, d, e, f, g)),
        _ => None,
    }
}

/// What has been read so far: the page open (`-1` before the first), the
/// files, the units and the boxes.
pub struct Avance {
    pub pagina: i64,
    pub archivos: Seq<(i64, Seq<char>)>,
    pub unidades: Seq<Seq<char>>,
    pub cajas: Seq<Cruda>,
}

pub open spec fn con_pagina(a: Avance, pagina: i64) -> Avance {
    Avance { pagina, archivos: a.archivos, unidades: a.unidades, cajas: a.cajas }
}

/// The unit in effect: the last `Unit:` read, if any.
pub open spec fn unidad_vigente(a: Avance) -> Option<usize> {
    if a.unidades.len() == 0 {
        None
    } else {
        Some((a.unidades.len() - 1) as usize)
    }
}

/// What a line adds to what was read:
/// - `Input:<tag>:<path>` adds the file, where the tag reads as a number and
///   the path is not empty;
/// - `Unit:<u>` makes `u` the unit of what follows;
/// - `{n` or `<n` opens page `n`, counted from 1 in the file (a number that
///   does not read is page 1);
/// - `(`, `[`, `h` or `v` followed by the numbers of a box adds the box to the
///   page open, if one is;
/// - anything else adds nothing.
pub open spec fn paso(a: Avance, l: Seq<char>) -> Avance {
    if l.len() == 0 {
        a
    } else if empieza_con(l, "Input:"@) {
        let r = l.subrange(6, l.len() as int);
        if hasta(r, 0, ':') < r.len() && despues_de(r, ':').len() > 0 {
            match i64_de(recortado(antes_de(r, ':'))) {
                Some(tag) => Avance {
                    pagina: a.pagina,
                    archivos: a.archivos.push((tag, despues_de(r, ':'))),
                    unidades: a.unidades,
                    cajas: a.cajas,
                },
                None => a,
            }
        } else {
            a
        }
    } else if empieza_con(l, "Unit:"@) {
        Avance {
            pagina: a.pagina,
            archivos: a.archivos,
            unidades: a.unidades.push(l.subrange(5, l.len() as int)),
            cajas: a.cajas,
        }
    } else if l[0] == '{' || l[0] == '<' {
        let n = match i64_de(recortado(l.subrange(1, l.len() as int))) {
            Some(n) => n,
            None => 1,
        };
        con_pagina(a, if n == i64::MIN { i64::MAX } else { (n - 1) as i64 })
    } else if !(l[0] == '(' || l[0] == '[' || l[0] == 'h' || l[0] == 'v') || a.pagina < 0 {
        a
    } else {
        match campos_de(l.subrange(1, l.len() as int)) {
            Some((tag, linea, x, y, ancho, alto, profundidad)) => Avance {
                pagina: a.pagina,
                archivos: a.archivos,
                unidades: a.unidades,
                cajas: a.cajas.push(
                    Cruda {
                        pagina: a.pagina as usize,
                        tag,
                        linea,
                        x,
                        y,
                        ancho,
                        alto,
                        profundidad,
                        unidad: unidad_vigente(a),
                    },
                ),
            },
            None => a,
        }
    }
}

/// What the lines `ls` give, read in order.
pub open spec fn leido(ls: Seq<Seq<char>>) -> Avance
    decreases ls.len(),
{
    if ls.len() == 0 {
        Avance { pagina: -1i64, archivos: Seq::empty(), unidades: Seq::empty(), cajas: Seq::empty() }
    } else {
        paso(leido(ls.drop_last()), ls.last())
    }
}

pub open spec fn vista_archivos(v: Seq<(i64, String)>) -> Seq<(i64, Seq<char>)> {
    v.map_values(|p: (i64, String)| (p.0, p.1@))
}

pub open spec fn vista_unidades(v: Seq<String>) -> Seq<Seq<char>> {
    v.map_values(|u: String| u@)
}

/// Reads a SyncTeX file (already uncompressed), line by line.
pub fn leer(texto: &str) -> (r: Lectura)
    ensures
        vista_archivos(r.archivos@) == leido(lineas(texto@)).archivos,
        vista_unidades(r.unidades@) == leido(lineas(texto@)).unidades,
        r.cajas@ == leido(lineas(texto@)).cajas,
{
    let ls = partir_lineas(&caracteres(texto));
    let ghost todas = vistas(ls@);
    let mut pagina: i64 = -1;
    let mut archivos: Vec<(i64, String)> = Vec::new();
    let mut unidades: Vec<String> = Vec::new();
    let mut cajas: Vec<Cruda> = Vec::new();
    let input = caracteres("Input:");
    let unit = caracteres("Unit:");
    let mut k: usize = 0;
    assert(todas.take(0) =~= Seq::<Seq<char>>::empty());
    assert(vista_archivos(archivos@) =~= Seq::<(i64, Seq<char>)>::empty());
    assert(vista_unidades(unidades@) =~= Seq::<Seq<char>>::empty());
    while k < ls.len()
        invariant
            k <= ls@.len(),
            todas == vistas(ls@),
            todas == lineas(texto@),
            input@ == "Input:"@,
            unit@ == "Unit:"@,
            leido(todas.take(k as int)) == (Avance {
                pagina,
                archivos: vista_archivos(archivos@),
                unidades: vista_unidades(unidades@),
                cajas: cajas@,
            }),
        decreases ls@.len() - k,
    {
        let l = &ls[k];
        let ghost a = leido(todas.take(k as int));
        proof {
            assert(todas.take(k + 1).drop_last() =~= todas.take(k as int));
            assert(todas.take(k + 1).last() == l@);
            reveal_strlit("Input:");
            reveal_strlit("Unit:");
        }
        if l.len() == 0 {
        } else if aparece(l, 0, &input) {
            let r = tramo(l, 6, l.len());
            let j = hasta_exec(&r, 0, ':');
            if j < r.len() && j + 1 < r.len() {
                let tag = leer_i64(&recortar(&tramo(&r, 0, j)));
                match tag {
                    Some(t) => {
                        let ruta = cadena(&tramo(&r, j + 1, r.len()));
                        let ghost antes = vista_archivos(archivos@);
                        archivos.push((t, ruta));
                        assert(vista_archivos(archivos@) =~= antes.push((t, despues_de(r@, ':'))));
                    },
                    None => {},
                }
            }
        } else if aparece(l, 0, &unit) {
            let ghost antes = vista_unidades(unidades@);
            let u = cadena(&tramo(l, 5, l.len()));
            unidades.push(u);
            assert(vista_unidades(unidades@) =~= antes.push(l@.subrange(5, l@.len() as int)));
        } else if l[0] == '{' || l[0] == '<' {
            let n = match leer_i64(&recortar(&tramo(l, 1, l.len()))) {
                Some(n) => n,
                None => 1,
            };
            pagina = if n == i64::MIN { i64::MAX } else { n - 1 };
        } else if !(l[0] == '(' || l[0] == '[' || l[0] == 'h' || l[0] == 'v') || pagina < 0 {
        } else {
            match campos_en(&tramo(l, 1, l.len())) {
                Some((tag, linea, x, y, ancho, alto, profundidad)) => {
                    let unidad = if unidades.len() == 0 { None } else { Some(unidades.len() - 1) };
                    cajas.push(
                        Cruda { pagina: pagina as usize, tag, linea, x, y, ancho, alto, profundidad, unidad },
                    );
                },
                None => {},
            }
        }
        k = k + 1;
    }
    assert(todas.take(ls@.len() as int) =~= todas);
    Lectura { archivos, unidades, cajas }
}

// ---------------------------------------------------------------------------
// The file
// ---------------------------------------------------------------------------

/// What gzip decompresses from `datos`, where it can (flate2's `GzDecoder`
/// read to the end); a function of the data alone.
pub uninterp spec fn gunzip(datos: Seq<u8>) -> Option<Seq<u8>>;

pub open spec fn opt_bytes(o: Option<Vec<u8>>) -> Option<Seq<u8>> {
    match o {
        Some(v) => Some(v@),
        None => None,
    }
}

/// Calls flate2's `GzDecoder` on `datos` and reads it to the end; `None`
/// where that fails. What comes out is named `gunzip`.
#[verifier::external_body]
fn descomprimir_gzip(datos: &[u8]) -> (r: Option<Vec<u8>>)
    ensures
        opt_bytes(r) == gunzip(datos@),
{
    let mut d = flate2::read::GzDecoder::new(datos);
    let mut buf = Vec::new();
    match std::io::Read::read_to_end(&mut d, &mut buf) {
        Ok(_) => Some(buf),
        Err(_) => None,
    }
}

/// The text of a SyncTeX file: decompressed where it comes in gzip (it
/// starts with `1f 8b`, as Tectonic writes it), as it is otherwise (as some
/// pdflatex configured by hand leave it); either way read as UTF-8, with
/// what is not replaced (a file name saved in the system's encoding must
/// not bring down the whole map). `None` where the gzip cannot be read.
pub fn descomprimir(datos: &[u8]) -> (r: Option<String>)
    ensures
        datos@.len() > 2 && datos@[0] == 0x1f && datos@[1] == 0x8b ==> match gunzip(datos@) {
            Some(b) => r matches Some(t) && t@ == texto_utf8(b),
            None => r is None,
        },
        !(datos@.len() > 2 && datos@[0] == 0x1f && datos@[1] == 0x8b) ==> (r matches Some(t) && t@ == texto_utf8(datos@)),
{
    if datos.len() > 2 && datos[0] == 0x1f && datos[1] == 0x8b {
        match descomprimir_gzip(datos) {
            Some(b) => Some(texto_de_bytes(b.as_slice())),
            None => None,
        }
    } else {
        Some(texto_de_bytes(datos))
    }
}

} // verus!
