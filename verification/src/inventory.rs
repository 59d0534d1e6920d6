//! The order of the project folder: what each file in it is and what is left
//! to do with it.
//!
//! A project is a folder of plain files, and things that Xtal did not write
//! end up in it: the oscilloscope's CSV, LTspice's `.raw`, a photo of the
//! bench. This module defines the order (which folder is for what) and checks
//! the files against it: what each file is, whether something already used it,
//! and which command uses the ones that are left. Walking the folder and
//! reading the files are the program's part; what it finds comes here.
//!
//! Whether a file was used is found out simply, on purpose: its name is looked
//! for in the `.toml` files that Xtal writes and in the report's LaTeX.
use vstd::prelude::*;
use crate::texto::{
    agregar, alfanumerico, cadena, caracteres, es_alfanumerico, iguales, lema_lex_irreflexivo,
    lema_lex_total, lema_lex_transitivo, lex_antes, lex_menor, minusculas, minusculas_de, tramo,
    tras_ultima, ultima, ultima_exec, lema_ultima_antes,
};

verus! {

broadcast use vstd::string::group_string_axioms;

// ---------------------------------------------------------------------------
// The folders
// ---------------------------------------------------------------------------

/// A folder of the project and what it is for.
#[derive(Clone, Copy, Debug)]
pub struct Carpeta {
    pub nombre: &'static str,
    /// What it is for, in one line.
    pub proposito: &'static str,
    /// Whether Xtal writes it (and nobody should edit it by hand).
    pub generada: bool,
}

/// The order of the folder, in the order it is best read: first what one puts
/// in, then what Xtal makes of it.
pub open spec fn orden_spec() -> Seq<(Seq<char>, Seq<char>, bool)> {
    seq![
        ("fuentes"@, "Lo que traés de afuera: CSV del osciloscopio, .raw de LTspice, netlists, scripts."@, false),
        ("imagenes"@, "Fotos y figuras que Xtal no dibuja. Se citan por su nombre a secas."@, false),
        ("esquematicos"@, "Los circuitos ya importados al proyecto (los deja `xtal circuit import`)."@, true),
        ("mediciones"@, "Cada curva: un .csv con los datos y un .toml con de dónde salió."@, true),
        ("graficos"@, "Las recetas de cada gráfico: qué mediciones lleva y con qué estilo."@, true),
        ("salida"@, "El .tex generado y el PDF. Se pisa entera en cada compilación."@, true),
    ]
}

pub open spec fn vista_carpetas(v: Seq<Carpeta>) -> Seq<(Seq<char>, Seq<char>, bool)> {
    v.map_values(|c: Carpeta| (c.nombre@, c.proposito@, c.generada))
}

/// The order of the folder. This table is the convention: `xtal new` creates
/// the folders, each project's `AGENTS.md` explains them and `xtal scan`
/// checks them.
pub fn orden() -> (r: Vec<Carpeta>)
    ensures
        vista_carpetas(r@) == orden_spec(),
{
    let mut r: Vec<Carpeta> = Vec::new();
    r.push(Carpeta {
        nombre: "fuentes",
        proposito: "Lo que traés de afuera: CSV del osciloscopio, .raw de LTspice, netlists, scripts.",
        generada: false,
    });
    r.push(Carpeta {
        nombre: "imagenes",
        proposito: "Fotos y figuras que Xtal no dibuja. Se citan por su nombre a secas.",
        generada: false,
    });
    r.push(Carpeta {
        nombre: "esquematicos",
        proposito: "Los circuitos ya importados al proyecto (los deja `xtal circuit import`).",
        generada: true,
    });
    r.push(Carpeta {
        nombre: "mediciones",
        proposito: "Cada curva: un .csv con los datos y un .toml con de dónde salió.",
        generada: true,
    });
    r.push(Carpeta {
        nombre: "graficos",
        proposito: "Las recetas de cada gráfico: qué mediciones lleva y con qué estilo.",
        generada: true,
    });
    r.push(Carpeta {
        nombre: "salida",
        proposito: "El .tex generado y el PDF. Se pisa entera en cada compilación.",
        generada: true,
    });
    assert(vista_carpetas(r@) =~= orden_spec());
    r
}

/// The folders that `xtal new` creates, in order.
pub fn carpetas_del_proyecto() -> (r: Vec<&'static str>)
    ensures
        r@.len() == orden_spec().len(),
        forall|k: int| 0 <= k < r@.len() ==> (#[trigger] r@[k])@ == orden_spec()[k].0,
{
    let o = orden();
    let mut r: Vec<&'static str> = Vec::new();
    let mut k: usize = 0;
    while k < o.len()
        invariant
            k <= o@.len(),
            vista_carpetas(o@) == orden_spec(),
            r@.len() == k,
            forall|j: int| 0 <= j < k ==> (#[trigger] r@[j])@ == orden_spec()[j].0,
        decreases o@.len() - k,
    {
        let ghost antes = r@;
        assert(vista_carpetas(o@)[k as int] == (o@[k as int].nombre@, o@[k as int].proposito@, o@[k as int].generada));
        r.push(o[k].nombre);
        assert(r@ == antes.push(o@[k as int].nombre));
        k = k + 1;
    }
    r
}

fn igual(x: &[char], lit: &str) -> (r: bool)
    ensures
        r == (x@ == lit@),
{
    iguales(x, &caracteres(lit))
}

/// A folder that Xtal writes: nothing in it is left to do.
pub open spec fn es_generada_spec(nombre: Seq<char>) -> bool {
    nombre == "esquematicos"@ || nombre == "mediciones"@ || nombre == "graficos"@ || nombre == "salida"@
}

/// An entry that the walk leaves out: anything hidden (`.git`, `.DS_Store`),
/// the folders that Xtal writes, and the files it writes in the root.
pub open spec fn omitida(nombre: Seq<char>, es_carpeta: bool, en_raiz: bool) -> bool {
    (nombre.len() > 0 && nombre[0] == '.') || (es_carpeta && es_generada_spec(nombre)) || (!es_carpeta
        && en_raiz && (nombre == "xtal.toml"@ || nombre == "AGENTS.md"@))
}

/// Whether the walk of the folder leaves out the entry `nombre` (a folder or a
/// file, in the root or not).
pub fn omitir(nombre: &str, es_carpeta: bool, en_raiz: bool) -> (r: bool)
    ensures
        r == omitida(nombre@, es_carpeta, en_raiz),
{
    let n = caracteres(nombre);
    if n.len() > 0 && n[0] == '.' {
        return true;
    }
    if es_carpeta {
        igual(&n, "esquematicos") || igual(&n, "mediciones") || igual(&n, "graficos") || igual(&n, "salida")
    } else {
        en_raiz && (igual(&n, "xtal.toml") || igual(&n, "AGENTS.md"))
    }
}

// ---------------------------------------------------------------------------
// Kinds of file
// ---------------------------------------------------------------------------

/// What kind of file it is, which is the same as what can be done with it.
#[derive(Debug, Clone, Copy, PartialEq, Eq, Structural)]
pub enum Clase {
    /// CSV or a text table: an instrument's data.
    Datos,
    /// The rawfile of a simulation that already ran (LTspice/ngspice).
    Rawfile,
    /// A SPICE netlist in text.
    Netlist,
    /// An LTspice schematic; it is netlisted before simulating.
    Esquematico,
    /// A photo or figure for the report.
    Imagen,
    /// LaTeX written by hand.
    Latex,
    /// BibTeX bibliography.
    Bibliografia,
    /// Anything else: a script, a note, a reference PDF.
    Otro,
}

/// The kind that an extension (already in lowercase) gives.
pub open spec fn clase_de(e: Seq<char>) -> Clase {
    if e == "csv"@ || e == "tsv"@ || e == "dat"@ {
        Clase::Datos
    } else if e == "raw"@ {
        Clase::Rawfile
    } else if e == "cir"@ || e == "net"@ || e == "sp"@ || e == "spice"@ {
        Clase::Netlist
    } else if e == "asc"@ {
        Clase::Esquematico
    } else if e == "png"@ || e == "jpg"@ || e == "jpeg"@ || e == "gif"@ || e == "heic"@ || e == "tif"@
        || e == "tiff"@ || e == "svg"@ || e == "eps"@ {
        Clase::Imagen
    } else if e == "tex"@ {
        Clase::Latex
    } else if e == "bib"@ {
        Clase::Bibliografia
    } else {
        Clase::Otro
    }
}

/// The image formats a report takes.
pub open spec fn formatos_de_imagen() -> Seq<Seq<char>> {
    seq!["png"@, "jpg"@, "jpeg"@, "gif"@, "heic"@, "tif"@, "tiff"@, "svg"@, "eps"@]
}

/// Every image format a report takes is an image, whose place is
/// `imagenes/`; and an image is a file of one of those formats.
pub proof fn cada_formato_de_imagen_es_una_imagen()
    ensures
        forall|k: int| 0 <= k < formatos_de_imagen().len()
            ==> #[trigger] clase_de(formatos_de_imagen()[k]) == Clase::Imagen,
        Clase::Imagen.carpeta_de() == Some("imagenes"@),
        forall|e: Seq<char>| clase_de(e) == Clase::Imagen ==> formatos_de_imagen().contains(e),
{
    reveal_strlit("csv");
    reveal_strlit("tsv");
    reveal_strlit("dat");
    reveal_strlit("raw");
    reveal_strlit("cir");
    reveal_strlit("net");
    reveal_strlit("sp");
    reveal_strlit("spice");
    reveal_strlit("asc");
    reveal_strlit("png");
    reveal_strlit("jpg");
    reveal_strlit("jpeg");
    reveal_strlit("gif");
    reveal_strlit("heic");
    reveal_strlit("tif");
    reveal_strlit("tiff");
    reveal_strlit("svg");
    reveal_strlit("eps");
    reveal_strlit("tex");
    reveal_strlit("bib");
    assert("asc"@.len() == 3);
    assert("cir"@.len() == 3);
    assert("csv"@.len() == 3);
    assert("dat"@.len() == 3);
    assert("eps"@.len() == 3);
    assert("gif"@.len() == 3);
    assert("heic"@.len() == 4);
    assert("jpeg"@.len() == 4);
    assert("jpg"@.len() == 3);
    assert("net"@.len() == 3);
    assert("png"@.len() == 3);
    assert("raw"@.len() == 3);
    assert("sp"@.len() == 2);
    assert("spice"@.len() == 5);
    assert("svg"@.len() == 3);
    assert("tif"@.len() == 3);
    assert("tiff"@.len() == 4);
    assert("tsv"@.len() == 3);
    assert("png"@[0] != "csv"@[0]);
    assert("png"@[0] != "tsv"@[0]);
    assert("png"@[0] != "dat"@[0]);
    assert("png"@[0] != "raw"@[0]);
    assert("png"@[0] != "cir"@[0]);
    assert("png"@[0] != "net"@[0]);
    assert("png"@[0] != "asc"@[0]);
    assert("jpg"@[0] != "csv"@[0]);
    assert("jpg"@[0] != "tsv"@[0]);
    assert("jpg"@[0] != "dat"@[0]);
    assert("jpg"@[0] != "raw"@[0]);
    assert("jpg"@[0] != "cir"@[0]);
    assert("jpg"@[0] != "net"@[0]);
    assert("jpg"@[0] != "asc"@[0]);
    assert("gif"@[0] != "csv"@[0]);
    assert("gif"@[0] != "tsv"@[0]);
    assert("gif"@[0] != "dat"@[0]);
    assert("gif"@[0] != "raw"@[0]);
    assert("gif"@[0] != "cir"@[0]);
    assert("gif"@[0] != "net"@[0]);
    assert("gif"@[0] != "asc"@[0]);
    assert("tif"@[0] != "csv"@[0]);
    assert("tif"@[1] != "tsv"@[1]);
    assert("tif"@[0] != "dat"@[0]);
    assert("tif"@[0] != "raw"@[0]);
    assert("tif"@[0] != "cir"@[0]);
    assert("tif"@[0] != "net"@[0]);
    assert("tif"@[0] != "asc"@[0]);
    assert("svg"@[0] != "csv"@[0]);
    assert("svg"@[0] != "tsv"@[0]);
    assert("svg"@[0] != "dat"@[0]);
    assert("svg"@[0] != "raw"@[0]);
    assert("svg"@[0] != "cir"@[0]);
    assert("svg"@[0] != "net"@[0]);
    assert("svg"@[0] != "asc"@[0]);
    assert("eps"@[0] != "csv"@[0]);
    assert("eps"@[0] != "tsv"@[0]);
    assert("eps"@[0] != "dat"@[0]);
    assert("eps"@[0] != "raw"@[0]);
    assert("eps"@[0] != "cir"@[0]);
    assert("eps"@[0] != "net"@[0]);
    assert("eps"@[0] != "asc"@[0]);
    assert(clase_de("png"@) == Clase::Imagen);
    assert(clase_de("jpg"@) == Clase::Imagen);
    assert(clase_de("jpeg"@) == Clase::Imagen);
    assert(clase_de("gif"@) == Clase::Imagen);
    assert(clase_de("heic"@) == Clase::Imagen);
    assert(clase_de("tif"@) == Clase::Imagen);
    assert(clase_de("tiff"@) == Clase::Imagen);
    assert(clase_de("svg"@) == Clase::Imagen);
    assert(clase_de("eps"@) == Clase::Imagen);
    assert forall|k: int| 0 <= k < formatos_de_imagen().len()
        implies #[trigger] clase_de(formatos_de_imagen()[k]) == Clase::Imagen by {
        assert(formatos_de_imagen()[k] == seq!["png"@, "jpg"@, "jpeg"@, "gif"@, "heic"@, "tif"@, "tiff"@, "svg"@, "eps"@][k]);
    }
    assert forall|e: Seq<char>| clase_de(e) == Clase::Imagen implies formatos_de_imagen().contains(e) by {
        let f = formatos_de_imagen();
        if e == "png"@ { assert(f[0] == e); }
        if e == "jpg"@ { assert(f[1] == e); }
        if e == "jpeg"@ { assert(f[2] == e); }
        if e == "gif"@ { assert(f[3] == e); }
        if e == "heic"@ { assert(f[4] == e); }
        if e == "tif"@ { assert(f[5] == e); }
        if e == "tiff"@ { assert(f[6] == e); }
        if e == "svg"@ { assert(f[7] == e); }
        if e == "eps"@ { assert(f[8] == e); }
    }
}

impl Clase {
    pub open spec fn nombre_de(self) -> Seq<char> {
        match self {
            Clase::Datos => "datos"@,
            Clase::Rawfile => "rawfile"@,
            Clase::Netlist => "netlist"@,
            Clase::Esquematico => "esquemático"@,
            Clase::Imagen => "imagen"@,
            Clase::Latex => "LaTeX"@,
            Clase::Bibliografia => "bibliografía"@,
            Clase::Otro => "otro"@,
        }
    }

    /// The name shown to a person.
    pub fn nombre(self) -> (r: &'static str)
        ensures
            r@ == self.nombre_de(),
    {
        match self {
            Clase::Datos => "datos",
            Clase::Rawfile => "rawfile",
            Clase::Netlist => "netlist",
            Clase::Esquematico => "esquemático",
            Clase::Imagen => "imagen",
            Clase::Latex => "LaTeX",
            Clase::Bibliografia => "bibliografía",
            Clase::Otro => "otro",
        }
    }

    pub open spec fn clave_de(self) -> Seq<char> {
        match self {
            Clase::Datos => "data"@,
            Clase::Rawfile => "rawfile"@,
            Clase::Netlist => "netlist"@,
            Clase::Esquematico => "schematic"@,
            Clase::Imagen => "image"@,
            Clase::Latex => "latex"@,
            Clase::Bibliografia => "bibliography"@,
            Clase::Otro => "other"@,
        }
    }

    /// The key that `--json` writes (the app parses it).
    pub fn clave(self) -> (r: &'static str)
        ensures
            r@ == self.clave_de(),
    {
        match self {
            Clase::Datos => "data",
            Clase::Rawfile => "rawfile",
            Clase::Netlist => "netlist",
            Clase::Esquematico => "schematic",
            Clase::Imagen => "image",
            Clase::Latex => "latex",
            Clase::Bibliografia => "bibliography",
            Clase::Otro => "other",
        }
    }

    pub open spec fn carpeta_de(self) -> Option<Seq<char>> {
        match self {
            Clase::Datos | Clase::Rawfile | Clase::Netlist | Clase::Esquematico => Some("fuentes"@),
            Clase::Imagen => Some("imagenes"@),
            Clase::Latex | Clase::Bibliografia | Clase::Otro => None,
        }
    }

    /// Where a file of this kind goes; `None` where it is fine wherever it is
    /// (hand-written LaTeX lives in the root, a bibliography beside it).
    pub fn carpeta(self) -> (r: Option<&'static str>)
        ensures
            match r {
                Some(c) => self.carpeta_de() == Some(c@),
                None => self.carpeta_de() is None,
            },
    {
        match self {
            Clase::Datos | Clase::Rawfile | Clase::Netlist | Clase::Esquematico => Some("fuentes"),
            Clase::Imagen => Some("imagenes"),
            Clase::Latex | Clase::Bibliografia | Clase::Otro => None,
        }
    }

    /// The kind of a file by its extension, already in lowercase.
    pub fn de_extension(ext: &str) -> (r: Clase)
        ensures
            r == clase_de(ext@),
    {
        let e = caracteres(ext);
        if igual(&e, "csv") || igual(&e, "tsv") || igual(&e, "dat") {
            Clase::Datos
        } else if igual(&e, "raw") {
            Clase::Rawfile
        } else if igual(&e, "cir") || igual(&e, "net") || igual(&e, "sp") || igual(&e, "spice") {
            Clase::Netlist
        } else if igual(&e, "asc") {
            Clase::Esquematico
        } else if igual(&e, "png") || igual(&e, "jpg") || igual(&e, "jpeg") || igual(&e, "gif") || igual(
            &e,
            "heic",
        ) || igual(&e, "tif") || igual(&e, "tiff") || igual(&e, "svg") || igual(&e, "eps") {
            Clase::Imagen
        } else if igual(&e, "tex") {
            Clase::Latex
        } else if igual(&e, "bib") {
            Clase::Bibliografia
        } else {
            Clase::Otro
        }
    }
}

/// The extension of a file's name as `Path::extension` gives it (what follows
/// the last `.`, unless that `.` opens the name), in lowercase; empty where
/// there is none.
pub open spec fn extension_de(nombre: Seq<char>) -> Seq<char> {
    if ultima(nombre, '.') > 0 {
        minusculas_de(tras_ultima(nombre, '.'))
    } else {
        Seq::empty()
    }
}

/// The lowercase extension of a file's name (empty where it has none).
pub fn extension(nombre: &str) -> (r: String)
    ensures
        r@ == extension_de(nombre@),
{
    let n = caracteres(nombre);
    proof {
        lema_ultima_antes(n@, n@.len() as int, '.');
    }
    match ultima_exec(&n, '.') {
        Some(k) => {
            if k > 0 {
                assert(k < n@.len());
                assert(n@.len() == n.len());
                let e = tramo(&n, k + 1, n.len());
                minusculas(cadena(&e).as_str())
            } else {
                String::new()
            }
        },
        None => String::new(),
    }
}

// ---------------------------------------------------------------------------
// One file
// ---------------------------------------------------------------------------

/// A file of the project that Xtal did not write.
#[derive(Debug, Clone)]
pub struct Archivo {
    /// The path from the project's root, always with `/`.
    pub path: String,
    pub clase: Clase,
    /// Whether some command already used it.
    pub usado: bool,
    /// Where it should be, if it is elsewhere; `None` where it is in place.
    pub deberia_ir_en: Option<&'static str>,
    /// The command that makes it part of the report; `None` if there is none.
    pub comando: Option<String>,
}

/// A file as plain values.
pub struct ArchivoV {
    pub path: Seq<char>,
    pub clase: Clase,
    pub usado: bool,
    pub deberia_ir_en: Option<Seq<char>>,
    pub comando: Option<Seq<char>>,
}

impl Archivo {
    pub open spec fn vista(&self) -> ArchivoV {
        ArchivoV {
            path: self.path@,
            clase: self.clase,
            usado: self.usado,
            deberia_ir_en: match self.deberia_ir_en {
                Some(c) => Some(c@),
                None => None,
            },
            comando: match self.comando {
                Some(c) => Some(c@),
                None => None,
            },
        }
    }
}

/// The name of the file of a path.
pub open spec fn nombre_en(path: Seq<char>) -> Seq<char> {
    tras_ultima(path, '/')
}

/// The folder of a path, if it is not in the root.
pub open spec fn carpeta_en(path: Seq<char>) -> Option<Seq<char>> {
    if ultima(path, '/') >= 0 {
        Some(path.subrange(0, ultima(path, '/')))
    } else {
        None
    }
}

/// `-` and blanks become `_`.
pub open spec fn con_guiones_bajos(s: Seq<char>) -> Seq<char> {
    s.map_values(|c: char| if c == '-' || c == ' ' { '_' } else { c })
}

/// The id a command proposes for a file: its name without the extension (the
/// whole path where the name has no `.`), with `-` and spaces as `_`.
pub open spec fn id_de(path: Seq<char>) -> Seq<char> {
    let n = nombre_en(path);
    con_guiones_bajos(if ultima(n, '.') >= 0 { n.subrange(0, ultima(n, '.')) } else { path })
}

/// The command that turns a file into something of the report.
pub open spec fn comando_de(clase: Clase, path: Seq<char>) -> Option<Seq<char>> {
    let id = id_de(path);
    match clase {
        Clase::Datos => Some(
            "xtal meas import "@ + path + " --id "@ + id
                + " --kind measured  (antes: --inspect para ver las columnas)"@,
        ),
        Clase::Rawfile => Some("xtal raw import "@ + path + " --as "@ + id + "  (antes: --inspect)"@),
        Clase::Netlist => Some("xtal circuit import "@ + path + " --as "@ + id),
        Clase::Esquematico => Some(
            "xtal circuit import "@ + path + " --as "@ + id + "  (necesita LTspice para netlistar el .asc)"@,
        ),
        Clase::Imagen => Some(
            "citala en el cuerpo de una sección: \\includegraphics[width=0.8\\linewidth]{"@ + nombre_en(path)
                + "}"@,
        ),
        Clase::Latex => Some("xtal compile "@ + path),
        Clase::Bibliografia | Clase::Otro => None,
    }
}

fn nombre_de_ruta(p: &[char]) -> (r: Vec<char>)
    ensures
        r@ == nombre_en(p@),
        ultima(p@, '/') >= 0 ==> carpeta_en(p@) == Some(p@.subrange(0, ultima(p@, '/'))),
{
    proof {
        lema_ultima_antes(p@, p@.len() as int, '/');
    }
    match ultima_exec(p, '/') {
        Some(k) => {
            assert(k < p@.len());
            assert(p@.len() == p.len());
            tramo(p, k + 1, p.len())
        },
        None => {
            assert(p@.subrange(0, p@.len() as int) =~= p@);
            tramo(p, 0, p.len())
        },
    }
}

fn guiones_bajos(s: &[char]) -> (r: Vec<char>)
    ensures
        r@ == con_guiones_bajos(s@),
{
    let mut r: Vec<char> = Vec::new();
    let mut i: usize = 0;
    while i < s.len()
        invariant
            i <= s@.len(),
            r@ == con_guiones_bajos(s@.take(i as int)),
        decreases s@.len() - i,
    {
        let c = s[i];
        r.push(if c == '-' || c == ' ' { '_' } else { c });
        i = i + 1;
        assert(r@ =~= con_guiones_bajos(s@.take(i as int)));
    }
    assert(s@.take(s@.len() as int) =~= s@);
    r
}

/// The command that uses a file of kind `clase` at `path`. Saying that a CSV
/// is still to be imported without saying how would send one to the
/// documentation, which is what this saves.
pub fn comando(clase: Clase, path: &str) -> (r: Option<String>)
    ensures
        match r {
            Some(c) => comando_de(clase, path@) == Some(c@),
            None => comando_de(clase, path@) is None,
        },
{
    let p = caracteres(path);
    let n = nombre_de_ruta(&p);
    let base = match ultima_exec(&n, '.') {
        Some(k) => {
            proof {
                lema_ultima_antes(n@, n@.len() as int, '.');
            }
            tramo(&n, 0, k)
        },
        None => tramo(&p, 0, p.len()),
    };
    assert(p@.subrange(0, p@.len() as int) =~= p@);
    let id = guiones_bajos(&base);
    let mut m: Vec<char>;
    match clase {
        Clase::Datos => {
            m = caracteres("xtal meas import ");
            agregar(&mut m, &p);
            agregar(&mut m, &caracteres(" --id "));
            agregar(&mut m, &id);
            agregar(&mut m, &caracteres(" --kind measured  (antes: --inspect para ver las columnas)"));
        },
        Clase::Rawfile => {
            m = caracteres("xtal raw import ");
            agregar(&mut m, &p);
            agregar(&mut m, &caracteres(" --as "));
            agregar(&mut m, &id);
            agregar(&mut m, &caracteres("  (antes: --inspect)"));
        },
        Clase::Netlist => {
            m = caracteres("xtal circuit import ");
            agregar(&mut m, &p);
            agregar(&mut m, &caracteres(" --as "));
            agregar(&mut m, &id);
        },
        Clase::Esquematico => {
            m = caracteres("xtal circuit import ");
            agregar(&mut m, &p);
            agregar(&mut m, &caracteres(" --as "));
            agregar(&mut m, &id);
            agregar(&mut m, &caracteres("  (necesita LTspice para netlistar el .asc)"));
        },
        Clase::Imagen => {
            m = caracteres("citala en el cuerpo de una sección: \\includegraphics[width=0.8\\linewidth]{");
            agregar(&mut m, &n);
            agregar(&mut m, &caracteres("}"));
        },
        Clase::Latex => {
            m = caracteres("xtal compile ");
            agregar(&mut m, &p);
        },
        Clase::Bibliografia | Clase::Otro => {
            return None;
        },
    }
    Some(cadena(&m))
}

/// Where a file should go, if it is not there: the folder of its kind, when
/// the file is in another one (or in the root).
pub open spec fn destino_de(clase: Clase, path: Seq<char>) -> Option<Seq<char>> {
    match clase.carpeta_de() {
        Some(e) => if carpeta_en(path) == Some(e) {
            None
        } else {
            Some(e)
        },
        None => None,
    }
}

// ---------------------------------------------------------------------------
// The names that the project cites
// ---------------------------------------------------------------------------

/// A character that can be part of a file's name.
pub open spec fn de_nombre(c: char) -> bool {
    es_alfanumerico(c) || c == '.' || c == '_' || c == '-'
}

/// The first position from `i` whose character cannot be part of a name.
pub open spec fn fin_ficha(t: Seq<char>, i: int) -> int
    decreases t.len() - i,
{
    if 0 <= i < t.len() && de_nombre(t[i]) {
        fin_ficha(t, i + 1)
    } else {
        i
    }
}

proof fn lema_fin_ficha(t: Seq<char>, i: int)
    requires
        0 <= i <= t.len(),
    ensures
        i <= fin_ficha(t, i) <= t.len(),
    decreases t.len() - i,
{
    if i < t.len() && de_nombre(t[i]) {
        lema_fin_ficha(t, i + 1);
    }
}

/// The pieces of `t` from `i` between characters that cannot be part of a
/// name (`str::split` with that predicate).
pub open spec fn fichas_desde(t: Seq<char>, i: int) -> Seq<Seq<char>>
    decreases t.len() - i,
{
    if i < 0 || i > t.len() {
        Seq::empty()
    } else {
        let j = fin_ficha(t, i);
        if j < i || j > t.len() {
            Seq::empty()
        } else if j < t.len() {
            seq![t.subrange(i, j)] + fichas_desde(t, j + 1)
        } else {
            seq![t.subrange(i, j)]
        }
    }
}

/// The first position from `i` that is not a `.`.
pub open spec fn salta_puntos(t: Seq<char>, i: int) -> int
    decreases t.len() - i,
{
    if 0 <= i < t.len() && t[i] == '.' {
        salta_puntos(t, i + 1)
    } else {
        i
    }
}

/// The end of `t[a..j]` without its final `.`s.
pub open spec fn corta_puntos(t: Seq<char>, a: int, j: int) -> int
    decreases j - a,
{
    if a < j && 0 < j <= t.len() && t[j - 1] == '.' {
        corta_puntos(t, a, j - 1)
    } else {
        j
    }
}

/// `str::trim_matches('.')`.
pub open spec fn sin_puntos(t: Seq<char>) -> Seq<char> {
    let a = salta_puntos(t, 0);
    t.subrange(a, corta_puntos(t, a, t.len() as int))
}

/// The names among some pieces: those with a `.`, without the `.`s at their
/// ends.
pub open spec fn nombres_en(fs: Seq<Seq<char>>) -> Seq<Seq<char>>
    decreases fs.len(),
{
    if fs.len() == 0 {
        Seq::empty()
    } else if fs.last().contains('.') {
        nombres_en(fs.drop_last()).push(sin_puntos(fs.last()))
    } else {
        nombres_en(fs.drop_last())
    }
}

/// The file names that a text mentions: the pieces between characters that
/// cannot be part of a name, those with a `.`, trimmed of `.`s.
pub open spec fn citados_en(texto: Seq<char>) -> Seq<Seq<char>> {
    nombres_en(fichas_desde(texto, 0))
}

proof fn lema_salta_puntos(t: Seq<char>, i: int)
    requires
        0 <= i <= t.len(),
    ensures
        i <= salta_puntos(t, i) <= t.len(),
    decreases t.len() - i,
{
    if i < t.len() && t[i] == '.' {
        lema_salta_puntos(t, i + 1);
    }
}

proof fn lema_corta_puntos(t: Seq<char>, a: int, j: int)
    requires
        0 <= a <= j <= t.len(),
    ensures
        a <= corta_puntos(t, a, j) <= j,
    decreases j - a,
{
    if a < j && t[j - 1] == '.' {
        lema_corta_puntos(t, a, j - 1);
    }
}

fn recorte_puntos(t: &[char]) -> (r: Vec<char>)
    ensures
        r@ == sin_puntos(t@),
{
    let mut a: usize = 0;
    while a < t.len() && t[a] == '.'
        invariant
            a <= t@.len(),
            salta_puntos(t@, a as int) == salta_puntos(t@, 0),
        decreases t@.len() - a,
    {
        a = a + 1;
    }
    let mut b: usize = t.len();
    while a < b && t[b - 1] == '.'
        invariant
            a <= b <= t@.len(),
            corta_puntos(t@, a as int, b as int) == corta_puntos(t@, a as int, t@.len() as int),
        decreases b - a,
    {
        b = b - 1;
    }
    tramo(t, a, b)
}

/// The file names that a text mentions (the `.toml` files that Xtal writes
/// keep the file each measurement came from; the LaTeX cites images by name).
/// A name is compared and not a path: the same photo is cited as `banco.jpg`
/// though it lives in `imagenes/banco.jpg`.
pub fn nombres_citados(texto: &str) -> (r: Vec<String>)
    ensures
        r@.map_values(|s: String| s@) == citados_en(texto@),
{
    let t = caracteres(texto);
    let mut r: Vec<String> = Vec::new();
    let mut i: usize = 0;
    let mut fin = false;
    let ghost todas = fichas_desde(t@, 0);
    let ghost hechas: Seq<Seq<char>> = Seq::empty();
    while !fin
        invariant
            i <= t@.len(),
            t@ == texto@,
            todas == fichas_desde(t@, 0),
            !fin ==> hechas + fichas_desde(t@, i as int) == todas,
            fin ==> hechas == todas,
            r@.map_values(|s: String| s@) == nombres_en(hechas),
        decreases t@.len() - i + (if fin { 0int } else { 1int }),
    {
        let mut j: usize = i;
        while j < t.len() && (alfanumerico(t[j]) || t[j] == '.' || t[j] == '_' || t[j] == '-')
            invariant
                i <= j <= t@.len(),
                fin_ficha(t@, j as int) == fin_ficha(t@, i as int),
            decreases t@.len() - j,
        {
            j = j + 1;
        }
        proof {
            lema_fin_ficha(t@, i as int);
        }
        let f = tramo(&t, i, j);
        let ghost antes = hechas;
        proof {
            hechas = hechas.push(f@);
            assert(hechas.drop_last() =~= antes);
        }
        if crate::texto::contiene_char(&f, '.') {
            let limpio = recorte_puntos(&f);
            let ghost vr = r@.map_values(|s: String| s@);
            r.push(cadena(&limpio));
            assert(r@.map_values(|s: String| s@) =~= vr.push(limpio@));
        }
        if j < t.len() {
            assert(hechas + fichas_desde(t@, j + 1) =~= antes + fichas_desde(t@, i as int));
            i = j + 1;
        } else {
            assert(hechas =~= antes + fichas_desde(t@, i as int));
            fin = true;
        }
    }
    r
}


// ---------------------------------------------------------------------------
// The inventory
// ---------------------------------------------------------------------------

/// Everything in the folder, classified.
#[derive(Debug)]
pub struct Inventario {
    pub archivos: Vec<Archivo>,
}

/// What identifies a file that the walk found: its path and kind.
pub open spec fn claves(v: Seq<Archivo>) -> Seq<(Seq<char>, Clase)> {
    v.map_values(|a: Archivo| (a.path@, a.clase))
}

/// The files go by path, character by character.
pub open spec fn por_ruta(v: Seq<Archivo>) -> bool {
    forall|i: int, j: int| 0 <= i < j < v.len() ==> !lex_menor(#[trigger] v[j].path@, #[trigger] v[i].path@)
}

proof fn lema_no_menor(a: Seq<char>, b: Seq<char>, c: Seq<char>)
    requires
        !lex_menor(b, a),
        !lex_menor(c, b),
    ensures
        !lex_menor(c, a),
{
    if lex_menor(c, a) {
        lema_lex_total(a, b);
        if a == b {
        } else if lex_menor(a, b) {
            lema_lex_total(b, c);
            if b == c {
            } else {
                lema_lex_transitivo(a, b, c);
                lema_lex_transitivo(c, a, b);
            }
        }
    }
}

proof fn lema_asimetrico(a: Seq<char>, b: Seq<char>)
    requires
        lex_menor(a, b),
    ensures
        !lex_menor(b, a),
{
    if lex_menor(b, a) {
        lema_lex_transitivo(a, b, a);
        lema_lex_irreflexivo(a);
    }
}

/// Sorts the files by path (insertion keeps equal paths in their order).
fn ordenar(v: Vec<Archivo>) -> (r: Vec<Archivo>)
    ensures
        por_ruta(r@),
        claves(r@).to_multiset() == claves(v@).to_multiset(),
{
    broadcast use vstd::seq_lib::group_seq_properties;
    broadcast use vstd::multiset::group_multiset_axioms;

    let mut pend = v;
    let mut r: Vec<Archivo> = Vec::new();
    assert(claves(r@) =~= Seq::<(Seq<char>, Clase)>::empty());
    while pend.len() > 0
        invariant
            por_ruta(r@),
            claves(r@).to_multiset().add(claves(pend@).to_multiset()) == claves(v@).to_multiset(),
        decreases pend@.len(),
    {
        let ghost p0 = pend@;
        let a = pend.pop().unwrap();
        assert(claves(p0) =~= claves(pend@).push((a.path@, a.clase)));
        let ca = caracteres(a.path.as_str());
        let mut p: usize = 0;
        while p < r.len() && lex_antes(&caracteres(r[p].path.as_str()), &ca)
            invariant
                p <= r@.len(),
                ca@ == a.path@,
                forall|k: int| 0 <= k < p ==> lex_menor((#[trigger] r@[k]).path@, a.path@),
            decreases r@.len() - p,
        {
            p = p + 1;
        }
        let ghost r0 = r@;
        r.insert(p, a);
        proof {
            assert(r@ == r0.insert(p as int, a));
            let ka = (a.path@, a.clase);
            assert(claves(r@) =~= claves(r0).insert(p as int, ka));
            vstd::seq_lib::to_multiset_insert(claves(r0), p as int, ka);
            vstd::seq_lib::to_multiset_build(claves(pend@), ka);
            assert(claves(r@).to_multiset().add(claves(pend@).to_multiset()) =~= claves(r0).to_multiset().add(
                claves(p0).to_multiset(),
            ));
            assert forall|i: int, j: int| 0 <= i < j < r@.len() implies !lex_menor(
                #[trigger] r@[j].path@,
                #[trigger] r@[i].path@,
            ) by {
                if j < p {
                    assert(r@[i] == r0[i] && r@[j] == r0[j]);
                } else if j == p {
                    assert(r@[i] == r0[i]);
                    lema_asimetrico(r0[i].path@, a.path@);
                } else if i > p {
                    assert(r@[i] == r0[i - 1] && r@[j] == r0[j - 1]);
                } else if i == p {
                    assert(r@[j] == r0[j - 1]);
                    if j - 1 > p {
                        lema_no_menor(a.path@, r0[p as int].path@, r0[j - 1].path@);
                    }
                } else {
                    assert(r@[i] == r0[i]);
                    assert(r@[j] == r0[j - 1]);
                }
            }
        }
    }
    assert(claves(pend@) =~= Seq::<(Seq<char>, Clase)>::empty());
    r
}

pub open spec fn textos(v: Seq<String>) -> Seq<Seq<char>> {
    v.map_values(|s: String| s@)
}

/// A file once it is known whether it was used, where it goes and how it is
/// used: used if the project cites its name, or if it is a netlist already
/// copied into `esquematicos/` under that name.
pub open spec fn clasificado(path: Seq<char>, clase: Clase, citados: Seq<Seq<char>>, esquematicos: Seq<Seq<char>>) -> ArchivoV {
    ArchivoV {
        path,
        clase,
        usado: citados.contains(nombre_en(path)) || (clase == Clase::Netlist && esquematicos.contains(
            nombre_en(path),
        )),
        deberia_ir_en: destino_de(clase, path),
        comando: comando_de(clase, path),
    }
}

fn esta(v: &Vec<String>, n: &[char]) -> (r: bool)
    ensures
        r == textos(v@).contains(n@),
{
    let mut k: usize = 0;
    while k < v.len()
        invariant
            k <= v@.len(),
            forall|j: int| 0 <= j < k ==> textos(v@)[j] != n@,
        decreases v@.len() - k,
    {
        if iguales(&caracteres(v[k].as_str()), n) {
            assert(textos(v@)[k as int] == n@);
            return true;
        }
        k = k + 1;
    }
    false
}

fn destino(clase: Clase, p: &[char]) -> (r: Option<&'static str>)
    ensures
        match r {
            Some(c) => destino_de(clase, p@) == Some(c@),
            None => destino_de(clase, p@) is None,
        },
{
    proof {
        lema_ultima_antes(p@, p@.len() as int, '/');
    }
    match clase.carpeta() {
        Some(e) => {
            match ultima_exec(p, '/') {
                Some(k) => {
                    let dir = tramo(p, 0, k);
                    if iguales(&dir, &caracteres(e)) {
                        None
                    } else {
                        Some(e)
                    }
                },
                None => Some(e),
            }
        },
        None => None,
    }
}

/// Classifies the files that the walk found (`encontrados`; their `usado`,
/// `deberia_ir_en` and `comando` are not read), sorted by path. `citados` are
/// the names that the project's `.toml` files and LaTeX mention
/// (`nombres_citados`); `esquematicos` the names of the files in
/// `esquematicos/`.
pub fn escanear(encontrados: Vec<Archivo>, citados: &Vec<String>, esquematicos: &Vec<String>) -> (inv: Inventario)
    ensures
        por_ruta(inv.archivos@),
        claves(inv.archivos@).to_multiset() == claves(encontrados@).to_multiset(),
        forall|i: int| 0 <= i < inv.archivos@.len() ==> (#[trigger] inv.archivos@[i]).vista() == clasificado(
            inv.archivos@[i].path@,
            inv.archivos@[i].clase,
            textos(citados@),
            textos(esquematicos@),
        ),
{
    let orden = ordenar(encontrados);
    let mut r: Vec<Archivo> = Vec::new();
    let mut k: usize = 0;
    while k < orden.len()
        invariant
            k <= orden@.len(),
            r@.len() == k,
            forall|j: int| 0 <= j < k ==> (#[trigger] r@[j]).path@ == orden@[j].path@ && r@[j].clase == orden@[j].clase,
            forall|j: int| 0 <= j < k ==> (#[trigger] r@[j]).vista() == clasificado(
                r@[j].path@,
                r@[j].clase,
                textos(citados@),
                textos(esquematicos@),
            ),
        decreases orden@.len() - k,
    {
        let a = &orden[k];
        let p = caracteres(a.path.as_str());
        let n = nombre_de_ruta(&p);
        let usado = esta(citados, &n) || (a.clase == Clase::Netlist && esta(esquematicos, &n));
        let nuevo = Archivo {
            path: a.path.clone(),
            clase: a.clase,
            usado,
            deberia_ir_en: destino(a.clase, &p),
            comando: comando(a.clase, a.path.as_str()),
        };
        r.push(nuevo);
        k = k + 1;
    }
    assert(claves(r@) =~= claves(orden@));
    assert forall|i: int, j: int| 0 <= i < j < r@.len() implies !lex_menor(
        #[trigger] r@[j].path@,
        #[trigger] r@[i].path@,
    ) by {
        assert(r@[i].path@ == orden@[i].path@);
        assert(r@[j].path@ == orden@[j].path@);
    }
    Inventario { archivos: r }
}

/// Still to be used: not used, and with a command that would use it.
pub open spec fn pendiente(a: Archivo) -> bool {
    !a.usado && a.comando is Some
}

/// The pending files among some, in order.
pub open spec fn pendientes(v: Seq<Archivo>) -> Seq<Archivo>
    decreases v.len(),
{
    if v.len() == 0 {
        Seq::empty()
    } else if pendiente(v.last()) {
        pendientes(v.drop_last()).push(v.last())
    } else {
        pendientes(v.drop_last())
    }
}

/// The misplaced files among some, in order.
pub open spec fn mal_ubicados(v: Seq<Archivo>) -> Seq<Archivo>
    decreases v.len(),
{
    if v.len() == 0 {
        Seq::empty()
    } else if v.last().deberia_ir_en is Some {
        mal_ubicados(v.drop_last()).push(v.last())
    } else {
        mal_ubicados(v.drop_last())
    }
}

pub open spec fn sin_ref(v: Seq<&Archivo>) -> Seq<Archivo> {
    v.map_values(|a: &Archivo| *a)
}

impl Inventario {
    /// The files that no command used yet and that one could use.
    pub fn sin_usar(&self) -> (r: Vec<&Archivo>)
        ensures
            sin_ref(r@) == pendientes(self.archivos@),
    {
        let mut r: Vec<&Archivo> = Vec::new();
        let mut k: usize = 0;
        while k < self.archivos.len()
            invariant
                k <= self.archivos@.len(),
                sin_ref(r@) == pendientes(self.archivos@.take(k as int)),
            decreases self.archivos@.len() - k,
        {
            assert(self.archivos@.take(k + 1).drop_last() =~= self.archivos@.take(k as int));
            let a = &self.archivos[k];
            if !a.usado && a.comando.is_some() {
                let ghost antes = sin_ref(r@);
                r.push(a);
                assert(sin_ref(r@) =~= antes.push(*a));
            }
            k = k + 1;
        }
        assert(self.archivos@.take(self.archivos@.len() as int) =~= self.archivos@);
        r
    }

    /// The files that are not in their folder.
    pub fn fuera_de_lugar(&self) -> (r: Vec<&Archivo>)
        ensures
            sin_ref(r@) == mal_ubicados(self.archivos@),
    {
        let mut r: Vec<&Archivo> = Vec::new();
        let mut k: usize = 0;
        while k < self.archivos.len()
            invariant
                k <= self.archivos@.len(),
                sin_ref(r@) == mal_ubicados(self.archivos@.take(k as int)),
            decreases self.archivos@.len() - k,
        {
            assert(self.archivos@.take(k + 1).drop_last() =~= self.archivos@.take(k as int));
            let a = &self.archivos[k];
            if a.deberia_ir_en.is_some() {
                let ghost antes = sin_ref(r@);
                r.push(a);
                assert(sin_ref(r@) =~= antes.push(*a));
            }
            k = k + 1;
        }
        assert(self.archivos@.take(self.archivos@.len() as int) =~= self.archivos@);
        r
    }
}

// ---------------------------------------------------------------------------
// By folder
// ---------------------------------------------------------------------------

/// The folder a path is in: what comes before its last `/`, or `.` in the
/// root.
pub open spec fn carpeta_del(p: Seq<char>) -> Seq<char> {
    if ultima(p, '/') >= 0 {
        p.subrange(0, ultima(p, '/'))
    } else {
        "."@
    }
}

/// The files of `v` that are in the folder `c`, in order.
pub open spec fn en_carpeta(v: Seq<Archivo>, c: Seq<char>) -> Seq<Archivo>
    decreases v.len(),
{
    if v.len() == 0 {
        Seq::empty()
    } else if carpeta_del(v.last().path@) == c {
        en_carpeta(v.drop_last(), c).push(v.last())
    } else {
        en_carpeta(v.drop_last(), c)
    }
}

proof fn lema_en_carpeta_vacia(v: Seq<Archivo>, c: Seq<char>)
    requires
        forall|m: int| 0 <= m < v.len() ==> carpeta_del((#[trigger] v[m]).path@) != c,
    ensures
        en_carpeta(v, c) == Seq::<Archivo>::empty(),
    decreases v.len(),
{
    if v.len() > 0 {
        assert forall|m: int| 0 <= m < v.drop_last().len() implies carpeta_del((#[trigger] v.drop_last()[m]).path@)
            != c by {
            assert(v.drop_last()[m] == v[m]);
        }
        lema_en_carpeta_vacia(v.drop_last(), c);
        assert(v.last() == v[v.len() - 1]);
    }
}

fn carpeta_exec(path: &String) -> (r: String)
    ensures
        r@ == carpeta_del(path@),
{
    let t = caracteres(path.as_str());
    match ultima_exec(&t, '/') {
        Some(k) => {
            proof {
                lema_ultima_antes(t@, t@.len() as int, '/');
            }
            cadena(&tramo(&t, 0, k))
        },
        None => ".".to_owned(),
    }
}

impl Inventario {
    /// The files grouped by the folder they are in, to show them: one group
    /// per folder, the folders in order, each group with its files in the
    /// order of the inventory.
    pub fn por_carpeta(&self) -> (r: Vec<(String, Vec<&Archivo>)>)
        ensures
            forall|i: int, j: int| 0 <= i < j < r@.len() ==> lex_menor(#[trigger] r@[i].0@, #[trigger] r@[j].0@),
            forall|i: int| 0 <= i < r@.len() ==> sin_ref((#[trigger] r@[i]).1@) == en_carpeta(self.archivos@, r@[i].0@),
            forall|i: int| 0 <= i < r@.len() ==> (#[trigger] r@[i]).1@.len() > 0,
            forall|m: int| 0 <= m < self.archivos@.len() ==> exists|i: int|
                0 <= i < r@.len() && #[trigger] r@[i].0@ == carpeta_del((#[trigger] self.archivos@[m]).path@),
    {
        let ghost v = self.archivos@;
        let mut r: Vec<(String, Vec<&Archivo>)> = Vec::new();
        let mut k: usize = 0;
        while k < self.archivos.len()
            invariant
                k <= v.len(),
                v == self.archivos@,
                forall|i: int, j: int| 0 <= i < j < r@.len() ==> lex_menor(#[trigger] r@[i].0@, #[trigger] r@[j].0@),
                forall|i: int| 0 <= i < r@.len() ==> sin_ref((#[trigger] r@[i]).1@) == en_carpeta(v.take(k as int), r@[i].0@),
                forall|i: int| 0 <= i < r@.len() ==> (#[trigger] r@[i]).1@.len() > 0,
                forall|m: int| 0 <= m < k ==> exists|i: int|
                    0 <= i < r@.len() && #[trigger] r@[i].0@ == carpeta_del((#[trigger] v[m]).path@),
            decreases v.len() - k,
        {
            let a = &self.archivos[k];
            let c = carpeta_exec(&a.path);
            let cc = caracteres(c.as_str());
            let ghost pre = v.take(k as int);
            let ghost pos = v.take(k + 1);
            assert(pos.drop_last() =~= pre);
            assert(pos.last() == *a);
            let mut p: usize = 0;
            while p < r.len() && lex_antes(&caracteres(r[p].0.as_str()), &cc)
                invariant
                    p <= r@.len(),
                    cc@ == c@,
                    forall|i: int| 0 <= i < p ==> lex_menor(#[trigger] r@[i].0@, c@),
                decreases r@.len() - p,
            {
                p = p + 1;
            }
            let ghost r0 = r@;
            if p < r.len() && iguales(&caracteres(r[p].0.as_str()), &cc) {
                let mut g = r.remove(p);
                let ghost g0 = g.1@;
                g.1.push(a);
                r.insert(p, g);
                proof {
                    assert forall|i: int| 0 <= i < r@.len() implies sin_ref((#[trigger] r@[i]).1@) == en_carpeta(
                        pos,
                        r@[i].0@,
                    ) by {
                        if i == p {
                            assert(sin_ref(r@[i].1@) =~= sin_ref(g0).push(*a));
                        } else {
                            assert(r@[i] == r0[i]);
                            if r0[i].0@ == c@ {
                                if i < p {
                                    lema_lex_irreflexivo(c@);
                                } else {
                                    lema_lex_irreflexivo(c@);
                                }
                            }
                        }
                    }
                    assert forall|m: int| 0 <= m < k + 1 implies exists|i: int|
                        0 <= i < r@.len() && #[trigger] r@[i].0@ == carpeta_del((#[trigger] v[m]).path@) by {
                        if m == k {
                            assert(r@[p as int].0@ == carpeta_del(v[m].path@));
                        } else {
                            let i = choose|i: int| 0 <= i < r0.len() && #[trigger] r0[i].0@ == carpeta_del(v[m].path@);
                            assert(r@[i].0@ == r0[i].0@);
                        }
                    }
                }
            } else {
                let ghost mayores = p < r0.len();
                proof {
                    if p < r0.len() {
                        lema_lex_total(r0[p as int].0@, c@);
                        assert(lex_menor(c@, r0[p as int].0@));
                    }
                    assert forall|i: int| 0 <= i < r0.len() implies (#[trigger] r0[i]).0@ != c@ by {
                        if i < p {
                            lema_lex_irreflexivo(c@);
                        } else {
                            if i > p {
                                lema_lex_transitivo(c@, r0[p as int].0@, r0[i].0@);
                            }
                            lema_lex_irreflexivo(c@);
                        }
                    }
                    assert forall|m: int| 0 <= m < pre.len() implies carpeta_del((#[trigger] pre[m]).path@) != c@ by {
                        assert(pre[m] == v[m]);
                        let i = choose|i: int| 0 <= i < r0.len() && #[trigger] r0[i].0@ == carpeta_del(v[m].path@);
                    }
                    lema_en_carpeta_vacia(pre, c@);
                }
                let mut g: Vec<&Archivo> = Vec::new();
                g.push(a);
                r.insert(p, (c, g));
                proof {
                    assert forall|i: int, j: int| 0 <= i < j < r@.len() implies lex_menor(
                        #[trigger] r@[i].0@,
                        #[trigger] r@[j].0@,
                    ) by {
                        if j < p {
                            assert(r@[i] == r0[i] && r@[j] == r0[j]);
                        } else if j == p {
                            assert(r@[i] == r0[i]);
                        } else if i > p {
                            assert(r@[i] == r0[i - 1] && r@[j] == r0[j - 1]);
                        } else if i == p {
                            assert(r@[j] == r0[j - 1]);
                            if j - 1 > p {
                                lema_lex_transitivo(c@, r0[p as int].0@, r0[j - 1].0@);
                            }
                        } else {
                            assert(r@[i] == r0[i]);
                            assert(r@[j] == r0[j - 1]);
                            lema_lex_transitivo(r0[i].0@, c@, r0[p as int].0@);
                        }
                    }
                    assert forall|i: int| 0 <= i < r@.len() implies sin_ref((#[trigger] r@[i]).1@) == en_carpeta(
                        pos,
                        r@[i].0@,
                    ) by {
                        if i == p {
                            assert(sin_ref(r@[i].1@) =~= seq![*a]);
                            assert(en_carpeta(pos, c@) =~= Seq::<Archivo>::empty().push(*a));
                        } else if i < p {
                            assert(r@[i] == r0[i]);
                        } else {
                            assert(r@[i] == r0[i - 1]);
                        }
                    }
                    assert forall|i: int| 0 <= i < r@.len() implies (#[trigger] r@[i]).1@.len() > 0 by {
                        if i < p {
                            assert(r@[i] == r0[i]);
                        } else if i > p {
                            assert(r@[i] == r0[i - 1]);
                        }
                    }
                    assert forall|m: int| 0 <= m < k + 1 implies exists|i: int|
                        0 <= i < r@.len() && #[trigger] r@[i].0@ == carpeta_del((#[trigger] v[m]).path@) by {
                        if m == k {
                            assert(r@[p as int].0@ == carpeta_del(v[m].path@));
                        } else {
                            let i = choose|i: int| 0 <= i < r0.len() && #[trigger] r0[i].0@ == carpeta_del(v[m].path@);
                            if i < p {
                                assert(r@[i].0@ == r0[i].0@);
                            } else {
                                assert(r@[i + 1].0@ == r0[i].0@);
                            }
                        }
                    }
                }
            }
            k = k + 1;
        }
        assert(v.take(v.len() as int) =~= v);
        r
    }
}

} // verus!
