//! Compiling the report: which engine, where its PDF ends up, and what of
//! LaTeX's log is worth showing. Running the engine is the program's part.
use vstd::prelude::*;
use crate::rutas::{nombre_de_archivo, nombre_de_archivo_exec, unido, unir};
use crate::texto::{
    agregar, aparece_en, cadena, caracteres, contiene, contiene_texto, lineas, partir_lineas,
    sin_blancos_izq, recortar_izq, tramo, ultima, ultima_exec, lema_ultima_antes, vistas,
};

verus! {

broadcast use vstd::string::group_string_axioms;

/// What can go wrong compiling.
#[derive(Debug)]
pub enum CompileError {
    /// The engine is not on the `PATH`.
    EngineNotFound(String),
    /// LaTeX failed; what its log says.
    Latex(String),
    /// The compiler could not be run.
    Spawn(String),
    /// It compiled, but the expected PDF is not there.
    PdfMissing(String),
}

fn junto(a: &str, b: &str) -> (r: String)
    ensures
        r@ == a@ + b@,
{
    let mut t = caracteres(a);
    agregar(&mut t, &caracteres(b));
    cadena(&t)
}

impl CompileError {
    pub open spec fn mensaje_de(&self) -> Seq<char> {
        match self {
            CompileError::EngineNotFound(m) => "no encontré el motor LaTeX '"@ + m@
                + "' en el PATH. Instalá Tectonic o usá --pdflatex"@,
            CompileError::Latex(m) => "falló la compilación de LaTeX:\n"@ + m@,
            CompileError::Spawn(m) => "no pude ejecutar el compilador: "@ + m@,
            CompileError::PdfMissing(p) => "compilé pero no encontré el PDF esperado en "@ + p@,
        }
    }

    /// The error, told for the user.
    pub fn mensaje(&self) -> (r: String)
        ensures
            r@ == self.mensaje_de(),
    {
        match self {
            CompileError::EngineNotFound(m) => {
                let mut t = caracteres("no encontré el motor LaTeX '");
                agregar(&mut t, &caracteres(m.as_str()));
                agregar(&mut t, &caracteres("' en el PATH. Instalá Tectonic o usá --pdflatex"));
                cadena(&t)
            },
            CompileError::Latex(m) => junto("falló la compilación de LaTeX:\n", m.as_str()),
            CompileError::Spawn(m) => junto("no pude ejecutar el compilador: ", m.as_str()),
            CompileError::PdfMissing(p) => junto("compilé pero no encontré el PDF esperado en ", p.as_str()),
        }
    }
}

/// The LaTeX engine.
#[derive(Debug, Clone, Copy, PartialEq, Eq, Structural)]
pub enum Engine {
    /// Tectonic: one binary that fetches packages on demand.
    Tectonic,
    /// TeX Live's pdflatex, for who already lives in LaTeX.
    Pdflatex,
}

impl Engine {
    pub open spec fn binario_de(self) -> Seq<char> {
        match self {
            Engine::Tectonic => "tectonic"@,
            Engine::Pdflatex => "pdflatex"@,
        }
    }

    /// The engine's program.
    pub fn binary(self) -> (r: &'static str)
        ensures
            r@ == self.binario_de(),
    {
        match self {
            Engine::Tectonic => "tectonic",
            Engine::Pdflatex => "pdflatex",
        }
    }
}

/// `Path::file_stem`: the file's name without its extension (the whole name
/// where its only `.` opens it).
pub open spec fn raiz_de(nombre: Seq<char>) -> Seq<char> {
    if ultima(nombre, '.') > 0 {
        nombre.subrange(0, ultima(nombre, '.'))
    } else {
        nombre
    }
}

/// Where the PDF of `tex_path` ends up in `outdir`: its name without the
/// extension, and `.pdf` (`main.pdf` where the path names no file).
pub open spec fn pdf_de(tex_path: Seq<char>, outdir: Seq<char>) -> Seq<char> {
    let stem = match nombre_de_archivo(tex_path) {
        Some(n) => raiz_de(n),
        None => "main"@,
    };
    unido(outdir, stem + ".pdf"@)
}

/// Where the PDF of `tex_path` ends up in `outdir`.
pub fn pdf_path(tex_path: &str, outdir: &str) -> (r: String)
    ensures
        r@ == pdf_de(tex_path@, outdir@),
{
    let stem = match nombre_de_archivo_exec(&caracteres(tex_path)) {
        Some(n) => {
            proof {
                lema_ultima_antes(n@, n@.len() as int, '.');
            }
            match ultima_exec(&n, '.') {
                Some(k) => if k > 0 {
                    tramo(&n, 0, k)
                } else {
                    assert(n@.subrange(0, n@.len() as int) =~= n@);
                    tramo(&n, 0, n.len())
                },
                None => {
                    assert(n@.subrange(0, n@.len() as int) =~= n@);
                    tramo(&n, 0, n.len())
                },
            }
        },
        None => caracteres("main"),
    };
    let mut f = stem;
    agregar(&mut f, &caracteres(".pdf"));
    unir(outdir, cadena(&f).as_str())
}

// ---------------------------------------------------------------------------
// The log
// ---------------------------------------------------------------------------

/// A line that reports an error: trimmed at its start it opens with `!`, or it
/// says `error:` or `Error:`.
pub open spec fn es_error(l: Seq<char>) -> bool {
    let t = sin_blancos_izq(l);
    (t.len() > 0 && t[0] == '!') || contiene(l, "error:"@) || contiene(l, "Error:"@)
}

/// What the log's lines give from `i`: for each error line, it and the three
/// that follow (fewer at the end), then an empty line.
pub open spec fn errores_desde(ls: Seq<Seq<char>>, i: int) -> Seq<Seq<char>>
    decreases ls.len() - i,
{
    if i < 0 || i >= ls.len() {
        Seq::empty()
    } else if es_error(ls[i]) {
        ls.subrange(i, if i + 4 <= ls.len() { i + 4 } else { ls.len() as int }) + seq![Seq::<char>::empty()]
            + errores_desde(ls, i + 1)
    } else {
        errores_desde(ls, i + 1)
    }
}

/// Lines joined with `\n`.
pub open spec fn unidas(ls: Seq<Seq<char>>) -> Seq<char>
    decreases ls.len(),
{
    if ls.len() == 0 {
        Seq::empty()
    } else if ls.len() == 1 {
        ls[0]
    } else {
        unidas(ls.drop_last()) + seq!['\n'] + ls.last()
    }
}

/// What is worth showing of a LaTeX log: the error lines with some context,
/// or, where none is recognized, its last 15 lines.
pub open spec fn extracto(log: Seq<char>) -> Seq<char> {
    let ls = lineas(log);
    let e = errores_desde(ls, 0);
    if e.len() == 0 {
        unidas(if ls.len() > 15 { ls.subrange(ls.len() - 15, ls.len() as int) } else { ls })
    } else {
        unidas(e)
    }
}

fn unir_lineas(ls: &Vec<Vec<char>>) -> (r: Vec<char>)
    ensures
        r@ == unidas(vistas(ls@)),
{
    let ghost todas = vistas(ls@);
    let mut r: Vec<char> = Vec::new();
    let mut k: usize = 0;
    assert(todas.take(0) =~= Seq::<Seq<char>>::empty());
    while k < ls.len()
        invariant
            k <= ls@.len(),
            todas == vistas(ls@),
            r@ == unidas(todas.take(k as int)),
        decreases ls@.len() - k,
    {
        assert(todas.take(k + 1).drop_last() =~= todas.take(k as int));
        assert(todas[k as int] == ls@[k as int]@);
        if k > 0 {
            r.push('\n');
        } else {
            assert(todas.take(1)[0] == todas[0]);
        }
        agregar(&mut r, &ls[k]);
        k = k + 1;
    }
    assert(todas.take(todas.len() as int) =~= todas);
    r
}

fn copia(ls: &Vec<Vec<char>>, a: usize, b: usize, out: &mut Vec<Vec<char>>)
    requires
        a <= b <= ls@.len(),
    ensures
        vistas(final(out)@) == vistas(old(out)@) + vistas(ls@).subrange(a as int, b as int),
{
    let ghost antes = vistas(out@);
    let mut k = a;
    while k < b
        invariant
            a <= k <= b <= ls@.len(),
            vistas(out@) == antes + vistas(ls@).subrange(a as int, k as int),
        decreases b - k,
    {
        let t = tramo(&ls[k], 0, ls[k].len());
        assert(t@ =~= ls@[k as int]@);
        let ghost previo = vistas(out@);
        out.push(t);
        assert(vistas(out@) =~= previo.push(vistas(ls@)[k as int]));
        assert(vistas(out@) =~= antes + vistas(ls@).subrange(a as int, k + 1));
        k = k + 1;
    }
}

/// The error lines of a LaTeX log, with the three lines that follow each,
/// to show something useful instead of hundreds of lines of noise; where it
/// recognizes none, the log's last 15 lines.
pub fn extract_latex_errors(log: &str) -> (r: String)
    ensures
        r@ == extracto(log@),
{
    let ls = partir_lineas(&caracteres(log));
    let ghost todas = vistas(ls@);
    let mut errores: Vec<Vec<char>> = Vec::new();
    let mut i: usize = 0;
    let pre = caracteres("error:");
    let pre2 = caracteres("Error:");
    while i < ls.len()
        invariant
            i <= ls@.len(),
            todas == vistas(ls@),
            pre@ == "error:"@,
            pre2@ == "Error:"@,
            vistas(errores@) + errores_desde(todas, i as int) == errores_desde(todas, 0),
        decreases ls@.len() - i,
    {
        let ghost antes = vistas(errores@);
        assert(todas[i as int] == ls@[i as int]@);
        let t = recortar_izq(&ls[i]);
        let es = (t.len() > 0 && t[0] == '!') || contiene_texto(&ls[i], &pre) || contiene_texto(&ls[i], &pre2);
        if es {
            let fin = if ls.len() - i >= 4 { i + 4 } else { ls.len() };
            copia(&ls, i, fin, &mut errores);
            errores.push(Vec::new());
            assert(vistas(errores@) =~= antes + todas.subrange(i as int, fin as int) + seq![Seq::<char>::empty()]);
        }
        assert(vistas(errores@) + errores_desde(todas, i + 1) =~= antes + errores_desde(todas, i as int));
        i = i + 1;
    }
    assert(vistas(errores@) =~= errores_desde(todas, 0));
    if errores.len() == 0 {
        let desde = if ls.len() > 15 { ls.len() - 15 } else { 0 };
        let mut cola: Vec<Vec<char>> = Vec::new();
        copia(&ls, desde, ls.len(), &mut cola);
        assert(vistas(cola@) =~= if todas.len() > 15 { todas.subrange(todas.len() - 15, todas.len() as int) } else { todas });
        cadena(&unir_lineas(&cola))
    } else {
        cadena(&unir_lineas(&errores))
    }
}

} // verus!
