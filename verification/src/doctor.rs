//! `xtal doctor`: what the system has of what Xtal needs, and what is said of
//! it. Asking the system and printing are the program's part; the table of
//! dependencies and the verdict are here.
use vstd::prelude::*;
use crate::deps::{ngspice_pkgs, opt_str, tectonic_pkgs, texlive_pkgs, DepKind, PkgNames};
use crate::texto::{caracteres, iguales};

verus! {

broadcast use vstd::string::group_string_axioms;

/// A dependency of the system.
#[derive(Debug, Clone, Copy)]
pub struct Dep {
    pub bin: &'static str,
    pub purpose: &'static str,
    pub kind: DepKind,
}

/// The commands of the dependencies, in order of importance.
pub open spec fn binarios() -> Seq<Seq<char>> {
    seq!["tectonic"@, "pdflatex"@, "ngspice"@]
}

/// The dependencies Xtal needs of the system, most important first.
/// `pdflatex` is optional on purpose: it is Tectonic's fallback, needed only
/// by whoever chose not to use Tectonic; that both are missing is a problem,
/// and the verdict says so.
pub fn dependencies() -> (r: Vec<Dep>)
    ensures
        r@.len() == 3,
        r@.map_values(|d: Dep| d.bin@) == binarios(),
        r@[0].kind == DepKind::Core,
        r@[1].kind == DepKind::Optional,
        r@[2].kind == DepKind::Optional,
        r@[0].purpose@ == "compilar el informe a PDF (motor recomendado)"@,
        r@[1].purpose@ == "compilar con TeX Live, si preferís no usar Tectonic"@,
        r@[2].purpose@ == "simular circuitos (`xtal sim`)"@,
{
    let r = vec![
        Dep { bin: "tectonic", purpose: "compilar el informe a PDF (motor recomendado)", kind: DepKind::Core },
        Dep {
            bin: "pdflatex",
            purpose: "compilar con TeX Live, si preferís no usar Tectonic",
            kind: DepKind::Optional,
        },
        Dep { bin: "ngspice", purpose: "simular circuitos (`xtal sim`)", kind: DepKind::Optional },
    ];
    assert(r@.map_values(|d: Dep| d.bin@) =~= binarios());
    r
}

/// A table of packages, manager by manager (brew, apt, dnf, pacman, scoop,
/// winget, choco).
pub open spec fn por_gestor(p: PkgNames) -> Seq<Option<Seq<char>>> {
    seq![opt_str(p.brew), opt_str(p.apt), opt_str(p.dnf), opt_str(p.pacman), opt_str(p.scoop), opt_str(p.winget), opt_str(p.choco)]
}

/// The packages of each dependency: Tectonic's, TeX Live's for `pdflatex`,
/// ngspice's for anything else.
pub open spec fn paquetes_de(bin: Seq<char>) -> Seq<Option<Seq<char>>> {
    if bin == "tectonic"@ {
        seq![Some("tectonic"@), None, Some("tectonic"@), Some("tectonic"@), Some("tectonic"@), None, Some("tectonic"@)]
    } else if bin == "pdflatex"@ {
        seq![
            Some("texlive"@),
            Some("texlive-latex-extra"@),
            Some("texlive-scheme-medium"@),
            Some("texlive-core"@),
            Some("latex"@),
            Some("MiKTeX.MiKTeX"@),
            Some("miktex"@),
        ]
    } else {
        seq![Some("ngspice"@), Some("ngspice"@), Some("ngspice"@), Some("ngspice"@), Some("ngspice"@), None, Some("ngspice"@)]
    }
}

/// The packages that install a dependency.
pub fn paquetes(bin: &str) -> (p: PkgNames)
    ensures
        por_gestor(p) == paquetes_de(bin@),
{
    let b = caracteres(bin);
    if iguales(&b, &caracteres("tectonic")) {
        tectonic_pkgs()
    } else if iguales(&b, &caracteres("pdflatex")) {
        texlive_pkgs()
    } else {
        ngspice_pkgs()
    }
}

/// The commands of `bins` whose dependency is not available, in order.
pub open spec fn faltan(bins: Seq<Seq<char>>, disponibles: Seq<bool>) -> Seq<Seq<char>>
    decreases bins.len(),
{
    if bins.len() == 0 || disponibles.len() != bins.len() {
        Seq::empty()
    } else if disponibles.last() {
        faltan(bins.drop_last(), disponibles.drop_last())
    } else {
        faltan(bins.drop_last(), disponibles.drop_last()).push(bins.last())
    }
}

/// What the end of the report says.
#[derive(Debug)]
pub struct Veredicto {
    /// Nothing is missing and every agent is plugged in.
    pub todo_listo: bool,
    /// Some agent is not ready: the AI integration is incomplete (and "all
    /// ready" would be a lie, since half of the product is an agent driving it).
    pub ia_rota: bool,
    /// Neither Tectonic nor pdflatex: `xtal run` cannot compile the PDF.
    pub sin_latex: bool,
    /// Something is missing, but only what is optional: the report compiles.
    pub falta_opcional: bool,
    /// The commands of the dependencies that are missing, in order.
    pub faltantes: Vec<&'static str>,
}

pub open spec fn vistas(v: Seq<&'static str>) -> Seq<Seq<char>> {
    v.map_values(|s: &'static str| s@)
}

/// The verdict, from whether each dependency of `dependencies()` is
/// available (`disponibles`, in its order) and whether each agent is ready
/// (`listos`).
pub fn veredicto(disponibles: &Vec<bool>, listos: &Vec<bool>) -> (v: Veredicto)
    requires
        disponibles@.len() == 3,
    ensures
        vistas(v.faltantes@) == faltan(binarios(), disponibles@),
        v.ia_rota == (exists|i: int| 0 <= i < listos@.len() && !#[trigger] listos@[i]),
        v.sin_latex == (!disponibles@[0] && !disponibles@[1]),
        v.todo_listo == (faltan(binarios(), disponibles@).len() == 0 && !v.ia_rota),
        v.falta_opcional == (!v.sin_latex && faltan(binarios(), disponibles@).len() > 0),
{
    let deps = dependencies();
    let mut faltantes: Vec<&'static str> = Vec::new();
    let mut k: usize = 0;
    let ghost bs = binarios();
    assert(bs.take(0) =~= Seq::<Seq<char>>::empty());
    while k < 3
        invariant
            k <= 3,
            disponibles@.len() == 3,
            deps@.len() == 3,
            deps@.map_values(|d: Dep| d.bin@) == bs,
            bs == binarios(),
            vistas(faltantes@) == faltan(bs.take(k as int), disponibles@.take(k as int)),
        decreases 3 - k,
    {
        proof {
            assert(bs.take(k + 1).drop_last() =~= bs.take(k as int));
            assert(disponibles@.take(k + 1).drop_last() =~= disponibles@.take(k as int));
            assert(bs.take(k + 1).last() == deps@[k as int].bin@);
        }
        if !disponibles[k] {
            let ghost antes = vistas(faltantes@);
            faltantes.push(deps[k].bin);
            assert(vistas(faltantes@) =~= antes.push(deps@[k as int].bin@));
        }
        k = k + 1;
    }
    assert(bs.take(3) =~= bs);
    assert(disponibles@.take(3) =~= disponibles@);
    let mut ia_rota = false;
    let mut j: usize = 0;
    while j < listos.len()
        invariant
            j <= listos@.len(),
            ia_rota == (exists|i: int| 0 <= i < j && !#[trigger] listos@[i]),
        decreases listos@.len() - j,
    {
        if !listos[j] {
            ia_rota = true;
        }
        j = j + 1;
    }
    let sin_latex = !disponibles[0] && !disponibles[1];
    let n = faltantes.len();
    Veredicto {
        todo_listo: n == 0 && !ia_rota,
        ia_rota,
        sin_latex,
        falta_opcional: !sin_latex && n > 0,
        faltantes,
    }
}

} // verus!
