//! What the folder watcher of the desktop app reports.
//!
//! The app is not the only one that writes in the project: an agent with bash
//! and the integrated terminal do too, so the app watches the folder. A LaTeX
//! compilation touches dozens of intermediate files and `git status` writes in
//! `.git/`; reporting those would reread the tree a hundred times per
//! compilation, or wake the watcher up in a loop. This decides which changes
//! are worth reporting; the watching itself is the program's.
use vstd::prelude::*;
use crate::rutas::{nombre_de_archivo, nombre_de_archivo_exec};
use crate::texto::{
    aparece, aparece_en, cadena, caracteres, contiene, contiene_texto, iguales, minusculas,
    minusculas_de, tramo, tras_ultima, ultima, ultima_exec, lema_ultima_antes,
};

verus! {

broadcast use vstd::string::group_string_axioms;

/// `s` ends with `p`.
pub open spec fn termina_con(s: Seq<char>, p: Seq<char>) -> bool {
    p.len() <= s.len() && aparece_en(s, s.len() - p.len(), p)
}

/// The path with `\` as `/`.
pub open spec fn con_barras(p: Seq<char>) -> Seq<char> {
    p.map_values(|c: char| if c == '\\' { '/' } else { c })
}

/// An extension of LaTeX's intermediate files (or a lock file).
pub open spec fn es_intermedia(e: Seq<char>) -> bool {
    e == "aux"@ || e == "log"@ || e == "out"@ || e == "toc"@ || e == "lof"@ || e == "lot"@ || e == "fls"@
        || e == "fdb_latexmk"@ || e == "bcf"@ || e == "run"@ || e == "nav"@ || e == "snm"@ || e == "xdv"@
        || e == "bbl"@ || e == "blg"@ || e == "lock"@
}

/// Whether a change of the file at `p` is worth reporting: not inside `.git/`
/// or `node_modules/`, not a hidden file nor a temporary of the atomic save
/// (`.xtal-tmp`), and not a LaTeX intermediate (by its extension, in any
/// case). A file without an extension (a README) is.
pub open spec fn interesa_spec(p: Seq<char>) -> bool {
    let t = con_barras(p);
    if contiene(t, "/.git/"@) || contiene(t, "/node_modules/"@) {
        false
    } else {
        match nombre_de_archivo(p) {
            Some(n) => if termina_con(n, ".xtal-tmp"@) || (n.len() > 0 && n[0] == '.') {
                false
            } else if ultima(n, '.') > 0 {
                !es_intermedia(minusculas_de(tras_ultima(n, '.')))
            } else {
                true
            },
            None => true,
        }
    }
}

fn es_una(e: &[char], lit: &str) -> (r: bool)
    ensures
        r == (e@ == lit@),
{
    iguales(e, &caracteres(lit))
}

/// Whether a change of the file at `p` is worth reporting.
pub fn interesa(p: &str) -> (r: bool)
    ensures
        r == interesa_spec(p@),
{
    let c = caracteres(p);
    let mut t: Vec<char> = Vec::new();
    let mut i: usize = 0;
    while i < c.len()
        invariant
            i <= c@.len(),
            t@ == con_barras(c@.take(i as int)),
        decreases c@.len() - i,
    {
        t.push(if c[i] == '\\' { '/' } else { c[i] });
        i = i + 1;
        assert(t@ =~= con_barras(c@.take(i as int)));
    }
    assert(c@.take(c@.len() as int) =~= c@);
    if contiene_texto(&t, &caracteres("/.git/")) || contiene_texto(&t, &caracteres("/node_modules/")) {
        return false;
    }
    match nombre_de_archivo_exec(&c) {
        Some(n) => {
            let tmp = caracteres(".xtal-tmp");
            let termina = tmp.len() <= n.len() && aparece(&n, n.len() - tmp.len(), &tmp);
            if termina || (n.len() > 0 && n[0] == '.') {
                return false;
            }
            proof {
                lema_ultima_antes(n@, n@.len() as int, '.');
            }
            match ultima_exec(&n, '.') {
                Some(k) => {
                    if k > 0 {
                        assert(n@.len() == n.len());
                        let e = tramo(&n, k + 1, n.len());
                        let low = minusculas(cadena(&e).as_str());
                        let l = caracteres(low.as_str());
                        !(es_una(&l, "aux") || es_una(&l, "log") || es_una(&l, "out") || es_una(&l, "toc")
                            || es_una(&l, "lof") || es_una(&l, "lot") || es_una(&l, "fls") || es_una(
                            &l,
                            "fdb_latexmk",
                        ) || es_una(&l, "bcf") || es_una(&l, "run") || es_una(&l, "nav") || es_una(&l, "snm")
                            || es_una(&l, "xdv") || es_una(&l, "bbl") || es_una(&l, "blg") || es_una(&l, "lock"))
                    } else {
                        true
                    }
                },
                None => true,
            }
        },
        None => true,
    }
}

} // verus!
