//! The file tree of the project folder, as a code editor shows it.
//!
//! The folder is shown as it is (a curated list ended up deciding which files
//! exist). Hidden entries and `xtal.toml` (the report's manifest, edited from
//! the app) are left out; `salida/` is shown, marked as generated. Folders go
//! first, then files, each group in alphabetical order without regard to case.
//! Reading the disk is the program's part.
use vstd::prelude::*;
use crate::orden::{antes_que, lema_mapa_multiconjunto, ordenada, ordenar_por_clave, sin_claves, valores};
use crate::rutas::{componentes, componentes_de};
use crate::proceso::Plataforma;
use crate::store::extension;
use crate::texto::{a_minuscula_ascii, agregar, cadena, caracteres, iguales, lex_antes, lex_menor, minuscula_ascii, minusculas, minusculas_de, tramo, trozos, ultima_exec, vistas};
use crate::xtal_cli::unido_en;

verus! {

broadcast use vstd::string::group_string_axioms;

/// An entry of the tree.
#[derive(Debug)]
pub struct Nodo {
    /// The absolute path; it is the id (on Windows with `\`).
    pub ruta: String,
    pub nombre: String,
    /// The path from the project's root, always with `/`: what SyncTeX and
    /// `xtal.toml` are compared against.
    pub relativa: String,
    pub es_carpeta: bool,
    pub hijos: Vec<Nodo>,
    /// Something Xtal generates, which can be deleted without losing anything.
    pub es_generado: bool,
}

/// Texts joined with `/`.
pub open spec fn juntados(cs: Seq<Seq<char>>) -> Seq<char>
    decreases cs.len(),
{
    if cs.len() == 0 {
        Seq::empty()
    } else if cs.len() == 1 {
        cs[0]
    } else {
        juntados(cs.drop_last()) + seq!['/'] + cs.last()
    }
}

/// The components of `ruta` after those of `raiz`, where `raiz`'s are a prefix
/// of them (`Path::strip_prefix`); all of them where not.
pub open spec fn relativos(ruta: Seq<char>, raiz: Seq<char>) -> Seq<Seq<char>> {
    let cr = componentes(ruta);
    let cb = componentes(raiz);
    if cb.len() <= cr.len() && cr.subrange(0, cb.len() as int) == cb {
        cr.subrange(cb.len() as int, cr.len() as int)
    } else {
        cr
    }
}

fn juntar(cs: &Vec<Vec<char>>) -> (r: Vec<char>)
    ensures
        r@ == juntados(vistas(cs@)),
{
    let ghost todos = vistas(cs@);
    let mut r: Vec<char> = Vec::new();
    let mut k: usize = 0;
    assert(todos.take(0) =~= Seq::<Seq<char>>::empty());
    while k < cs.len()
        invariant
            k <= cs@.len(),
            todos == vistas(cs@),
            r@ == juntados(todos.take(k as int)),
        decreases cs@.len() - k,
    {
        assert(todos.take(k + 1).drop_last() =~= todos.take(k as int));
        assert(todos[k as int] == cs@[k as int]@);
        if k > 0 {
            r.push('/');
        } else {
            assert(todos.take(1)[0] == todos[0]);
        }
        agregar(&mut r, &cs[k]);
        k = k + 1;
    }
    assert(todos.take(todos.len() as int) =~= todos);
    r
}

fn es_prefijo(a: &Vec<Vec<char>>, b: &Vec<Vec<char>>) -> (r: bool)
    ensures
        r == (vistas(a@).len() <= vistas(b@).len() && vistas(b@).subrange(0, vistas(a@).len() as int) == vistas(
            a@,
        )),
{
    if a.len() > b.len() {
        return false;
    }
    let mut k: usize = 0;
    while k < a.len()
        invariant
            k <= a@.len() <= b@.len(),
            forall|j: int| 0 <= j < k ==> a@[j]@ == b@[j]@,
        decreases a@.len() - k,
    {
        if !iguales(&a[k], &b[k]) {
            assert(vistas(b@).subrange(0, vistas(a@).len() as int)[k as int] != vistas(a@)[k as int]);
            return false;
        }
        k = k + 1;
    }
    assert(vistas(b@).subrange(0, vistas(a@).len() as int) =~= vistas(a@));
    true
}

/// The path of `ruta` from `raiz`, always with `/`. It goes by components and
/// not by cutting text: under a symlink the two paths may start differently.
pub fn relativa(ruta: &str, raiz: &str) -> (r: String)
    ensures
        r@ == juntados(relativos(ruta@, raiz@)),
{
    let cr = componentes_de(&caracteres(ruta));
    let cb = componentes_de(&caracteres(raiz));
    if es_prefijo(&cb, &cr) {
        let mut resto: Vec<Vec<char>> = Vec::new();
        let mut k: usize = cb.len();
        while k < cr.len()
            invariant
                cb@.len() <= k <= cr@.len(),
                vistas(resto@) == vistas(cr@).subrange(cb@.len() as int, k as int),
            decreases cr@.len() - k,
        {
            let t = crate::texto::tramo(&cr[k], 0, cr[k].len());
            assert(t@ =~= cr@[k as int]@);
            let ghost antes = vistas(resto@);
            assert(vistas(cr@)[k as int] == cr@[k as int]@);
            resto.push(t);
            assert(vistas(resto@) =~= antes.push(cr@[k as int]@));
            assert(vistas(resto@) =~= vistas(cr@).subrange(cb@.len() as int, k + 1));
            k = k + 1;
        }
        cadena(&juntar(&resto))
    } else {
        cadena(&juntar(&cr))
    }
}

/// Whether an entry is listed: nothing hidden (`.git`, `.gitignore`), and not
/// the manifest `xtal.toml`.
pub fn se_muestra(nombre: &str) -> (r: bool)
    ensures
        r == !((nombre@.len() > 0 && nombre@[0] == '.') || nombre@ == "xtal.toml"@),
{
    let n = caracteres(nombre);
    !((n.len() > 0 && n[0] == '.') || iguales(&n, &caracteres("xtal.toml")))
}

/// Whether a relative path is something the compiler writes: its first piece
/// is `salida` (the first, so that a folder with that name further down is not
/// marked).
pub fn es_generado(relativa: &str) -> (r: bool)
    ensures
        r == (trozos(relativa@, '/')[0] == "salida"@),
{
    let ps = crate::texto::partir_en(&caracteres(relativa), '/');
    proof {
        crate::texto::lema_hasta(relativa@, 0, '/');
        assert(crate::texto::trozos_desde(relativa@, 0, '/').len() > 0);
    }
    assert(vistas(ps@).len() > 0);
    assert(vistas(ps@)[0] == ps@[0]@);
    iguales(&ps[0], &caracteres("salida"))
}

/// The key by which the tree sorts an entry: folders first, then the name in
/// lowercase.
pub open spec fn clave_nodo(n: Nodo) -> (bool, Seq<char>) {
    (!n.es_carpeta, minusculas_de(n.nombre@))
}

/// Sorts entries as any file explorer: folders first and then files, each
/// group by name without regard to case (on Windows the file system does not
/// tell `Zeta` from `zeta`).
pub fn ordenar_nodos(nodos: Vec<Nodo>) -> (r: Vec<Nodo>)
    ensures
        r@.to_multiset() == nodos@.to_multiset(),
        forall|i: int, j: int| 0 <= i < j < r@.len() ==> !antes_que(clave_nodo(#[trigger] r@[j]), clave_nodo(#[trigger] r@[i])),
{
    let mut pend = nodos;
    let mut con: Vec<(bool, Vec<char>, Nodo)> = Vec::new();
    let ghost todo = pend@;
    while pend.len() > 0
        invariant
            valores(con@) + pend@ == todo,
            forall|k: int| 0 <= k < con@.len() ==> (#[trigger] con@[k]).0 == !con@[k].2.es_carpeta
                && con@[k].1@ == minusculas_de(con@[k].2.nombre@),
        decreases pend@.len(),
    {
        let ghost p0 = pend@;
        let n = pend.remove(0);
        let low = minusculas(n.nombre.as_str());
        let c = caracteres(low.as_str());
        let ghost v0 = valores(con@);
        con.push((!n.es_carpeta, c, n));
        assert(p0 =~= seq![n] + pend@);
        assert(valores(con@) =~= v0.push(n));
        assert(valores(con@) + pend@ =~= todo);
    }
    assert(valores(con@) =~= todo);
    let ordenados = ordenar_por_clave(con);
    proof {
        lema_mapa_multiconjunto(ordenados@, con@, |x: (bool, Vec<char>, Nodo)| x.2);
        assert forall|k: int| 0 <= k < ordenados@.len() implies (#[trigger] ordenados@[k]).0 == !ordenados@[k].2.es_carpeta
            && ordenados@[k].1@ == minusculas_de(ordenados@[k].2.nombre@) by {
            let x = ordenados@[k];
            assert(ordenados@.contains(x));
            vstd::seq_lib::to_multiset_contains(ordenados@, x);
            vstd::seq_lib::to_multiset_contains(con@, x);
            assert(con@.contains(x));
        }
    }
    let r = sin_claves(ordenados);
    proof {
        assert forall|i: int, j: int| 0 <= i < j < r@.len() implies !antes_que(
            clave_nodo(#[trigger] r@[j]),
            clave_nodo(#[trigger] r@[i]),
        ) by {
            assert(r@[i] == ordenados@[i].2);
            assert(r@[j] == ordenados@[j].2);
            assert(crate::orden::clave(ordenados@[i]) == clave_nodo(r@[i]));
            assert(crate::orden::clave(ordenados@[j]) == clave_nodo(r@[j]));
        }
    }
    r
}

/// A LaTeX file by its name: its extension is `tex`, in any case.
pub open spec fn es_tex(nombre: Seq<char>) -> bool {
    match extension(nombre) {
        Some(x) => x.len() == 3 && minuscula_ascii(x[0]) == 't' && minuscula_ascii(x[1]) == 'e'
            && minuscula_ascii(x[2]) == 'x',
        None => false,
    }
}

/// Whether a name is of a LaTeX file.
fn nombre_tex(nombre: &str) -> (r: bool)
    ensures
        r == es_tex(nombre@),
{
    let n = caracteres(nombre);
    proof {
        crate::texto::lema_ultima_antes(n@, n@.len() as int, '.');
    }
    match ultima_exec(&n, '.') {
        Some(p) => {
            if p > 0 && !iguales(&n, &caracteres("..")) {
                let x = tramo(&n, p + 1, n.len());
                x.len() == 3 && a_minuscula_ascii(x[0]) == 't' && a_minuscula_ascii(x[1]) == 'e' && a_minuscula_ascii(x[2]) == 'x'
            } else {
                false
            }
        },
        None => false,
    }
}

/// The section to open first when a project is opened: among the entries of
/// its `secciones/` folder (`nombres`), the `.tex` (in any case) that comes
/// first in alphabetical order, which, numbered as they are, is the report's
/// first; its path under `carpeta`. `None` where there is none.
pub fn primera_seccion(so: Plataforma, carpeta: &str, nombres: &Vec<String>) -> (r: Option<String>)
    ensures
        match r {
            Some(p) => exists|k: int| #![trigger nombres@[k]]
                0 <= k < nombres@.len() && es_tex(nombres@[k]@)
                && p@ == unido_en(so, unido_en(so, carpeta@, "secciones"@), nombres@[k]@)
                && forall|j: int| 0 <= j < nombres@.len() && es_tex((#[trigger] nombres@[j])@)
                    ==> !lex_menor(nombres@[j]@, nombres@[k]@),
            None => forall|j: int| 0 <= j < nombres@.len() ==> !es_tex((#[trigger] nombres@[j])@),
        },
{
    let mut mejor: Option<usize> = None;
    let mut k: usize = 0;
    while k < nombres.len()
        invariant
            k <= nombres@.len(),
            match mejor {
                Some(m) => m < k && es_tex(nombres@[m as int]@) && forall|j: int| 0 <= j < k && es_tex(
                    (#[trigger] nombres@[j])@,
                ) ==> !lex_menor(nombres@[j]@, nombres@[m as int]@),
                None => forall|j: int| 0 <= j < k ==> !es_tex((#[trigger] nombres@[j])@),
            },
        decreases nombres@.len() - k,
    {
        if nombre_tex(nombres[k].as_str()) {
            match mejor {
                Some(m) => {
                    let nk = caracteres(nombres[k].as_str());
                    let nm = caracteres(nombres[m].as_str());
                    if lex_antes(&nk, &nm) {
                        proof {
                            assert forall|j: int| 0 <= j < k + 1 && es_tex((#[trigger] nombres@[j])@) implies !lex_menor(
                                nombres@[j]@,
                                nombres@[k as int]@,
                            ) by {
                                if j < k {
                                    if lex_menor(nombres@[j]@, nombres@[k as int]@) {
                                        crate::texto::lema_lex_transitivo(nombres@[j]@, nombres@[k as int]@, nombres@[m as int]@);
                                    }
                                } else {
                                    crate::texto::lema_lex_irreflexivo(nombres@[k as int]@);
                                }
                            }
                        }
                        mejor = Some(k);
                    }
                },
                None => {
                    proof {
                        crate::texto::lema_lex_irreflexivo(nombres@[k as int]@);
                    }
                    mejor = Some(k);
                },
            }
        }
        k = k + 1;
    }
    match mejor {
        Some(m) => {
            let dir = crate::xtal_cli::unir_en(so, carpeta, "secciones");
            Some(crate::xtal_cli::unir_en(so, dir.as_str(), nombres[m].as_str()))
        },
        None => None,
    }
}

} // verus!
