//! Paths: joining them, and where Xtal keeps its global configuration
//! (`~/.config/xtal/`, the same on every system).
//!
//! Where the user's home and configuration folders are depends on the machine;
//! they come from the `directories` crate, and everything built on them is a
//! function of them, stated here for any value they have.
use vstd::prelude::*;
use crate::texto::{agregar, cadena, caracteres};

verus! {

broadcast use vstd::string::group_string_axioms;

/// `Path::join` with `/` as the separator: an absolute `rel` replaces the
/// base; otherwise one `/` goes between them (none after an empty base or one
/// that already ends in `/`).
pub open spec fn unido(base: Seq<char>, rel: Seq<char>) -> Seq<char> {
    if rel.len() > 0 && rel[0] == '/' {
        rel
    } else if base.len() == 0 || base.last() == '/' {
        base + rel
    } else {
        base + seq!['/'] + rel
    }
}

/// Joins `rel` to `base` as `Path::join` does on Unix.
pub fn unir(base: &str, rel: &str) -> (r: String)
    ensures
        r@ == unido(base@, rel@),
{
    let b = caracteres(base);
    let r = caracteres(rel);
    if r.len() > 0 && r[0] == '/' {
        return cadena(&r);
    }
    let mut out = b;
    if !(out.len() == 0 || out[out.len() - 1] == '/') {
        out.push('/');
    }
    agregar(&mut out, &r);
    cadena(&out)
}

/// Calls `directories::BaseDirs::new()` and gives the user's home and
/// configuration folders, as text. What they are depends on the machine and
/// its environment, so nothing is stated of them.
#[verifier::external_body]
pub(crate) fn directorios_base() -> (r: Option<(String, String)>)
{
    match directories::BaseDirs::new() {
        Some(d) => Some((
            d.home_dir().to_string_lossy().into_owned(),
            d.config_dir().to_string_lossy().into_owned(),
        )),
        None => None,
    }
}

/// `~/.config/xtal` for the home `home`.
pub open spec fn dir_de(home: Seq<char>) -> Seq<char> {
    unido(unido(home, ".config"@), "xtal"@)
}

/// Xtal's configuration folder under the home `home`.
pub fn config_dir_de(home: &str) -> (r: String)
    ensures
        r@ == dir_de(home@),
{
    let c = unir(home, ".config");
    unir(c.as_str(), "xtal")
}

/// Xtal's configuration folder from what `directories` found (the home and
/// the configuration folder, in that order): `None` where it found no home,
/// else `~/.config/xtal` under that home.
pub fn config_dir_desde(base: Option<(String, String)>) -> (r: Option<String>)
    ensures
        match base {
            Some((home, _)) => r matches Some(d) && d@ == dir_de(home@),
            None => r is None,
        },
{
    match base {
        Some((home, _)) => Some(config_dir_de(home.as_str())),
        None => None,
    }
}

/// `nombre` inside the folder `d`, where there is one: `None` stays `None`.
pub fn dentro_de(d: Option<String>, nombre: &str) -> (r: Option<String>)
    ensures
        match d {
            Some(c) => r matches Some(f) && f@ == unido(c@, nombre@),
            None => r is None,
        },
{
    match d {
        Some(c) => Some(unir(c.as_str(), nombre)),
        None => None,
    }
}

/// Xtal's configuration folder, `~/.config/xtal`; `None` where the home
/// cannot be found. Whether it is found depends on the machine; for each
/// thing `directories` can answer, `config_dir_desde` says what comes back.
pub fn config_dir() -> (r: Option<String>)
    ensures
        r matches Some(d) ==> exists|h: Seq<char>| d@ == dir_de(h),
{
    config_dir_desde(directorios_base())
}

/// The global configuration file, `~/.config/xtal/config.toml`; `None`
/// exactly where `config_dir` finds no folder (see `dentro_de`).
pub fn global_config_file() -> (r: Option<String>)
    ensures
        r matches Some(f) ==> exists|h: Seq<char>| f@ == unido(dir_de(h), "config.toml"@),
{
    dentro_de(config_dir(), "config.toml")
}

/// The user's themes folder, `~/.config/xtal/themes`; `None` exactly where
/// `config_dir` finds no folder (see `dentro_de`).
pub fn themes_dir() -> (r: Option<String>)
    ensures
        r matches Some(f) ==> exists|h: Seq<char>| f@ == unido(dir_de(h), "themes"@),
{
    dentro_de(config_dir(), "themes")
}


// ---------------------------------------------------------------------------
// Components
// ---------------------------------------------------------------------------

/// The pieces of a path between `/`s (empty ones included), as `str::split`.
pub open spec fn piezas(p: Seq<char>) -> Seq<Seq<char>> {
    crate::texto::trozos(p, '/')
}

/// The components of the pieces from the `k`-th on: empty pieces and `.` go
/// (a `.` only stays as the very first component of a relative path).
pub open spec fn normales(ps: Seq<Seq<char>>) -> Seq<Seq<char>>
    decreases ps.len(),
{
    if ps.len() == 0 {
        Seq::empty()
    } else if ps.last().len() == 0 || ps.last() == "."@ {
        normales(ps.drop_last())
    } else {
        normales(ps.drop_last()).push(ps.last())
    }
}

/// `Path::components` with `/` as the separator, each component as text: the
/// root is `/`, a leading `.` of a relative path stays, other `.`s and empty
/// pieces go.
pub open spec fn componentes(p: Seq<char>) -> Seq<Seq<char>> {
    let ps = piezas(p);
    if p.len() > 0 && p[0] == '/' {
        seq!["/"@] + normales(ps)
    } else if ps.len() > 0 && ps[0] == "."@ {
        seq!["."@] + normales(ps)
    } else {
        normales(ps)
    }
}

fn normales_exec(ps: &Vec<Vec<char>>) -> (r: Vec<Vec<char>>)
    ensures
        crate::texto::vistas(r@) == normales(crate::texto::vistas(ps@)),
{
    let ghost todas = crate::texto::vistas(ps@);
    let mut r: Vec<Vec<char>> = Vec::new();
    let mut k: usize = 0;
    let punto = caracteres(".");
    assert(todas.take(0) =~= Seq::<Seq<char>>::empty());
    while k < ps.len()
        invariant
            k <= ps@.len(),
            todas == crate::texto::vistas(ps@),
            punto@ == "."@,
            crate::texto::vistas(r@) == normales(todas.take(k as int)),
        decreases ps@.len() - k,
    {
        assert(todas.take(k + 1).drop_last() =~= todas.take(k as int));
        assert(todas[k as int] == ps@[k as int]@);
        if !(ps[k].len() == 0 || crate::texto::iguales(&ps[k], &punto)) {
            let ghost antes = crate::texto::vistas(r@);
            let t = crate::texto::tramo(&ps[k], 0, ps[k].len());
            assert(t@ =~= ps@[k as int]@);
            r.push(t);
            assert(crate::texto::vistas(r@) =~= antes.push(todas[k as int]));
        }
        k = k + 1;
    }
    assert(todas.take(todas.len() as int) =~= todas);
    r
}

/// The components of a path, each as text (see `componentes`).
pub fn componentes_de(p: &[char]) -> (r: Vec<Vec<char>>)
    ensures
        crate::texto::vistas(r@) == componentes(p@),
{
    let ps = crate::texto::partir_en(p, '/');
    let ns = normales_exec(&ps);
    let punto = caracteres(".");
    if p.len() > 0 && p[0] == '/' {
        let mut r: Vec<Vec<char>> = Vec::new();
        r.push(caracteres("/"));
        let mut k: usize = 0;
        while k < ns.len()
            invariant
                k <= ns@.len(),
                r@.len() == k + 1,
                r@[0]@ == "/"@,
                forall|j: int| 0 <= j < k ==> (#[trigger] r@[j + 1])@ == ns@[j]@,
            decreases ns@.len() - k,
        {
            let t = crate::texto::tramo(&ns[k], 0, ns[k].len());
            assert(t@ =~= ns@[k as int]@);
            r.push(t);
            k = k + 1;
        }
        assert forall|i: int| 0 <= i < r@.len() implies crate::texto::vistas(r@)[i] == (seq!["/"@]
            + crate::texto::vistas(ns@))[i] by {
            if i > 0 {
                assert(r@[(i - 1) + 1]@ == ns@[i - 1]@);
            }
        }
        assert(crate::texto::vistas(r@) =~= seq!["/"@] + crate::texto::vistas(ns@));
        r
    } else if ps.len() > 0 && crate::texto::iguales(&ps[0], &punto) {
        let mut r: Vec<Vec<char>> = Vec::new();
        r.push(punto);
        let mut k: usize = 0;
        while k < ns.len()
            invariant
                k <= ns@.len(),
                r@.len() == k + 1,
                r@[0]@ == "."@,
                forall|j: int| 0 <= j < k ==> (#[trigger] r@[j + 1])@ == ns@[j]@,
            decreases ns@.len() - k,
        {
            let t = crate::texto::tramo(&ns[k], 0, ns[k].len());
            assert(t@ =~= ns@[k as int]@);
            r.push(t);
            k = k + 1;
        }
        assert(crate::texto::vistas(ps@)[0] == ps@[0]@);
        assert forall|i: int| 0 <= i < r@.len() implies crate::texto::vistas(r@)[i] == (seq!["."@]
            + crate::texto::vistas(ns@))[i] by {
            if i > 0 {
                assert(r@[(i - 1) + 1]@ == ns@[i - 1]@);
            }
        }
        assert(crate::texto::vistas(r@) =~= seq!["."@] + crate::texto::vistas(ns@));
        r
    } else {
        if ps.len() > 0 {
            assert(crate::texto::vistas(ps@)[0] == ps@[0]@);
        }
        ns
    }
}

/// The name of the file of a path (`Path::file_name`): its last component,
/// unless that is the root, a `.` or a `..`.
pub open spec fn nombre_de_archivo(p: Seq<char>) -> Option<Seq<char>> {
    let c = componentes(p);
    if c.len() == 0 || c.last() == "/"@ || c.last() == "."@ || c.last() == ".."@ {
        None
    } else {
        Some(c.last())
    }
}

/// The name of the file of a path, if it has one.
pub fn nombre_de_archivo_exec(p: &[char]) -> (r: Option<Vec<char>>)
    ensures
        match r {
            Some(n) => nombre_de_archivo(p@) == Some(n@),
            None => nombre_de_archivo(p@) is None,
        },
{
    let c = componentes_de(p);
    if c.len() == 0 {
        return None;
    }
    let u = &c[c.len() - 1];
    assert(crate::texto::vistas(c@).last() == u@);
    if crate::texto::iguales(u, &caracteres("/")) || crate::texto::iguales(u, &caracteres("."))
        || crate::texto::iguales(u, &caracteres("..")) {
        None
    } else {
        Some(crate::texto::tramo(u, 0, u.len()))
    }
}

} // verus!
