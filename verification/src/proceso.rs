//! The PATH that the programs the desktop app runs are given.
//!
//! A desktop app's PATH is not the one of the user's terminal: it does not go
//! through `.zshrc` or the PowerShell profile, and on Linux an app started
//! from a `.desktop` file gets the system's minimal one. Without the places
//! where the dependencies really live, `xtal run` does not find `tectonic`
//! inside the app while it works in the terminal. They are added at the end:
//! what the user already has on the PATH wins.
//!
//! Reading the environment and the disk is the program's part; which folders
//! are added, and in what order, is decided here.
use vstd::prelude::*;
use crate::texto::{agregar, cadena, caracteres, lex_antes, lex_menor, lema_lex_total, lema_lex_transitivo, lema_lex_irreflexivo};

verus! {

broadcast use vstd::string::group_string_axioms;

/// The system the app runs on.
#[derive(Debug, Clone, Copy, PartialEq, Eq, Structural)]
pub enum Plataforma {
    Windows,
    MacOs,
    Linux,
    /// Another Unix.
    Otra,
}

/// What the environment says, for the PATH: each variable if it is set.
#[derive(Debug, Clone)]
pub struct Entorno {
    /// `PATH` (empty where it is not set).
    pub path: String,
    /// `LOCALAPPDATA`, `USERPROFILE`, `ProgramData` and `ProgramFiles` (Windows).
    pub local_app_data: Option<String>,
    pub user_profile: Option<String>,
    pub program_data: Option<String>,
    pub program_files: Option<String>,
    /// `HOME`.
    pub home: Option<String>,
}

pub open spec fn opt_vista(o: Option<String>) -> Option<Seq<char>> {
    match o {
        Some(s) => Some(s@),
        None => None,
    }
}

/// `base` followed by each ending, where there is a `base`.
pub open spec fn bajo(base: Option<Seq<char>>, finales: Seq<Seq<char>>) -> Seq<Seq<char>> {
    match base {
        Some(b) => finales.map_values(|f: Seq<char>| b + f),
        None => Seq::empty(),
    }
}

/// The folders added on Windows: where MiKTeX, Tectonic and Xtal install
/// per user, scoop's shims, cargo's binaries, chocolatey's, and the system
/// wide MiKTeX and Git.
pub open spec fn extras_windows(e: Entorno) -> Seq<Seq<char>> {
    bajo(opt_vista(e.local_app_data), seq![
        "\\Programs\\xtal"@,
        "\\Programs\\MiKTeX\\miktex\\bin\\x64"@,
        "\\Microsoft\\WindowsApps"@,
    ]) + bajo(opt_vista(e.user_profile), seq!["\\scoop\\shims"@, "\\.cargo\\bin"@])
        + bajo(opt_vista(e.program_data), seq!["\\chocolatey\\bin"@])
        + bajo(opt_vista(e.program_files), seq!["\\MiKTeX\\miktex\\bin\\x64"@, "\\Git\\cmd"@])
}

/// The folders added on macOS: Homebrew's two prefixes and MacTeX's `texbin`.
pub open spec fn extras_macos() -> Seq<Seq<char>> {
    seq!["/opt/homebrew/bin"@, "/usr/local/bin"@, "/Library/TeX/texbin"@]
}

/// The folders added on Linux: `/usr/local/bin`, Homebrew on Linux, snap's
/// and flatpak's commands (system wide, then the user's), and the `bin/`s of
/// a TeX Live installed by hand (`texlive`, newest first).
pub open spec fn extras_linux(e: Entorno, texlive: Seq<Seq<char>>) -> Seq<Seq<char>> {
    seq!["/usr/local/bin"@, "/home/linuxbrew/.linuxbrew/bin"@, "/snap/bin"@, "/var/lib/flatpak/exports/bin"@]
        + bajo(opt_vista(e.home), seq!["/.linuxbrew/bin"@, "/.local/share/flatpak/exports/bin"@]) + texlive
}

/// Every folder added, in order. Outside Windows, `~/.local/bin` (where the
/// installer leaves `xtal`) and `~/.cargo/bin` (where `cargo install
/// tectonic` leaves it) come last.
pub open spec fn extras(so: Plataforma, e: Entorno, texlive: Seq<Seq<char>>) -> Seq<Seq<char>> {
    match so {
        Plataforma::Windows => extras_windows(e),
        Plataforma::MacOs => extras_macos() + bajo(opt_vista(e.home), seq!["/.local/bin"@, "/.cargo/bin"@]),
        Plataforma::Linux => extras_linux(e, texlive) + bajo(opt_vista(e.home), seq!["/.local/bin"@, "/.cargo/bin"@]),
        Plataforma::Otra => bajo(opt_vista(e.home), seq!["/.local/bin"@, "/.cargo/bin"@]),
    }
}

/// The pieces joined with `sep` between each two.
pub open spec fn juntar(v: Seq<Seq<char>>, sep: Seq<char>) -> Seq<char>
    decreases v.len(),
{
    if v.len() == 0 {
        Seq::empty()
    } else if v.len() == 1 {
        v[0]
    } else {
        juntar(v.drop_last(), sep) + sep + v.last()
    }
}

/// The separator of the PATH.
pub open spec fn separador(so: Plataforma) -> Seq<char> {
    if so == Plataforma::Windows { ";"@ } else { ":"@ }
}

/// The PATH the app's programs get: the process's own, then the separator and
/// the folders added; `None` where nothing is added.
pub open spec fn path_ampliado_spec(so: Plataforma, e: Entorno, texlive: Seq<Seq<char>>) -> Option<Seq<char>> {
    let x = extras(so, e, texlive);
    if x.len() == 0 {
        None
    } else {
        Some(e.path@ + separador(so) + juntar(x, separador(so)))
    }
}

pub open spec fn vistas(v: Seq<String>) -> Seq<Seq<char>> {
    v.map_values(|s: String| s@)
}

/// Adds `base` followed by `fin`.
fn poner(v: &mut Vec<String>, base: &str, fin: &str)
    ensures
        vistas(final(v)@) == vistas(old(v)@).push(base@ + fin@),
{
    let mut t = caracteres(base);
    agregar(&mut t, &caracteres(fin));
    let ghost antes = vistas(v@);
    v.push(cadena(&t));
    assert(vistas(v@) =~= antes.push(base@ + fin@));
}

/// Adds `base` followed by each ending, where there is a `base`.
fn poner_bajo(v: &mut Vec<String>, base: &Option<String>, finales: &Vec<&str>)
    ensures
        vistas(final(v)@) == vistas(old(v)@) + bajo(opt_vista(*base), finales@.map_values(|f: &str| f@)),
{
    let ghost fs = finales@.map_values(|f: &str| f@);
    match base {
        Some(b) => {
            let ghost antes = vistas(v@);
            let mut k: usize = 0;
            while k < finales.len()
                invariant
                    k <= finales@.len(),
                    fs == finales@.map_values(|f: &str| f@),
                    vistas(v@) == antes + fs.take(k as int).map_values(|f: Seq<char>| b@ + f),
                decreases finales@.len() - k,
            {
                poner(v, b.as_str(), finales[k]);
                assert(fs.take(k + 1).map_values(|f: Seq<char>| b@ + f) =~= fs.take(k as int).map_values(
                    |f: Seq<char>| b@ + f,
                ).push(b@ + finales@[k as int]@));
                k = k + 1;
            }
            assert(fs.take(finales@.len() as int) =~= fs);
        },
        None => {
            assert(vistas(v@) + bajo(opt_vista(*base), fs) =~= vistas(v@));
        },
    }
}

/// Adds each name of `v`.
fn poner_todos(v: &mut Vec<String>, nombres: &Vec<&str>)
    ensures
        vistas(final(v)@) == vistas(old(v)@) + nombres@.map_values(|f: &str| f@),
{
    let ghost antes = vistas(v@);
    let mut k: usize = 0;
    while k < nombres.len()
        invariant
            k <= nombres@.len(),
            vistas(v@) == antes + nombres@.take(k as int).map_values(|f: &str| f@),
        decreases nombres@.len() - k,
    {
        let ghost previo = vistas(v@);
        v.push(nombres[k].to_owned());
        assert(vistas(v@) =~= previo.push(nombres@[k as int]@));
        assert(nombres@.take(k + 1).map_values(|f: &str| f@) =~= nombres@.take(k as int).map_values(|f: &str| f@).push(
            nombres@[k as int]@,
        ));
        k = k + 1;
    }
    assert(nombres@.take(nombres@.len() as int) =~= nombres@);
}

/// Every folder added, in order.
pub fn carpetas_extra(so: Plataforma, e: &Entorno, texlive: Vec<String>) -> (r: Vec<String>)
    ensures
        vistas(r@) == extras(so, *e, vistas(texlive@)),
{
    let mut v: Vec<String> = Vec::new();
    let en_home = vec!["/.local/bin", "/.cargo/bin"];
    match so {
        Plataforma::Windows => {
            poner_bajo(&mut v, &e.local_app_data, &vec![
                "\\Programs\\xtal",
                "\\Programs\\MiKTeX\\miktex\\bin\\x64",
                "\\Microsoft\\WindowsApps",
            ]);
            poner_bajo(&mut v, &e.user_profile, &vec!["\\scoop\\shims", "\\.cargo\\bin"]);
            poner_bajo(&mut v, &e.program_data, &vec!["\\chocolatey\\bin"]);
            poner_bajo(&mut v, &e.program_files, &vec!["\\MiKTeX\\miktex\\bin\\x64", "\\Git\\cmd"]);
        },
        Plataforma::MacOs => {
            poner_todos(&mut v, &vec!["/opt/homebrew/bin", "/usr/local/bin", "/Library/TeX/texbin"]);
            poner_bajo(&mut v, &e.home, &en_home);
        },
        Plataforma::Linux => {
            poner_todos(
                &mut v,
                &vec!["/usr/local/bin", "/home/linuxbrew/.linuxbrew/bin", "/snap/bin", "/var/lib/flatpak/exports/bin"],
            );
            poner_bajo(&mut v, &e.home, &vec!["/.linuxbrew/bin", "/.local/share/flatpak/exports/bin"]);
            let ghost antes = vistas(v@);
            let mut t = texlive;
            v.append(&mut t);
            assert(vistas(v@) =~= antes + vistas(texlive@));
            poner_bajo(&mut v, &e.home, &en_home);
        },
        Plataforma::Otra => {
            poner_bajo(&mut v, &e.home, &en_home);
        },
    }
    assert(vistas(v@) =~= extras(so, *e, vistas(texlive@)));
    v
}

/// The PATH the app's programs get: the process's own and, after it, the
/// folders where the dependencies really live; `None` where there is nothing
/// to add.
pub fn path_ampliado(so: Plataforma, e: &Entorno, texlive: Vec<String>) -> (r: Option<String>)
    ensures
        opt_vista(r) == path_ampliado_spec(so, *e, vistas(texlive@)),
{
    let x = carpetas_extra(so, e, texlive);
    if x.len() == 0 {
        return None;
    }
    let sep: &str = if so == Plataforma::Windows { ";" } else { ":" };
    let mut t = caracteres(e.path.as_str());
    agregar(&mut t, &caracteres(sep));
    let ghost base = t@;
    let ghost xs = vistas(x@);
    agregar(&mut t, &caracteres(x[0].as_str()));
    assert(xs.take(1) =~= seq![xs[0]]);
    assert(juntar(xs.take(1), sep@) == xs[0]);
    let mut k: usize = 1;
    while k < x.len()
        invariant
            1 <= k <= x@.len(),
            xs == vistas(x@),
            t@ == base + juntar(xs.take(k as int), sep@),
        decreases x@.len() - k,
    {
        agregar(&mut t, &caracteres(sep));
        agregar(&mut t, &caracteres(x[k].as_str()));
        assert(xs.take(k + 1).drop_last() =~= xs.take(k as int));
        assert(xs.take(k + 1).last() == xs[k as int]);
        k = k + 1;
    }
    assert(xs.take(x@.len() as int) =~= xs);
    Some(cadena(&t))
}

// ---------------------------------------------------------------------------
// TeX Live installed by hand
// ---------------------------------------------------------------------------

/// No name goes before one that follows it: from the newest year to the
/// oldest (the names under `/usr/local/texlive` are years).
pub open spec fn descendente(v: Seq<Seq<char>>) -> bool {
    forall|i: int, j: int| 0 <= i < j < v.len() ==> !lex_menor(#[trigger] v[i], #[trigger] v[j])
}

proof fn lema_no_menor_transitivo(a: Seq<char>, b: Seq<char>, c: Seq<char>)
    requires
        !lex_menor(a, b),
        !lex_menor(b, c),
    ensures
        !lex_menor(a, c),
{
    if lex_menor(a, c) {
        lema_lex_total(a, b);
        lema_lex_total(b, c);
        if a == b {
        } else if b == c {
        } else {
            lema_lex_transitivo(c, b, a);
            lema_lex_transitivo(a, c, a);
            lema_lex_irreflexivo(a);
        }
    }
}

proof fn lema_menor_asimetrico(a: Seq<char>, b: Seq<char>)
    requires
        lex_menor(a, b),
    ensures
        !lex_menor(b, a),
{
    if lex_menor(b, a) {
        lema_lex_transitivo(a, b, a);
        lema_lex_irreflexivo(a);
    }
}

/// The years of a TeX Live installed by hand, newest first, so that an up to
/// date installation wins over an old one left beside it.
pub fn de_mas_nuevo_a_mas_viejo(anios: Vec<String>) -> (r: Vec<String>)
    ensures
        descendente(vistas(r@)),
        vistas(r@).to_multiset() == vistas(anios@).to_multiset(),
{
    broadcast use vstd::seq_lib::group_seq_properties;
    broadcast use vstd::multiset::group_multiset_axioms;

    let ghost todo = vistas(anios@);
    let mut pend = anios;
    let mut r: Vec<String> = Vec::new();
    while pend.len() > 0
        invariant
            descendente(vistas(r@)),
            vistas(r@).to_multiset().add(vistas(pend@).to_multiset()) == todo.to_multiset(),
        decreases pend@.len(),
    {
        let ghost p0 = vistas(pend@);
        let x = pend.pop().unwrap();
        assert(p0 =~= vistas(pend@).push(x@));
        let cx = caracteres(x.as_str());
        let mut p: usize = 0;
        while p < r.len() && lex_antes(&cx, &caracteres(r[p].as_str()))
            invariant
                p <= r@.len(),
                cx@ == x@,
                forall|k: int| 0 <= k < p ==> lex_menor(x@, #[trigger] vistas(r@)[k]),
            decreases r@.len() - p,
        {
            p = p + 1;
        }
        let ghost r0 = vistas(r@);
        r.insert(p, x);
        proof {
            assert(vistas(r@) =~= r0.insert(p as int, x@));
            vstd::seq_lib::to_multiset_insert(r0, p as int, x@);
            vstd::seq_lib::to_multiset_build(vistas(pend@), x@);
            assert(vistas(r@).to_multiset().add(vistas(pend@).to_multiset()) =~= r0.to_multiset().add(
                p0.to_multiset(),
            ));
            let rr = vistas(r@);
            assert forall|i: int, j: int| 0 <= i < j < rr.len() implies !lex_menor(#[trigger] rr[i], #[trigger] rr[j]) by {
                if j < p {
                    assert(rr[i] == r0[i] && rr[j] == r0[j]);
                } else if j == p {
                    assert(rr[i] == r0[i]);
                    lema_menor_asimetrico(x@, r0[i]);
                } else if i > p {
                    assert(rr[i] == r0[i - 1] && rr[j] == r0[j - 1]);
                } else if i == p {
                    assert(rr[j] == r0[j - 1]);
                    assert(!lex_menor(x@, r0[p as int]));
                    if j - 1 > p {
                        assert(!lex_menor(r0[p as int], r0[j - 1]));
                    } else {
                        lema_lex_irreflexivo(r0[p as int]);
                    }
                    lema_no_menor_transitivo(x@, r0[p as int], r0[j - 1]);
                } else {
                    assert(rr[i] == r0[i]);
                    assert(rr[j] == r0[j - 1]);
                }
            }
        }
    }
    assert(vistas(pend@) =~= Seq::<Seq<char>>::empty());
    r
}

/// What the user already has on the PATH stays first and whole: the folders
/// are only added after it, so a copy the user put first still wins. On macOS
/// and Linux there is always something to add.
pub proof fn el_path_no_pierde_lo_que_ya_habia(so: Plataforma, e: Entorno, texlive: Seq<Seq<char>>)
    ensures
        match path_ampliado_spec(so, e, texlive) {
            Some(p) => p.len() > e.path@.len() && p.subrange(0, e.path@.len() as int) == e.path@,
            None => true,
        },
        so == Plataforma::MacOs || so == Plataforma::Linux ==> path_ampliado_spec(so, e, texlive) is Some,
{
    reveal_strlit(";");
    reveal_strlit(":");
    match path_ampliado_spec(so, e, texlive) {
        Some(p) => {
            assert(p.subrange(0, e.path@.len() as int) =~= e.path@);
        },
        None => {},
    }
}

/// Outside Windows, with a home, `~/.local/bin` (where the installer leaves
/// `xtal`) and `~/.cargo/bin` (where `cargo install tectonic` leaves it) are
/// among the folders added.
pub proof fn esta_donde_el_instalador_deja_las_cosas(so: Plataforma, e: Entorno, texlive: Seq<Seq<char>>)
    requires
        so != Plataforma::Windows,
        e.home is Some,
    ensures
        extras(so, e, texlive).contains(e.home->0@ + "/.local/bin"@),
        extras(so, e, texlive).contains(e.home->0@ + "/.cargo/bin"@),
{
    let h = e.home->0@;
    let fin = bajo(opt_vista(e.home), seq!["/.local/bin"@, "/.cargo/bin"@]);
    let x = extras(so, e, texlive);
    assert(fin[0] == h + "/.local/bin"@);
    assert(fin[1] == h + "/.cargo/bin"@);
    let antes = x.len() - 2;
    assert(x[antes] == fin[0]);
    assert(x[antes + 1] == fin[1]);
}

} // verus!
