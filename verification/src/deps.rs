//! The programs that Xtal needs outside its binary (tectonic or pdflatex to
//! compile, ngspice to simulate): which package each package manager calls
//! them, which manager a machine has, and how to install with it.
//!
//! Finding out whether a program is on the `PATH` means running it, which the
//! program does; the order in which managers are tried and what to answer is
//! decided here.
use vstd::prelude::*;
use crate::texto::{caracteres, iguales};

verus! {

broadcast use vstd::string::group_string_axioms;

/// Whether a dependency is needed or can be lived without.
#[derive(Debug, Clone, Copy, PartialEq, Eq, Structural)]
pub enum DepKind {
    /// Without it the report does not compile.
    Core,
    /// Only needed for a part (today: simulating circuits).
    Optional,
}

/// A package manager.
#[derive(Debug, Clone, Copy, PartialEq, Eq, Structural)]
pub enum PkgMgr {
    Brew,
    Apt,
    Dnf,
    Pacman,
    Scoop,
    Winget,
    Choco,
}

/// The system the program runs on, as far as installing goes.
#[derive(Debug, Clone, Copy, PartialEq, Eq, Structural)]
pub enum Sistema {
    MacOs,
    Windows,
    /// Linux and any other Unix.
    Linux,
}

/// The name of the package in each manager; `None` where that manager does not
/// have it (and manual instructions are shown instead).
#[derive(Debug, Clone, Copy)]
pub struct PkgNames {
    pub brew: Option<&'static str>,
    pub apt: Option<&'static str>,
    pub dnf: Option<&'static str>,
    pub pacman: Option<&'static str>,
    pub scoop: Option<&'static str>,
    pub winget: Option<&'static str>,
    pub choco: Option<&'static str>,
}

pub open spec fn opt_str(o: Option<&'static str>) -> Option<Seq<char>> {
    match o {
        Some(s) => Some(s@),
        None => None,
    }
}

pub open spec fn opt_string(o: Option<String>) -> Option<Seq<char>> {
    match o {
        Some(s) => Some(s@),
        None => None,
    }
}

impl PkgNames {
    pub open spec fn de(self, m: PkgMgr) -> Option<&'static str> {
        match m {
            PkgMgr::Brew => self.brew,
            PkgMgr::Apt => self.apt,
            PkgMgr::Dnf => self.dnf,
            PkgMgr::Pacman => self.pacman,
            PkgMgr::Scoop => self.scoop,
            PkgMgr::Winget => self.winget,
            PkgMgr::Choco => self.choco,
        }
    }

    /// The package's name in the manager `m`.
    pub fn for_mgr(&self, m: PkgMgr) -> (r: Option<String>)
        ensures
            opt_string(r) == opt_str(self.de(m)),
    {
        let p = match m {
            PkgMgr::Brew => self.brew,
            PkgMgr::Apt => self.apt,
            PkgMgr::Dnf => self.dnf,
            PkgMgr::Pacman => self.pacman,
            PkgMgr::Scoop => self.scoop,
            PkgMgr::Winget => self.winget,
            PkgMgr::Choco => self.choco,
        };
        match p {
            Some(s) => Some(s.to_owned()),
            None => None,
        }
    }
}

/// Tectonic is not in the default repositories of Debian and Ubuntu nor in
/// winget; scoop has it in its `main` bucket.
pub fn tectonic_pkgs() -> (p: PkgNames)
    ensures
        opt_str(p.brew) == Some("tectonic"@),
        p.apt is None,
        opt_str(p.dnf) == Some("tectonic"@),
        opt_str(p.pacman) == Some("tectonic"@),
        opt_str(p.scoop) == Some("tectonic"@),
        p.winget is None,
        opt_str(p.choco) == Some("tectonic"@),
{
    PkgNames {
        brew: Some("tectonic"),
        apt: None,
        dnf: Some("tectonic"),
        pacman: Some("tectonic"),
        scoop: Some("tectonic"),
        winget: None,
        choco: Some("tectonic"),
    }
}

/// The fallback engine. On Windows the LaTeX distribution is MiKTeX, which
/// fetches the packages it lacks by itself.
pub fn texlive_pkgs() -> (p: PkgNames)
    ensures
        opt_str(p.brew) == Some("texlive"@),
        opt_str(p.apt) == Some("texlive-latex-extra"@),
        opt_str(p.dnf) == Some("texlive-scheme-medium"@),
        opt_str(p.pacman) == Some("texlive-core"@),
        opt_str(p.scoop) == Some("latex"@),
        opt_str(p.winget) == Some("MiKTeX.MiKTeX"@),
        opt_str(p.choco) == Some("miktex"@),
{
    PkgNames {
        brew: Some("texlive"),
        apt: Some("texlive-latex-extra"),
        dnf: Some("texlive-scheme-medium"),
        pacman: Some("texlive-core"),
        scoop: Some("latex"),
        winget: Some("MiKTeX.MiKTeX"),
        choco: Some("miktex"),
    }
}

/// The simulator. In scoop it lives in the `extras` bucket, which
/// `install_cmd` adds on the same line.
pub fn ngspice_pkgs() -> (p: PkgNames)
    ensures
        opt_str(p.brew) == Some("ngspice"@),
        opt_str(p.apt) == Some("ngspice"@),
        opt_str(p.dnf) == Some("ngspice"@),
        opt_str(p.pacman) == Some("ngspice"@),
        opt_str(p.scoop) == Some("ngspice"@),
        p.winget is None,
        opt_str(p.choco) == Some("ngspice"@),
{
    PkgNames {
        brew: Some("ngspice"),
        apt: Some("ngspice"),
        dnf: Some("ngspice"),
        pacman: Some("ngspice"),
        scoop: Some("ngspice"),
        winget: None,
        choco: Some("ngspice"),
    }
}

// ---------------------------------------------------------------------------
// Which manager
// ---------------------------------------------------------------------------

/// The managers of Linux, in the order they are tried: `brew` first, the only
/// one that installs without root and the only one with Tectonic on Debian and
/// Ubuntu; `apt-get` and not `apt`, whose interface is not stable for scripts.
pub open spec fn lista_linux() -> Seq<(Seq<char>, PkgMgr)> {
    seq![("brew"@, PkgMgr::Brew), ("apt-get"@, PkgMgr::Apt), ("dnf"@, PkgMgr::Dnf), ("pacman"@, PkgMgr::Pacman)]
}

/// The managers a system tries, in order: Homebrew on macOS; scoop, winget and
/// chocolatey on Windows (scoop needs no administrator and has all three
/// packages; chocolatey has them too but needs one); the Linux list elsewhere.
pub open spec fn candidatos(os: Sistema) -> Seq<(Seq<char>, PkgMgr)> {
    match os {
        Sistema::MacOs => seq![("brew"@, PkgMgr::Brew)],
        Sistema::Windows => seq![("scoop"@, PkgMgr::Scoop), ("winget"@, PkgMgr::Winget), ("choco"@, PkgMgr::Choco)],
        Sistema::Linux => lista_linux(),
    }
}

pub open spec fn vista_lista(v: Seq<(&'static str, PkgMgr)>) -> Seq<(Seq<char>, PkgMgr)> {
    v.map_values(|p: (&'static str, PkgMgr)| (p.0@, p.1))
}

/// The managers of Linux, in the order they are tried.
pub fn mgrs_linux() -> (r: Vec<(&'static str, PkgMgr)>)
    ensures
        vista_lista(r@) == lista_linux(),
{
    let mut r: Vec<(&'static str, PkgMgr)> = Vec::new();
    r.push(("brew", PkgMgr::Brew));
    r.push(("apt-get", PkgMgr::Apt));
    r.push(("dnf", PkgMgr::Dnf));
    r.push(("pacman", PkgMgr::Pacman));
    assert(vista_lista(r@) =~= lista_linux());
    r
}

/// The managers that `os` tries, in order.
pub fn gestores(os: Sistema) -> (r: Vec<(&'static str, PkgMgr)>)
    ensures
        vista_lista(r@) == candidatos(os),
{
    match os {
        Sistema::MacOs => {
            let mut r: Vec<(&'static str, PkgMgr)> = Vec::new();
            r.push(("brew", PkgMgr::Brew));
            assert(vista_lista(r@) =~= candidatos(os));
            r
        },
        Sistema::Windows => {
            let mut r: Vec<(&'static str, PkgMgr)> = Vec::new();
            r.push(("scoop", PkgMgr::Scoop));
            r.push(("winget", PkgMgr::Winget));
            r.push(("choco", PkgMgr::Choco));
            assert(vista_lista(r@) =~= candidatos(os));
            r
        },
        Sistema::Linux => mgrs_linux(),
    }
}

/// The first manager of `os`'s list whose program `disponible` finds, asking in
/// order and stopping at the first that is there; `None` if none is.
pub fn detect_pkg_mgr<F: Fn(&str) -> bool>(os: Sistema, disponible: F) -> (r: Option<PkgMgr>)
    requires
        forall|s: &str| call_requires(disponible, (s,)),
    ensures
        match r {
            Some(m) => exists|k: int|
                0 <= k < candidatos(os).len() && #[trigger] candidatos(os)[k].1 == m
                    && (exists|s: &str| s@ == candidatos(os)[k].0 && #[trigger] call_ensures(disponible, (s,), true))
                    && (forall|j: int| 0 <= j < k ==> exists|s: &str|
                        s@ == (#[trigger] candidatos(os)[j]).0 && call_ensures(disponible, (s,), false)),
            None => forall|j: int| 0 <= j < candidatos(os).len() ==> exists|s: &str|
                s@ == (#[trigger] candidatos(os)[j]).0 && call_ensures(disponible, (s,), false),
        },
{
    let lista = gestores(os);
    let mut k: usize = 0;
    while k < lista.len()
        invariant
            k <= lista@.len(),
            vista_lista(lista@) == candidatos(os),
            forall|s: &str| call_requires(disponible, (s,)),
            forall|j: int| 0 <= j < k ==> exists|s: &str|
                s@ == (#[trigger] candidatos(os)[j]).0 && call_ensures(disponible, (s,), false),
        decreases lista@.len() - k,
    {
        let (bin, m) = lista[k];
        assert(candidatos(os)[k as int] == (bin@, m));
        let hay = disponible(bin);
        if hay {
            assert(call_ensures(disponible, (bin,), true));
            assert(exists|s: &str| s@ == candidatos(os)[k as int].0 && #[trigger] call_ensures(disponible, (s,), true));
            assert(candidatos(os)[k as int].1 == m);
            return Some(m);
        }
        assert(call_ensures(disponible, (bin,), false));
        k = k + 1;
    }
    None
}

// ---------------------------------------------------------------------------
// How to install
// ---------------------------------------------------------------------------

/// The texts of a command line.
pub open spec fn textos(v: Seq<String>) -> Seq<Seq<char>> {
    v.map_values(|s: String| s@)
}

/// The program and arguments that install `pkg` with `mgr`.
pub open spec fn orden_instalar(mgr: PkgMgr, pkg: Seq<char>) -> (Seq<char>, Seq<Seq<char>>) {
    match mgr {
        PkgMgr::Brew => ("brew"@, seq!["install"@, pkg]),
        PkgMgr::Apt => ("sudo"@, seq!["apt-get"@, "install"@, "-y"@, pkg]),
        PkgMgr::Dnf => ("sudo"@, seq!["dnf"@, "install"@, "-y"@, pkg]),
        PkgMgr::Pacman => ("sudo"@, seq!["pacman"@, "-S"@, "--noconfirm"@, pkg]),
        PkgMgr::Scoop => if pkg == "ngspice"@ {
            ("powershell"@, seq!["-NoProfile"@, "-Command"@, "scoop bucket add extras; scoop install ngspice"@])
        } else {
            ("scoop"@, seq!["install"@, pkg])
        },
        PkgMgr::Winget => (
            "winget"@,
            seq![
                "install"@,
                "--exact"@,
                "--id"@,
                pkg,
                "--accept-package-agreements"@,
                "--accept-source-agreements"@,
            ],
        ),
        PkgMgr::Choco => ("choco"@, seq!["install"@, "-y"@, pkg]),
    }
}

/// The command (program and arguments) that installs `pkg` with `mgr`. brew,
/// scoop, winget and chocolatey install without `sudo`; the Linux managers
/// with it. In scoop, ngspice first adds the `extras` bucket (adding it is
/// idempotent); winget accepts the agreements so that it does not wait for an
/// answer that will not come.
#[verifier::spinoff_prover]
#[verifier::rlimit(40)]
pub fn install_cmd(mgr: PkgMgr, pkg: &str) -> (r: (String, Vec<String>))
    ensures
        (r.0@, textos(r.1@)) == orden_instalar(mgr, pkg@),
{
    let mut a: Vec<String> = Vec::new();
    match mgr {
        PkgMgr::Brew => {
            a.push("install".to_owned());
            a.push(pkg.to_owned());
            assert(textos(a@) =~= orden_instalar(mgr, pkg@).1);
            ("brew".to_owned(), a)
        },
        PkgMgr::Apt => {
            a.push("apt-get".to_owned());
            a.push("install".to_owned());
            a.push("-y".to_owned());
            a.push(pkg.to_owned());
            assert(textos(a@) =~= orden_instalar(mgr, pkg@).1);
            ("sudo".to_owned(), a)
        },
        PkgMgr::Dnf => {
            a.push("dnf".to_owned());
            a.push("install".to_owned());
            a.push("-y".to_owned());
            a.push(pkg.to_owned());
            assert(textos(a@) =~= orden_instalar(mgr, pkg@).1);
            ("sudo".to_owned(), a)
        },
        PkgMgr::Pacman => {
            a.push("pacman".to_owned());
            a.push("-S".to_owned());
            a.push("--noconfirm".to_owned());
            a.push(pkg.to_owned());
            assert(textos(a@) =~= orden_instalar(mgr, pkg@).1);
            ("sudo".to_owned(), a)
        },
        PkgMgr::Scoop => {
            if iguales(&caracteres(pkg), &caracteres("ngspice")) {
                a.push("-NoProfile".to_owned());
                a.push("-Command".to_owned());
                a.push("scoop bucket add extras; scoop install ngspice".to_owned());
                assert(textos(a@) =~= orden_instalar(mgr, pkg@).1);
                ("powershell".to_owned(), a)
            } else {
                a.push("install".to_owned());
                a.push(pkg.to_owned());
                assert(textos(a@) =~= orden_instalar(mgr, pkg@).1);
                ("scoop".to_owned(), a)
            }
        },
        PkgMgr::Winget => {
            a.push("install".to_owned());
            a.push("--exact".to_owned());
            a.push("--id".to_owned());
            a.push(pkg.to_owned());
            a.push("--accept-package-agreements".to_owned());
            a.push("--accept-source-agreements".to_owned());
            assert(textos(a@) =~= orden_instalar(mgr, pkg@).1);
            ("winget".to_owned(), a)
        },
        PkgMgr::Choco => {
            a.push("install".to_owned());
            a.push("-y".to_owned());
            a.push(pkg.to_owned());
            assert(textos(a@) =~= orden_instalar(mgr, pkg@).1);
            ("choco".to_owned(), a)
        },
    }
}

/// Only a package manager that is not Homebrew, scoop, winget or chocolatey
/// asks for root, and every install command names the package.
#[verifier::spinoff_prover]
#[verifier::rlimit(40)]
pub proof fn solo_linux_pide_root(mgr: PkgMgr, pkg: Seq<char>)
    ensures
        orden_instalar(mgr, pkg).0 == "sudo"@ <==> (mgr == PkgMgr::Apt || mgr == PkgMgr::Dnf
            || mgr == PkgMgr::Pacman),
        pkg != "ngspice"@ || mgr != PkgMgr::Scoop ==> orden_instalar(mgr, pkg).1.contains(pkg),
{
    reveal_strlit("sudo");
    reveal_strlit("brew");
    reveal_strlit("powershell");
    reveal_strlit("scoop");
    reveal_strlit("winget");
    reveal_strlit("choco");
    assert("brew"@[0] != "sudo"@[0]);
    assert("powershell"@.len() != "sudo"@.len());
    assert("scoop"@.len() != "sudo"@.len());
    assert("winget"@.len() != "sudo"@.len());
    assert("choco"@.len() != "sudo"@.len());
    let a = orden_instalar(mgr, pkg).1;
    match mgr {
        PkgMgr::Brew => assert(a[1] == pkg),
        PkgMgr::Apt => assert(a[3] == pkg),
        PkgMgr::Dnf => assert(a[3] == pkg),
        PkgMgr::Pacman => assert(a[3] == pkg),
        PkgMgr::Scoop => if pkg != "ngspice"@ { assert(a[1] == pkg) },
        PkgMgr::Winget => assert(a[3] == pkg),
        PkgMgr::Choco => assert(a[2] == pkg),
    }
}

// ---------------------------------------------------------------------------
// By hand
// ---------------------------------------------------------------------------

/// One line of the manual instructions: a command, or a faint aside.
#[derive(Clone, Debug)]
pub struct Indicacion {
    pub texto: String,
    pub tenue: bool,
}

pub open spec fn vista_indicaciones(v: Seq<Indicacion>) -> Seq<(Seq<char>, bool)> {
    v.map_values(|i: Indicacion| (i.texto@, i.tenue))
}

pub open spec fn linea(t: Seq<char>) -> Seq<(Seq<char>, bool)> {
    seq![(t, false)]
}

pub open spec fn aparte(t: Seq<char>) -> Seq<(Seq<char>, bool)> {
    seq![(t, true)]
}

pub open spec fn si_hay(p: Option<&'static str>, antes: Seq<char>) -> Seq<(Seq<char>, bool)> {
    match p {
        Some(x) => linea(antes + x@),
        None => Seq::empty(),
    }
}

/// The lines that tell how to install `bin` by hand when no manager is found
/// or the one found does not have it. Tectonic has its own text (it is not in
/// apt: on Debian and Ubuntu this is its normal path). On Windows scoop comes
/// first, with how to get scoop; on Linux the three families are shown, not
/// only the local one, which may be the one that lacks the package.
pub open spec fn manual(bin: Seq<char>, p: PkgNames, os: Sistema) -> Seq<(Seq<char>, bool)> {
    if bin == "tectonic"@ {
        linea("https://tectonic-typesetting.github.io/install.html"@) + match os {
            Sistema::Windows => linea("scoop install tectonic"@) + linea(
                "o el .zip de x86_64-pc-windows-msvc de github.com/tectonic-typesetting/tectonic/releases"@,
            ),
            Sistema::Linux => linea("brew install tectonic"@) + aparte(
                "(sin brew: /bin/bash -c \"$(curl -fsSL https://raw.githubusercontent.com/Homebrew/install/HEAD/install.sh)\")"@,
            ) + linea("o, con el compilador de Rust ya instalado: cargo install tectonic"@),
            Sistema::MacOs => linea("o: cargo install tectonic"@),
        }
    } else {
        match os {
            Sistema::Windows => aparte("(sin scoop: iwr -useb get.scoop.sh | iex)"@) + match p.scoop {
                Some(x) => linea(
                    (if x@ == "ngspice"@ { "scoop bucket add extras; "@ } else { ""@ }) + "scoop install "@ + x@,
                ),
                None => Seq::empty(),
            } + si_hay(p.winget, "winget install --id "@) + si_hay(p.choco, "choco install "@),
            Sistema::Linux => si_hay(p.brew, "brew install "@) + si_hay(p.apt, "sudo apt-get install "@)
                + si_hay(p.dnf, "sudo dnf install "@) + si_hay(p.pacman, "sudo pacman -S "@),
            Sistema::MacOs => si_hay(p.brew, "brew install "@) + si_hay(p.apt, "sudo apt-get install "@),
        }
    }
}

fn poner(v: &mut Vec<Indicacion>, t: &str, tenue: bool)
    ensures
        vista_indicaciones(final(v)@) == vista_indicaciones(old(v)@).push((t@, tenue)),
{
    let ghost antes = vista_indicaciones(v@);
    v.push(Indicacion { texto: t.to_owned(), tenue });
    assert(vista_indicaciones(v@) =~= antes.push((t@, tenue)));
}

fn poner_si(v: &mut Vec<Indicacion>, p: Option<&'static str>, antes: &str)
    ensures
        vista_indicaciones(final(v)@) == vista_indicaciones(old(v)@) + si_hay(p, antes@),
{
    let ghost previo = vista_indicaciones(v@);
    match p {
        Some(x) => {
            let mut t = caracteres(antes);
            crate::texto::agregar(&mut t, &caracteres(x));
            v.push(Indicacion { texto: crate::texto::cadena(&t), tenue: false });
            assert(vista_indicaciones(v@) =~= previo + si_hay(p, antes@));
        },
        None => {
            assert(vista_indicaciones(v@) =~= previo + si_hay(p, antes@));
        },
    }
}

/// The lines of manual instructions for `bin` on `os` (the program prints
/// them under a header that names `bin`).
pub fn indicaciones_manuales(bin: &str, pkgs: &PkgNames, os: Sistema) -> (r: Vec<Indicacion>)
    ensures
        vista_indicaciones(r@) == manual(bin@, *pkgs, os),
{
    let mut v: Vec<Indicacion> = Vec::new();
    if iguales(&caracteres(bin), &caracteres("tectonic")) {
        poner(&mut v, "https://tectonic-typesetting.github.io/install.html", false);
        match os {
            Sistema::Windows => {
                poner(&mut v, "scoop install tectonic", false);
                poner(
                    &mut v,
                    "o el .zip de x86_64-pc-windows-msvc de github.com/tectonic-typesetting/tectonic/releases",
                    false,
                );
            },
            Sistema::Linux => {
                poner(&mut v, "brew install tectonic", false);
                poner(
                    &mut v,
                    "(sin brew: /bin/bash -c \"$(curl -fsSL https://raw.githubusercontent.com/Homebrew/install/HEAD/install.sh)\")",
                    true,
                );
                poner(&mut v, "o, con el compilador de Rust ya instalado: cargo install tectonic", false);
            },
            Sistema::MacOs => {
                poner(&mut v, "o: cargo install tectonic", false);
            },
        }
        assert(vista_indicaciones(v@) =~= manual(bin@, *pkgs, os));
        return v;
    }
    match os {
        Sistema::Windows => {
            poner(&mut v, "(sin scoop: iwr -useb get.scoop.sh | iex)", true);
            let ghost tras_aparte = vista_indicaciones(v@);
            match pkgs.scoop {
                Some(x) => {
                    let mut t = if iguales(&caracteres(x), &caracteres("ngspice")) {
                        caracteres("scoop bucket add extras; ")
                    } else {
                        caracteres("")
                    };
                    crate::texto::agregar(&mut t, &caracteres("scoop install "));
                    crate::texto::agregar(&mut t, &caracteres(x));
                    let s = crate::texto::cadena(&t);
                    poner(&mut v, s.as_str(), false);
                },
                None => {},
            }
            poner_si(&mut v, pkgs.winget, "winget install --id ");
            poner_si(&mut v, pkgs.choco, "choco install ");
        },
        Sistema::Linux => {
            poner_si(&mut v, pkgs.brew, "brew install ");
            poner_si(&mut v, pkgs.apt, "sudo apt-get install ");
            poner_si(&mut v, pkgs.dnf, "sudo dnf install ");
            poner_si(&mut v, pkgs.pacman, "sudo pacman -S ");
        },
        Sistema::MacOs => {
            poner_si(&mut v, pkgs.brew, "brew install ");
            poner_si(&mut v, pkgs.apt, "sudo apt-get install ");
        },
    }
    assert(vista_indicaciones(v@) =~= manual(bin@, *pkgs, os));
    v
}

/// Whether installing a missing dependency is offered with "yes" as the
/// default answer: only for the core ones (nobody wants a circuit simulator
/// installed for pressing Enter in a hurry).
pub fn instalar_por_defecto(kind: DepKind) -> (r: bool)
    ensures
        r == (kind == DepKind::Core),
{
    match kind {
        DepKind::Core => true,
        DepKind::Optional => false,
    }
}

} // verus!
