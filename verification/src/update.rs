//! What `xtal update` decides: which releases a channel looks at, where the
//! assets of a release live, whether a version is newer than another, and how
//! to upgrade for each way of installing.
//!
//! Asking GitHub (through `curl`) and running the upgrader are left to the
//! program; the app's "Updates" panel reads the same answers through
//! `xtal --json update --check`, so there is one place that knows them.
use vstd::prelude::*;
use crate::texto::{
    agregar, antes_de, cadena, caracteres, contiene, contiene_texto, hasta, hasta_exec, iguales,
    lema_hasta, minusculas, minusculas_de, partir_en, recortado, recortar, tramo, trozos, u32_de,
    leer_u32, vistas,
};

verus! {

broadcast use vstd::string::group_string_axioms;

/// Which versions someone asking looks at.
#[derive(Debug, Clone, Copy, PartialEq, Eq, Structural)]
pub enum Canal {
    /// The latest published release, test ones left out. The default.
    Estable,
    /// Prereleases included.
    Beta,
}

/// The channel a name gives: `estable`/`stable` and `beta`/`prueba`, in any
/// case and with blanks around.
pub open spec fn canal_de(s: Seq<char>) -> Option<Canal> {
    let n = minusculas_de(recortado(s));
    if n == "estable"@ || n == "stable"@ {
        Some(Canal::Estable)
    } else if n == "beta"@ || n == "prueba"@ {
        Some(Canal::Beta)
    } else {
        None
    }
}

impl Canal {
    /// Reads a channel's name; an unknown one is an error that names it.
    pub fn parse(s: &str) -> (r: Result<Canal, String>)
        ensures
            canal_de(s@) is Some ==> r == Ok::<Canal, String>(canal_de(s@)->0),
            canal_de(s@) is None ==> r is Err && r->Err_0@ == "canal desconocido: '"@
                + minusculas_de(recortado(s@)) + "'. Los que hay son `estable` y `beta`."@,
    {
        let t = recortar(&caracteres(s));
        let low = minusculas(cadena(&t).as_str());
        let n = caracteres(low.as_str());
        if iguales(&n, &caracteres("estable")) || iguales(&n, &caracteres("stable")) {
            Ok(Canal::Estable)
        } else if iguales(&n, &caracteres("beta")) || iguales(&n, &caracteres("prueba")) {
            Ok(Canal::Beta)
        } else {
            let mut m = caracteres("canal desconocido: '");
            agregar(&mut m, &n);
            agregar(&mut m, &caracteres("'. Los que hay son `estable` y `beta`."));
            Err(cadena(&m))
        }
    }

    pub open spec fn clave_de(self) -> Seq<char> {
        match self {
            Canal::Estable => "estable"@,
            Canal::Beta => "beta"@,
        }
    }

    /// The channel's name as `--json` writes it.
    pub fn clave(&self) -> (r: &'static str)
        ensures
            r@ == self.clave_de(),
    {
        match self {
            Canal::Estable => "estable",
            Canal::Beta => "beta",
        }
    }

    pub open spec fn url_de(self) -> Seq<char> {
        match self {
            Canal::Estable => "https://api.github.com/repos/mcorcos/xtal/releases/latest"@,
            Canal::Beta => "https://api.github.com/repos/mcorcos/xtal/releases?per_page=10"@,
        }
    }

    /// The API endpoint to ask. `/releases/latest` leaves the prereleases out,
    /// which is what the stable channel wants; beta asks for the list.
    pub fn url(&self) -> (r: String)
        ensures
            r@ == self.url_de(),
    {
        match self {
            Canal::Estable => "https://api.github.com/repos/mcorcos/xtal/releases/latest".to_owned(),
            Canal::Beta => "https://api.github.com/repos/mcorcos/xtal/releases?per_page=10".to_owned(),
        }
    }
}

// ---------------------------------------------------------------------------
// The assets of a release
// ---------------------------------------------------------------------------

/// The page of a release's notes.
pub fn notes_url(version: &str) -> (r: String)
    ensures
        r@ == "https://github.com/mcorcos/xtal/releases/tag/v"@ + version@,
{
    let mut m = caracteres("https://github.com/mcorcos/xtal/releases/tag/v");
    agregar(&mut m, &caracteres(version));
    cadena(&m)
}

/// The zip of the macOS desktop app of a release.
pub fn macos_app_url(version: &str) -> (r: String)
    ensures
        r@ == "https://github.com/mcorcos/xtal/releases/download/v"@ + version@ + "/Xtal-"@
            + version@ + "-macos.zip"@,
{
    let v = caracteres(version);
    let mut m = caracteres("https://github.com/mcorcos/xtal/releases/download/v");
    agregar(&mut m, &v);
    agregar(&mut m, &caracteres("/Xtal-"));
    agregar(&mut m, &v);
    agregar(&mut m, &caracteres("-macos.zip"));
    cadena(&m)
}

/// The file with the hashes of every asset of a release.
pub fn checksums_url(version: &str) -> (r: String)
    ensures
        r@ == "https://github.com/mcorcos/xtal/releases/download/v"@ + version@ + "/SHA256SUMS"@,
{
    let mut m = caracteres("https://github.com/mcorcos/xtal/releases/download/v");
    agregar(&mut m, &caracteres(version));
    agregar(&mut m, &caracteres("/SHA256SUMS"));
    cadena(&m)
}

// ---------------------------------------------------------------------------
// The answer of the API
// ---------------------------------------------------------------------------

/// One release of a list, as far as the choice looks at it.
#[derive(Clone, Debug)]
pub struct Lanzamiento {
    /// `tag_name`, where it is a string.
    pub tag: Option<String>,
    /// `draft`, where it is a boolean.
    pub borrador: Option<bool>,
}

/// The body of the API's answer, as far as the choice looks at it.
#[derive(Clone, Debug)]
pub enum Respuesta {
    /// An object: `tag_name` where it is a string.
    Objeto(Option<String>),
    /// A list of releases, newest first.
    Lista(Vec<Lanzamiento>),
    /// Anything else.
    Otra,
}

/// A tag without its leading `v`s.
pub open spec fn sin_v(t: Seq<char>) -> Seq<char>
    decreases t.len(),
{
    if t.len() > 0 && t[0] == 'v' {
        sin_v(t.drop_first())
    } else {
        t
    }
}

/// The first release of a list that is not a draft (a missing `draft` is not
/// one), by its position.
pub open spec fn primer_publicado(l: Seq<Lanzamiento>) -> Option<int>
    decreases l.len(),
{
    if l.len() == 0 {
        None
    } else if l[0].borrador != Some(true) {
        Some(0)
    } else {
        match primer_publicado(l.drop_first()) {
            Some(k) => Some(k + 1),
            None => None,
        }
    }
}

/// The version an answer names: the tag of the object, or of the first
/// published release of the list, without its `v`.
pub open spec fn tag_de_spec(r: Respuesta) -> Option<Seq<char>> {
    match r {
        Respuesta::Objeto(Some(t)) => Some(sin_v(t@)),
        Respuesta::Objeto(None) => None,
        Respuesta::Lista(l) => match primer_publicado(l@) {
            Some(k) => match l@[k].tag {
                Some(t) => Some(sin_v(t@)),
                None => None,
            },
            None => None,
        },
        Respuesta::Otra => None,
    }
}

fn quitar_v(t: &String) -> (r: String)
    ensures
        r@ == sin_v(t@),
{
    let c = caracteres(t.as_str());
    let mut i: usize = 0;
    assert(c@.subrange(0, c@.len() as int) =~= c@);
    while i < c.len() && c[i] == 'v'
        invariant
            i <= c@.len(),
            sin_v(c@.subrange(i as int, c@.len() as int)) == sin_v(c@),
        decreases c@.len() - i,
    {
        assert(c@.subrange(i as int, c@.len() as int).drop_first() =~= c@.subrange(i + 1, c@.len() as int));
        i = i + 1;
    }
    let r = tramo(&c, i, c.len());
    cadena(&r)
}

/// The version the API's answer names, without its leading `v`: from an
/// object its `tag_name`; from a list, that of the first release that is not a
/// draft (a draft cannot be downloaded).
pub fn tag_de(body: &Respuesta) -> (r: Option<String>)
    ensures
        match r {
            Some(t) => tag_de_spec(*body) == Some(t@),
            None => tag_de_spec(*body) is None,
        },
{
    match body {
        Respuesta::Objeto(Some(t)) => Some(quitar_v(t)),
        Respuesta::Objeto(None) => None,
        Respuesta::Lista(l) => {
            let mut k: usize = 0;
            assert(l@.subrange(0, l@.len() as int) =~= l@);
            while k < l.len()
                invariant
                    k <= l@.len(),
                    *body == Respuesta::Lista(*l),
                    forall|j: int| 0 <= j < k ==> (#[trigger] l@[j]).borrador == Some(true),
                    primer_publicado(l@) == match primer_publicado(l@.subrange(k as int, l@.len() as int)) {
                        Some(j) => Some(j + k),
                        None => None::<int>,
                    },
                decreases l@.len() - k,
            {
                let b = match l[k].borrador {
                    Some(true) => true,
                    _ => false,
                };
                assert(l@.subrange(k as int, l@.len() as int).drop_first() =~= l@.subrange(k + 1, l@.len() as int));
                if !b {
                    assert(primer_publicado(l@.subrange(k as int, l@.len() as int)) == Some(0int));
                    return match &l[k].tag {
                        Some(t) => Some(quitar_v(t)),
                        None => None,
                    };
                }
                k = k + 1;
            }
            None
        },
        Respuesta::Otra => None,
    }
}

// ---------------------------------------------------------------------------
// Versions
// ---------------------------------------------------------------------------

/// The part of a version before any `-` or `+` suffix.
pub open spec fn nucleo(v: Seq<char>) -> Seq<char> {
    let a = hasta(v, 0, '-');
    let b = hasta(v, 0, '+');
    v.subrange(0, if a <= b { a } else { b })
}

/// `1.2.3` as `(1, 2, 3)`, with suffixes like `-rc1` left out; a missing minor
/// or patch is `0`, and what follows the patch is not read.
pub open spec fn version_de(v: Seq<char>) -> Option<(u32, u32, u32)> {
    let ps = trozos(nucleo(v), '.');
    let mayor = u32_de(ps[0]);
    let menor = if ps.len() > 1 { u32_de(ps[1]) } else { Some(0u32) };
    let parche = if ps.len() > 2 { u32_de(ps[2]) } else { Some(0u32) };
    if ps.len() > 0 && mayor is Some && menor is Some && parche is Some {
        Some((mayor->0, menor->0, parche->0))
    } else {
        None
    }
}

/// Lexicographic order of versions.
pub open spec fn posterior(a: (u32, u32, u32), b: (u32, u32, u32)) -> bool {
    a.0 > b.0 || (a.0 == b.0 && (a.1 > b.1 || (a.1 == b.1 && a.2 > b.2)))
}

/// `candidata` is newer than `actual`; never where either does not parse.
pub open spec fn mas_nueva(candidata: Seq<char>, actual: Seq<char>) -> bool {
    match (version_de(candidata), version_de(actual)) {
        (Some(n), Some(v)) => posterior(n, v),
        _ => false,
    }
}

proof fn lema_trozos_no_vacio(s: Seq<char>, c: char)
    ensures
        trozos(s, c).len() > 0,
{
    lema_hasta(s, 0, c);
}

fn leer_o_cero(ps: &Vec<Vec<char>>, k: usize) -> (r: Option<u32>)
    ensures
        r == (if k < ps@.len() { u32_de(ps@[k as int]@) } else { Some(0u32) }),
{
    if k < ps.len() {
        leer_u32(&ps[k])
    } else {
        Some(0)
    }
}

/// Parses `1.2.3` into `(1, 2, 3)`, leaving out suffixes like `-rc1`.
pub fn parse_version(v: &str) -> (r: Option<(u32, u32, u32)>)
    ensures
        r == version_de(v@),
{
    let c = caracteres(v);
    let a = hasta_exec(&c, 0, '-');
    let b = hasta_exec(&c, 0, '+');
    let fin = if a <= b { a } else { b };
    let core = tramo(&c, 0, fin);
    let ps = partir_en(&core, '.');
    proof {
        lema_trozos_no_vacio(nucleo(v@), '.');
        assert(vistas(ps@)[0] == ps@[0]@);
        if ps@.len() > 1 {
            assert(vistas(ps@)[1] == ps@[1]@);
        }
        if ps@.len() > 2 {
            assert(vistas(ps@)[2] == ps@[2]@);
        }
    }
    let mayor = leer_u32(&ps[0]);
    let menor = leer_o_cero(&ps, 1);
    let parche = leer_o_cero(&ps, 2);
    match (mayor, menor, parche) {
        (Some(x), Some(y), Some(z)) => Some((x, y, z)),
        _ => None,
    }
}

/// Whether `candidata` is newer than `actual`. Where either does not parse the
/// answer is no: better not to announce an update that does not exist than to
/// push someone to "update" backwards.
pub fn is_newer(candidata: &str, actual: &str) -> (r: bool)
    ensures
        r == mas_nueva(candidata@, actual@),
{
    match (parse_version(candidata), parse_version(actual)) {
        (Some(n), Some(v)) => n.0 > v.0 || (n.0 == v.0 && (n.1 > v.1 || (n.1 == v.1 && n.2 > v.2))),
        _ => false,
    }
}

/// No version is newer than itself.
pub proof fn ninguna_es_mas_nueva_que_si_misma(v: Seq<char>)
    ensures
        !mas_nueva(v, v),
{
}

/// Of two versions, at most one is newer than the other: the update never
/// suggests going back.
pub proof fn nunca_sugiere_volver(a: Seq<char>, b: Seq<char>)
    ensures
        mas_nueva(a, b) ==> !mas_nueva(b, a),
{
}

/// Newer-than is transitive.
pub proof fn mas_nueva_es_transitiva(a: Seq<char>, b: Seq<char>, c: Seq<char>)
    ensures
        mas_nueva(a, b) && mas_nueva(b, c) ==> mas_nueva(a, c),
{
}

/// Of two versions that both parse, either they are equal or one is newer.
pub proof fn dos_versiones_se_comparan(a: Seq<char>, b: Seq<char>)
    requires
        version_de(a) is Some,
        version_de(b) is Some,
    ensures
        version_de(a) == version_de(b) || mas_nueva(a, b) || mas_nueva(b, a),
{
}

/// Newer-than goes by the major first, then the minor, then the patch: of two
/// versions that parse, a larger major is newer whatever follows it; with the
/// same major, a larger minor is newer whatever the patches; with the same
/// major and minor, a larger patch is newer; and the same three numbers are
/// never newer.
pub proof fn mayor_luego_menor_luego_parche(a: Seq<char>, b: Seq<char>)
    requires
        version_de(a) is Some,
        version_de(b) is Some,
    ensures
        ({
            let x = version_de(a)->Some_0;
            let y = version_de(b)->Some_0;
            &&& x.0 > y.0 ==> mas_nueva(a, b)
            &&& x.0 == y.0 && x.1 > y.1 ==> mas_nueva(a, b)
            &&& x.0 == y.0 && x.1 == y.1 && x.2 > y.2 ==> mas_nueva(a, b)
            &&& x == y ==> !mas_nueva(a, b)
        }),
{
}

// ---------------------------------------------------------------------------
// How it was installed
// ---------------------------------------------------------------------------

/// How the running binary was installed.
#[derive(Debug, Clone, Copy, PartialEq, Eq, Structural)]
pub enum InstallMethod {
    Homebrew,
    Script,
}

/// The texts of a command line.
pub open spec fn textos(v: Seq<String>) -> Seq<Seq<char>> {
    v.map_values(|s: String| s@)
}

impl InstallMethod {
    pub open spec fn clave_de(self) -> Seq<char> {
        match self {
            InstallMethod::Homebrew => "homebrew"@,
            InstallMethod::Script => "script"@,
        }
    }

    /// The method's name as `--json` writes it.
    pub fn clave(&self) -> (r: &'static str)
        ensures
            r@ == self.clave_de(),
    {
        match self {
            InstallMethod::Homebrew => "homebrew",
            InstallMethod::Script => "script",
        }
    }

    /// The program and arguments that upgrade an installation of this kind.
    pub open spec fn orden_de(self, windows: bool) -> (Seq<char>, Seq<Seq<char>>) {
        match self {
            InstallMethod::Homebrew => ("brew"@, seq!["upgrade"@, "mcorcos/xtal/xtal"@]),
            InstallMethod::Script => if windows {
                (
                    "powershell"@,
                    seq![
                        "-NoProfile"@,
                        "-ExecutionPolicy"@,
                        "Bypass"@,
                        "-Command"@,
                        "irm https://raw.githubusercontent.com/mcorcos/xtal/main/install.ps1 | iex"@,
                    ],
                )
            } else {
                (
                    "sh"@,
                    seq![
                        "-c"@,
                        "curl -fsSL https://raw.githubusercontent.com/mcorcos/xtal/main/install.sh | sh"@,
                    ],
                )
            },
        }
    }

    /// How to upgrade: Homebrew upgrades its formula; the installer script is
    /// idempotent, so running it again is the upgrade (with PowerShell on
    /// Windows, with `sh` elsewhere). `windows` says which system runs it.
    pub fn upgrade_command(&self, windows: bool) -> (r: (String, Vec<String>))
        ensures
            (r.0@, textos(r.1@)) == self.orden_de(windows),
    {
        let mut args: Vec<String> = Vec::new();
        match self {
            InstallMethod::Homebrew => {
                args.push("upgrade".to_owned());
                args.push("mcorcos/xtal/xtal".to_owned());
                assert(textos(args@) =~= seq!["upgrade"@, "mcorcos/xtal/xtal"@]);
                ("brew".to_owned(), args)
            },
            InstallMethod::Script => {
                if windows {
                    args.push("-NoProfile".to_owned());
                    args.push("-ExecutionPolicy".to_owned());
                    args.push("Bypass".to_owned());
                    args.push("-Command".to_owned());
                    args.push(
                        "irm https://raw.githubusercontent.com/mcorcos/xtal/main/install.ps1 | iex".to_owned(),
                    );
                    assert(textos(args@) =~= self.orden_de(windows).1);
                    ("powershell".to_owned(), args)
                } else {
                    args.push("-c".to_owned());
                    args.push(
                        "curl -fsSL https://raw.githubusercontent.com/mcorcos/xtal/main/install.sh | sh".to_owned(),
                    );
                    assert(textos(args@) =~= self.orden_de(windows).1);
                    ("sh".to_owned(), args)
                }
            },
        }
    }
}

/// Homebrew installs under its prefix, in a `Cellar`: a binary that lives
/// there is upgraded with brew.
pub open spec fn metodo_de(exe: Seq<char>) -> InstallMethod {
    if contiene(exe, "/Cellar/"@) || contiene(exe, "/homebrew/"@) || contiene(exe, "/linuxbrew/"@) {
        InstallMethod::Homebrew
    } else {
        InstallMethod::Script
    }
}

/// How the binary at `exe` (the path of the running executable) was installed.
pub fn detect_install_method(exe: &str) -> (r: InstallMethod)
    ensures
        r == metodo_de(exe@),
{
    let p = caracteres(exe);
    if contiene_texto(&p, &caracteres("/Cellar/")) || contiene_texto(&p, &caracteres("/homebrew/"))
        || contiene_texto(&p, &caracteres("/linuxbrew/")) {
        InstallMethod::Homebrew
    } else {
        InstallMethod::Script
    }
}

/// What takes the binary away, which `xtal uninstall` leaves to whoever
/// installed it: `brew uninstall xtal` for a binary of Homebrew's (its path
/// holds `/Cellar/` or `brew`), else removing the file (where the path of
/// the running executable is not known, where the installer leaves it).
pub open spec fn como_sacar_spec(exe: Option<Seq<char>>) -> Seq<char> {
    match exe {
        Some(p) => if contiene(p, "/Cellar/"@) || contiene(p, "brew"@) {
            "brew uninstall xtal"@
        } else {
            "rm "@ + p
        },
        None => "rm ~/.local/bin/xtal"@,
    }
}

/// The command that takes the binary away (see `como_sacar_spec`).
pub fn como_sacar_el_binario(exe: Option<&str>) -> (r: String)
    ensures
        r@ == como_sacar_spec(match exe {
            Some(p) => Some(p@),
            None => None,
        }),
{
    match exe {
        Some(p) => {
            let t = caracteres(p);
            if contiene_texto(&t, &caracteres("/Cellar/")) || contiene_texto(&t, &caracteres("brew")) {
                "brew uninstall xtal".to_owned()
            } else {
                let mut r = caracteres("rm ");
                agregar(&mut r, &t);
                cadena(&r)
            }
        },
        None => "rm ~/.local/bin/xtal".to_owned(),
    }
}

} // verus!
