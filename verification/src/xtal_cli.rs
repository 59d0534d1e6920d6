//! How the desktop app talks to the `xtal` binary: the app reimplements
//! nothing of Xtal, it runs the command line and reads what it answers.
//! Finding the binary and running it are the program's part; what an answer
//! means is decided here.
use vstd::prelude::*;
use crate::proceso::{opt_vista, vistas, Entorno, Plataforma};
use crate::rutas::{unido, unir};
use crate::store::dijo;
use crate::texto::{cadena, caracteres, recortado, recortar, todo_blanco, es_todo_blanco, agregar};

verus! {

broadcast use vstd::string::group_string_axioms;

/// What a run of `xtal` answered.
#[derive(Debug, Clone)]
pub struct Salida {
    pub codigo: i32,
    pub stdout: String,
    pub stderr: String,
    pub ok: bool,
    /// What is worth showing someone: the error if it failed, the output if
    /// it worked.
    pub texto: String,
}

impl Salida {
    /// The answer of a run that ended with `codigo`. The text to show is the
    /// error where it failed and wrote one, else the output (`xtal run`
    /// reports LaTeX's error on its output), trimmed.
    pub fn nueva(codigo: i32, stdout: String, stderr: String) -> (s: Salida)
        ensures
            s.codigo == codigo,
            s.stdout@ == stdout@,
            s.stderr@ == stderr@,
            s.ok == (codigo == 0),
            s.texto@ == recortado(
                if codigo != 0 && !todo_blanco(stderr@) {
                    stderr@
                } else {
                    stdout@
                },
            ),
    {
        let ok = codigo == 0;
        let err = caracteres(stderr.as_str());
        let texto = if !ok && !es_todo_blanco(&err) {
            recortar(&err)
        } else {
            recortar(&caracteres(stdout.as_str()))
        };
        Salida { codigo, stdout, stderr, ok, texto: cadena(&texto) }
    }
}

/// The name of the executable (`xtal.exe` on Windows).
pub fn bin(windows: bool) -> (r: &'static str)
    ensures
        r@ == (if windows { "xtal.exe"@ } else { "xtal"@ }),
{
    if windows {
        "xtal.exe"
    } else {
        "xtal"
    }
}

/// What to tell someone who opened the app without the command line: the
/// install command of their system, and where to run it.
pub open spec fn como_instalar_spec(windows: bool) -> Seq<char> {
    "No encuentro el comando `xtal`. Instalalo desde "@ + (if windows { "PowerShell"@ } else {
        "una terminal"@
    }) + " con:\n  "@ + (if windows {
        "irm https://raw.githubusercontent.com/mcorcos/xtal/main/install.ps1 | iex"@
    } else {
        "curl -fsSL https://raw.githubusercontent.com/mcorcos/xtal/main/install.sh | sh"@
    })
}

/// What to tell someone who opened the app without the command line.
pub fn como_instalar(windows: bool) -> (r: String)
    ensures
        r@ == como_instalar_spec(windows),
{
    let mut m = caracteres("No encuentro el comando `xtal`. Instalalo desde ");
    agregar(&mut m, &caracteres(if windows { "PowerShell" } else { "una terminal" }));
    agregar(&mut m, &caracteres(" con:\n  "));
    agregar(
        &mut m,
        &caracteres(
            if windows {
                "irm https://raw.githubusercontent.com/mcorcos/xtal/main/install.ps1 | iex"
            } else {
                "curl -fsSL https://raw.githubusercontent.com/mcorcos/xtal/main/install.sh | sh"
            },
        ),
    );
    cadena(&m)
}

/// The error of a `--json` run, if it failed: what it said, or that it said
/// nothing. `None` where it worked (and its output is the JSON to read).
pub fn error_de(r: &Salida) -> (e: Option<String>)
    ensures
        r.ok ==> e is None,
        !r.ok ==> (e matches Some(m) && m@ == (if r.texto@.len() == 0 {
            "el comando falló sin decir nada"@
        } else {
            r.texto@
        })),
{
    if r.ok {
        None
    } else if r.texto.as_str().is_empty() {
        Some("el comando falló sin decir nada".to_owned())
    } else {
        Some(r.texto.clone())
    }
}

// ---------------------------------------------------------------------------
// Where the binary is
// ---------------------------------------------------------------------------

/// `b` is a drive alone, as `C:`.
pub open spec fn es_unidad(b: Seq<char>) -> bool {
    b.len() == 2 && b[1] == ':' && (('a' <= b[0] && b[0] <= 'z') || ('A' <= b[0] && b[0] <= 'Z'))
}

/// How `Path::join` joins, on Windows, a relative path that names no drive:
/// one `\` goes between them, none after an empty base, a base that already
/// ends in a separator (`\` or `/`), or a drive alone.
pub open spec fn unido_windows(base: Seq<char>, rel: Seq<char>) -> Seq<char> {
    if base.len() == 0 || base.last() == '\\' || base.last() == '/' || es_unidad(base) {
        base + rel
    } else {
        base + seq!['\\'] + rel
    }
}

/// `Path::join` on the system `so`.
pub open spec fn unido_en(so: Plataforma, base: Seq<char>, rel: Seq<char>) -> Seq<char> {
    if so == Plataforma::Windows {
        unido_windows(base, rel)
    } else {
        unido(base, rel)
    }
}

/// The name of the executable on the system `so`.
pub open spec fn bin_de(so: Plataforma) -> Seq<char> {
    if so == Plataforma::Windows { "xtal.exe"@ } else { "xtal"@ }
}

/// Each of `rels` joined to `base`, where there is a `base`.
pub open spec fn bajo_en(so: Plataforma, base: Option<Seq<char>>, rels: Seq<Seq<char>>) -> Seq<Seq<char>> {
    match base {
        Some(b) => rels.map_values(|r: Seq<char>| unido_en(so, b, r)),
        None => Seq::empty(),
    }
}

/// Where the binary can be installed, in order: what the user installed in
/// their home first (as a console's PATH would have it), the system's after.
///
/// Windows: where `install.ps1` leaves it, scoop's shims, cargo's binaries,
/// chocolatey's and `Program Files`. macOS and Linux: where `install.sh` and
/// cargo leave it in the home (and, on Linux, Homebrew installed in the home),
/// then Homebrew's prefixes and, on Linux, Homebrew on Linux's, snap's and
/// `/usr/bin` last.
pub open spec fn candidatos_spec(so: Plataforma, e: Entorno) -> Seq<Seq<char>> {
    match so {
        Plataforma::Windows => bajo_en(so, opt_vista(e.local_app_data), seq!["Programs\\xtal\\xtal.exe"@])
            + bajo_en(so, opt_vista(e.user_profile), seq!["scoop\\shims\\xtal.exe"@, ".cargo\\bin\\xtal.exe"@])
            + bajo_en(so, opt_vista(e.program_data), seq!["chocolatey\\bin\\xtal.exe"@])
            + bajo_en(so, opt_vista(e.program_files), seq!["xtal\\xtal.exe"@]),
        Plataforma::Linux => bajo_en(so, opt_vista(e.home), seq![".local/bin/xtal"@, ".cargo/bin/xtal"@, ".linuxbrew/bin/xtal"@])
            + seq![
                "/opt/homebrew/bin/xtal"@,
                "/usr/local/bin/xtal"@,
                "/home/linuxbrew/.linuxbrew/bin/xtal"@,
                "/snap/bin/xtal"@,
                "/usr/bin/xtal"@,
            ],
        _ => bajo_en(so, opt_vista(e.home), seq![".local/bin/xtal"@, ".cargo/bin/xtal"@])
            + seq!["/opt/homebrew/bin/xtal"@, "/usr/local/bin/xtal"@],
    }
}

/// Where the installer of the app leaves the binary, from the folder of the
/// app's executable: `resources`, `../Resources` (macOS) and the folder
/// itself, and on Linux the two `../lib/<product>/resources`.
pub open spec fn junto_al_exe(so: Plataforma) -> Seq<Seq<char>> {
    seq!["resources"@, "../Resources"@, "."@] + if so == Plataforma::Linux {
        seq!["../lib/Xtal/resources"@, "../lib/xtal/resources"@]
    } else {
        Seq::empty()
    }
}

/// The binary inside the app's package, each place in turn, where the
/// folder of the app's executable is known.
pub open spec fn empaquetados(so: Plataforma, dir: Option<Seq<char>>) -> Seq<Seq<char>> {
    match dir {
        Some(d) => junto_al_exe(so).map_values(|r: Seq<char>| unido_en(so, unido_en(so, d, r), bin_de(so))),
        None => Seq::empty(),
    }
}

/// The binary of the development repository, under the home (`HOME`, else
/// `USERPROFILE`).
pub open spec fn de_desarrollo(so: Plataforma, e: Entorno) -> Seq<Seq<char>> {
    let casa = if e.home is Some { opt_vista(e.home) } else { opt_vista(e.user_profile) };
    bajo_en(so, casa, seq![
        if so == Plataforma::Windows {
            "dev\\personal\\xtal\\target\\debug\\xtal.exe"@
        } else {
            "dev/personal/xtal/target/debug/xtal"@
        },
    ])
}

/// Every place tried, in order: `XTAL_BIN` (which rules over everything),
/// the development binary, the installed ones, the one in the app's package.
pub open spec fn lugares(so: Plataforma, e: Entorno, xtal_bin: Option<Seq<char>>, dir_exe: Option<Seq<char>>) -> Seq<Seq<char>> {
    (match xtal_bin {
        Some(b) => seq![b],
        None => Seq::empty(),
    }) + de_desarrollo(so, e) + candidatos_spec(so, e) + empaquetados(so, dir_exe)
}

/// Joins as `Path::join` does on Windows with a relative path that names no
/// drive.
fn unir_windows(base: &str, rel: &str) -> (r: String)
    ensures
        r@ == unido_windows(base@, rel@),
{
    let mut b = caracteres(base);
    let n = b.len();
    let pegado = n == 0 || b[n - 1] == '\\' || b[n - 1] == '/' || (n == 2 && b[1] == ':' && (('a' <= b[0]
        && b[0] <= 'z') || ('A' <= b[0] && b[0] <= 'Z')));
    if !pegado {
        b.push('\\');
    }
    agregar(&mut b, &caracteres(rel));
    cadena(&b)
}

/// Joins as `Path::join` does on the system `so`.
pub(crate) fn unir_en(so: Plataforma, base: &str, rel: &str) -> (r: String)
    ensures
        r@ == unido_en(so, base@, rel@),
{
    if so == Plataforma::Windows {
        unir_windows(base, rel)
    } else {
        unir(base, rel)
    }
}

/// Adds each of `rels` joined to `base`, where there is a `base`.
fn poner_bajo_en(v: &mut Vec<String>, so: Plataforma, base: &Option<String>, rels: &Vec<&str>)
    ensures
        vistas(final(v)@) == vistas(old(v)@) + bajo_en(so, opt_vista(*base), rels@.map_values(|r: &str| r@)),
{
    let ghost rs = rels@.map_values(|r: &str| r@);
    match base {
        Some(b) => {
            let ghost antes = vistas(v@);
            let mut k: usize = 0;
            while k < rels.len()
                invariant
                    k <= rels@.len(),
                    rs == rels@.map_values(|r: &str| r@),
                    vistas(v@) == antes + rs.take(k as int).map_values(|r: Seq<char>| unido_en(so, b@, r)),
                decreases rels@.len() - k,
            {
                let ghost previo = vistas(v@);
                v.push(unir_en(so, b.as_str(), rels[k]));
                assert(vistas(v@) =~= previo.push(unido_en(so, b@, rels@[k as int]@)));
                assert(rs.take(k + 1).map_values(|r: Seq<char>| unido_en(so, b@, r)) =~= rs.take(k as int).map_values(
                    |r: Seq<char>| unido_en(so, b@, r),
                ).push(unido_en(so, b@, rels@[k as int]@)));
                k = k + 1;
            }
            assert(rs.take(rels@.len() as int) =~= rs);
        },
        None => {
            assert(vistas(v@) + bajo_en(so, opt_vista(*base), rs) =~= vistas(v@));
        },
    }
}

/// Adds each of `nombres` as it is.
fn poner_tal_cual(v: &mut Vec<String>, nombres: &Vec<&str>)
    ensures
        vistas(final(v)@) == vistas(old(v)@) + nombres@.map_values(|f: &str| f@),
{
    let ghost antes = vistas(v@);
    let mut k: usize = 0;
    while k < nombres.len()
        invariant
            k <= nombres@.len(),
            vistas(v@) == antes + nombres@.take(k as int).map_values(|f: &str| f@),
        decreases nombres@.len() - k,
    {
        let ghost previo = vistas(v@);
        v.push(nombres[k].to_owned());
        assert(vistas(v@) =~= previo.push(nombres@[k as int]@));
        assert(nombres@.take(k + 1).map_values(|f: &str| f@) =~= nombres@.take(k as int).map_values(|f: &str| f@).push(
            nombres@[k as int]@,
        ));
        k = k + 1;
    }
    assert(nombres@.take(nombres@.len() as int) =~= nombres@);
}

/// Where the binary can be installed, in order (see `candidatos_spec`).
pub fn candidatos(so: Plataforma, e: &Entorno) -> (r: Vec<String>)
    ensures
        vistas(r@) == candidatos_spec(so, *e),
{
    let mut v: Vec<String> = Vec::new();
    match so {
        Plataforma::Windows => {
            let a = vec!["Programs\\xtal\\xtal.exe"];
            let b = vec!["scoop\\shims\\xtal.exe", ".cargo\\bin\\xtal.exe"];
            let c = vec!["chocolatey\\bin\\xtal.exe"];
            let d = vec!["xtal\\xtal.exe"];
            poner_bajo_en(&mut v, so, &e.local_app_data, &a);
            poner_bajo_en(&mut v, so, &e.user_profile, &b);
            poner_bajo_en(&mut v, so, &e.program_data, &c);
            poner_bajo_en(&mut v, so, &e.program_files, &d);
            assert(a@.map_values(|r: &str| r@) =~= seq!["Programs\\xtal\\xtal.exe"@]);
            assert(b@.map_values(|r: &str| r@) =~= seq!["scoop\\shims\\xtal.exe"@, ".cargo\\bin\\xtal.exe"@]);
            assert(c@.map_values(|r: &str| r@) =~= seq!["chocolatey\\bin\\xtal.exe"@]);
            assert(d@.map_values(|r: &str| r@) =~= seq!["xtal\\xtal.exe"@]);
            assert(vistas(v@) =~= candidatos_spec(so, *e));
        },
        Plataforma::Linux => {
            let a = vec![".local/bin/xtal", ".cargo/bin/xtal", ".linuxbrew/bin/xtal"];
            let b = vec![
                "/opt/homebrew/bin/xtal",
                "/usr/local/bin/xtal",
                "/home/linuxbrew/.linuxbrew/bin/xtal",
                "/snap/bin/xtal",
                "/usr/bin/xtal",
            ];
            poner_bajo_en(&mut v, so, &e.home, &a);
            poner_tal_cual(&mut v, &b);
            assert(a@.map_values(|r: &str| r@) =~= seq![".local/bin/xtal"@, ".cargo/bin/xtal"@, ".linuxbrew/bin/xtal"@]);
            assert(b@.map_values(|r: &str| r@) =~= seq![
                "/opt/homebrew/bin/xtal"@,
                "/usr/local/bin/xtal"@,
                "/home/linuxbrew/.linuxbrew/bin/xtal"@,
                "/snap/bin/xtal"@,
                "/usr/bin/xtal"@,
            ]);
            assert(vistas(v@) =~= candidatos_spec(so, *e));
        },
        _ => {
            let a = vec![".local/bin/xtal", ".cargo/bin/xtal"];
            let b = vec!["/opt/homebrew/bin/xtal", "/usr/local/bin/xtal"];
            poner_bajo_en(&mut v, so, &e.home, &a);
            poner_tal_cual(&mut v, &b);
            assert(a@.map_values(|r: &str| r@) =~= seq![".local/bin/xtal"@, ".cargo/bin/xtal"@]);
            assert(b@.map_values(|r: &str| r@) =~= seq!["/opt/homebrew/bin/xtal"@, "/usr/local/bin/xtal"@]);
            assert(vistas(v@) =~= candidatos_spec(so, *e));
        },
    }
    v
}

/// Every place to try, in order (see `lugares`).
fn lugares_exec(so: Plataforma, e: &Entorno, xtal_bin: &Option<String>, dir_exe: &Option<String>) -> (r: Vec<String>)
    ensures
        vistas(r@) == lugares(so, *e, opt_vista(*xtal_bin), opt_vista(*dir_exe)),
{
    let mut v: Vec<String> = Vec::new();
    if let Some(b) = xtal_bin {
        v.push(b.clone());
    }
    let ghost uno = vistas(v@);
    assert(uno =~= (match opt_vista(*xtal_bin) {
        Some(b) => seq![b],
        None => Seq::<Seq<char>>::empty(),
    }));
    let casa = if e.home.is_some() { &e.home } else { &e.user_profile };
    let dev = if so == Plataforma::Windows {
        vec!["dev\\personal\\xtal\\target\\debug\\xtal.exe"]
    } else {
        vec!["dev/personal/xtal/target/debug/xtal"]
    };
    poner_bajo_en(&mut v, so, casa, &dev);
    assert(dev@.map_values(|r: &str| r@) =~= seq![
        if so == Plataforma::Windows {
            "dev\\personal\\xtal\\target\\debug\\xtal.exe"@
        } else {
            "dev/personal/xtal/target/debug/xtal"@
        },
    ]);
    let ghost dos = vistas(v@);
    assert(dos == uno + de_desarrollo(so, *e));
    let c = candidatos(so, e);
    let ghost antes = vistas(v@);
    let mut k: usize = 0;
    while k < c.len()
        invariant
            k <= c@.len(),
            vistas(v@) == antes + vistas(c@).take(k as int),
        decreases c@.len() - k,
    {
        let ghost previo = vistas(v@);
        v.push(c[k].clone());
        assert(vistas(v@) =~= previo.push(c@[k as int]@));
        assert(vistas(c@).take(k + 1) =~= vistas(c@).take(k as int).push(c@[k as int]@));
        k = k + 1;
    }
    assert(vistas(c@).take(c@.len() as int) =~= vistas(c@));
    let ghost tres = vistas(v@);
    if let Some(d) = dir_exe {
        let bin = if so == Plataforma::Windows { "xtal.exe" } else { "xtal" };
        let rels = if so == Plataforma::Linux {
            vec!["resources", "../Resources", ".", "../lib/Xtal/resources", "../lib/xtal/resources"]
        } else {
            vec!["resources", "../Resources", "."]
        };
        let ghost rs = rels@.map_values(|r: &str| r@);
        assert(rs =~= junto_al_exe(so));
        let mut k: usize = 0;
        while k < rels.len()
            invariant
                k <= rels@.len(),
                rs == rels@.map_values(|r: &str| r@),
                bin@ == bin_de(so),
                vistas(v@) == tres + rs.take(k as int).map_values(
                    |r: Seq<char>| unido_en(so, unido_en(so, d@, r), bin_de(so)),
                ),
            decreases rels@.len() - k,
        {
            let ghost previo = vistas(v@);
            let carpeta = unir_en(so, d.as_str(), rels[k]);
            v.push(unir_en(so, carpeta.as_str(), bin));
            assert(vistas(v@) =~= previo.push(unido_en(so, unido_en(so, d@, rels@[k as int]@), bin_de(so))));
            assert(rs.take(k + 1).map_values(|r: Seq<char>| unido_en(so, unido_en(so, d@, r), bin_de(so)))
                =~= rs.take(k as int).map_values(|r: Seq<char>| unido_en(so, unido_en(so, d@, r), bin_de(so))).push(
                unido_en(so, unido_en(so, d@, rels@[k as int]@), bin_de(so)),
            ));
            k = k + 1;
        }
        assert(rs.take(rels@.len() as int) =~= rs);
    }
    assert(vistas(v@) =~= lugares(so, *e, opt_vista(*xtal_bin), opt_vista(*dir_exe)));
    v
}

/// The position of the first of `v` that `es_ejecutable` takes for an
/// executable file, asked of each in turn until one is.
fn primero_ejecutable<F: Fn(&str) -> bool>(v: &Vec<String>, es_ejecutable: &F) -> (r: Option<usize>)
    requires
        forall|s: &str| call_requires(*es_ejecutable, (s,)),
    ensures
        match r {
            Some(k) => k < v@.len() && dijo(*es_ejecutable, v@[k as int]@, true)
                && forall|j: int| 0 <= j < k ==> dijo(*es_ejecutable, (#[trigger] v@[j])@, false),
            None => forall|j: int| 0 <= j < v@.len() ==> dijo(*es_ejecutable, (#[trigger] v@[j])@, false),
        },
{
    let mut k: usize = 0;
    while k < v.len()
        invariant
            k <= v@.len(),
            forall|s: &str| call_requires(*es_ejecutable, (s,)),
            forall|j: int| 0 <= j < k ==> dijo(*es_ejecutable, (#[trigger] v@[j])@, false),
        decreases v@.len() - k,
    {
        let s = v[k].as_str();
        let es = es_ejecutable(s);
        if es {
            assert(dijo(*es_ejecutable, v@[k as int]@, true));
            return Some(k);
        }
        assert(dijo(*es_ejecutable, v@[k as int]@, false));
        k = k + 1;
    }
    None
}

/// Where the binary is, or `None` where it is not installed: the first of
/// `lugares` that `es_ejecutable` takes for a file, asked of each in turn;
/// failing them all, the bare name where `responde` (running it from the
/// PATH) says it answers.
///
/// `xtal_bin` is `XTAL_BIN`, where it is set; `dir_exe` the folder of the
/// app's executable, where it is known.
pub fn ruta_binario<F: Fn(&str) -> bool, G: Fn(&str) -> bool>(
    so: Plataforma,
    e: &Entorno,
    xtal_bin: Option<String>,
    dir_exe: Option<String>,
    es_ejecutable: &F,
    responde: &G,
) -> (r: Option<String>)
    requires
        forall|s: &str| call_requires(*es_ejecutable, (s,)),
        forall|s: &str| call_requires(*responde, (s,)),
    ensures
        ({
            let l = lugares(so, *e, opt_vista(xtal_bin), opt_vista(dir_exe));
            let ninguno = forall|j: int| 0 <= j < l.len() ==> dijo(*es_ejecutable, #[trigger] l[j], false);
            match r {
                Some(p) => (exists|k: int| #![trigger l[k]]
                    0 <= k < l.len() && p@ == l[k] && dijo(*es_ejecutable, l[k], true)
                    && forall|j: int| 0 <= j < k ==> dijo(*es_ejecutable, #[trigger] l[j], false))
                    || (ninguno && p@ == bin_de(so) && dijo(*responde, bin_de(so), true)),
                None => ninguno && dijo(*responde, bin_de(so), false),
            }
        }),
{
    let v = lugares_exec(so, e, &xtal_bin, &dir_exe);
    let ghost l = lugares(so, *e, opt_vista(xtal_bin), opt_vista(dir_exe));
    match primero_ejecutable(&v, es_ejecutable) {
        Some(k) => {
            assert(v@[k as int]@ == l[k as int]);
            assert forall|j: int| 0 <= j < k implies dijo(*es_ejecutable, #[trigger] l[j], false) by {
                assert(v@[j]@ == l[j]);
            }
            Some(v[k].clone())
        },
        None => {
            assert forall|j: int| 0 <= j < l.len() implies dijo(*es_ejecutable, #[trigger] l[j], false) by {
                assert(v@[j]@ == l[j]);
            }
            let bin = if so == Plataforma::Windows { "xtal.exe" } else { "xtal" };
            let si = responde(bin);
            if si {
                Some(bin.to_owned())
            } else {
                None
            }
        },
    }
}

} // verus!
