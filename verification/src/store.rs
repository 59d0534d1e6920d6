//! The project on disk: a folder of plain files.
//!
//! ```text
//! mi_tp/
//! ├── xtal.toml            the project's manifest
//! ├── mediciones/<id>.toml + <id>.csv
//! ├── graficos/<id>.toml
//! └── esquematicos/<id>.cir
//! ```
//!
//! Reading folders and files is the program's part; which folder is the
//! project and which files are measurements, plots or circuits is decided here.
use vstd::prelude::*;
use crate::csv_scope::DataError;
use crate::secciones::Section;
use crate::numeros::{cuantos_desde, inyectiva, lema_cuantos_baja, lema_libre, libre};
use crate::rutas::{unido, unir};
use crate::texto::{a_minuscula_ascii, agregar, caracteres, cadena, es_alnum_ascii, iguales, lex_antes, lex_menor, lema_lex_total, lema_lex_transitivo, lema_lex_irreflexivo, minuscula_ascii, recortar_char, sin_extremos, tramo, ultima, ultima_exec, valor_decimal};
use crate::tools::{cifras, en_cifras};

verus! {

broadcast use vstd::string::group_string_axioms;

pub open spec fn textos(v: Seq<String>) -> Seq<Seq<char>> {
    v.map_values(|s: String| s@)
}

// ---------------------------------------------------------------------------
// The project's root
// ---------------------------------------------------------------------------

/// `es_archivo` answered `b` of the path `p`.
pub open spec fn dijo<F: Fn(&str) -> bool>(es_archivo: F, p: Seq<char>, b: bool) -> bool {
    exists|s: &str| s@ == p && #[trigger] call_ensures(es_archivo, (s,), b)
}

/// Looks for the project's root from a folder upwards: the first of
/// `ancestros` (the folder, then its parent, and so on up to the root of the
/// file system) that holds an `xtal.toml` (`es_archivo`, asked of each
/// `<folder>/xtal.toml` in turn, until one is a file).
pub fn find_project_root<F: Fn(&str) -> bool>(ancestros: &Vec<String>, es_archivo: &F) -> (r: Result<String, DataError>)
    requires
        forall|s: &str| call_requires(*es_archivo, (s,)),
    ensures
        match r {
            Ok(d) => exists|k: int| #![trigger ancestros@[k]]
                0 <= k < ancestros@.len() && d@ == ancestros@[k]@
                && dijo(*es_archivo, unido(ancestros@[k]@, "xtal.toml"@), true)
                && forall|j: int| 0 <= j < k ==> dijo(*es_archivo, unido((#[trigger] ancestros@[j])@, "xtal.toml"@), false),
            Err(e) => e is NoProject && forall|j: int| 0 <= j < ancestros@.len()
                ==> dijo(*es_archivo, unido((#[trigger] ancestros@[j])@, "xtal.toml"@), false),
        },
{
    let mut k: usize = 0;
    while k < ancestros.len()
        invariant
            k <= ancestros@.len(),
            forall|s: &str| call_requires(*es_archivo, (s,)),
            forall|j: int| 0 <= j < k ==> dijo(*es_archivo, unido((#[trigger] ancestros@[j])@, "xtal.toml"@), false),
        decreases ancestros@.len() - k,
    {
        let f = unir(ancestros[k].as_str(), "xtal.toml");
        let fs = f.as_str();
        let hay = es_archivo(fs);
        if hay {
            assert(call_ensures(*es_archivo, (fs,), true));
            assert(dijo(*es_archivo, unido(ancestros@[k as int]@, "xtal.toml"@), true));
            let d = ancestros[k].clone();
            assert(d@ == ancestros@[k as int]@);
            return Ok(d);
        }
        assert(call_ensures(*es_archivo, (fs,), false));
        assert(dijo(*es_archivo, unido(ancestros@[k as int]@, "xtal.toml"@), false));
        k = k + 1;
    }
    Err(DataError::NoProject)
}

// ---------------------------------------------------------------------------
// Ids
// ---------------------------------------------------------------------------

/// The extension of a file name, as `Path::extension` reads it: what follows
/// the last `.`, unless that `.` opens the name (a hidden file) or there is
/// none, or the name is `..`.
pub open spec fn extension(nombre: Seq<char>) -> Option<Seq<char>> {
    let p = ultima(nombre, '.');
    if nombre == ".."@ || p <= 0 {
        None
    } else {
        Some(nombre.subrange(p + 1, nombre.len() as int))
    }
}

/// The name without its extension (`Path::file_stem`).
pub open spec fn stem(nombre: Seq<char>) -> Seq<char> {
    match extension(nombre) {
        Some(_) => nombre.subrange(0, ultima(nombre, '.')),
        None => nombre,
    }
}

/// The ids among the names of a folder's files: the stems of those with the
/// extension `ext`, in order.
pub open spec fn ids_con(nombres: Seq<Seq<char>>, ext: Seq<char>) -> Seq<Seq<char>>
    decreases nombres.len(),
{
    if nombres.len() == 0 {
        Seq::empty()
    } else if extension(nombres.last()) == Some(ext) {
        ids_con(nombres.drop_last(), ext).push(stem(nombres.last()))
    } else {
        ids_con(nombres.drop_last(), ext)
    }
}

/// Sorted, character by character.
pub open spec fn ascendente(v: Seq<Seq<char>>) -> bool {
    forall|i: int, j: int| 0 <= i < j < v.len() ==> !lex_menor(#[trigger] v[j], #[trigger] v[i])
}

proof fn lema_no_menor_transitivo(a: Seq<char>, b: Seq<char>, c: Seq<char>)
    requires
        !lex_menor(a, b),
        !lex_menor(b, c),
    ensures
        !lex_menor(a, c),
{
    if lex_menor(a, c) {
        lema_lex_total(a, b);
        lema_lex_total(b, c);
        if a == b {
        } else if b == c {
        } else {
            lema_lex_transitivo(c, b, a);
            lema_lex_transitivo(a, c, a);
            lema_lex_irreflexivo(a);
        }
    }
}

proof fn lema_menor_asimetrico(a: Seq<char>, b: Seq<char>)
    requires
        lex_menor(a, b),
    ensures
        !lex_menor(b, a),
{
    if lex_menor(b, a) {
        lema_lex_transitivo(a, b, a);
        lema_lex_irreflexivo(a);
    }
}

/// Sorts texts character by character (`Vec::sort` on `String`s).
pub fn ordenar(v: Vec<String>) -> (r: Vec<String>)
    ensures
        ascendente(textos(r@)),
        textos(r@).to_multiset() == textos(v@).to_multiset(),
{
    broadcast use vstd::seq_lib::group_seq_properties;
    broadcast use vstd::multiset::group_multiset_axioms;

    let ghost todo = textos(v@);
    let mut pend = v;
    let mut r: Vec<String> = Vec::new();
    while pend.len() > 0
        invariant
            ascendente(textos(r@)),
            textos(r@).to_multiset().add(textos(pend@).to_multiset()) == todo.to_multiset(),
        decreases pend@.len(),
    {
        let ghost p0 = textos(pend@);
        let x = pend.pop().unwrap();
        assert(p0 =~= textos(pend@).push(x@));
        let cx = caracteres(x.as_str());
        let mut p: usize = 0;
        while p < r.len() && !lex_antes(&cx, &caracteres(r[p].as_str()))
            invariant
                p <= r@.len(),
                cx@ == x@,
                forall|k: int| 0 <= k < p ==> !lex_menor(x@, #[trigger] textos(r@)[k]),
            decreases r@.len() - p,
        {
            p = p + 1;
        }
        let ghost r0 = textos(r@);
        r.insert(p, x);
        proof {
            assert(textos(r@) =~= r0.insert(p as int, x@));
            vstd::seq_lib::to_multiset_insert(r0, p as int, x@);
            vstd::seq_lib::to_multiset_build(textos(pend@), x@);
            assert(textos(r@).to_multiset().add(textos(pend@).to_multiset()) =~= r0.to_multiset().add(
                p0.to_multiset(),
            ));
            let rr = textos(r@);
            assert forall|i: int, j: int| 0 <= i < j < rr.len() implies !lex_menor(#[trigger] rr[j], #[trigger] rr[i]) by {
                if j < p {
                    assert(rr[i] == r0[i] && rr[j] == r0[j]);
                } else if j == p {
                    assert(rr[i] == r0[i]);
                } else if i > p {
                    assert(rr[i] == r0[i - 1] && rr[j] == r0[j - 1]);
                } else if i == p {
                    assert(rr[j] == r0[j - 1]);
                    assert(lex_menor(x@, r0[p as int]));
                    lema_menor_asimetrico(x@, r0[p as int]);
                    if j - 1 > p {
                        assert(!lex_menor(r0[j - 1], r0[p as int]));
                        lema_no_menor_transitivo(r0[j - 1], r0[p as int], x@);
                    }
                } else {
                    assert(rr[i] == r0[i]);
                    assert(rr[j] == r0[j - 1]);
                }
            }
        }
    }
    assert(textos(pend@) =~= Seq::<Seq<char>>::empty());
    r
}

/// The ids of a folder: the stems of the files with the extension `ext`,
/// sorted (`nombres` are the names of the files found in it).
pub fn list_ids_with_ext(nombres: &Vec<String>, ext: &str) -> (r: Vec<String>)
    ensures
        ascendente(textos(r@)),
        textos(r@).to_multiset() == ids_con(textos(nombres@), ext@).to_multiset(),
{
    let ghost todos = textos(nombres@);
    let e = caracteres(ext);
    let mut ids: Vec<String> = Vec::new();
    let mut k: usize = 0;
    assert(todos.take(0) =~= Seq::<Seq<char>>::empty());
    while k < nombres.len()
        invariant
            k <= nombres@.len(),
            todos == textos(nombres@),
            e@ == ext@,
            textos(ids@) == ids_con(todos.take(k as int), ext@),
        decreases nombres@.len() - k,
    {
        assert(todos.take(k + 1).drop_last() =~= todos.take(k as int));
        assert(todos.take(k + 1).last() == nombres@[k as int]@);
        let n = caracteres(nombres[k].as_str());
        proof {
            crate::texto::lema_ultima_antes(n@, n@.len() as int, '.');
        }
        match ultima_exec(&n, '.') {
            Some(p) => {
                let largo = n.len();
                assert(p < largo);
                if p > 0 && !iguales(&n, &caracteres("..")) {
                    let x = tramo(&n, p + 1, largo);
                    if iguales(&x, &e) {
                        let ghost antes = textos(ids@);
                        ids.push(cadena(&tramo(&n, 0, p)));
                        assert(textos(ids@) =~= antes.push(stem(n@)));
                    }
                }
            },
            None => {},
        }
        k = k + 1;
    }
    assert(todos.take(nombres@.len() as int) =~= todos);
    ordenar(ids)
}

/// The ids of the measurements: the `.toml`s of `mediciones/` (`nombres`).
pub fn list_measurements(nombres: &Vec<String>) -> (r: Vec<String>)
    ensures
        ascendente(textos(r@)),
        textos(r@).to_multiset() == ids_con(textos(nombres@), "toml"@).to_multiset(),
{
    list_ids_with_ext(nombres, "toml")
}

/// The ids of the plots: the `.toml`s of `graficos/` (`nombres`).
pub fn list_plots(nombres: &Vec<String>) -> (r: Vec<String>)
    ensures
        ascendente(textos(r@)),
        textos(r@).to_multiset() == ids_con(textos(nombres@), "toml"@).to_multiset(),
{
    list_ids_with_ext(nombres, "toml")
}

/// The ids of the circuits: the `.cir`s of `esquematicos/` (`nombres`).
pub fn list_circuits(nombres: &Vec<String>) -> (r: Vec<String>)
    ensures
        ascendente(textos(r@)),
        textos(r@).to_multiset() == ids_con(textos(nombres@), "cir"@).to_multiset(),
{
    list_ids_with_ext(nombres, "cir")
}

// ---------------------------------------------------------------------------
// The files of the sections
// ---------------------------------------------------------------------------

/// The letter without its accent. Only Spanish ones, which is what titles hold.
pub open spec fn plegada(c: char) -> char {
    if c == 'á' || c == 'à' || c == 'ä' || c == 'â' {
        'a'
    } else if c == 'é' || c == 'è' || c == 'ë' || c == 'ê' {
        'e'
    } else if c == 'í' || c == 'ì' || c == 'ï' || c == 'î' {
        'i'
    } else if c == 'ó' || c == 'ò' || c == 'ö' || c == 'ô' {
        'o'
    } else if c == 'ú' || c == 'ù' || c == 'ü' || c == 'û' {
        'u'
    } else if c == 'ñ' {
        'n'
    } else if c == 'Á' || c == 'À' || c == 'Ä' || c == 'Â' {
        'A'
    } else if c == 'É' || c == 'È' || c == 'Ë' || c == 'Ê' {
        'E'
    } else if c == 'Í' || c == 'Ì' || c == 'Ï' || c == 'Î' {
        'I'
    } else if c == 'Ó' || c == 'Ò' || c == 'Ö' || c == 'Ô' {
        'O'
    } else if c == 'Ú' || c == 'Ù' || c == 'Ü' || c == 'Û' {
        'U'
    } else if c == 'Ñ' {
        'N'
    } else {
        c
    }
}

/// The letter without its accent.
pub fn fold(c: char) -> (r: char)
    ensures
        r == plegada(c),
{
    match c {
        'á' | 'à' | 'ä' | 'â' => 'a',
        'é' | 'è' | 'ë' | 'ê' => 'e',
        'í' | 'ì' | 'ï' | 'î' => 'i',
        'ó' | 'ò' | 'ö' | 'ô' => 'o',
        'ú' | 'ù' | 'ü' | 'û' => 'u',
        'ñ' => 'n',
        'Á' | 'À' | 'Ä' | 'Â' => 'A',
        'É' | 'È' | 'Ë' | 'Ê' => 'E',
        'Í' | 'Ì' | 'Ï' | 'Î' => 'I',
        'Ó' | 'Ò' | 'Ö' | 'Ô' => 'O',
        'Ú' | 'Ù' | 'Ü' | 'Û' => 'U',
        'Ñ' => 'N',
        otra => otra,
    }
}

/// The file name of `t` from `n`: each letter or digit, without its accent,
/// as an ASCII lowercase one; one `-` for each run of anything else after
/// the first of them.
pub open spec fn slug_de_archivo_desde(t: Seq<char>, n: int, acc: Seq<char>, guion: bool) -> Seq<char>
    decreases t.len() - n,
{
    if n < 0 || n >= t.len() {
        acc
    } else if es_alnum_ascii(plegada(t[n])) {
        slug_de_archivo_desde(t, n + 1, acc.push(minuscula_ascii(plegada(t[n]))), false)
    } else if !guion && acc.len() > 0 {
        slug_de_archivo_desde(t, n + 1, acc.push('-'), true)
    } else {
        slug_de_archivo_desde(t, n + 1, acc, guion)
    }
}

/// A title as a file name: lowercase ASCII letters and digits, without
/// accents, with `-` between the words and none at the ends.
pub open spec fn slug_de_archivo(t: Seq<char>) -> Seq<char> {
    sin_extremos(slug_de_archivo_desde(t, 0, Seq::empty(), false), '-')
}

/// A title as a file name (see `slug_de_archivo`): it goes inside a
/// `\input`, and pdflatex reads 8 bits.
pub fn slug(name: &str) -> (r: String)
    ensures
        r@ == slug_de_archivo(name@),
{
    let t = caracteres(name);
    let mut out: Vec<char> = Vec::new();
    let mut guion = false;
    let mut n: usize = 0;
    while n < t.len()
        invariant
            n <= t@.len(),
            t@ == name@,
            slug_de_archivo_desde(t@, n as int, out@, guion) == slug_de_archivo_desde(t@, 0, Seq::empty(), false),
        decreases t@.len() - n,
    {
        let c = fold(t[n]);
        if ('a' <= c && c <= 'z') || ('A' <= c && c <= 'Z') || ('0' <= c && c <= '9') {
            out.push(a_minuscula_ascii(c));
            guion = false;
        } else if !guion && out.len() > 0 {
            out.push('-');
            guion = true;
        }
        n = n + 1;
    }
    cadena(&recortar_char(&out, '-'))
}

/// What a file name is made from: the title's slug, or `seccion` where the
/// title leaves nothing.
pub open spec fn base_de_archivo(titulo: Seq<char>) -> Seq<char> {
    if slug_de_archivo(titulo).len() == 0 {
        "seccion"@
    } else {
        slug_de_archivo(titulo)
    }
}

/// `n` with at least two digits (`{n:02}`).
pub open spec fn dos_cifras(n: nat) -> Seq<char> {
    if n < 10 {
        seq!['0'] + cifras(n)
    } else {
        cifras(n)
    }
}

/// The file of a section: `secciones/NN-<base>.tex`.
pub open spec fn nombre_de_seccion(n: nat, base: Seq<char>) -> Seq<char> {
    "secciones/"@ + dos_cifras(n) + seq!['-'] + base + ".tex"@
}

pub proof fn lema_valor_cifras(n: nat)
    ensures
        valor_decimal(cifras(n)) == n,
    decreases n,
{
    if n < 10 {
        let c = ((n + 0x30) as u32) as char;
        assert((c as u32) == n + 0x30);
        assert(cifras(n) == seq![c]);
        assert(seq![c].drop_last() =~= Seq::<char>::empty());
        assert(valor_decimal(Seq::<char>::empty()) == 0);
        assert(valor_decimal(seq![c]) == n);
    } else {
        lema_valor_cifras(n / 10);
        let c = (((n % 10) + 0x30) as u32) as char;
        assert((c as u32) == (n % 10) + 0x30);
        assert(cifras(n).drop_last() =~= cifras(n / 10));
        assert(cifras(n).last() == c);
        assert(valor_decimal(cifras(n)) == valor_decimal(cifras(n / 10)) * 10 + (n % 10));
    }
}

pub proof fn lema_valor_dos_cifras(n: nat)
    ensures
        valor_decimal(dos_cifras(n)) == n,
{
    lema_valor_cifras(n);
    if n < 10 {
        let c = ((n + 0x30) as u32) as char;
        assert((c as u32) == n + 0x30);
        assert(dos_cifras(n) =~= seq!['0', c]);
        assert(seq!['0', c].drop_last() =~= seq!['0']);
        assert(seq!['0'].drop_last() =~= Seq::<char>::empty());
        assert(valor_decimal(Seq::<char>::empty()) == 0);
        assert(valor_decimal(seq!['0']) == 0);
        assert(valor_decimal(seq!['0', c]) == n);
    }
}

/// Two numbers never give the same file name.
pub proof fn lema_nombre_inyectivo(n: nat, m: nat, base: Seq<char>)
    requires
        nombre_de_seccion(n, base) == nombre_de_seccion(m, base),
    ensures
        n == m,
{
    reveal_strlit("secciones/");
    reveal_strlit(".tex");
    let a = nombre_de_seccion(n, base);
    let dn = dos_cifras(n);
    let dm = dos_cifras(m);
    assert(a.len() == 10 + dn.len() + 1 + base.len() + 4);
    assert(dn.len() == dm.len());
    assert(a.subrange(10, 10 + dn.len() as int) =~= dn);
    assert(nombre_de_seccion(m, base).subrange(10, 10 + dm.len() as int) =~= dm);
    lema_valor_dos_cifras(n);
    lema_valor_dos_cifras(m);
}

/// The series of a section's files made from `base`.
pub open spec fn serie_de_seccion(base: Seq<char>) -> spec_fn(nat) -> Seq<char> {
    |n: nat| nombre_de_seccion(n, base)
}

pub proof fn lema_serie_de_seccion(base: Seq<char>)
    ensures
        inyectiva(serie_de_seccion(base)),
{
    assert forall|n: nat, m: nat| #[trigger] serie_de_seccion(base)(n) == #[trigger] serie_de_seccion(base)(m) implies n
        == m by {
        lema_nombre_inyectivo(n, m, base);
    }
}

pub open spec fn vistas_de(v: Seq<String>) -> Seq<Seq<char>> {
    v.map_values(|s: String| s@)
}

/// Whether `x` is one of `v`.
fn esta(v: &Vec<String>, x: &Vec<char>) -> (r: bool)
    ensures
        r == vistas_de(v@).contains(x@),
{
    let mut k: usize = 0;
    while k < v.len()
        invariant
            k <= v@.len(),
            forall|j: int| 0 <= j < k ==> (#[trigger] v@[j])@ != x@,
        decreases v@.len() - k,
    {
        if iguales(&caracteres(v[k].as_str()), x) {
            assert(vistas_de(v@)[k as int] == x@);
            return true;
        }
        k = k + 1;
    }
    assert forall|j: int| 0 <= j < vistas_de(v@).len() implies vistas_de(v@)[j] != x@ by {
        assert(vistas_de(v@)[j] == v@[j]@);
    }
    false
}

/// The name of the number `n`.
fn nombre_exec(n: usize, base: &Vec<char>) -> (r: Vec<char>)
    ensures
        r@ == nombre_de_seccion(n as nat, base@),
{
    let mut v = caracteres("secciones/");
    if n < 10 {
        v.push('0');
    }
    agregar(&mut v, &en_cifras(n));
    v.push('-');
    agregar(&mut v, base);
    agregar(&mut v, &caracteres(".tex"));
    v
}

/// The name the next section without a file gets: the first number from
/// one past those taken whose name nobody has.
fn elegir(taken: &Vec<String>, base: &Vec<char>) -> (r: Vec<char>)
    requires
        taken@.len() < usize::MAX / 2,
    ensures
        ({
            let t = vistas_de(taken@);
            r@ == nombre_de_seccion(libre(t, (t.len() + 1) as nat, serie_de_seccion(base@)), base@)
        }),
{
    let ghost t = vistas_de(taken@);
    let ghost f = serie_de_seccion(base@);
    let ghost n0: nat = (t.len() + 1) as nat;
    let mut n: usize = taken.len() + 1;
    proof {
        lema_serie_de_seccion(base@);
        lema_cuantos_baja(t, n0, f);
    }
    let mut nombre = nombre_exec(n, base);
    while esta(taken, &nombre)
        invariant
            t == vistas_de(taken@),
            f == serie_de_seccion(base@),
            inyectiva(f),
            n0 == t.len() + 1,
            taken@.len() < usize::MAX / 2,
            n0 <= n,
            nombre@ == nombre_de_seccion(n as nat, base@),
            libre(t, n as nat, f) == libre(t, n0, f),
            (n - n0) + cuantos_desde(t, n as nat, f) <= cuantos_desde(t, n0, f),
            cuantos_desde(t, n0, f) <= t.len(),
        decreases cuantos_desde(t, n as nat, f),
    {
        proof {
            assert(f(n as nat) == nombre@);
            lema_cuantos_baja(t, n as nat, f);
        }
        n = n + 1;
        nombre = nombre_exec(n, base);
    }
    proof {
        assert(f(n as nat) == nombre@);
    }
    nombre
}

/// A section as plain values: its title, its text, its figures, its file and
/// how many subsections it has.
pub type Entrada = (Seq<char>, Seq<char>, Seq<Seq<char>>, Option<Seq<char>>, nat);

pub open spec fn opt_texto(o: Option<String>) -> Option<Seq<char>> {
    match o {
        Some(s) => Some(s@),
        None => None,
    }
}

/// A section as plain values.
pub open spec fn item(s: Section) -> Entrada {
    (s.title@, s.body@, textos(s.figures@), opt_texto(s.body_file), s.subsections@.len())
}

/// The sections in the order of the report: each one, then its subsections,
/// then the next one. With the number of subsections of each, it gives back
/// the tree.
pub open spec fn plano(cs: Seq<Section>) -> Seq<Entrada>
    decreases cs,
{
    if cs.len() == 0 {
        Seq::empty()
    } else {
        proof {
            assert(decreases_to!(cs => cs[0]));
            assert(decreases_to!(cs[0] => cs[0].subsections));
            assert(decreases_to!(cs[0].subsections => cs[0].subsections@));
        }
        seq![item(cs[0])] + plano(cs[0].subsections@) + plano(cs.subrange(1, cs.len() as int))
    }
}

pub proof fn lema_plano_concat(a: Seq<Section>, b: Seq<Section>)
    ensures
        plano(a + b) == plano(a) + plano(b),
    decreases a.len(),
{
    if a.len() == 0 {
        assert(a + b =~= b);
        assert(plano(a) + plano(b) =~= plano(b));
    } else {
        lema_plano_concat(a.subrange(1, a.len() as int), b);
        assert((a + b).subrange(1, (a + b).len() as int) =~= a.subrange(1, a.len() as int) + b);
        assert((a + b)[0] == a[0]);
        assert(plano(a + b) =~= plano(a) + plano(b));
    }
}

pub proof fn lema_plano_uno(x: Section)
    ensures
        plano(seq![x]) == seq![item(x)] + plano(x.subsections@),
{
    assert(seq![x][0] == x);
    assert(seq![x].subrange(1, 1) =~= Seq::<Section>::empty());
    assert(plano(Seq::<Section>::empty()) =~= Seq::empty());
    assert(plano(seq![x]) =~= seq![item(x)] + plano(x.subsections@));
}

/// The file a section gets, and what is taken after it: its own where it
/// has one; else the first name, counting from one past those taken, that
/// nobody has, which is taken from then on.
pub open spec fn paso(it: Entrada, t: Seq<Seq<char>>) -> (Seq<char>, Seq<Seq<char>>) {
    match it.3 {
        Some(f) => (f, t),
        None => {
            let b = base_de_archivo(it.0);
            let nm = nombre_de_seccion(libre(t, (t.len() + 1) as nat, serie_de_seccion(b)), b);
            (nm, t.push(nm))
        },
    }
}

/// The file of each section, in order, and what is taken at the end.
pub open spec fn recorrer(items: Seq<Entrada>, t: Seq<Seq<char>>) -> (Seq<Seq<char>>, Seq<Seq<char>>)
    decreases items.len(),
{
    if items.len() == 0 {
        (Seq::empty(), t)
    } else {
        let (nm, t1) = paso(items[0], t);
        let (resto, t2) = recorrer(items.drop_first(), t1);
        (seq![nm] + resto, t2)
    }
}

pub proof fn lema_recorrer_concat(
    a: Seq<Entrada>,
    b: Seq<Entrada>,
    t: Seq<Seq<char>>,
)
    ensures
        recorrer(a + b, t) == (recorrer(a, t).0 + recorrer(b, recorrer(a, t).1).0, recorrer(b, recorrer(a, t).1).1),
    decreases a.len(),
{
    if a.len() == 0 {
        assert(a + b =~= b);
        assert(recorrer(a, t).0 + recorrer(b, t).0 =~= recorrer(b, t).0);
    } else {
        let t1 = paso(a[0], t).1;
        lema_recorrer_concat(a.drop_first(), b, t1);
        assert((a + b).drop_first() =~= a.drop_first() + b);
        assert((a + b)[0] == a[0]);
        assert(recorrer(a + b, t).0 =~= recorrer(a, t).0 + recorrer(b, recorrer(a, t).1).0);
    }
}

pub proof fn lema_recorrer_largo(items: Seq<Entrada>, t: Seq<Seq<char>>)
    ensures
        recorrer(items, t).0.len() == items.len(),
        recorrer(items, t).1.len() <= t.len() + items.len(),
    decreases items.len(),
{
    if items.len() > 0 {
        lema_recorrer_largo(items.drop_first(), paso(items[0], t).1);
    }
}

/// The sections of `items` with the files `archivos`.
pub open spec fn con_archivos(items: Seq<Entrada>, archivos: Seq<Seq<char>>) -> Seq<Entrada> {
    Seq::new(items.len(), |i: int| (items[i].0, items[i].1, items[i].2, Some(archivos[i]), items[i].4))
}

/// What a file name is made from.
fn base_exec(titulo: &str) -> (r: Vec<char>)
    ensures
        r@ == base_de_archivo(titulo@),
{
    let s = slug(titulo);
    if s.as_str().is_empty() {
        caracteres("seccion")
    } else {
        caracteres(s.as_str())
    }
}

/// Gives a file to each section that has none, in the order of the report:
/// `secciones/NN-<title>.tex`, with `NN` the first number from one past
/// those `taken` whose name nobody has; each name given is taken from then
/// on. A name is chosen once and **never renamed**, not even when the title
/// changes: renaming a file under someone who is editing it, or has it in a
/// commit, breaks more than it tidies.
pub fn assign_section_files(sections: Vec<Section>, taken: &mut Vec<String>) -> (r: Vec<Section>)
    requires
        old(taken)@.len() + plano(sections@).len() < usize::MAX / 2,
    ensures
        r@.len() == sections@.len(),
        plano(r@) == con_archivos(plano(sections@), recorrer(plano(sections@), vistas_de(old(taken)@)).0),
        vistas_de(final(taken)@) == recorrer(plano(sections@), vistas_de(old(taken)@)).1,
    decreases sections@,
{
    let ghost todas = sections@;
    let ghost t0 = vistas_de(taken@);
    assert(todas.len() == sections.len());
    let mut cs = sections;
    let mut out: Vec<Section> = Vec::new();
    let mut j: usize = 0;
    assert(todas.subrange(0, todas.len() as int) =~= todas);
    assert(todas.subrange(0, 0) =~= Seq::<Section>::empty());
    assert(plano(Seq::<Section>::empty()) + plano(todas) =~= plano(todas));
    assert(con_archivos(plano(Seq::<Section>::empty()), Seq::empty()) =~= plano(out@));
    while cs.len() > 0
        invariant
            j <= todas.len(),
            todas.len() <= usize::MAX,
            todas == sections@,
            cs@ == todas.subrange(j as int, todas.len() as int),
            out@.len() == j,
            plano(todas.subrange(0, j as int)) + plano(cs@) == plano(todas),
            plano(out@) == con_archivos(
                plano(todas.subrange(0, j as int)),
                recorrer(plano(todas.subrange(0, j as int)), t0).0,
            ),
            vistas_de(taken@) == recorrer(plano(todas.subrange(0, j as int)), t0).1,
            t0.len() + plano(todas).len() < usize::MAX / 2,
        decreases cs@.len(),
    {
        let ghost c0 = cs@;
        let ghost hecho = plano(todas.subrange(0, j as int));
        let c = cs.remove(0);
        assert(c == todas[j as int]);
        assert(cs@ =~= todas.subrange(j + 1, todas.len() as int));
        proof {
            assert(c0 =~= seq![c] + cs@);
            lema_plano_concat(seq![c], cs@);
            lema_plano_uno(c);
            assert(todas.subrange(0, j + 1) =~= todas.subrange(0, j as int) + seq![c]);
            lema_plano_concat(todas.subrange(0, j as int), seq![c]);
            lema_recorrer_largo(hecho, t0);
        }
        let ghost tk = vistas_de(taken@);
        let Section { title, body, body_file, figures, subsections } = c;
        let ghost it = (title@, body@, textos(figures@), opt_texto(body_file), subsections@.len());
        assert(it == item(c));
        let archivo = match body_file {
            Some(f) => f,
            None => {
                let b = base_exec(title.as_str());
                let nm = cadena(&elegir(&taken, &b));
                taken.push(nm.clone());
                assert(vistas_de(taken@) =~= tk.push(nm@));
                nm
            },
        };
        assert(paso(it, tk) == (archivo@, vistas_de(taken@)));
        proof {
            assert(decreases_to!(todas => todas[j as int]));
            assert(decreases_to!(todas[j as int] => todas[j as int].subsections));
            assert(decreases_to!(todas[j as int].subsections => todas[j as int].subsections@));
            assert(decreases_to!(todas => subsections@));
            lema_recorrer_largo(seq![it], tk);
            assert(plano(todas) == hecho + seq![it] + plano(subsections@) + plano(cs@));
            assert(recorrer(seq![it], tk).1 == vistas_de(taken@)) by {
                let vacio = Seq::<Entrada>::empty();
                assert(seq![it][0] == it);
                assert(seq![it].drop_first() =~= vacio);
                assert(recorrer(vacio, vistas_de(taken@)) == (Seq::<Seq<char>>::empty(), vistas_de(taken@)));
            }
        }
        let ghost t1 = vistas_de(taken@);
        let ghost subs0 = subsections@;
        let subs = assign_section_files(subsections, taken);
        let nueva = Section { title, body, body_file: Some(archivo), figures, subsections: subs };
        let ghost antes = out@;
        out.push(nueva);
        proof {
            let fh = recorrer(hecho, t0).0;
            let fs = recorrer(plano(subs0), t1).0;
            lema_recorrer_largo(hecho, t0);
            lema_recorrer_largo(plano(subs0), t1);
            assert(out@ =~= antes + seq![nueva]);
            lema_plano_concat(antes, seq![nueva]);
            lema_plano_uno(nueva);
            assert(recorrer(seq![it], tk).0 =~= seq![archivo@]) by {
                assert(seq![it][0] == it);
                assert(seq![it].drop_first() =~= Seq::<Entrada>::empty());
            }
            lema_recorrer_concat(hecho, seq![it], t0);
            lema_recorrer_concat(hecho + seq![it], plano(subs0), t0);
            assert(hecho + seq![it] + plano(subs0) == plano(todas.subrange(0, j + 1)));
            let nh = plano(todas.subrange(0, j + 1));
            assert(recorrer(nh, t0).0 =~= fh + seq![archivo@] + fs);
            assert(plano(out@) =~= con_archivos(nh, recorrer(nh, t0).0));
        }
        j = j + 1;
    }
    assert(cs@ =~= Seq::<Section>::empty());
    assert(plano(todas.subrange(0, j as int)) =~= plano(todas));
    out
}

/// The files the sections already have, in the order of the report.
pub open spec fn existentes(items: Seq<Entrada>) -> Seq<Seq<char>>
    decreases items.len(),
{
    if items.len() == 0 {
        Seq::empty()
    } else {
        (match items[0].3 {
            Some(f) => seq![f],
            None => Seq::empty(),
        }) + existentes(items.drop_first())
    }
}

pub proof fn lema_existentes_concat(a: Seq<Entrada>, b: Seq<Entrada>)
    ensures
        existentes(a + b) == existentes(a) + existentes(b),
        existentes(a).len() <= a.len(),
    decreases a.len(),
{
    if a.len() == 0 {
        assert(a + b =~= b);
        assert(existentes(a) + existentes(b) =~= existentes(b));
    } else {
        lema_existentes_concat(a.drop_first(), b);
        assert((a + b).drop_first() =~= a.drop_first() + b);
        assert((a + b)[0] == a[0]);
        assert(existentes(a + b) =~= existentes(a) + existentes(b));
    }
}

proof fn lema_existentes_contiene(items: Seq<Entrada>, i: int)
    requires
        0 <= i < items.len(),
        items[i].3 is Some,
    ensures
        existentes(items).contains(items[i].3->0),
    decreases items.len(),
{
    if i == 0 {
        assert(existentes(items)[0] == items[0].3->0);
    } else {
        lema_existentes_contiene(items.drop_first(), i - 1);
        let e = existentes(items.drop_first());
        let k = choose|k: int| 0 <= k < e.len() && e[k] == items[i].3->0;
        let pre = match items[0].3 {
            Some(f) => seq![f],
            None => Seq::<Seq<char>>::empty(),
        };
        assert(existentes(items)[pre.len() + k] == e[k]);
    }
}

/// The files that are already taken: those the sections have.
pub fn taken_section_files(sections: &Vec<Section>) -> (r: Vec<String>)
    ensures
        vistas_de(r@) == existentes(plano(sections@)),
    decreases sections@,
{
    let mut out: Vec<String> = Vec::new();
    let mut j: usize = 0;
    assert(sections@.subrange(0, 0) =~= Seq::<Section>::empty());
    assert(vistas_de(out@) =~= existentes(plano(Seq::<Section>::empty())));
    while j < sections.len()
        invariant
            j <= sections@.len(),
            vistas_de(out@) == existentes(plano(sections@.subrange(0, j as int))),
        decreases sections@.len() - j,
    {
        let c = &sections[j];
        let ghost hecho = plano(sections@.subrange(0, j as int));
        proof {
            assert(sections@.subrange(0, j + 1) =~= sections@.subrange(0, j as int) + seq![*c]);
            lema_plano_concat(sections@.subrange(0, j as int), seq![*c]);
            lema_plano_uno(*c);
            assert(plano(sections@.subrange(0, j + 1)) =~= hecho + seq![item(*c)] + plano(c.subsections@));
            lema_existentes_concat(hecho, seq![item(*c)]);
            lema_existentes_concat(hecho + seq![item(*c)], plano(c.subsections@));
            let vacio = Seq::<Entrada>::empty();
            assert(seq![item(*c)][0] == item(*c));
            assert(seq![item(*c)].drop_first() =~= vacio);
            assert(existentes(vacio) == Seq::<Seq<char>>::empty());
            assert(decreases_to!(sections@ => sections@[j as int]));
            assert(decreases_to!(sections@[j as int] => sections@[j as int].subsections));
            assert(decreases_to!(sections@[j as int].subsections => sections@[j as int].subsections@));
        }
        let ghost antes = vistas_de(out@);
        match &c.body_file {
            Some(f) => {
                out.push(f.clone());
                assert(vistas_de(out@) =~= antes + existentes(seq![item(*c)]));
            },
            None => {
                assert(vistas_de(out@) =~= antes + existentes(seq![item(*c)]));
            },
        }
        let ghost medio = vistas_de(out@);
        let mut sub = taken_section_files(&c.subsections);
        out.append(&mut sub);
        assert(vistas_de(out@) =~= medio + existentes(plano(c.subsections@)));
        j = j + 1;
    }
    assert(sections@.subrange(0, sections@.len() as int) =~= sections@);
    out
}

/// The part of saving a project that names the files: each section without
/// a file gets one (see `assign_section_files`), counting as taken those
/// the sections already have.
pub fn archivos_de_secciones(sections: Vec<Section>) -> (r: Vec<Section>)
    requires
        plano(sections@).len() < usize::MAX / 4,
    ensures
        r@.len() == sections@.len(),
        plano(r@) == con_archivos(
            plano(sections@),
            recorrer(plano(sections@), existentes(plano(sections@))).0,
        ),
{
    let mut taken = taken_section_files(&sections);
    proof {
        lema_existentes_concat(plano(sections@), Seq::empty());
    }
    assign_section_files(sections, &mut taken)
}

/// A section that has a file keeps it: the name is chosen once and never
/// renamed, whatever its title says now.
pub proof fn el_archivo_no_se_renombra(items: Seq<Entrada>, t: Seq<Seq<char>>)
    ensures
        recorrer(items, t).0.len() == items.len(),
        forall|i: int| 0 <= i < items.len() && (#[trigger] items[i]).3 is Some ==> recorrer(items, t).0[i] == items[i].3->0,
    decreases items.len(),
{
    lema_recorrer_largo(items, t);
    if items.len() > 0 {
        let t1 = paso(items[0], t).1;
        el_archivo_no_se_renombra(items.drop_first(), t1);
        assert forall|i: int| 0 <= i < items.len() && (#[trigger] items[i]).3 is Some implies recorrer(items, t).0[i]
            == items[i].3->0 by {
            if i > 0 {
                assert(items.drop_first()[i - 1] == items[i]);
            }
        }
    }
}

proof fn lema_sin_repetir(items: Seq<Entrada>, t: Seq<Seq<char>>)
    requires
        forall|i: int| 0 <= i < items.len() && (#[trigger] items[i]).3 is Some ==> t.contains(items[i].3->0),
        forall|i: int, j: int| 0 <= i < j < items.len() && (#[trigger] items[i]).3 is Some ==> items[i].3 != (#[trigger] items[j]).3,
    ensures
        recorrer(items, t).0.len() == items.len(),
        forall|k: int| 0 <= k < items.len() && (#[trigger] items[k]).3 is None ==> !t.contains(recorrer(items, t).0[k]),
        forall|k: int| 0 <= k < items.len() && (#[trigger] items[k]).3 is Some ==> recorrer(items, t).0[k] == items[k].3->0,
        forall|i: int, j: int| 0 <= i < j < items.len() ==> recorrer(items, t).0[i] != recorrer(items, t).0[j],
    decreases items.len(),
{
    el_archivo_no_se_renombra(items, t);
    if items.len() > 0 {
        let x = items[0];
        let (nm, t1) = paso(x, t);
        let resto = items.drop_first();
        let out = recorrer(items, t).0;
        let sub = recorrer(resto, t1).0;
        assert(out == seq![nm] + sub);
        assert forall|x2: Seq<char>| t.contains(x2) implies t1.contains(x2) by {
            if x.3 is None {
                let k = choose|k: int| 0 <= k < t.len() && t[k] == x2;
                assert(t1[k] == x2);
            }
        }
        assert forall|i: int| 0 <= i < resto.len() && (#[trigger] resto[i]).3 is Some implies t1.contains(resto[i].3->0) by {
            assert(resto[i] == items[i + 1]);
        }
        assert forall|i: int, j: int| 0 <= i < j < resto.len() && (#[trigger] resto[i]).3 is Some implies resto[i].3 != (
        #[trigger] resto[j]).3 by {
            assert(resto[i] == items[i + 1]);
            assert(resto[j] == items[j + 1]);
        }
        lema_sin_repetir(resto, t1);
        if x.3 is None {
            let b = base_de_archivo(x.0);
            lema_serie_de_seccion(b);
            lema_libre(t, (t.len() + 1) as nat, serie_de_seccion(b));
            assert(t1.contains(nm)) by {
                assert(t1[t.len() as int] == nm);
            }
        }
        assert forall|k: int| 0 <= k < items.len() && (#[trigger] items[k]).3 is None implies !t.contains(out[k]) by {
            if k > 0 {
                assert(resto[k - 1] == items[k]);
                assert(out[k] == sub[k - 1]);
            }
        }
        assert forall|i: int, j: int| 0 <= i < j < items.len() implies out[i] != out[j] by {
            assert(out[j] == sub[j - 1]);
            assert(resto[j - 1] == items[j]);
            if i > 0 {
                assert(out[i] == sub[i - 1]);
            } else {
                if x.3 is Some {
                    assert(t.contains(nm));
                    if items[j].3 is Some {
                        assert(items[0].3 != items[j].3);
                    }
                } else {
                    if items[j].3 is Some {
                        assert(t.contains(items[j].3->0));
                    }
                }
            }
        }
    }
}

/// No two sections end up with the same file, where none did before: a name
/// given is one that nobody had, and is taken from then on.
pub proof fn los_archivos_no_se_repiten(items: Seq<Entrada>, t: Seq<Seq<char>>)
    requires
        forall|i: int| 0 <= i < items.len() && (#[trigger] items[i]).3 is Some ==> t.contains(items[i].3->0),
        forall|i: int, j: int| 0 <= i < j < items.len() && (#[trigger] items[i]).3 is Some ==> items[i].3 != (#[trigger] items[j]).3,
    ensures
        forall|i: int, j: int| 0 <= i < j < items.len() ==> recorrer(items, t).0[i] != recorrer(items, t).0[j],
        forall|k: int| 0 <= k < items.len() && (#[trigger] items[k]).3 is None ==> !t.contains(recorrer(items, t).0[k]),
{
    lema_sin_repetir(items, t);
}

/// Saving a report whose sections have different files (or none) leaves
/// each section with a file of its own.
pub proof fn cada_seccion_con_su_archivo(items: Seq<Entrada>)
    requires
        forall|i: int, j: int| 0 <= i < j < items.len() && (#[trigger] items[i]).3 is Some ==> items[i].3 != (#[trigger] items[j]).3,
    ensures
        forall|i: int, j: int| 0 <= i < j < items.len() ==> recorrer(items, existentes(items)).0[i] != recorrer(
            items,
            existentes(items),
        ).0[j],
{
    assert forall|i: int| 0 <= i < items.len() && (#[trigger] items[i]).3 is Some implies existentes(items).contains(
        items[i].3->0,
    ) by {
        lema_existentes_contiene(items, i);
    }
    lema_sin_repetir(items, existentes(items));
}

} // verus!
