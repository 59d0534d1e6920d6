//! The desktop app's view of projects: the recent folders, the slug of a new
//! project's folder, and the themes to choose from. The files these come from
//! are read and written by the program.
use vstd::prelude::*;
use crate::orden::{antes_que, lema_mapa_multiconjunto, ordenar_por_clave, sin_claves, valores};
use crate::commands::{slugify, slugify_spec};
use crate::rutas::{nombre_de_archivo, nombre_de_archivo_exec};
use crate::texto::{
    aparece, aparece_en, cadena, caracteres, empieza_con, iguales,
    lineas, minuscula_ascii, minusculas, minusculas_de, partir_lineas, recortado, recortar,
    recortar_char, recortar_izq, sin_blancos_izq, sin_extremos, tramo, vistas,
};

verus! {

broadcast use vstd::string::group_string_axioms;

// ---------------------------------------------------------------------------
// Recent folders
// ---------------------------------------------------------------------------

/// A folder opened lately.
#[derive(Debug, Clone)]
pub struct Reciente {
    pub ruta: String,
    pub nombre: String,
    /// The path with `~` in place of the home, as a person reads it.
    pub ruta_corta: String,
}

/// How many recent folders are kept.
pub const TOPE: usize = 8;

/// A path with `~` in place of the home `home`, where it starts with it.
pub open spec fn acortado(ruta: Seq<char>, home: Option<Seq<char>>) -> Seq<char> {
    match home {
        Some(h) => if empieza_con(ruta, h) {
            seq!['~'] + ruta.subrange(h.len() as int, ruta.len() as int)
        } else {
            ruta
        },
        None => ruta,
    }
}

/// A path as a person reads it: `~` in place of the home.
pub fn acortar(ruta: &str, home: Option<&str>) -> (r: String)
    ensures
        r@ == acortado(ruta@, match home {
            Some(h) => Some(h@),
            None => None,
        }),
{
    let t = caracteres(ruta);
    match home {
        Some(h) => {
            let hc = caracteres(h);
            if aparece(&t, 0, &hc) {
                let mut r: Vec<char> = Vec::new();
                r.push('~');
                let resto = tramo(&t, hc.len(), t.len());
                crate::texto::agregar(&mut r, &resto);
                cadena(&r)
            } else {
                ruta.to_owned()
            }
        },
        None => ruta.to_owned(),
    }
}

/// The entry of the recent list for the folder at `ruta`.
pub fn reciente(ruta: String, home: Option<&str>) -> (r: Reciente)
    ensures
        r.ruta@ == ruta@,
        r.nombre@ == (match nombre_de_archivo(ruta@) {
            Some(n) => n,
            None => Seq::empty(),
        }),
        r.ruta_corta@ == acortado(ruta@, match home {
            Some(h) => Some(h@),
            None => None,
        }),
{
    let nombre = match nombre_de_archivo_exec(&caracteres(ruta.as_str())) {
        Some(n) => cadena(&n),
        None => String::new(),
    };
    let corta = acortar(ruta.as_str(), home);
    Reciente { ruta, nombre, ruta_corta: corta }
}

/// Equal but for the case of ASCII letters (`str::eq_ignore_ascii_case`).
pub open spec fn igual_sin_caso(a: Seq<char>, b: Seq<char>) -> bool {
    a.len() == b.len() && forall|i: int| 0 <= i < a.len() ==> minuscula_ascii(#[trigger] a[i]) == minuscula_ascii(b[i])
}

fn iguales_sin_caso(a: &[char], b: &[char]) -> (r: bool)
    ensures
        r == igual_sin_caso(a@, b@),
{
    if a.len() != b.len() {
        return false;
    }
    let mut i: usize = 0;
    while i < a.len()
        invariant
            a@.len() == b@.len(),
            i <= a@.len(),
            forall|k: int| 0 <= k < i ==> minuscula_ascii(#[trigger] a@[k]) == minuscula_ascii(b@[k]),
        decreases a@.len() - i,
    {
        let x = a[i];
        let y = b[i];
        let lx = if 'A' <= x && x <= 'Z' {
            let v: u8 = (x as u32 + 32) as u8;
            assert(v as u32 == x as u32 + 32);
            v as char
        } else {
            x
        };
        let ly = if 'A' <= y && y <= 'Z' {
            let v: u8 = (y as u32 + 32) as u8;
            assert(v as u32 == y as u32 + 32);
            v as char
        } else {
            y
        };
        assert(lx == minuscula_ascii(x) && ly == minuscula_ascii(y));
        if lx != ly {
            return false;
        }
        i = i + 1;
    }
    true
}

pub open spec fn textos(v: Seq<String>) -> Seq<Seq<char>> {
    v.map_values(|s: String| s@)
}

/// The recent list without the entries that are `carpeta` (but for the case
/// of ASCII letters), in order.
pub open spec fn sin_la(v: Seq<Seq<char>>, carpeta: Seq<char>) -> Seq<Seq<char>>
    decreases v.len(),
{
    if v.len() == 0 {
        Seq::empty()
    } else if igual_sin_caso(v.last(), carpeta) {
        sin_la(v.drop_last(), carpeta)
    } else {
        sin_la(v.drop_last(), carpeta).push(v.last())
    }
}

/// The recent list after opening `carpeta`: it goes to the top (out of where
/// it was, if it was: on Windows `C:\TP3` and `c:\tp3` are the same folder),
/// and only the first `TOPE` stay.
pub open spec fn con_reciente_spec(v: Seq<Seq<char>>, carpeta: Seq<char>) -> Seq<Seq<char>> {
    let l = seq![carpeta] + sin_la(v, carpeta);
    if l.len() > TOPE {
        l.take(TOPE as int)
    } else {
        l
    }
}

/// The recent list after opening `carpeta`.
pub fn con_reciente(rutas: Vec<String>, carpeta: String) -> (r: Vec<String>)
    ensures
        textos(r@) == con_reciente_spec(textos(rutas@), carpeta@),
{
    let c = caracteres(carpeta.as_str());
    let mut r: Vec<String> = Vec::new();
    r.push(carpeta);
    let ghost todas = textos(rutas@);
    let mut k: usize = 0;
    assert(todas.take(0) =~= Seq::<Seq<char>>::empty());
    assert(textos(r@) =~= seq![c@]);
    while k < rutas.len()
        invariant
            k <= rutas@.len(),
            todas == textos(rutas@),
            textos(r@) == seq![c@] + sin_la(todas.take(k as int), c@),
        decreases rutas@.len() - k,
    {
        assert(todas.take(k + 1).drop_last() =~= todas.take(k as int));
        assert(todas[k as int] == rutas@[k as int]@);
        if !iguales_sin_caso(&caracteres(rutas[k].as_str()), &c) {
            let ghost antes = textos(r@);
            r.push(rutas[k].clone());
            assert(textos(r@) =~= antes.push(todas[k as int]));
        }
        k = k + 1;
    }
    assert(todas.take(todas.len() as int) =~= todas);
    r.truncate(TOPE);
    assert(textos(r@) =~= con_reciente_spec(textos(rutas@), c@));
    r
}

proof fn lema_sin_la(v: Seq<Seq<char>>, carpeta: Seq<char>)
    ensures
        forall|i: int| 0 <= i < sin_la(v, carpeta).len() ==> !igual_sin_caso(#[trigger] sin_la(v, carpeta)[i], carpeta)
            && v.contains(sin_la(v, carpeta)[i]),
        sin_la(v, carpeta).len() <= v.len(),
    decreases v.len(),
{
    if v.len() > 0 {
        lema_sin_la(v.drop_last(), carpeta);
        let w = sin_la(v.drop_last(), carpeta);
        assert forall|i: int| 0 <= i < w.len() implies v.contains(#[trigger] w[i]) by {
            let j = choose|j: int| 0 <= j < v.drop_last().len() && v.drop_last()[j] == w[i];
            assert(v[j] == w[i]);
        }
        if !igual_sin_caso(v.last(), carpeta) {
            assert(v[v.len() - 1] == v.last());
        }
    }
}

/// After opening a folder it heads the recent list, no other entry is that
/// folder, no more than `TOPE` are kept, and every other entry was already in
/// the list.
pub proof fn abrir_la_pone_primera(v: Seq<Seq<char>>, carpeta: Seq<char>)
    ensures
        con_reciente_spec(v, carpeta).len() >= 1,
        con_reciente_spec(v, carpeta)[0] == carpeta,
        con_reciente_spec(v, carpeta).len() <= TOPE,
        forall|i: int|
            1 <= i < con_reciente_spec(v, carpeta).len() ==> !igual_sin_caso(
                #[trigger] con_reciente_spec(v, carpeta)[i],
                carpeta,
            ) && v.contains(con_reciente_spec(v, carpeta)[i]),
{
    lema_sin_la(v, carpeta);
    let l = seq![carpeta] + sin_la(v, carpeta);
    assert forall|i: int| 1 <= i < con_reciente_spec(v, carpeta).len() implies !igual_sin_caso(
        #[trigger] con_reciente_spec(v, carpeta)[i],
        carpeta,
    ) && v.contains(con_reciente_spec(v, carpeta)[i]) by {
        assert(con_reciente_spec(v, carpeta)[i] == l[i]);
        assert(l[i] == sin_la(v, carpeta)[i - 1]);
    }
}

// ---------------------------------------------------------------------------
// The slug of a new project
// ---------------------------------------------------------------------------

/// The folder that a new project's name gives: the command line's slug of the
/// name (`slugify`), so that the path shown while the name is typed is the
/// folder that `xtal new` creates. Each letter or digit is lowercased on its
/// own, accents kept; one `-` for each run of other characters; none at the
/// ends.
pub open spec fn slug_spec(nombre: Seq<char>) -> Seq<char> {
    slugify_spec(nombre)
}

/// The folder that a new project's name gives, shown while it is typed.
pub fn slug(nombre: String) -> (r: String)
    ensures
        r@ == slug_spec(nombre@),
{
    slugify(nombre.as_str())
}

// ---------------------------------------------------------------------------
// Themes
// ---------------------------------------------------------------------------

/// A theme to choose from.
#[derive(Debug, Clone)]
pub struct Theme {
    pub id: String,
    /// The name shown: the acronym the theme declares, or its full name.
    pub nombre: String,
}

/// `clave = "valor"` in one line of a TOML text.
pub open spec fn valor_en_linea(clave: Seq<char>, linea: Seq<char>) -> Option<Seq<char>> {
    let t = recortado(linea);
    if empieza_con(t, clave) {
        let r = sin_blancos_izq(t.subrange(clave.len() as int, t.len() as int));
        if r.len() > 0 && r[0] == '=' {
            Some(sin_extremos(recortado(r.drop_first()), '"'))
        } else {
            None
        }
    } else {
        None
    }
}

/// The value of the first line that gives `clave`.
pub open spec fn valor_en(clave: Seq<char>, ls: Seq<Seq<char>>) -> Option<Seq<char>>
    decreases ls.len(),
{
    if ls.len() == 0 {
        None
    } else {
        match valor_en_linea(clave, ls[0]) {
            Some(v) => Some(v),
            None => valor_en(clave, ls.drop_first()),
        }
    }
}

/// `clave = "valor"` of a TOML text, without parsing it all: the first line
/// that, trimmed, starts with the key and then (after blanks) `=`; the value
/// trimmed and without its quotes.
pub fn valor(clave: &str, toml: &str) -> (r: Option<String>)
    ensures
        match r {
            Some(v) => valor_en(clave@, lineas(toml@)) == Some(v@),
            None => valor_en(clave@, lineas(toml@)) is None,
        },
{
    let c = caracteres(clave);
    let ls = partir_lineas(&caracteres(toml));
    let ghost todas = vistas(ls@);
    let mut k: usize = 0;
    assert(todas.subrange(0, todas.len() as int) =~= todas);
    while k < ls.len()
        invariant
            k <= ls@.len(),
            todas == vistas(ls@),
            todas == lineas(toml@),
            c@ == clave@,
            valor_en(clave@, todas.subrange(k as int, todas.len() as int)) == valor_en(clave@, todas),
        decreases ls@.len() - k,
    {
        assert(todas.subrange(k as int, todas.len() as int)[0] == ls@[k as int]@);
        assert(todas.subrange(k as int, todas.len() as int).drop_first() =~= todas.subrange(k + 1, todas.len() as int));
        let t = recortar(&ls[k]);
        if aparece(&t, 0, &c) {
            let r = recortar_izq(&tramo(&t, c.len(), t.len()));
            if r.len() > 0 && r[0] == '=' {
                let sin_igual = tramo(&r, 1, r.len());
                assert(sin_igual@ =~= r@.drop_first());
                let v = recortar_char(&recortar(&sin_igual), '"');
                assert(valor_en_linea(clave@, ls@[k as int]@) == Some(v@));
                return Some(cadena(&v));
            }
        }
        k = k + 1;
    }
    None
}

/// The text that `str::to_uppercase` gives for `s`.
pub uninterp spec fn mayusculas_de(s: Seq<char>) -> Seq<char>;

/// Calls `str::to_uppercase`; the result is named `mayusculas_de`.
#[verifier::external_body]
fn mayusculas(s: &str) -> (r: String)
    ensures
        r@ == mayusculas_de(s@),
{
    s.to_uppercase()
}

/// The name a theme is shown with: the `sigla` of its `theme.toml`, or its
/// `nombre`, where that is not empty; else `Sin institución` for the generic
/// one and the id in uppercase for any other.
pub open spec fn nombre_de_theme_spec(id: Seq<char>, toml: Seq<char>) -> Seq<char> {
    let v = match valor_en("sigla"@, lineas(toml)) {
        Some(x) => Some(x),
        None => valor_en("nombre"@, lineas(toml)),
    };
    match v {
        Some(x) => if x.len() > 0 {
            x
        } else if id == "generico"@ {
            "Sin institución"@
        } else {
            mayusculas_de(id)
        },
        None => if id == "generico"@ {
            "Sin institución"@
        } else {
            mayusculas_de(id)
        },
    }
}

/// The name a theme is shown with, from its id and its `theme.toml` (the one
/// who builds their faculty's theme sees it without touching the app).
pub fn nombre_de_theme(id: &str, toml: &str) -> (r: String)
    ensures
        r@ == nombre_de_theme_spec(id@, toml@),
{
    let v = match valor("sigla", toml) {
        Some(x) => Some(x),
        None => valor("nombre", toml),
    };
    let defecto = if iguales(&caracteres(id), &caracteres("generico")) {
        "Sin institución".to_owned()
    } else {
        mayusculas(id)
    };
    match v {
        Some(x) => if x.as_str().is_empty() {
            defecto
        } else {
            x
        },
        None => defecto,
    }
}

/// The themes to choose from: the two that come with Xtal, then those of the
/// user's folder (`entradas`) that are not hidden nor already there.
pub open spec fn ids_de(entradas: Seq<Seq<char>>) -> Seq<Seq<char>>
    decreases entradas.len(),
{
    if entradas.len() == 0 {
        seq!["itba"@, "generico"@]
    } else {
        let previos = ids_de(entradas.drop_last());
        let n = entradas.last();
        if (n.len() > 0 && n[0] == '.') || previos.contains(n) {
            previos
        } else {
            previos.push(n)
        }
    }
}

/// The ids of the themes to choose from, given the entries of the user's
/// themes folder.
pub fn ids_de_themes(entradas: &Vec<String>) -> (r: Vec<String>)
    ensures
        textos(r@) == ids_de(textos(entradas@)),
{
    let mut r: Vec<String> = Vec::new();
    r.push("itba".to_owned());
    r.push("generico".to_owned());
    let ghost todas = textos(entradas@);
    assert(textos(r@) =~= ids_de(todas.take(0)));
    let mut k: usize = 0;
    while k < entradas.len()
        invariant
            k <= entradas@.len(),
            todas == textos(entradas@),
            textos(r@) == ids_de(todas.take(k as int)),
        decreases entradas@.len() - k,
    {
        assert(todas.take(k + 1).drop_last() =~= todas.take(k as int));
        assert(todas[k as int] == entradas@[k as int]@);
        let n = caracteres(entradas[k].as_str());
        let oculto = n.len() > 0 && n[0] == '.';
        let mut esta = false;
        let mut j: usize = 0;
        while j < r.len()
            invariant
                j <= r@.len(),
                esta == exists|i: int| 0 <= i < j && textos(r@)[i] == n@,
            decreases r@.len() - j,
        {
            if iguales(&caracteres(r[j].as_str()), &n) {
                assert(textos(r@)[j as int] == n@);
                esta = true;
            }
            j = j + 1;
        }
        if !oculto && !esta {
            let ghost antes = textos(r@);
            r.push(entradas[k].clone());
            assert(textos(r@) =~= antes.push(n@));
        }
        k = k + 1;
    }
    assert(todas.take(todas.len() as int) =~= todas);
    r
}

/// The key a theme is sorted by: the generic one last (it is the way out for
/// someone in no institution, not the first option), then the name in
/// lowercase.
pub open spec fn clave_theme(t: Theme) -> (bool, Seq<char>) {
    (t.id@ == "generico"@, minusculas_de(t.nombre@))
}

/// Sorts the themes: the generic one last, the others by name.
pub fn ordenar_themes(lista: Vec<Theme>) -> (r: Vec<Theme>)
    ensures
        r@.to_multiset() == lista@.to_multiset(),
        forall|i: int, j: int| 0 <= i < j < r@.len() ==> !antes_que(clave_theme(#[trigger] r@[j]), clave_theme(#[trigger] r@[i])),
{
    let mut pend = lista;
    let mut con: Vec<(bool, Vec<char>, Theme)> = Vec::new();
    let ghost todo = pend@;
    while pend.len() > 0
        invariant
            valores(con@) + pend@ == todo,
            forall|k: int| 0 <= k < con@.len() ==> (#[trigger] con@[k]).0 == (con@[k].2.id@ == "generico"@)
                && con@[k].1@ == minusculas_de(con@[k].2.nombre@),
        decreases pend@.len(),
    {
        let ghost p0 = pend@;
        let t = pend.remove(0);
        let low = minusculas(t.nombre.as_str());
        let c = caracteres(low.as_str());
        let g = iguales(&caracteres(t.id.as_str()), &caracteres("generico"));
        let ghost v0 = valores(con@);
        con.push((g, c, t));
        assert(p0 =~= seq![t] + pend@);
        assert(valores(con@) =~= v0.push(t));
        assert(valores(con@) + pend@ =~= todo);
    }
    assert(valores(con@) =~= todo);
    let ordenados = ordenar_por_clave(con);
    proof {
        lema_mapa_multiconjunto(ordenados@, con@, |x: (bool, Vec<char>, Theme)| x.2);
        assert forall|k: int| 0 <= k < ordenados@.len() implies (#[trigger] ordenados@[k]).0 == (ordenados@[k].2.id@
            == "generico"@) && ordenados@[k].1@ == minusculas_de(ordenados@[k].2.nombre@) by {
            let x = ordenados@[k];
            assert(ordenados@.contains(x));
            vstd::seq_lib::to_multiset_contains(ordenados@, x);
            vstd::seq_lib::to_multiset_contains(con@, x);
            assert(con@.contains(x));
        }
    }
    let r = sin_claves(ordenados);
    proof {
        assert forall|i: int, j: int| 0 <= i < j < r@.len() implies !antes_que(
            clave_theme(#[trigger] r@[j]),
            clave_theme(#[trigger] r@[i]),
        ) by {
            assert(r@[i] == ordenados@[i].2);
            assert(r@[j] == ordenados@[j].2);
            assert(crate::orden::clave(ordenados@[i]) == clave_theme(r@[i]));
            assert(crate::orden::clave(ordenados@[j]) == clave_theme(r@[j]));
        }
    }
    r
}

} // verus!
