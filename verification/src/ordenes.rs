//! The door of the desktop app: `xtal://` orders.
//!
//! `xtal app ...` builds an URL (`armar`, with `codificar` for the folder),
//! hands it to the system, and the app parses it (`parsear`, with `desescapar`
//! for the folder):
//!
//! ```text
//! xtal://                            bring the app to the front
//! xtal://abrir?carpeta=C:\tp3        open that project
//! xtal://compilar                    save and compile
//! xtal://modo/agente|editor          switch mode
//! xtal://ver/pdf|errores             what the right panel shows
//! xtal://panel/pdf|informe|terminal|archivos?ver=1|0
//! xtal://terminal/nueva              another terminal
//! ```
//!
//! Any order takes `frente=1` to bring the app to the front; by default it does
//! not, so as not to steal the focus from whoever is typing in it.
use vstd::prelude::*;
use vstd::utf8::{encode_utf8, valid_utf8, decode_utf8, is_ascii_chars, is_continuation_byte};
use crate::cli::{AppAbrirArgs, AppArgs, AppCmd, AppModoArgs, AppPanelArgs, AppVerArgs};
use crate::texto::{
    agregar, antes_de, cadena, caracteres, contiene_char, despues_de, empieza_con, hasta, iguales, lema_hasta, trozos_desde,
    partir_en, partir_una_vez, quitar_vacios, sin_vacios, tramo, trozos, vistas, aparece,
};

verus! {

broadcast use vstd::string::group_string_axioms;

/// An order for the app.
#[derive(Clone, Debug)]
pub struct Orden {
    /// `abrir`, `compilar`, `modo`, `ver`, `panel`, `terminal` (or `frente`).
    pub que: String,
    /// The rest of the path: `agente`, `pdf`, `errores`...
    pub valor: Option<String>,
    /// The `carpeta` parameter, decoded.
    pub carpeta: Option<String>,
    /// `ver=1` / `ver=0` for the panels; `None` is a toggle.
    pub ver: Option<bool>,
}

/// An order as plain values.
pub struct OrdenV {
    pub que: Seq<char>,
    pub valor: Option<Seq<char>>,
    pub carpeta: Option<Seq<char>>,
    pub ver: Option<bool>,
}

pub open spec fn opt_texto(o: Option<String>) -> Option<Seq<char>> {
    match o {
        Some(s) => Some(s@),
        None => None,
    }
}

pub open spec fn opt_chars(o: Option<Vec<char>>) -> Option<Seq<char>> {
    match o {
        Some(s) => Some(s@),
        None => None,
    }
}

impl Orden {
    pub open spec fn vista(&self) -> OrdenV {
        OrdenV {
            que: self.que@,
            valor: opt_texto(self.valor),
            carpeta: opt_texto(self.carpeta),
            ver: self.ver,
        }
    }
}

pub open spec fn opt_orden(o: Option<Orden>) -> Option<OrdenV> {
    match o {
        Some(x) => Some(x.vista()),
        None => None,
    }
}

// ---------------------------------------------------------------------------
// Percent-encoding
// ---------------------------------------------------------------------------

/// A byte that goes into a parameter as it is.
pub open spec fn libre(b: u8) -> bool {
    (0x41 <= b <= 0x5a) || (0x61 <= b <= 0x7a) || (0x30 <= b <= 0x39) || b == 0x2d || b == 0x5f
        || b == 0x2e || b == 0x7e || b == 0x2f
}

/// An uppercase hexadecimal digit.
pub open spec fn cifra_hex(n: int) -> char {
    if n < 10 {
        (0x30 + n) as char
    } else {
        (0x41 + n - 10) as char
    }
}

/// What one byte becomes: itself, or `%` and two uppercase hex digits.
pub open spec fn pieza(b: u8) -> Seq<char> {
    if libre(b) {
        seq![b as char]
    } else {
        seq!['%', cifra_hex((b / 16) as int), cifra_hex((b % 16) as int)]
    }
}

/// The percent-encoding of some bytes.
pub open spec fn codificado(b: Seq<u8>) -> Seq<char>
    decreases b.len(),
{
    if b.len() == 0 {
        Seq::empty()
    } else {
        pieza(b[0]) + codificado(b.drop_first())
    }
}

proof fn lema_codificado_push(b: Seq<u8>, x: u8)
    ensures
        codificado(b.push(x)) == codificado(b) + pieza(x),
    decreases b.len(),
{
    if b.len() == 0 {
        assert(b.push(x).drop_first() =~= Seq::<u8>::empty());
        assert(codificado(Seq::<u8>::empty()) == Seq::<char>::empty());
        assert(codificado(b.push(x)) =~= pieza(x));
    } else {
        assert(b.push(x).drop_first() =~= b.drop_first().push(x));
        lema_codificado_push(b.drop_first(), x);
        assert(codificado(b.push(x)) =~= codificado(b) + pieza(x));
    }
}

fn cifra(n: u8) -> (c: char)
    requires
        n < 16,
    ensures
        c == cifra_hex(n as int),
{
    if n < 10 {
        (0x30u8 + n) as char
    } else {
        (0x41u8 + n - 10) as char
    }
}

/// Percent-encoding of what goes inside a parameter: ASCII letters, digits and
/// `-_.~/` stay, every other byte of the UTF-8 text becomes `%XY`.
pub fn codificar(s: &str) -> (r: String)
    ensures
        r@ == codificado(encode_utf8(s@)),
{
    let b = s.as_bytes();
    let mut out: Vec<char> = Vec::new();
    let mut i: usize = 0;
    assert(b@.take(0) =~= Seq::<u8>::empty());
    while i < b.len()
        invariant
            i <= b@.len(),
            b@ == encode_utf8(s@),
            out@ == codificado(b@.take(i as int)),
        decreases b@.len() - i,
    {
        let x = b[i];
        proof {
            assert(b@.take(i + 1) =~= b@.take(i as int).push(x));
            lema_codificado_push(b@.take(i as int), x);
        }
        if (0x41 <= x && x <= 0x5a) || (0x61 <= x && x <= 0x7a) || (0x30 <= x && x <= 0x39)
            || x == 0x2d || x == 0x5f || x == 0x2e || x == 0x7e || x == 0x2f {
            out.push(x as char);
            assert(out@ =~= codificado(b@.take(i as int)) + pieza(x));
        } else {
            out.push('%');
            out.push(cifra(x / 16));
            out.push(cifra(x % 16));
            assert(out@ =~= codificado(b@.take(i as int)) + pieza(x));
        }
        i = i + 1;
    }
    assert(b@.take(b@.len() as int) =~= b@);
    cadena(&out)
}

/// An ASCII hexadecimal digit, either case.
pub open spec fn es_hex(b: u8) -> bool {
    (0x30 <= b <= 0x39) || (0x41 <= b <= 0x46) || (0x61 <= b <= 0x66)
}

pub open spec fn valor_hex(b: u8) -> int {
    if b <= 0x39 {
        b - 0x30
    } else if b <= 0x46 {
        b - 0x41 + 10
    } else {
        b - 0x61 + 10
    }
}

/// `u8::from_str_radix(.., 16)` on two bytes: two hex digits, or a `+` and one.
pub open spec fn par_hex(a: u8, b: u8) -> Option<u8> {
    if es_hex(a) && es_hex(b) {
        Some((valor_hex(a) * 16 + valor_hex(b)) as u8)
    } else if a == 0x2b && es_hex(b) {
        Some(valor_hex(b) as u8)
    } else {
        None
    }
}

/// Percent-decoding of the bytes from `i`: `%XY` with a valid pair becomes that
/// byte; anything else (a `+` too) stays as it is.
pub open spec fn desescapado_desde(b: Seq<u8>, i: int) -> Seq<u8>
    decreases b.len() - i,
{
    if i < 0 || i >= b.len() {
        Seq::empty()
    } else if b[i] == 0x25 && i + 2 < b.len() && par_hex(b[i + 1], b[i + 2]) is Some {
        seq![par_hex(b[i + 1], b[i + 2])->0] + desescapado_desde(b, i + 3)
    } else {
        seq![b[i]] + desescapado_desde(b, i + 1)
    }
}

/// The text that `String::from_utf8_lossy` makes of bytes that are not valid
/// UTF-8 (each invalid sequence replaced by U+FFFD).
pub uninterp spec fn texto_de_utf8(b: Seq<u8>) -> Seq<char>;

/// `String::from_utf8_lossy`: valid UTF-8 is the text it encodes.
pub open spec fn texto_utf8(b: Seq<u8>) -> Seq<char> {
    if valid_utf8(b) {
        decode_utf8(b)
    } else {
        texto_de_utf8(b)
    }
}

/// Calls `String::from_utf8_lossy`. Its documentation says that valid UTF-8
/// comes back as the text it encodes; what it makes of other bytes is named
/// `texto_de_utf8`.
#[verifier::external_body]
pub(crate) fn texto_de_bytes(b: &[u8]) -> (s: String)
    ensures
        valid_utf8(b@) ==> s@ == decode_utf8(b@),
        !valid_utf8(b@) ==> s@ == texto_de_utf8(b@),
{
    String::from_utf8_lossy(b).into_owned()
}

/// What `desescapar` gives for a text.
pub open spec fn desescapado(s: Seq<char>) -> Seq<char> {
    texto_utf8(desescapado_desde(encode_utf8(s), 0))
}

/// No `%` three bytes before the middle of a character: the two bytes after a
/// `%` are read as a `&str`, which must end at a character boundary.
pub open spec fn sin_corte(b: Seq<u8>) -> bool {
    forall|i: int|
        0 <= i && i + 3 < b.len() && #[trigger] b[i] == 0x25 ==> !is_continuation_byte(b[i + 3])
}

fn hex(b: u8) -> (r: Option<u8>)
    ensures
        r == (if es_hex(b) { Some(valor_hex(b) as u8) } else { None::<u8> }),
{
    if 0x30 <= b && b <= 0x39 {
        Some(b - 0x30)
    } else if 0x41 <= b && b <= 0x46 {
        Some(b - 0x41 + 10)
    } else if 0x61 <= b && b <= 0x66 {
        Some(b - 0x61 + 10)
    } else {
        None
    }
}

fn leer_par(a: u8, b: u8) -> (r: Option<u8>)
    ensures
        r == par_hex(a, b),
{
    match (hex(a), hex(b)) {
        (Some(x), Some(y)) => Some(x * 16 + y),
        (None, Some(y)) => {
            if a == 0x2b {
                Some(y)
            } else {
                None
            }
        },
        _ => None,
    }
}

/// `%20` becomes a space: the least for a path with spaces to arrive whole.
///
/// A `+` is left alone: a Windows path may hold a real `+`, and `codificar`
/// writes spaces as `%20`.
pub fn desescapar(s: &str) -> (r: String)
    requires
        sin_corte(encode_utf8(s@)),
    ensures
        r@ == desescapado(s@),
{
    let b = s.as_bytes();
    let mut out: Vec<u8> = Vec::new();
    let mut i: usize = 0;
    while i < b.len()
        invariant
            i <= b@.len(),
            b@ == encode_utf8(s@),
            out@ + desescapado_desde(b@, i as int) == desescapado_desde(b@, 0),
        decreases b@.len() - i,
    {
        let ghost antes = out@;
        if b[i] == 0x25 && b.len() - i > 2 {
            match leer_par(b[i + 1], b[i + 2]) {
                Some(x) => {
                    out.push(x);
                    assert(out@ + desescapado_desde(b@, i + 3) =~= antes + desescapado_desde(b@, i as int));
                    i = i + 3;
                },
                None => {
                    out.push(b[i]);
                    assert(out@ + desescapado_desde(b@, i + 1) =~= antes + desescapado_desde(b@, i as int));
                    i = i + 1;
                },
            }
        } else {
            out.push(b[i]);
            assert(out@ + desescapado_desde(b@, i + 1) =~= antes + desescapado_desde(b@, i as int));
            i = i + 1;
        }
    }
    assert(out@ =~= desescapado_desde(b@, 0));
    texto_de_bytes(out.as_slice())
}

// ---------------------------------------------------------------------------
// Building the URL
// ---------------------------------------------------------------------------

/// The URL for a route, with `frente=1` when the app must come to the front.
pub open spec fn armado(ruta: Seq<char>, frente: bool) -> Seq<char> {
    if !frente {
        "xtal://"@ + ruta
    } else if ruta.len() == 0 {
        "xtal://?frente=1"@
    } else if ruta.contains('?') {
        "xtal://"@ + ruta + "&"@ + "frente=1"@
    } else {
        "xtal://"@ + ruta + "?"@ + "frente=1"@
    }
}

/// Builds the URL, adding `frente=1` when asked.
pub fn armar(ruta: &str, frente: bool) -> (r: String)
    ensures
        r@ == armado(ruta@, frente),
{
    let r = caracteres(ruta);
    let mut out = caracteres("xtal://");
    if !frente {
        agregar(&mut out, &r);
        return cadena(&out);
    }
    if r.len() == 0 {
        return "xtal://?frente=1".to_owned();
    }
    agregar(&mut out, &r);
    if contiene_char(&r, '?') {
        agregar(&mut out, &caracteres("&"));
    } else {
        agregar(&mut out, &caracteres("?"));
    }
    agregar(&mut out, &caracteres("frente=1"));
    cadena(&out)
}

// ---------------------------------------------------------------------------
// Reading the URL
// ---------------------------------------------------------------------------

/// The value of the last `clave=valor` pair with that key (a later pair
/// overrides an earlier one), still encoded.
pub open spec fn ultimo(pares: Seq<Seq<char>>, clave: Seq<char>) -> Option<Seq<char>>
    decreases pares.len(),
{
    if pares.len() == 0 {
        None
    } else if antes_de(pares.last(), '=') == clave {
        Some(despues_de(pares.last(), '='))
    } else {
        ultimo(pares.drop_last(), clave)
    }
}

/// What follows `xtal://`.
pub open spec fn tras_esquema(url: Seq<char>) -> Seq<char> {
    url.subrange("xtal://"@.len() as int, url.len() as int)
}

/// The `clave=valor` pairs of the query, empty ones left out.
pub open spec fn pares_de(url: Seq<char>) -> Seq<Seq<char>> {
    sin_vacios(trozos(despues_de(tras_esquema(url), '?'), '&'))
}

/// The segments of the path, empty ones left out.
pub open spec fn segmentos_de(url: Seq<char>) -> Seq<Seq<char>> {
    sin_vacios(trozos(antes_de(tras_esquema(url), '?'), '/'))
}

/// The order an URL gives: `None` where it is not of the `xtal://` scheme;
/// `frente` for the bare `xtal://`; else the first segment, the second if
/// there is one, the decoded `carpeta` and whether `ver` is `1`.
pub open spec fn orden_de(url: Seq<char>) -> Option<OrdenV> {
    if !empieza_con(url, "xtal://"@) {
        None
    } else if segmentos_de(url).len() == 0 {
        Some(OrdenV { que: "frente"@, valor: None, carpeta: None, ver: None })
    } else {
        let ps = pares_de(url);
        let seg = segmentos_de(url);
        Some(
            OrdenV {
                que: seg[0],
                valor: if seg.len() > 1 { Some(seg[1]) } else { None },
                carpeta: match ultimo(ps, "carpeta"@) {
                    Some(v) => Some(desescapado(v)),
                    None => None,
                },
                ver: match ultimo(ps, "ver"@) {
                    Some(v) => Some(desescapado(v) == "1"@),
                    None => None,
                },
            },
        )
    }
}

/// Every parameter value can be decoded (see `sin_corte`).
pub open spec fn legible(url: Seq<char>) -> bool {
    empieza_con(url, "xtal://"@) ==> forall|k: int|
        0 <= k < pares_de(url).len() ==> sin_corte(
            encode_utf8(despues_de(#[trigger] pares_de(url)[k], '=')),
        )
}

fn ultimo_valor(ps: &Vec<Vec<char>>, clave: &[char]) -> (r: Option<Vec<char>>)
    ensures
        opt_chars(r) == ultimo(vistas(ps@), clave@),
        r is Some ==> exists|k: int|
            0 <= k < ps@.len() && r->0@ == despues_de(#[trigger] vistas(ps@)[k], '='),
{
    let ghost todos = vistas(ps@);
    let mut r: Option<Vec<char>> = None;
    let mut k: usize = 0;
    assert(todos.take(0) =~= Seq::<Seq<char>>::empty());
    while k < ps.len()
        invariant
            k <= ps@.len(),
            todos == vistas(ps@),
            opt_chars(r) == ultimo(todos.take(k as int), clave@),
            r is Some ==> exists|j: int|
                0 <= j < ps@.len() && r->0@ == despues_de(#[trigger] todos[j], '='),
        decreases ps@.len() - k,
    {
        assert(todos.take(k + 1).drop_last() =~= todos.take(k as int));
        assert(todos[k as int] == ps@[k as int]@);
        let (a, v) = partir_una_vez(&ps[k], '=');
        if iguales(&a, clave) {
            r = Some(v);
        }
        k = k + 1;
    }
    assert(todos.take(todos.len() as int) =~= todos);
    r
}

/// Parses an `xtal://` URL into an order; `None` for any other scheme.
///
/// `xtal://` alone brings the app to the front (`frente`); otherwise the first
/// segment of the path is the order, the second its value, and the `carpeta`
/// and `ver` parameters are percent-decoded.
pub fn parsear(url: &str) -> (r: Option<Orden>)
    requires
        legible(url@),
    ensures
        opt_orden(r) == orden_de(url@),
{
    let u = caracteres(url);
    let pre = caracteres("xtal://");
    if !aparece(&u, 0, &pre) {
        return None;
    }
    let resto = tramo(&u, pre.len(), u.len());
    let (camino, query) = partir_una_vez(&resto, '?');
    let pares = quitar_vacios(&partir_en(&query, '&'));
    let segs = quitar_vacios(&partir_en(&camino, '/'));
    assert(vistas(pares@) == pares_de(url@));
    assert(vistas(segs@) == segmentos_de(url@));
    if segs.len() == 0 {
        return Some(
            Orden { que: "frente".to_owned(), valor: None, carpeta: None, ver: None },
        );
    }
    let que = cadena(&segs[0]);
    let valor = if segs.len() > 1 {
        Some(cadena(&segs[1]))
    } else {
        None
    };
    let carpeta = match ultimo_valor(&pares, &caracteres("carpeta")) {
        Some(v) => {
            let t = cadena(&v);
            Some(desescapar(t.as_str()))
        },
        None => None,
    };
    let ver = match ultimo_valor(&pares, &caracteres("ver")) {
        Some(v) => {
            let t = cadena(&v);
            let d = desescapar(t.as_str());
            Some(iguales(&caracteres(d.as_str()), &caracteres("1")))
        },
        None => None,
    };
    Some(Orden { que, valor, carpeta, ver })
}


// ---------------------------------------------------------------------------
// What one side writes, the other reads
// ---------------------------------------------------------------------------

/// The bytes of ASCII characters.
pub open spec fn bytes_ascii(c: Seq<char>) -> Seq<u8> {
    Seq::new(c.len(), |i: int| c[i] as u8)
}

proof fn lema_pieza_ascii(b: u8)
    ensures
        is_ascii_chars(pieza(b)),
        !libre(b) ==> pieza(b).len() == 3 && pieza(b)[0] == '%' && (pieza(b)[1] as u8) == cifra_hex(
            (b / 16) as int,
        ) as u8 && (pieza(b)[2] as u8) == cifra_hex((b % 16) as int) as u8,
        libre(b) ==> pieza(b).len() == 1 && (pieza(b)[0] as u8) == b,
{
    let p = pieza(b);
    if libre(b) {
        assert((b as char) as u32 == b as u32);
        assert(((b as char) as u8) == b);
    } else {
        let h = (b / 16) as int;
        let l = (b % 16) as int;
        assert(0 <= h < 16 && 0 <= l < 16);
        assert(cifra_hex(h) as u32 == if h < 10 { 0x30 + h } else { 0x41 + h - 10 });
        assert(cifra_hex(l) as u32 == if l < 10 { 0x30 + l } else { 0x41 + l - 10 });
    }
    assert forall|i: int| 0 <= i < p.len() implies '\0' <= #[trigger] p[i] <= '\u{7f}' by {}
}

proof fn lema_codificado_ascii(b: Seq<u8>)
    ensures
        is_ascii_chars(codificado(b)),
    decreases b.len(),
{
    if b.len() > 0 {
        lema_codificado_ascii(b.drop_first());
        lema_pieza_ascii(b[0]);
        let p = pieza(b[0]);
        let r = codificado(b.drop_first());
        assert forall|i: int| 0 <= i < codificado(b).len() implies '\0' <= #[trigger] codificado(b)[i] <= '\u{7f}' by {
            if i < p.len() {
                assert(codificado(b)[i] == p[i]);
            } else {
                assert(codificado(b)[i] == r[i - p.len()]);
            }
        }
    }
}

proof fn lema_pieza_sin_espacio(b: u8)
    ensures
        forall|i: int| 0 <= i < pieza(b).len() ==> #[trigger] pieza(b)[i] != ' ',
{
    let p = pieza(b);
    if libre(b) {
        assert((b as char) as u32 == b as u32);
    } else {
        let h = (b / 16) as int;
        let l = (b % 16) as int;
        assert(0 <= h < 16 && 0 <= l < 16);
        assert(cifra_hex(h) as u32 == if h < 10 { 0x30 + h } else { 0x41 + h - 10 });
        assert(cifra_hex(l) as u32 == if l < 10 { 0x30 + l } else { 0x41 + l - 10 });
    }
}

proof fn lema_codificado_sin_espacio(b: Seq<u8>)
    ensures
        forall|i: int| 0 <= i < codificado(b).len() ==> #[trigger] codificado(b)[i] != ' ',
    decreases b.len(),
{
    if b.len() > 0 {
        lema_codificado_sin_espacio(b.drop_first());
        lema_pieza_sin_espacio(b[0]);
        let p = pieza(b[0]);
        let r = codificado(b.drop_first());
        assert forall|i: int| 0 <= i < codificado(b).len() implies #[trigger] codificado(b)[i] != ' ' by {
            if i < p.len() {
                assert(codificado(b)[i] == p[i]);
            } else {
                assert(codificado(b)[i] == r[i - p.len()]);
            }
        }
    }
}

proof fn lema_desplazar(p: Seq<u8>, q: Seq<u8>, j: int)
    requires
        0 <= j <= q.len(),
    ensures
        desescapado_desde(p + q, p.len() + j) == desescapado_desde(q, j),
    decreases q.len() - j,
{
    let x = p + q;
    let i = p.len() + j;
    if j < q.len() {
        assert(x[i] == q[j]);
        if j + 2 < q.len() {
            assert(x[i + 1] == q[j + 1]);
            assert(x[i + 2] == q[j + 2]);
        }
        if q[j] == 0x25 && j + 2 < q.len() && par_hex(q[j + 1], q[j + 2]) is Some {
            lema_desplazar(p, q, j + 3);
        } else {
            lema_desplazar(p, q, j + 1);
        }
    }
}

proof fn lema_cifras(b: u8)
    ensures
        par_hex(cifra_hex((b / 16) as int) as u8, cifra_hex((b % 16) as int) as u8) == Some(b),
{
    let h = (b / 16) as int;
    let l = (b % 16) as int;
    assert(cifra_hex(h) as u32 == if h < 10 { 0x30 + h } else { 0x41 + h - 10 });
    assert(cifra_hex(l) as u32 == if l < 10 { 0x30 + l } else { 0x41 + l - 10 });
    assert(valor_hex(cifra_hex(h) as u8) == h);
    assert(valor_hex(cifra_hex(l) as u8) == l);
    assert(h * 16 + l == b);
}

proof fn lema_ida_vuelta(b: Seq<u8>)
    ensures
        desescapado_desde(bytes_ascii(codificado(b)), 0) == b,
    decreases b.len(),
{
    if b.len() == 0 {
        assert(bytes_ascii(codificado(b)) =~= Seq::<u8>::empty());
        assert(b =~= Seq::<u8>::empty());
    } else {
        let r = b.drop_first();
        lema_ida_vuelta(r);
        lema_pieza_ascii(b[0]);
        let p = bytes_ascii(pieza(b[0]));
        let q = bytes_ascii(codificado(r));
        let x = bytes_ascii(codificado(b));
        assert(x =~= p + q);
        lema_desplazar(p, q, 0);
        if libre(b[0]) {
            assert(x[0] == b[0]);
            assert(b[0] != 0x25);
            assert(desescapado_desde(x, 0) == seq![b[0]] + desescapado_desde(x, 1));
        } else {
            lema_cifras(b[0]);
            assert(x[0] == 0x25);
            assert(x[1] == cifra_hex((b[0] / 16) as int) as u8);
            assert(x[2] == cifra_hex((b[0] % 16) as int) as u8);
            assert(desescapado_desde(x, 0) == seq![b[0]] + desescapado_desde(x, 3));
        }
        assert(b =~= seq![b[0]] + r);
    }
}

/// What `codificar` writes, `desescapar` reads back whole: the encoding of any
/// text is ASCII without spaces (it travels in a URL as it is), it can be
/// decoded, and decoding it gives the text again.
pub proof fn desescapar_deshace_codificar(s: Seq<char>)
    ensures
        is_ascii_chars(codificado(encode_utf8(s))),
        !codificado(encode_utf8(s)).contains(' '),
        sin_corte(encode_utf8(codificado(encode_utf8(s)))),
        desescapado(codificado(encode_utf8(s))) == s,
{
    lema_codificado_sin_espacio(encode_utf8(s));
    broadcast use vstd::utf8::group_utf8_lib;

    let b = encode_utf8(s);
    let c = codificado(b);
    lema_codificado_ascii(b);
    vstd::utf8::is_ascii_chars_encode_utf8(c);
    assert(encode_utf8(c) =~= bytes_ascii(c));
    lema_ida_vuelta(b);
    assert forall|i: int|
        0 <= i && i + 3 < encode_utf8(c).len() && #[trigger] encode_utf8(c)[i] == 0x25 implies
        !is_continuation_byte(encode_utf8(c)[i + 3]) by {
        assert(c[i + 3] <= '\u{7f}');
    }
}


// ---------------------------------------------------------------------------
// What `xtal app` sends
// ---------------------------------------------------------------------------

/// The route of the URL and what the order does, in words, for each order of
/// `xtal app`; `carpeta` is the folder to open (already resolved) for
/// `abrir`. Asking a panel to be both on and off is an error.
pub open spec fn ruta_spec(cmd: Option<AppCmd>, carpeta: Seq<char>) -> Result<(Seq<char>, Seq<char>), Seq<char>> {
    match cmd {
        None => Ok((""@, "traer la app al frente"@)),
        Some(AppCmd::Frente) => Ok((""@, "traer la app al frente"@)),
        Some(AppCmd::Abrir(_)) => Ok(
            ("abrir?carpeta="@ + codificado(encode_utf8(carpeta)), "abrir "@ + carpeta),
        ),
        Some(AppCmd::Compilar) => Ok(("compilar"@, "guardar y compilar"@)),
        Some(AppCmd::Modo(a)) => Ok(("modo/"@ + a.modo.nombre_de(), "modo "@ + a.modo.nombre_de())),
        Some(AppCmd::Ver(a)) => Ok(("ver/"@ + a.que.nombre_de(), "mostrar "@ + a.que.nombre_de())),
        Some(AppCmd::Panel(a)) => {
            let p = a.cual.nombre_de();
            if a.on && a.off {
                Err("--on y --off no van juntos"@)
            } else if a.on {
                Ok(("panel/"@ + p + "?ver=1"@, "panel "@ + p + " = 1"@))
            } else if a.off {
                Ok(("panel/"@ + p + "?ver=0"@, "panel "@ + p + " = 0"@))
            } else {
                Ok(("panel/"@ + p, "panel "@ + p + " (alternar)"@))
            }
        },
        Some(AppCmd::Terminal) => Ok(("terminal/nueva"@, "abrir otra terminal"@)),
    }
}

fn junto(a: &str, b: &str) -> (r: String)
    ensures
        r@ == a@ + b@,
{
    let mut t = caracteres(a);
    agregar(&mut t, &caracteres(b));
    cadena(&t)
}

fn junto3(a: &str, b: &str, c: &str) -> (r: String)
    ensures
        r@ == a@ + b@ + c@,
{
    let mut t = caracteres(a);
    agregar(&mut t, &caracteres(b));
    agregar(&mut t, &caracteres(c));
    cadena(&t)
}

/// The route of the URL for an order of `xtal app` and what it does, in
/// words; `carpeta` is the folder to open, already resolved, for `abrir`.
pub fn ruta_de(cmd: &Option<AppCmd>, carpeta: &str) -> (r: Result<(String, String), String>)
    ensures
        match (r, ruta_spec(*cmd, carpeta@)) {
            (Ok((a, b)), Ok((x, y))) => a@ == x && b@ == y,
            (Err(e), Err(m)) => e@ == m,
            _ => false,
        },
{
    match cmd {
        None => Ok(("".to_owned(), "traer la app al frente".to_owned())),
        Some(AppCmd::Frente) => Ok(("".to_owned(), "traer la app al frente".to_owned())),
        Some(AppCmd::Abrir(_)) => {
            let c = codificar(carpeta);
            Ok((junto("abrir?carpeta=", c.as_str()), junto("abrir ", carpeta)))
        },
        Some(AppCmd::Compilar) => Ok(("compilar".to_owned(), "guardar y compilar".to_owned())),
        Some(AppCmd::Modo(a)) => Ok((junto("modo/", a.modo.nombre()), junto("modo ", a.modo.nombre()))),
        Some(AppCmd::Ver(a)) => Ok((junto("ver/", a.que.nombre()), junto("mostrar ", a.que.nombre()))),
        Some(AppCmd::Panel(a)) => {
            let p = a.cual.nombre();
            if a.on && a.off {
                Err("--on y --off no van juntos".to_owned())
            } else if a.on {
                Ok((junto3("panel/", p, "?ver=1"), junto3("panel ", p, " = 1")))
            } else if a.off {
                Ok((junto3("panel/", p, "?ver=0"), junto3("panel ", p, " = 0")))
            } else {
                Ok((junto("panel/", p), junto3("panel ", p, " (alternar)")))
            }
        },
        Some(AppCmd::Terminal) => Ok(("terminal/nueva".to_owned(), "abrir otra terminal".to_owned())),
    }
}

/// Whether the order brings the app to the front: when asked, and always for
/// the bare `xtal app` and `xtal app frente`.
pub fn lleva_frente(args: &AppArgs) -> (r: bool)
    ensures
        r == (args.frente || args.command is None || args.command matches Some(AppCmd::Frente)),
{
    args.frente || match &args.command {
        None => true,
        Some(AppCmd::Frente) => true,
        _ => false,
    }
}

// ---------------------------------------------------------------------------
// What `xtal app` sends, the app understands
// ---------------------------------------------------------------------------

proof fn lema_hasta_es(t: Seq<char>, i: int, c: char, k: int)
    requires
        0 <= i <= k <= t.len(),
        forall|m: int| i <= m < k ==> t[m] != c,
        k == t.len() || t[k] == c,
    ensures
        hasta(t, i, c) == k,
{
    lema_hasta(t, i, c);
    let h = hasta(t, i, c);
    if h < k {
        assert(t[h] != c);
    }
    if h > k {
        assert(t[k] != c);
    }
}

/// A text without `c` is one piece.
proof fn lema_un_trozo(a: Seq<char>, c: char)
    requires
        !a.contains(c),
    ensures
        trozos(a, c) == seq![a],
        antes_de(a, c) == a,
        despues_de(a, c) == Seq::<char>::empty(),
{
    assert forall|m: int| 0 <= m < a.len() implies a[m] != c by {
        if a[m] == c {
            assert(a.contains(c));
        }
    }
    lema_hasta_es(a, 0, c, a.len() as int);
    assert(a.subrange(0, a.len() as int) =~= a);
    assert(trozos(a, c) =~= seq![a]);
}

/// Two texts without `c`, joined by one, are two pieces.
proof fn lema_dos_trozos(a: Seq<char>, b: Seq<char>, c: char)
    requires
        !a.contains(c),
        !b.contains(c),
    ensures
        trozos(a + seq![c] + b, c) == seq![a, b],
        antes_de(a + seq![c] + b, c) == a,
        despues_de(a + seq![c] + b, c) == b,
{
    let t = a + seq![c] + b;
    assert forall|m: int| 0 <= m < a.len() implies t[m] != c by {
        assert(t[m] == a[m]);
        if a[m] == c {
            assert(a.contains(c));
        }
    }
    lema_hasta_es(t, 0, c, a.len() as int);
    assert forall|m: int| a.len() + 1 <= m < t.len() implies t[m] != c by {
        assert(t[m] == b[m - a.len() - 1]);
        if b[m - a.len() - 1] == c {
            assert(b.contains(c));
        }
    }
    lema_hasta_es(t, (a.len() + 1) as int, c, t.len() as int);
    assert(t.subrange(0, a.len() as int) =~= a);
    assert(t.subrange((a.len() + 1) as int, t.len() as int) =~= b);
    assert(trozos_desde(t, (a.len() + 1) as int, c) =~= seq![b]);
    assert(trozos_desde(t, 0, c) =~= seq![a] + seq![b]);
    assert(trozos(t, c) =~= seq![a, b]);
}

proof fn lema_sin_vacios_uno(a: Seq<char>)
    ensures
        sin_vacios(seq![a]) == (if a.len() > 0 { seq![a] } else { Seq::<Seq<char>>::empty() }),
{
    assert(seq![a].drop_last() =~= Seq::<Seq<char>>::empty());
    assert(sin_vacios(Seq::<Seq<char>>::empty()) == Seq::<Seq<char>>::empty());
    if a.len() > 0 {
        assert(Seq::<Seq<char>>::empty().push(a) =~= seq![a]);
    }
}

proof fn lema_sin_vacios_dos(a: Seq<char>, b: Seq<char>)
    requires
        a.len() > 0,
        b.len() > 0,
    ensures
        sin_vacios(seq![a, b]) == seq![a, b],
{
    assert(seq![a, b].drop_last() =~= seq![a]);
    lema_sin_vacios_uno(a);
    assert(seq![a].push(b) =~= seq![a, b]);
}

/// `xtal://` starts the URL and what follows it is `t`.
proof fn lema_esquema(t: Seq<char>)
    ensures
        empieza_con("xtal://"@ + t, "xtal://"@),
        tras_esquema("xtal://"@ + t) == t,
{
    reveal_strlit("xtal://");
    assert(("xtal://"@ + t).subrange(0, 7) =~= "xtal://"@);
    assert(tras_esquema("xtal://"@ + t) =~= t);
}

/// The parameter that brings the app to the front.
proof fn lema_par_frente()
    ensures
        "frente=1"@ == "frente"@ + seq!['='] + "1"@,
        "frente=1"@.len() > 0,
        !"frente=1"@.contains('&'),
        !"frente=1"@.contains('?'),
        antes_de("frente=1"@, '=') == "frente"@,
        despues_de("frente=1"@, '=') == "1"@,
{
    reveal_strlit("frente=1");
    reveal_strlit("frente");
    reveal_strlit("1");
    assert("frente=1"@ =~= "frente"@ + seq!['='] + "1"@);
    assert(!"frente"@.contains('='));
    assert(!"1"@.contains('='));
    lema_dos_trozos("frente"@, "1"@, '=');
}

/// The URL of a route without parameters: its segments, and the parameter
/// `frente=1` where asked.
proof fn lema_url_sin_query(p: Seq<char>, frente: bool)
    requires
        !p.contains('?'),
    ensures
        empieza_con(armado(p, frente), "xtal://"@),
        segmentos_de(armado(p, frente)) == sin_vacios(trozos(p, '/')),
        pares_de(armado(p, frente)) == (if frente { seq!["frente=1"@] } else { Seq::<Seq<char>>::empty() }),
{
    reveal_strlit("?");
    reveal_strlit("xtal://?frente=1");
    reveal_strlit("xtal://");
    reveal_strlit("frente=1");
    lema_par_frente();
    let t = if frente { p + seq!['?'] + "frente=1"@ } else { p };
    if frente && p.len() == 0 {
        assert(t =~= seq!['?'] + "frente=1"@);
        assert("xtal://?frente=1"@.len() == 16 && "xtal://"@.len() == 7 && "frente=1"@.len() == 8);
        assert("xtal://?frente=1"@ =~= "xtal://"@ + (seq!['?'] + "frente=1"@));
    }
    assert(armado(p, frente) =~= "xtal://"@ + t);
    lema_esquema(t);
    if frente {
        lema_dos_trozos(p, "frente=1"@, '?');
        lema_un_trozo("frente=1"@, '&');
        lema_sin_vacios_uno("frente=1"@);
    } else {
        lema_un_trozo(p, '?');
        lema_un_trozo(Seq::<char>::empty(), '&');
        lema_sin_vacios_uno(Seq::<char>::empty());
    }
}

proof fn lema_sin_char_concat(a: Seq<char>, b: Seq<char>, d: char, c: char)
    requires
        !a.contains(c),
        !b.contains(c),
        d != c,
    ensures
        !(a + seq![d] + b).contains(c),
{
    let t = a + seq![d] + b;
    assert forall|i: int| 0 <= i < t.len() implies t[i] != c by {
        if i < a.len() {
            assert(t[i] == a[i]);
            if a[i] == c {
                assert(a.contains(c));
            }
        } else if i > a.len() {
            assert(t[i] == b[i - a.len() - 1]);
            if b[i - a.len() - 1] == c {
                assert(b.contains(c));
            }
        }
    }
}

/// The URL of a route with the parameter `k`: its segments, and its
/// parameters, `frente=1` after `k` where asked.
proof fn lema_url_con_query(p: Seq<char>, k: Seq<char>, frente: bool)
    requires
        !p.contains('?'),
        !k.contains('?'),
        !k.contains('&'),
        k.len() > 0,
    ensures
        empieza_con(armado(p + seq!['?'] + k, frente), "xtal://"@),
        segmentos_de(armado(p + seq!['?'] + k, frente)) == sin_vacios(trozos(p, '/')),
        pares_de(armado(p + seq!['?'] + k, frente)) == (if frente { seq![k, "frente=1"@] } else { seq![k] }),
{
    let ruta = p + seq!['?'] + k;
    assert(ruta[p.len() as int] == '?');
    assert(ruta.contains('?'));
    if frente {
        lema_url_con_query_y_frente(p, k);
    } else {
        assert(armado(ruta, frente) == "xtal://"@ + ruta);
        lema_esquema(ruta);
        lema_dos_trozos(p, k, '?');
        lema_un_trozo(k, '&');
        lema_sin_vacios_uno(k);
    }
}

proof fn lema_url_con_query_y_frente(p: Seq<char>, k: Seq<char>)
    requires
        !p.contains('?'),
        !k.contains('?'),
        !k.contains('&'),
        k.len() > 0,
        (p + seq!['?'] + k).contains('?'),
    ensures
        empieza_con(armado(p + seq!['?'] + k, true), "xtal://"@),
        segmentos_de(armado(p + seq!['?'] + k, true)) == sin_vacios(trozos(p, '/')),
        pares_de(armado(p + seq!['?'] + k, true)) == seq![k, "frente=1"@],
{
    reveal_strlit("&");
    lema_par_frente();
    let ruta = p + seq!['?'] + k;
    let q = k + seq!['&'] + "frente=1"@;
    lema_sin_char_concat(k, "frente=1"@, '&', '?');
    assert(armado(ruta, true) == "xtal://"@ + ruta + "&"@ + "frente=1"@);
    assert(armado(ruta, true) =~= "xtal://"@ + (p + seq!['?'] + q));
    lema_esquema(p + seq!['?'] + q);
    lema_dos_trozos(p, q, '?');
    lema_dos_trozos(k, "frente=1"@, '&');
    lema_sin_vacios_dos(k, "frente=1"@);
}

/// A path of one piece.
proof fn lema_un_camino(a: Seq<char>)
    requires
        a.len() > 0,
        !a.contains('/'),
    ensures
        sin_vacios(trozos(a, '/')) == seq![a],
{
    lema_un_trozo(a, '/');
    lema_sin_vacios_uno(a);
}

/// A path of two pieces.
proof fn lema_camino(a: Seq<char>, b: Seq<char>)
    requires
        a.len() > 0,
        b.len() > 0,
        !a.contains('/'),
        !b.contains('/'),
    ensures
        sin_vacios(trozos(a + seq!['/'] + b, '/')) == seq![a, b],
{
    lema_dos_trozos(a, b, '/');
    lema_sin_vacios_dos(a, b);
}

/// What the app reads of a parameter `1` or `0`.
proof fn lema_uno_y_cero()
    ensures
        desescapado("1"@) == "1"@,
        desescapado("0"@) == "0"@,
        sin_corte(encode_utf8("1"@)),
        sin_corte(encode_utf8("0"@)),
        "0"@ != "1"@,
{
    reveal_strlit("1");
    reveal_strlit("0");
    desescapar_deshace_codificar("1"@);
    desescapar_deshace_codificar("0"@);
    assert(is_ascii_chars("1"@));
    assert(is_ascii_chars("0"@));
    vstd::utf8::is_ascii_chars_encode_utf8("1"@);
    vstd::utf8::is_ascii_chars_encode_utf8("0"@);
    assert(encode_utf8("1"@) =~= seq![0x31u8]);
    assert(encode_utf8("0"@) =~= seq![0x30u8]);
    assert(seq![0x31u8].drop_first() =~= Seq::<u8>::empty());
    assert(seq![0x30u8].drop_first() =~= Seq::<u8>::empty());
    assert(codificado(Seq::<u8>::empty()) == Seq::<char>::empty());
    assert(libre(0x31u8) && libre(0x30u8));
    assert((0x31u8 as char) == '1' && (0x30u8 as char) == '0');
    assert(pieza(0x31u8) =~= seq!['1']);
    assert(pieza(0x30u8) =~= seq!['0']);
    assert(codificado(seq![0x31u8]) =~= "1"@);
    assert(codificado(seq![0x30u8]) =~= "0"@);
}

/// No `?`, `&` nor `=` in an encoded text: only letters, digits, `-_.~/`
/// and `%` with its two hex digits.
proof fn lema_codificado_limpio(b: Seq<u8>)
    ensures
        !codificado(b).contains('?'),
        !codificado(b).contains('&'),
        !codificado(b).contains('='),
    decreases b.len(),
{
    if b.len() > 0 {
        lema_codificado_limpio(b.drop_first());
        let p = pieza(b[0]);
        let r = codificado(b.drop_first());
        lema_cifras(b[0]);
        assert forall|i: int| 0 <= i < codificado(b).len() implies codificado(b)[i] != '?' && codificado(b)[i] != '&'
            && codificado(b)[i] != '=' by {
            if i < p.len() {
                assert(codificado(b)[i] == p[i]);
            } else {
                assert(codificado(b)[i] == r[i - p.len()]);
            }
        }
    }
}

/// The order the app gets for each order of `xtal app`: its name, its value,
/// the folder to open and whether to show the panel.
pub open spec fn orden_enviada(cmd: Option<AppCmd>, carpeta: Seq<char>) -> OrdenV {
    match cmd {
        None => OrdenV { que: "frente"@, valor: None, carpeta: None, ver: None },
        Some(AppCmd::Frente) => OrdenV { que: "frente"@, valor: None, carpeta: None, ver: None },
        Some(AppCmd::Abrir(_)) => OrdenV { que: "abrir"@, valor: None, carpeta: Some(carpeta), ver: None },
        Some(AppCmd::Compilar) => OrdenV { que: "compilar"@, valor: None, carpeta: None, ver: None },
        Some(AppCmd::Modo(a)) => OrdenV { que: "modo"@, valor: Some(a.modo.nombre_de()), carpeta: None, ver: None },
        Some(AppCmd::Ver(a)) => OrdenV { que: "ver"@, valor: Some(a.que.nombre_de()), carpeta: None, ver: None },
        Some(AppCmd::Panel(a)) => OrdenV {
            que: "panel"@,
            valor: Some(a.cual.nombre_de()),
            carpeta: None,
            ver: if a.on { Some(true) } else if a.off { Some(false) } else { None },
        },
        Some(AppCmd::Terminal) => OrdenV { que: "terminal"@, valor: Some("nueva"@), carpeta: None, ver: None },
    }
}

proof fn lema_claves()
    ensures
        "frente"@ != "carpeta"@,
        "frente"@ != "ver"@,
        "carpeta"@ != "ver"@,
{
    reveal_strlit("frente");
    reveal_strlit("carpeta");
    reveal_strlit("ver");
    assert("frente"@.len() == 6 && "carpeta"@.len() == 7 && "ver"@.len() == 3);
}

/// The last value of `clave` among the pairs, `frente=1` after them where asked.
proof fn lema_ultimo(ps: Seq<Seq<char>>, frente: bool, clave: Seq<char>)
    requires
        clave != "frente"@,
    ensures
        ultimo(if frente { ps.push("frente=1"@) } else { ps }, clave) == ultimo(ps, clave),
{
    lema_par_frente();
    if frente {
        assert(ps.push("frente=1"@).drop_last() =~= ps);
    }
}

proof fn lema_legible(url: Seq<char>, valores: Seq<Seq<char>>)
    requires
        pares_de(url).len() == valores.len(),
        forall|k: int| 0 <= k < valores.len() ==> despues_de(#[trigger] pares_de(url)[k], '=') == valores[k],
        forall|k: int| 0 <= k < valores.len() ==> sin_corte(encode_utf8(#[trigger] valores[k])),
    ensures
        legible(url),
{
    assert forall|k: int| 0 <= k < pares_de(url).len() implies sin_corte(encode_utf8(despues_de(#[trigger] pares_de(url)[k], '='))) by {
        assert(despues_de(pares_de(url)[k], '=') == valores[k]);
    }
}

/// An order with a path and no parameters of its own.
proof fn lema_orden_sin_query(p: Seq<char>, frente: bool)
    requires
        !p.contains('?'),
    ensures
        orden_de(armado(p, frente)) == (if sin_vacios(trozos(p, '/')).len() == 0 {
            Some(OrdenV { que: "frente"@, valor: None, carpeta: None, ver: None })
        } else {
            let seg = sin_vacios(trozos(p, '/'));
            Some(OrdenV { que: seg[0], valor: if seg.len() > 1 { Some(seg[1]) } else { None }, carpeta: None, ver: None })
        }),
        legible(armado(p, frente)),
{
    let url = armado(p, frente);
    lema_url_sin_query(p, frente);
    lema_claves();
    lema_par_frente();
    lema_uno_y_cero();
    let vacio = Seq::<Seq<char>>::empty();
    lema_ultimo(vacio, frente, "carpeta"@);
    lema_ultimo(vacio, frente, "ver"@);
    assert(vacio.push("frente=1"@) =~= seq!["frente=1"@]);
    if frente {
        lema_legible(url, seq!["1"@]);
    } else {
        lema_legible(url, vacio);
    }
}

/// An order with a path and the parameter `clave=valor`.
proof fn lema_orden_con_query(p: Seq<char>, clave: Seq<char>, valor: Seq<char>, frente: bool)
    requires
        !p.contains('?'),
        !clave.contains('?') && !clave.contains('&') && !clave.contains('='),
        !valor.contains('?') && !valor.contains('&') && !valor.contains('='),
        clave.len() > 0,
        clave != "frente"@,
        sin_corte(encode_utf8(valor)),
        sin_vacios(trozos(p, '/')).len() > 0,
    ensures
        ({
            let url = armado(p + seq!['?'] + (clave + seq!['='] + valor), frente);
            let seg = sin_vacios(trozos(p, '/'));
            &&& segmentos_de(url) == seg
            &&& ultimo(pares_de(url), clave) == Some(valor)
            &&& forall|otra: Seq<char>| otra != clave && otra != "frente"@ ==> ultimo(pares_de(url), otra) == None::<Seq<char>>
            &&& empieza_con(url, "xtal://"@)
            &&& legible(url)
        }),
{
    let k = clave + seq!['='] + valor;
    let url = armado(p + seq!['?'] + k, frente);
    lema_sin_char_concat(clave, valor, '=', '?');
    lema_sin_char_concat(clave, valor, '=', '&');
    lema_url_con_query(p, k, frente);
    lema_dos_trozos(clave, valor, '=');
    lema_par_frente();
    lema_uno_y_cero();
    lema_ultimo(seq![k], frente, clave);
    assert(seq![k].drop_last() =~= Seq::<Seq<char>>::empty());
    assert(seq![k].push("frente=1"@) =~= seq![k, "frente=1"@]);
    assert forall|otra: Seq<char>| otra != clave && otra != "frente"@ implies ultimo(pares_de(url), otra) == None::<Seq<char>> by {
        lema_ultimo(seq![k], frente, otra);
        assert(seq![k].last() == k);
        assert(ultimo(seq![k], otra) == ultimo(Seq::<Seq<char>>::empty(), otra));
    }
    if frente {
        lema_legible(url, seq![valor, "1"@]);
    } else {
        lema_legible(url, seq![valor]);
    }
}

/// What the app reads of the URL of an order of `xtal app`.
pub open spec fn entiende(cmd: Option<AppCmd>, carpeta: Seq<char>, frente: bool) -> bool {
    match ruta_spec(cmd, carpeta) {
        Ok((ruta, _)) => {
            let url = armado(ruta, frente);
            &&& legible(url)
            &&& orden_de(url) == Some(orden_enviada(cmd, carpeta))
        },
        Err(_) => true,
    }
}

proof fn puerta_frente(cmd: Option<AppCmd>, carpeta: Seq<char>, frente: bool)
    requires
        cmd is None || cmd == Some(AppCmd::Frente),
    ensures
        entiende(cmd, carpeta, frente),
{
    reveal_strlit("");
    lema_un_trozo(""@, '/');
    lema_sin_vacios_uno(""@);
    lema_orden_sin_query(""@, frente);
}

proof fn puerta_compilar(carpeta: Seq<char>, frente: bool)
    ensures
        entiende(Some(AppCmd::Compilar), carpeta, frente),
{
    reveal_strlit("compilar");
    lema_un_camino("compilar"@);
    lema_orden_sin_query("compilar"@, frente);
}

proof fn puerta_terminal(carpeta: Seq<char>, frente: bool)
    ensures
        entiende(Some(AppCmd::Terminal), carpeta, frente),
{
    reveal_strlit("terminal/nueva");
    reveal_strlit("terminal");
    reveal_strlit("nueva");
    assert("terminal/nueva"@ =~= "terminal"@ + seq!['/'] + "nueva"@);
    lema_camino("terminal"@, "nueva"@);
    lema_orden_sin_query("terminal/nueva"@, frente);
}

proof fn puerta_modo(a: AppModoArgs, carpeta: Seq<char>, frente: bool)
    ensures
        entiende(Some(AppCmd::Modo(a)), carpeta, frente),
{
    reveal_strlit("modo/");
    reveal_strlit("modo");
    reveal_strlit("editor");
    reveal_strlit("agente");
    let n = a.modo.nombre_de();
    assert("modo/"@ + n =~= "modo"@ + seq!['/'] + n);
    lema_camino("modo"@, n);
    lema_orden_sin_query("modo"@ + seq!['/'] + n, frente);
}

proof fn puerta_ver(a: AppVerArgs, carpeta: Seq<char>, frente: bool)
    ensures
        entiende(Some(AppCmd::Ver(a)), carpeta, frente),
{
    reveal_strlit("ver/");
    reveal_strlit("ver");
    reveal_strlit("pdf");
    reveal_strlit("errores");
    let n = a.que.nombre_de();
    assert("ver/"@ + n =~= "ver"@ + seq!['/'] + n);
    lema_camino("ver"@, n);
    lema_orden_sin_query("ver"@ + seq!['/'] + n, frente);
}

proof fn puerta_panel(a: AppPanelArgs, carpeta: Seq<char>, frente: bool)
    ensures
        entiende(Some(AppCmd::Panel(a)), carpeta, frente),
{
    reveal_strlit("panel/");
    reveal_strlit("panel");
    reveal_strlit("pdf");
    reveal_strlit("archivos");
    reveal_strlit("terminal");
    reveal_strlit("informe");
    let n = a.cual.nombre_de();
    let cam = "panel"@ + seq!['/'] + n;
    assert("panel/"@ + n =~= cam);
    lema_camino("panel"@, n);
    lema_uno_y_cero();
    if a.on && a.off {
    } else if a.on {
        puerta_panel_con(cam, "?ver=1"@, "1"@, frente);
        assert("panel/"@ + n + "?ver=1"@ == cam + "?ver=1"@);
    } else if a.off {
        puerta_panel_con(cam, "?ver=0"@, "0"@, frente);
        assert("panel/"@ + n + "?ver=0"@ == cam + "?ver=0"@);
    } else {
        lema_orden_sin_query(cam, frente);
    }
}

proof fn puerta_panel_con(cam: Seq<char>, cola: Seq<char>, v: Seq<char>, frente: bool)
    requires
        !cam.contains('?'),
        sin_vacios(trozos(cam, '/')).len() > 0,
        (cola == "?ver=1"@ && v == "1"@) || (cola == "?ver=0"@ && v == "0"@),
    ensures
        ({
            let url = armado(cam + cola, frente);
            let seg = sin_vacios(trozos(cam, '/'));
            &&& legible(url)
            &&& orden_de(url) == Some(OrdenV {
                que: seg[0],
                valor: if seg.len() > 1 { Some(seg[1]) } else { None },
                carpeta: None,
                ver: Some(v == "1"@),
            })
        }),
{
    reveal_strlit("?ver=1");
    reveal_strlit("?ver=0");
    reveal_strlit("ver");
    reveal_strlit("1");
    reveal_strlit("0");
    lema_claves();
    lema_uno_y_cero();
    assert(cola =~= seq!['?'] + ("ver"@ + seq!['='] + v));
    assert(cam + cola =~= cam + seq!['?'] + ("ver"@ + seq!['='] + v));
    assert(!v.contains('?') && !v.contains('&') && !v.contains('='));
    assert(!"ver"@.contains('?') && !"ver"@.contains('&') && !"ver"@.contains('='));
    lema_orden_con_query(cam, "ver"@, v, frente);
}

proof fn puerta_abrir(a: AppAbrirArgs, carpeta: Seq<char>, frente: bool)
    ensures
        entiende(Some(AppCmd::Abrir(a)), carpeta, frente),
{
    reveal_strlit("abrir?carpeta=");
    reveal_strlit("abrir");
    reveal_strlit("carpeta");
    lema_claves();
    let e = codificado(encode_utf8(carpeta));
    assert("abrir?carpeta="@ + e =~= "abrir"@ + seq!['?'] + ("carpeta"@ + seq!['='] + e));
    assert(!"carpeta"@.contains('?') && !"carpeta"@.contains('&') && !"carpeta"@.contains('='));
    lema_codificado_limpio(encode_utf8(carpeta));
    desescapar_deshace_codificar(carpeta);
    lema_un_camino("abrir"@);
    lema_orden_con_query("abrir"@, "carpeta"@, e, frente);
}

/// What `xtal app` sends, the app understands: for each order that
/// `xtal app` turns into an URL, with or without `frente=1`, the app reads
/// that same order, and the folder to open arrives whole.
pub proof fn la_app_entiende_lo_que_manda_xtal_app(cmd: Option<AppCmd>, carpeta: Seq<char>, frente: bool)
    ensures
        entiende(cmd, carpeta, frente),
{
    match cmd {
        None => puerta_frente(cmd, carpeta, frente),
        Some(AppCmd::Frente) => puerta_frente(cmd, carpeta, frente),
        Some(AppCmd::Compilar) => puerta_compilar(carpeta, frente),
        Some(AppCmd::Terminal) => puerta_terminal(carpeta, frente),
        Some(AppCmd::Modo(a)) => puerta_modo(a, carpeta, frente),
        Some(AppCmd::Ver(a)) => puerta_ver(a, carpeta, frente),
        Some(AppCmd::Panel(a)) => puerta_panel(a, carpeta, frente),
        Some(AppCmd::Abrir(a)) => puerta_abrir(a, carpeta, frente),
    }
}

} // verus!
