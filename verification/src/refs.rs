//! The labels of a report, with what each one is.
//!
//! A `.tex` file is swept once, left to right. For every `\label{}` the sweep
//! knows in which environments it stands and what the closest `\caption{}` or
//! `\section{}` said, and from that it tells a figure from a table, an
//! equation or a section, with the caption or title as its text. It is a sweep
//! over the text and not a LaTeX parser: a `%` comments to the end of the line,
//! `\name[optional]{argument}` is read with nested braces, and nothing is
//! expanded.
use vstd::prelude::*;
use crate::texto::{
    aparece_en, contiene, contiene_texto, minusculas, minusculas_de, cadena, lex_antes, lex_menor, lema_lex_irreflexivo, lema_lex_total, lema_lex_transitivo,
    agregar, caracteres, colapsado, colapsar, cuenta, es_letra_ascii, iguales, letra_ascii, recortado,
    recortar, tramo, contar, lema_cuenta_cota, lema_cuenta_concat, es_blanco, lema_recortado_extremos,
};

verus! {

broadcast use vstd::string::group_string_axioms;

// ---------------------------------------------------------------------------
// The model
// ---------------------------------------------------------------------------

/// A label that `\ref{}` can cite.
#[derive(Debug, Clone, PartialEq)]
pub struct Referencia {
    /// What goes inside `\ref{}`.
    pub id: String,
    /// `figura`, `tabla`, `ecuacion`, `seccion`, `grafico` or `otro`.
    pub tipo: String,
    /// The caption or the title; empty when nothing tells.
    pub texto: String,
    /// Where it is defined, relative to the project root.
    pub archivo: String,
    /// Line, counting from 1.
    pub linea: usize,
}

/// What a label is, as values.
pub struct ReferenciaV {
    pub id: Seq<char>,
    pub tipo: Seq<char>,
    pub texto: Seq<char>,
    pub archivo: Seq<char>,
    pub linea: nat,
}

impl Referencia {
    pub open spec fn vista(&self) -> ReferenciaV {
        ReferenciaV {
            id: self.id@,
            tipo: self.tipo@,
            texto: self.texto@,
            archivo: self.archivo@,
            linea: self.linea as nat,
        }
    }

    /// The icon shown next to a label in a list.
    pub fn simbolo(&self) -> (s: &'static str)
        ensures
            s@ == simbolo_de_tipo(self.tipo@),
    {
        let t = caracteres(self.tipo.as_str());
        if iguales(&t, &caracteres("figura")) || iguales(&t, &caracteres("grafico")) {
            "\u{1f5bc}"
        } else if iguales(&t, &caracteres("tabla")) {
            "\u{25a6}"
        } else if iguales(&t, &caracteres("ecuacion")) {
            "\u{2211}"
        } else if iguales(&t, &caracteres("seccion")) {
            "\u{00a7}"
        } else {
            "\u{2022}"
        }
    }
}

/// The icon of each kind of label.
pub open spec fn simbolo_de_tipo(tipo: Seq<char>) -> Seq<char> {
    if tipo == "figura"@ || tipo == "grafico"@ {
        "\u{1f5bc}"@
    } else if tipo == "tabla"@ {
        "\u{25a6}"@
    } else if tipo == "ecuacion"@ {
        "\u{2211}"@
    } else if tipo == "seccion"@ {
        "\u{00a7}"@
    } else {
        "\u{2022}"@
    }
}

// ---------------------------------------------------------------------------
// Scanning helpers, as values
// ---------------------------------------------------------------------------

/// The first position at or after `i` that holds `c`, or the end.
pub open spec fn busca(t: Seq<char>, i: int, c: char) -> int
    decreases t.len() - i,
{
    if 0 <= i < t.len() && t[i] != c {
        busca(t, i + 1, c)
    } else {
        i
    }
}

/// The end of the run of ASCII letters that starts at `i`.
pub open spec fn fin_letras(t: Seq<char>, i: int) -> int
    decreases t.len() - i,
{
    if 0 <= i < t.len() && es_letra_ascii(t[i]) {
        fin_letras(t, i + 1)
    } else {
        i
    }
}

/// Where a brace group ends: scanning from `i` with `nivel` braces open, the
/// position just after the brace that closes them all. A backslash hides the
/// character after it.
pub open spec fn cierre_llave(t: Seq<char>, i: int, nivel: int) -> Option<int>
    decreases t.len() - i,
{
    if i < 0 || i >= t.len() {
        None
    } else if t[i] == '{' {
        cierre_llave(t, i + 1, nivel + 1)
    } else if t[i] == '}' {
        if nivel - 1 == 0 {
            Some(i + 1)
        } else {
            cierre_llave(t, i + 1, nivel - 1)
        }
    } else if t[i] == '\\' {
        if i + 1 >= t.len() {
            None
        } else {
            cierre_llave(t, i + 2, nivel)
        }
    } else {
        cierre_llave(t, i + 1, nivel)
    }
}

/// The brace argument that starts at `desde`: the position just after its
/// closing brace, or `None` when there is no `{` there or it never closes.
pub open spec fn argumento_en(t: Seq<char>, desde: int) -> Option<int> {
    if 0 <= desde < t.len() && t[desde] == '{' {
        cierre_llave(t, desde + 1, 1)
    } else {
        None
    }
}

/// Where an optional `[...]` argument ends, scanning from `i` with `nivel`
/// brackets open: just after the bracket that closes them, or the end.
pub open spec fn cierre_corchete(t: Seq<char>, i: int, nivel: int) -> int
    decreases t.len() - i,
{
    if i < 0 || i >= t.len() {
        i
    } else if t[i] == '[' {
        cierre_corchete(t, i + 1, nivel + 1)
    } else if t[i] == ']' {
        if nivel - 1 == 0 {
            i + 1
        } else {
            cierre_corchete(t, i + 1, nivel - 1)
        }
    } else {
        cierre_corchete(t, i + 1, nivel)
    }
}

// ---------------------------------------------------------------------------
// Captions made readable
// ---------------------------------------------------------------------------

/// How a command that is a symbol looks (`\omega` is `ω`, `\decibel` is `dB`).
/// `None` for the commands that wrap something or have no look of their own.
pub open spec fn simbolo(nombre: Seq<char>) -> Option<Seq<char>> {
    if nombre == "alpha"@ { Some("α"@) }
    else if nombre == "beta"@ { Some("β"@) }
    else if nombre == "gamma"@ { Some("γ"@) }
    else if nombre == "delta"@ { Some("δ"@) }
    else if nombre == "epsilon"@ { Some("ε"@) }
    else if nombre == "theta"@ { Some("θ"@) }
    else if nombre == "lambda"@ { Some("λ"@) }
    else if nombre == "mu"@ { Some("μ"@) }
    else if nombre == "pi"@ { Some("π"@) }
    else if nombre == "rho"@ { Some("ρ"@) }
    else if nombre == "sigma"@ { Some("σ"@) }
    else if nombre == "tau"@ { Some("τ"@) }
    else if nombre == "phi"@ { Some("φ"@) }
    else if nombre == "omega"@ { Some("ω"@) }
    else if nombre == "Delta"@ { Some("Δ"@) }
    else if nombre == "Omega"@ { Some("Ω"@) }
    else if nombre == "ohm"@ { Some("Ω"@) }
    else if nombre == "volt"@ { Some("V"@) }
    else if nombre == "ampere"@ { Some("A"@) }
    else if nombre == "watt"@ { Some("W"@) }
    else if nombre == "hertz"@ { Some("Hz"@) }
    else if nombre == "farad"@ { Some("F"@) }
    else if nombre == "henry"@ { Some("H"@) }
    else if nombre == "second"@ { Some("s"@) }
    else if nombre == "decibel"@ { Some("dB"@) }
    else if nombre == "degree"@ { Some("°"@) }
    else if nombre == "kilo"@ { Some("k"@) }
    else if nombre == "mega"@ { Some("M"@) }
    else if nombre == "giga"@ { Some("G"@) }
    else if nombre == "milli"@ { Some("m"@) }
    else if nombre == "micro"@ { Some("µ"@) }
    else if nombre == "nano"@ { Some("n"@) }
    else if nombre == "pico"@ { Some("p"@) }
    else if nombre == "pm"@ { Some("±"@) }
    else if nombre == "times"@ { Some("×"@) }
    else if nombre == "cdot"@ { Some("·"@) }
    else if nombre == "infty"@ { Some("∞"@) }
    else if nombre == "approx"@ { Some("≈"@) }
    else if nombre == "leq"@ { Some("≤"@) }
    else if nombre == "geq"@ { Some("≥"@) }
    else if nombre == "neq"@ { Some("≠"@) }
    else if nombre == "to"@ { Some("→"@) }
    else { None }
}

/// The look of a command, or `None`.
fn simbolo_exec(n: &[char]) -> (r: Option<Vec<char>>)
    ensures
        match r {
            Some(v) => simbolo(n@) == Some(v@),
            None => simbolo(n@) is None,
        },
{
    if iguales(n, &caracteres("alpha")) {
        return Some(caracteres("α"));
    }
    if iguales(n, &caracteres("beta")) {
        return Some(caracteres("β"));
    }
    if iguales(n, &caracteres("gamma")) {
        return Some(caracteres("γ"));
    }
    if iguales(n, &caracteres("delta")) {
        return Some(caracteres("δ"));
    }
    if iguales(n, &caracteres("epsilon")) {
        return Some(caracteres("ε"));
    }
    if iguales(n, &caracteres("theta")) {
        return Some(caracteres("θ"));
    }
    if iguales(n, &caracteres("lambda")) {
        return Some(caracteres("λ"));
    }
    if iguales(n, &caracteres("mu")) {
        return Some(caracteres("μ"));
    }
    if iguales(n, &caracteres("pi")) {
        return Some(caracteres("π"));
    }
    if iguales(n, &caracteres("rho")) {
        return Some(caracteres("ρ"));
    }
    if iguales(n, &caracteres("sigma")) {
        return Some(caracteres("σ"));
    }
    if iguales(n, &caracteres("tau")) {
        return Some(caracteres("τ"));
    }
    if iguales(n, &caracteres("phi")) {
        return Some(caracteres("φ"));
    }
    if iguales(n, &caracteres("omega")) {
        return Some(caracteres("ω"));
    }
    if iguales(n, &caracteres("Delta")) {
        return Some(caracteres("Δ"));
    }
    if iguales(n, &caracteres("Omega")) {
        return Some(caracteres("Ω"));
    }
    if iguales(n, &caracteres("ohm")) {
        return Some(caracteres("Ω"));
    }
    if iguales(n, &caracteres("volt")) {
        return Some(caracteres("V"));
    }
    if iguales(n, &caracteres("ampere")) {
        return Some(caracteres("A"));
    }
    if iguales(n, &caracteres("watt")) {
        return Some(caracteres("W"));
    }
    if iguales(n, &caracteres("hertz")) {
        return Some(caracteres("Hz"));
    }
    if iguales(n, &caracteres("farad")) {
        return Some(caracteres("F"));
    }
    if iguales(n, &caracteres("henry")) {
        return Some(caracteres("H"));
    }
    if iguales(n, &caracteres("second")) {
        return Some(caracteres("s"));
    }
    if iguales(n, &caracteres("decibel")) {
        return Some(caracteres("dB"));
    }
    if iguales(n, &caracteres("degree")) {
        return Some(caracteres("°"));
    }
    if iguales(n, &caracteres("kilo")) {
        return Some(caracteres("k"));
    }
    if iguales(n, &caracteres("mega")) {
        return Some(caracteres("M"));
    }
    if iguales(n, &caracteres("giga")) {
        return Some(caracteres("G"));
    }
    if iguales(n, &caracteres("milli")) {
        return Some(caracteres("m"));
    }
    if iguales(n, &caracteres("micro")) {
        return Some(caracteres("µ"));
    }
    if iguales(n, &caracteres("nano")) {
        return Some(caracteres("n"));
    }
    if iguales(n, &caracteres("pico")) {
        return Some(caracteres("p"));
    }
    if iguales(n, &caracteres("pm")) {
        return Some(caracteres("±"));
    }
    if iguales(n, &caracteres("times")) {
        return Some(caracteres("×"));
    }
    if iguales(n, &caracteres("cdot")) {
        return Some(caracteres("·"));
    }
    if iguales(n, &caracteres("infty")) {
        return Some(caracteres("∞"));
    }
    if iguales(n, &caracteres("approx")) {
        return Some(caracteres("≈"));
    }
    if iguales(n, &caracteres("leq")) {
        return Some(caracteres("≤"));
    }
    if iguales(n, &caracteres("geq")) {
        return Some(caracteres("≥"));
    }
    if iguales(n, &caracteres("neq")) {
        return Some(caracteres("≠"));
    }
    if iguales(n, &caracteres("to")) {
        return Some(caracteres("→"));
    }
    None
}

/// The text of a caption before blanks are collapsed: commands go, and a
/// command that is a symbol leaves how it looks (a space otherwise); braces
/// and `$` go.
pub open spec fn crudo(s: Seq<char>, i: int) -> Seq<char>
    decreases s.len() - i,
{
    if i < 0 || i >= s.len() {
        Seq::empty()
    } else if s[i] == '\\' {
        let j = fin_letras(s, i + 1);
        if j <= i || j > s.len() {
            Seq::empty()
        } else {
            let v = match simbolo(s.subrange(i + 1, j)) {
                Some(x) => x,
                None => seq![' '],
            };
            v + crudo(s, j)
        }
    } else if s[i] == '{' || s[i] == '}' || s[i] == '$' {
        crudo(s, i + 1)
    } else {
        seq![s[i]] + crudo(s, i + 1)
    }
}

/// A caption made readable: without LaTeX commands and on one line.
pub open spec fn limpio(s: Seq<char>) -> Seq<char> {
    colapsado(crudo(s, 0))
}

proof fn lema_fin_letras(t: Seq<char>, i: int)
    requires
        0 <= i <= t.len(),
    ensures
        i <= fin_letras(t, i) <= t.len(),
        forall|k: int| i <= k < fin_letras(t, i) ==> es_letra_ascii(#[trigger] t[k]),
        fin_letras(t, i) == t.len() || !es_letra_ascii(t[fin_letras(t, i)]),
    decreases t.len() - i,
{
    if i < t.len() && es_letra_ascii(t[i]) {
        lema_fin_letras(t, i + 1);
    }
}

fn fin_letras_exec(t: &[char], i: usize) -> (j: usize)
    requires
        i <= t@.len(),
    ensures
        j == fin_letras(t@, i as int),
        i <= j <= t@.len(),
{
    let mut j = i;
    while j < t.len() && letra_ascii(t[j])
        invariant
            i <= j <= t@.len(),
            fin_letras(t@, j as int) == fin_letras(t@, i as int),
        decreases t@.len() - j,
    {
        j = j + 1;
    }
    j
}

fn limpiar(s: &[char]) -> (r: Vec<char>)
    ensures
        r@ == limpio(s@),
{
    let mut out: Vec<char> = Vec::new();
    let mut i: usize = 0;
    while i < s.len()
        invariant
            i <= s@.len(),
            out@ + crudo(s@, i as int) == crudo(s@, 0),
        decreases s@.len() - i,
    {
        let c = s[i];
        if c == '\\' {
            let j = fin_letras_exec(s, i + 1);
            let nombre = tramo(s, i + 1, j);
            let ghost antes = out@;
            match simbolo_exec(&nombre) {
                Some(v) => agregar(&mut out, &v),
                None => out.push(' '),
            }
            proof {
                let v = match simbolo(s@.subrange(i + 1, j as int)) {
                    Some(x) => x,
                    None => seq![' '],
                };
                assert(out@ == antes + v);
                assert(crudo(s@, i as int) == v + crudo(s@, j as int));
                assert(out@ + crudo(s@, j as int) =~= antes + crudo(s@, i as int));
            }
            i = j;
        } else if c == '{' || c == '}' || c == '$' {
            i = i + 1;
        } else {
            let ghost antes = out@;
            out.push(c);
            proof {
                assert(out@ + crudo(s@, i + 1) =~= antes + crudo(s@, i as int));
            }
            i = i + 1;
        }
    }
    assert(out@ + crudo(s@, i as int) =~= out@);
    colapsar(&out)
}

// ---------------------------------------------------------------------------
// Kinds of labels
// ---------------------------------------------------------------------------

/// The kind of a label by the environment around it.
pub open spec fn tipo_de_entorno(env: Seq<char>) -> Option<Seq<char>> {
    if env == "figure"@ || env == "figure*"@ || env == "subfigure"@ || env == "wrapfigure"@ {
        Some("figura"@)
    } else if env == "table"@ || env == "table*"@ || env == "tabular"@ || env == "longtable"@ {
        Some("tabla"@)
    } else if env == "equation"@ || env == "equation*"@ || env == "align"@ || env == "align*"@
        || env == "gather"@ || env == "gather*"@ || env == "multline"@ {
        Some("ecuacion"@)
    } else {
        None
    }
}

fn tipo_de_entorno_exec(env: &[char]) -> (r: Option<String>)
    ensures
        match r {
            Some(s) => tipo_de_entorno(env@) == Some(s@),
            None => tipo_de_entorno(env@) is None,
        },
{
    if iguales(env, &caracteres("figure")) || iguales(env, &caracteres("figure*"))
        || iguales(env, &caracteres("subfigure")) || iguales(env, &caracteres("wrapfigure")) {
        Some("figura".to_owned())
    } else if iguales(env, &caracteres("table")) || iguales(env, &caracteres("table*"))
        || iguales(env, &caracteres("tabular")) || iguales(env, &caracteres("longtable")) {
        Some("tabla".to_owned())
    } else if iguales(env, &caracteres("equation")) || iguales(env, &caracteres("equation*"))
        || iguales(env, &caracteres("align")) || iguales(env, &caracteres("align*"))
        || iguales(env, &caracteres("gather")) || iguales(env, &caracteres("gather*"))
        || iguales(env, &caracteres("multline")) {
        Some("ecuacion".to_owned())
    } else {
        None
    }
}

/// The kind of a label by the prefix of its id (`fig:`, `tab:`, `eq:`, `sec:`),
/// the convention everybody follows: the part before the first `:`.
pub open spec fn tipo_por_prefijo(id: Seq<char>) -> Seq<char> {
    let p = id.take(busca(id, 0, ':'));
    if p == "fig"@ {
        "figura"@
    } else if p == "tab"@ || p == "tbl"@ {
        "tabla"@
    } else if p == "eq"@ || p == "ec"@ {
        "ecuacion"@
    } else if p == "sec"@ || p == "sub"@ || p == "cap"@ {
        "seccion"@
    } else {
        "otro"@
    }
}

proof fn lema_busca(t: Seq<char>, i: int, c: char)
    requires
        0 <= i <= t.len(),
    ensures
        i <= busca(t, i, c) <= t.len(),
        forall|k: int| i <= k < busca(t, i, c) ==> #[trigger] t[k] != c,
        busca(t, i, c) == t.len() || t[busca(t, i, c)] == c,
    decreases t.len() - i,
{
    if i < t.len() && t[i] != c {
        lema_busca(t, i + 1, c);
    }
}

fn busca_exec(t: &[char], i: usize, c: char) -> (j: usize)
    requires
        i <= t@.len(),
    ensures
        j == busca(t@, i as int, c),
        i <= j <= t@.len(),
{
    let mut j = i;
    while j < t.len() && t[j] != c
        invariant
            i <= j <= t@.len(),
            busca(t@, j as int, c) == busca(t@, i as int, c),
        decreases t@.len() - j,
    {
        j = j + 1;
    }
    j
}

fn tipo_por_prefijo_exec(id: &[char]) -> (r: String)
    ensures
        r@ == tipo_por_prefijo(id@),
{
    let j = busca_exec(id, 0, ':');
    let p = tramo(id, 0, j);
    assert(p@ =~= id@.take(j as int));
    if iguales(&p, &caracteres("fig")) {
        "figura".to_owned()
    } else if iguales(&p, &caracteres("tab")) || iguales(&p, &caracteres("tbl")) {
        "tabla".to_owned()
    } else if iguales(&p, &caracteres("eq")) || iguales(&p, &caracteres("ec")) {
        "ecuacion".to_owned()
    } else if iguales(&p, &caracteres("sec")) || iguales(&p, &caracteres("sub"))
        || iguales(&p, &caracteres("cap")) {
        "seccion".to_owned()
    } else {
        "otro".to_owned()
    }
}

/// The kind given by the innermost open environment that has one.
pub open spec fn entorno_interno(pila: Seq<Seq<char>>) -> Option<Seq<char>>
    decreases pila.len(),
{
    if pila.len() == 0 {
        None
    } else {
        match tipo_de_entorno(pila.last()) {
            Some(t) => Some(t),
            None => entorno_interno(pila.drop_last()),
        }
    }
}

// ---------------------------------------------------------------------------
// The sweep, as values
// ---------------------------------------------------------------------------

/// Where the sweep stands: the position, the line, the open environments and
/// the last caption and title seen.
pub struct Barrido {
    pub i: int,
    pub linea: int,
    pub pila: Seq<Seq<char>>,
    pub caption: Option<Seq<char>>,
    pub titulo: Option<Seq<char>>,
}

/// The label that a `\label{id}` at `linea` defines, given what the sweep knows.
pub open spec fn referencia(
    archivo: Seq<char>,
    id: Seq<char>,
    linea: int,
    pila: Seq<Seq<char>>,
    caption: Option<Seq<char>>,
    titulo: Option<Seq<char>>,
) -> ReferenciaV {
    let (tipo, texto) = match entorno_interno(pila) {
        Some(t) => if t == "figura"@ || t == "tabla"@ {
            (t, match caption { Some(c) => c, None => Seq::<char>::empty() })
        } else {
            (t, Seq::<char>::empty())
        },
        None => match titulo {
            Some(tt) => ("seccion"@, tt),
            None => (tipo_por_prefijo(id), Seq::<char>::empty()),
        },
    };
    ReferenciaV { id, tipo, texto, archivo, linea: linea as nat }
}

/// The commands that set a title.
pub open spec fn es_titulo(n: Seq<char>) -> bool {
    n == "section"@ || n == "subsection"@ || n == "subsubsection"@ || n == "paragraph"@
        || n == "chapter"@
}

/// What a command does once its name (and optional argument) was read; the
/// sweep stands just after them.
pub open spec fn comando(t: Seq<char>, archivo: Seq<char>, st: Barrido, nombre: Seq<char>) -> (
    Barrido,
    Option<ReferenciaV>,
) {
    let k = st.i;
    match argumento_en(t, k) {
        None => (st, None),
        Some(f) => {
            let contenido = t.subrange(k + 1, f - 1);
            let st2 = Barrido {
                i: f,
                linea: st.linea + cuenta(t.subrange(k, f), '\n'),
                pila: st.pila,
                caption: st.caption,
                titulo: st.titulo,
            };
            if nombre == "begin"@ {
                (Barrido { pila: st.pila.push(contenido), ..st2 }, None)
            } else if nombre == "end"@ {
                if st.pila.len() > 0 && st.pila.last() == contenido {
                    (Barrido { pila: st.pila.drop_last(), caption: None, ..st2 }, None)
                } else {
                    (st2, None)
                }
            } else if nombre == "caption"@ {
                (Barrido { caption: Some(limpio(contenido)), ..st2 }, None)
            } else if es_titulo(nombre) {
                (Barrido { titulo: Some(limpio(contenido)), caption: None, ..st2 }, None)
            } else if nombre == "label"@ {
                let id = recortado(contenido);
                if id.len() == 0 {
                    (st2, None)
                } else {
                    (st2, Some(referencia(archivo, id, st.linea, st.pila, st.caption, st.titulo)))
                }
            } else {
                (st, None)
            }
        },
    }
}

/// One step of the sweep from a position inside the text.
pub open spec fn paso(t: Seq<char>, archivo: Seq<char>, st: Barrido) -> (
    Barrido,
    Option<ReferenciaV>,
) {
    let i = st.i;
    if t[i] == '\n' {
        (Barrido { i: i + 1, linea: st.linea + 1, ..st }, None)
    } else if t[i] == '%' && (i == 0 || t[i - 1] != '\\') {
        (Barrido { i: busca(t, i, '\n'), ..st }, None)
    } else if t[i] != '\\' {
        (Barrido { i: i + 1, ..st }, None)
    } else {
        let j = fin_letras(t, i + 1);
        if j == i + 1 {
            (Barrido { i: if i + 2 <= t.len() { i + 2 } else { t.len() as int }, ..st }, None)
        } else {
            let nombre = t.subrange(i + 1, j);
            let k = if j < t.len() && t[j] == '[' { cierre_corchete(t, j, 0) } else { j };
            let l = st.linea + cuenta(t.subrange(j, k), '\n');
            comando(t, archivo, Barrido { i: k, linea: l, ..st }, nombre)
        }
    }
}

/// The labels that the sweep finds from `st` on.
pub open spec fn refs_desde(t: Seq<char>, archivo: Seq<char>, st: Barrido) -> Seq<ReferenciaV>
    decreases t.len() - st.i,
{
    if st.i < 0 || st.i >= t.len() {
        Seq::empty()
    } else {
        let (st2, r) = paso(t, archivo, st);
        if st2.i <= st.i || st2.i > t.len() {
            Seq::empty()
        } else {
            let resto = refs_desde(t, archivo, st2);
            match r {
                Some(x) => seq![x] + resto,
                None => resto,
            }
        }
    }
}

/// The sweep at the start of a text.
pub open spec fn inicio() -> Barrido {
    Barrido { i: 0, linea: 1, pila: Seq::empty(), caption: None, titulo: None }
}

/// The labels of the text `t` of the file `archivo`, in the order they appear.
pub open spec fn etiquetas(archivo: Seq<char>, t: Seq<char>) -> Seq<ReferenciaV> {
    refs_desde(t, archivo, inicio())
}

// ---------------------------------------------------------------------------
// The sweep
// ---------------------------------------------------------------------------

proof fn lema_cierre_llave(t: Seq<char>, i: int, nivel: int)
    requires
        0 <= i,
    ensures
        cierre_llave(t, i, nivel) matches Some(f) ==> i < f <= t.len(),
    decreases t.len() - i,
{
    if 0 <= i < t.len() {
        if t[i] == '{' {
            lema_cierre_llave(t, i + 1, nivel + 1);
        } else if t[i] == '}' {
            if nivel - 1 != 0 {
                lema_cierre_llave(t, i + 1, nivel - 1);
            }
        } else if t[i] == '\\' {
            if i + 1 < t.len() {
                lema_cierre_llave(t, i + 2, nivel);
            }
        } else {
            lema_cierre_llave(t, i + 1, nivel);
        }
    }
}

proof fn lema_cierre_corchete(t: Seq<char>, i: int, nivel: int)
    requires
        0 <= i <= t.len(),
    ensures
        i <= cierre_corchete(t, i, nivel) <= t.len(),
    decreases t.len() - i,
{
    if i < t.len() {
        if t[i] == '[' {
            lema_cierre_corchete(t, i + 1, nivel + 1);
        } else if t[i] == ']' {
            if nivel - 1 != 0 {
                lema_cierre_corchete(t, i + 1, nivel - 1);
            }
        } else {
            lema_cierre_corchete(t, i + 1, nivel);
        }
    }
}

/// The brace argument at `desde`: where it ends, or `None`.
fn argumento_exec(t: &[char], desde: usize) -> (r: Option<usize>)
    requires
        desde <= t@.len(),
    ensures
        match r {
            Some(f) => argumento_en(t@, desde as int) == Some(f as int) && desde + 2 <= f <= t@.len(),
            None => argumento_en(t@, desde as int) is None,
        },
{
    if desde >= t.len() || t[desde] != '{' {
        return None;
    }
    let mut nivel: usize = 1;
    let mut i: usize = desde + 1;
    while i < t.len()
        invariant
            desde < i <= t@.len(),
            t@[desde as int] == '{',
            1 <= nivel <= i - desde,
            cierre_llave(t@, i as int, nivel as int) == cierre_llave(t@, desde + 1, 1),
        decreases t@.len() - i,
    {
        let c = t[i];
        if c == '{' {
            nivel = nivel + 1;
            i = i + 1;
        } else if c == '}' {
            if nivel == 1 {
                assert(cierre_llave(t@, i as int, nivel as int) == Some(i + 1));
                return Some(i + 1);
            }
            nivel = nivel - 1;
            i = i + 1;
        } else if c == '\\' {
            if i + 1 >= t.len() {
                return None;
            }
            i = i + 2;
        } else {
            i = i + 1;
        }
    }
    None
}

/// Where the optional argument that opens at `j` ends.
fn cierre_corchete_exec(t: &[char], j: usize) -> (k: usize)
    requires
        j < t@.len(),
        t@.len() < usize::MAX,
        t@[j as int] == '[',
    ensures
        k == cierre_corchete(t@, j as int, 0),
        j < k <= t@.len(),
{
    let mut nivel: usize = 1;
    let mut i: usize = j + 1;
    while i < t.len()
        invariant
            j < i <= t@.len(),
            1 <= nivel <= i - j,
            cierre_corchete(t@, i as int, nivel as int) == cierre_corchete(t@, j as int, 0),
        decreases t@.len() - i,
    {
        let c = t[i];
        if c == '[' {
            nivel = nivel + 1;
        } else if c == ']' {
            if nivel == 1 {
                return i + 1;
            }
            nivel = nivel - 1;
        }
        i = i + 1;
    }
    i
}

/// Where the sweep stands, as it runs.
struct Estado {
    i: usize,
    linea: usize,
    pila: Vec<Vec<char>>,
    caption: Option<Vec<char>>,
    titulo: Option<Vec<char>>,
}

impl Estado {
    spec fn vista(&self) -> Barrido {
        Barrido {
            i: self.i as int,
            linea: self.linea as int,
            pila: vista_pila(self.pila@),
            caption: vista_op(self.caption),
            titulo: vista_op(self.titulo),
        }
    }
}

/// The characters of each entry.
pub open spec fn vista_pila(p: Seq<Vec<char>>) -> Seq<Seq<char>> {
    p.map_values(|v: Vec<char>| v@)
}

/// The characters, if there are.
pub open spec fn vista_op(o: Option<Vec<char>>) -> Option<Seq<char>> {
    match o {
        Some(v) => Some(v@),
        None => None,
    }
}

/// A label, if there is one, as values.
pub open spec fn vista_opcional(r: Option<Referencia>) -> Option<ReferenciaV> {
    match r {
        Some(x) => Some(x.vista()),
        None => None,
    }
}

fn entorno_interno_exec(pila: &Vec<Vec<char>>) -> (r: Option<String>)
    ensures
        match r {
            Some(s) => entorno_interno(vista_pila(pila@)) == Some(s@),
            None => entorno_interno(vista_pila(pila@)) is None,
        },
{
    let ghost p = vista_pila(pila@);
    let mut n: usize = pila.len();
    assert(p.take(n as int) =~= p);
    while n > 0
        invariant
            n <= pila@.len(),
            p == vista_pila(pila@),
            entorno_interno(p.take(n as int)) == entorno_interno(p),
        decreases n,
    {
        proof {
            assert(p.take(n as int).drop_last() =~= p.take(n - 1));
            assert(p.take(n as int).last() == pila@[n - 1]@);
        }
        match tipo_de_entorno_exec(&pila[n - 1]) {
            Some(t) => {
                return Some(t);
            },
            None => {},
        }
        n = n - 1;
    }
    None
}

fn texto_de(v: &Vec<char>) -> (s: String)
    ensures
        s@ == v@,
{
    crate::texto::cadena(v.as_slice())
}

fn referencia_exec(
    archivo: &str,
    id: &Vec<char>,
    linea: usize,
    pila: &Vec<Vec<char>>,
    caption: &Option<Vec<char>>,
    titulo: &Option<Vec<char>>,
) -> (r: Referencia)
    ensures
        r.vista() == referencia(
            archivo@,
            id@,
            linea as int,
            vista_pila(pila@),
            vista_op(*caption),
            vista_op(*titulo),
        ),
{
    let (tipo, texto) = match entorno_interno_exec(pila) {
        Some(t) => {
            let tv = caracteres(t.as_str());
            if iguales(&tv, &caracteres("figura")) || iguales(&tv, &caracteres("tabla")) {
                let texto = match caption {
                    Some(c) => texto_de(c),
                    None => String::new(),
                };
                (t, texto)
            } else {
                (t, String::new())
            }
        },
        None => match titulo {
            Some(tt) => ("seccion".to_owned(), texto_de(tt)),
            None => (tipo_por_prefijo_exec(id), String::new()),
        },
    };
    Referencia { id: texto_de(id), tipo, texto, archivo: archivo.to_owned(), linea }
}

/// What a command does, the sweep standing just after its name.
fn comando_exec(t: &Vec<char>, archivo: &str, st: Estado, nombre: &Vec<char>) -> (res: (
    Estado,
    Option<Referencia>,
))
    requires
        st.i <= t@.len(),
        t@.len() < usize::MAX,
        st.linea <= st.i + 1,
    ensures
        res.0.vista() == comando(t@, archivo@, st.vista(), nombre@).0,
        vista_opcional(res.1) == comando(t@, archivo@, st.vista(), nombre@).1,
        st.i <= res.0.i <= t@.len(),
        res.0.linea <= res.0.i + 1,
{
    let k = st.i;
    match argumento_exec(t.as_slice(), k) {
        None => (st, None),
        Some(f) => {
            let contenido = tramo(t.as_slice(), k + 1, f - 1);
            let nl = contar(t.as_slice(), k, f, '\n');
            proof {
                lema_cuenta_cota(t@.subrange(k as int, f as int), '\n');
            }
            let linea2 = st.linea + nl;
            if iguales(nombre, &caracteres("begin")) {
                let mut pila = st.pila;
                pila.push(contenido);
                proof {
                    assert(vista_pila(pila@) =~= vista_pila(st.pila@).push(contenido@));
                }
                (Estado { i: f, linea: linea2, pila, caption: st.caption, titulo: st.titulo }, None)
            } else if iguales(nombre, &caracteres("end")) {
                let n = st.pila.len();
                if n > 0 && iguales(&st.pila[n - 1], &contenido) {
                    let mut pila = st.pila;
                    pila.pop();
                    proof {
                        assert(vista_pila(pila@) =~= vista_pila(st.pila@).drop_last());
                    }
                    (Estado { i: f, linea: linea2, pila, caption: None, titulo: st.titulo }, None)
                } else {
                    (Estado { i: f, linea: linea2, pila: st.pila, caption: st.caption, titulo: st.titulo }, None)
                }
            } else if iguales(nombre, &caracteres("caption")) {
                let c = limpiar(&contenido);
                (Estado { i: f, linea: linea2, pila: st.pila, caption: Some(c), titulo: st.titulo }, None)
            } else if iguales(nombre, &caracteres("section")) || iguales(nombre, &caracteres("subsection"))
                || iguales(nombre, &caracteres("subsubsection")) || iguales(nombre, &caracteres("paragraph"))
                || iguales(nombre, &caracteres("chapter")) {
                let c = limpiar(&contenido);
                (Estado { i: f, linea: linea2, pila: st.pila, caption: None, titulo: Some(c) }, None)
            } else if iguales(nombre, &caracteres("label")) {
                let id = recortar(&contenido);
                if id.len() == 0 {
                    (Estado { i: f, linea: linea2, pila: st.pila, caption: st.caption, titulo: st.titulo }, None)
                } else {
                    let r = referencia_exec(archivo, &id, st.linea, &st.pila, &st.caption, &st.titulo);
                    (Estado { i: f, linea: linea2, pila: st.pila, caption: st.caption, titulo: st.titulo }, Some(r))
                }
            } else {
                (st, None)
            }
        },
    }
}

/// One step of the sweep.
fn paso_exec(t: &Vec<char>, archivo: &str, st: Estado) -> (res: (Estado, Option<Referencia>))
    requires
        st.i < t@.len(),
        t@.len() < usize::MAX,
        st.linea <= st.i + 1,
    ensures
        res.0.vista() == paso(t@, archivo@, st.vista()).0,
        vista_opcional(res.1) == paso(t@, archivo@, st.vista()).1,
        st.i < res.0.i <= t@.len(),
        res.0.linea <= res.0.i + 1,
{
    let i = st.i;
    let c = t[i];
    if c == '\n' {
        return (Estado { i: i + 1, linea: st.linea + 1, ..st }, None);
    }
    if c == '%' && (i == 0 || t[i - 1] != '\\') {
        let j = busca_exec(t.as_slice(), i, '\n');
        proof {
            assert(busca(t@, i as int, '\n') == busca(t@, i + 1, '\n'));
            lema_busca(t@, i + 1, '\n');
        }
        return (Estado { i: j, ..st }, None);
    }
    if c != '\\' {
        return (Estado { i: i + 1, ..st }, None);
    }
    let j = fin_letras_exec(t.as_slice(), i + 1);
    if j == i + 1 {
        let n = if i + 1 < t.len() { i + 2 } else { t.len() };
        return (Estado { i: n, ..st }, None);
    }
    let nombre = tramo(t.as_slice(), i + 1, j);
    let k = if j < t.len() && t[j] == '[' { cierre_corchete_exec(t.as_slice(), j) } else { j };
    let nl = contar(t.as_slice(), j, k, '\n');
    proof {
        lema_cuenta_cota(t@.subrange(j as int, k as int), '\n');
    }
    let st2 = Estado { i: k, linea: st.linea + nl, ..st };
    assert(st2.vista() == Barrido { i: k as int, linea: st.linea + cuenta(t@.subrange(j as int, k as int), '\n'), ..st.vista() });
    comando_exec(t, archivo, st2, &nombre)
}

/// The labels of a `.tex` file, in the order they appear.
///
/// `archivo` is the name recorded in each label; `texto` is the file's text.
pub fn extraer(archivo: &str, texto: &str) -> (refs: Vec<Referencia>)
    requires
        texto@.len() < usize::MAX,
    ensures
        refs@.map_values(|r: Referencia| r.vista()) == etiquetas(archivo@, texto@),
{
    let t = caracteres(texto);
    let mut refs: Vec<Referencia> = Vec::new();
    let mut st = Estado { i: 0, linea: 1, pila: Vec::new(), caption: None, titulo: None };
    proof {
        assert(st.vista().pila =~= Seq::<Seq<char>>::empty());
        assert(st.vista() == inicio());
    }
    while st.i < t.len()
        invariant
            t@ == texto@,
            t@.len() < usize::MAX,
            st.i <= t@.len(),
            st.linea <= st.i + 1,
            refs@.map_values(|r: Referencia| r.vista()) + refs_desde(t@, archivo@, st.vista())
                == etiquetas(archivo@, texto@),
        decreases t@.len() - st.i,
    {
        let ghost antes = st.vista();
        let ghost vistas = refs@.map_values(|r: Referencia| r.vista());
        let (st2, r) = paso_exec(&t, archivo, st);
        match r {
            Some(x) => {
                refs.push(x);
                proof {
                    assert(refs@.map_values(|r: Referencia| r.vista()) =~= vistas.push(x.vista()));
                }
            },
            None => {},
        }
        st = st2;
    }
    refs
}

// ---------------------------------------------------------------------------
// The whole project
// ---------------------------------------------------------------------------

pub open spec fn vistas(v: Seq<Referencia>) -> Seq<ReferenciaV> {
    v.map_values(|r: Referencia| r.vista())
}

/// The labels of the files, file after file.
pub open spec fn de_archivos(textos: Seq<(String, String)>) -> Seq<ReferenciaV>
    decreases textos.len(),
{
    if textos.len() == 0 {
        Seq::empty()
    } else {
        de_archivos(textos.drop_last()) + etiquetas(textos.last().0@, textos.last().1@)
    }
}

/// Whether some label has the id `id`.
pub open spec fn tiene_id(v: Seq<ReferenciaV>, id: Seq<char>) -> bool {
    exists|i: int| 0 <= i < v.len() && (#[trigger] v[i]).id == id
}

/// The label of one of Xtal's plots: `fig:<id>`, with its title (or its id)
/// as text, defined in its `.toml`.
pub open spec fn de_grafico(id: Seq<char>, titulo: Option<Seq<char>>) -> ReferenciaV {
    ReferenciaV {
        id: "fig:"@ + id,
        tipo: "grafico"@,
        texto: match titulo {
            Some(t) => t,
            None => id,
        },
        archivo: "graficos/"@ + id + ".toml"@,
        linea: 1,
    }
}

/// The labels of the files, then those of the plots that no label names yet
/// (the engine draws them and labels them `fig:<id>` when compiling: they can
/// be cited too).
pub open spec fn con_graficos(base: Seq<ReferenciaV>, graficos: Seq<(String, Option<String>)>) -> Seq<ReferenciaV>
    decreases graficos.len(),
{
    if graficos.len() == 0 {
        base
    } else {
        let antes = con_graficos(base, graficos.drop_last());
        let g = graficos.last();
        let titulo = match g.1 {
            Some(t) => Some(t@),
            None => None,
        };
        if tiene_id(antes, "fig:"@ + g.0@) {
            antes
        } else {
            antes.push(de_grafico(g.0@, titulo))
        }
    }
}

/// `a` goes strictly before `b`: by file, then by line.
pub open spec fn antes(a: ReferenciaV, b: ReferenciaV) -> bool {
    lex_menor(a.archivo, b.archivo) || (a.archivo == b.archivo && a.linea < b.linea)
}

/// Where `x` goes in `s`: after every label that does not come after it.
pub open spec fn lugar(s: Seq<ReferenciaV>, x: ReferenciaV) -> int
    decreases s.len(),
{
    if s.len() == 0 {
        0
    } else if antes(x, s.last()) {
        lugar(s.drop_last(), x)
    } else {
        s.len() as int
    }
}

/// The labels by file and line, those in the same place in the order they
/// came (a stable sort): it is the order of the report.
pub open spec fn ordenadas(s: Seq<ReferenciaV>) -> Seq<ReferenciaV>
    decreases s.len(),
{
    if s.len() == 0 {
        Seq::empty()
    } else {
        let o = ordenadas(s.drop_last());
        o.insert(lugar(o, s.last()), s.last())
    }
}

proof fn lema_lugar(s: Seq<ReferenciaV>, x: ReferenciaV)
    ensures
        0 <= lugar(s, x) <= s.len(),
    decreases s.len(),
{
    if s.len() > 0 && antes(x, s.last()) {
        lema_lugar(s.drop_last(), x);
    }
}

fn va_antes(a: &Referencia, b: &Referencia) -> (r: bool)
    ensures
        r == antes(a.vista(), b.vista()),
{
    let x = caracteres(a.archivo.as_str());
    let y = caracteres(b.archivo.as_str());
    lex_antes(&x, &y) || (iguales(&x, &y) && a.linea < b.linea)
}

/// Puts `x` in its place in `r`, from the end.
fn poner_en_orden(r: &mut Vec<Referencia>, x: Referencia)
    ensures
        vistas(final(r)@) == vistas(old(r)@).insert(lugar(vistas(old(r)@), x.vista()), x.vista()),
{
    let ghost s = vistas(r@);
    let mut p: usize = r.len();
    proof {
        lema_lugar(s, x.vista());
        assert(s.take(s.len() as int) =~= s);
    }
    while p > 0 && va_antes(&x, &r[p - 1])
        invariant
            p <= r@.len(),
            s == vistas(r@),
            lugar(s.take(p as int), x.vista()) == lugar(s, x.vista()),
        decreases p,
    {
        assert(s.take(p as int).drop_last() =~= s.take(p - 1));
        assert(s.take(p as int).last() == r@[p - 1].vista());
        p = p - 1;
    }
    proof {
        if p > 0 {
            assert(s.take(p as int).last() == r@[p - 1].vista());
        }
        assert(lugar(s.take(p as int), x.vista()) == p);
    }
    let ghost v = x.vista();
    r.insert(p, x);
    assert(vistas(r@) =~= s.insert(p as int, v));
}

/// Gathers the labels of the report: those of its `.tex` files (`textos`:
/// each file's path relative to the project and its text, in the order the
/// files were found) and those of Xtal's plots that no label names yet
/// (`graficos`: each plot's id and title), all by file and line.
pub fn recolectar(textos: &Vec<(String, String)>, graficos: &Vec<(String, Option<String>)>) -> (r: Vec<Referencia>)
    requires
        forall|k: int| 0 <= k < textos@.len() ==> (#[trigger] textos@[k]).1@.len() < usize::MAX,
    ensures
        vistas(r@) == ordenadas(con_graficos(de_archivos(textos@), graficos@)),
{
    let mut todas: Vec<Referencia> = Vec::new();
    let mut k: usize = 0;
    assert(textos@.take(0) =~= Seq::<(String, String)>::empty());
    while k < textos.len()
        invariant
            k <= textos@.len(),
            forall|j: int| 0 <= j < textos@.len() ==> (#[trigger] textos@[j]).1@.len() < usize::MAX,
            vistas(todas@) == de_archivos(textos@.take(k as int)),
        decreases textos@.len() - k,
    {
        assert(textos@.take(k + 1).drop_last() =~= textos@.take(k as int));
        assert(textos@.take(k + 1).last() == textos@[k as int]);
        let mut de_uno = extraer(textos[k].0.as_str(), textos[k].1.as_str());
        let ghost a = vistas(todas@);
        let ghost b = vistas(de_uno@);
        todas.append(&mut de_uno);
        assert(vistas(todas@) =~= a + b);
        k = k + 1;
    }
    assert(textos@.take(textos@.len() as int) =~= textos@);
    let ghost base = vistas(todas@);
    let mut j: usize = 0;
    assert(graficos@.take(0) =~= Seq::<(String, Option<String>)>::empty());
    while j < graficos.len()
        invariant
            j <= graficos@.len(),
            base == de_archivos(textos@),
            vistas(todas@) == con_graficos(base, graficos@.take(j as int)),
        decreases graficos@.len() - j,
    {
        assert(graficos@.take(j + 1).drop_last() =~= graficos@.take(j as int));
        assert(graficos@.take(j + 1).last() == graficos@[j as int]);
        let (id, titulo) = (&graficos[j].0, &graficos[j].1);
        let mut e = caracteres("fig:");
        agregar(&mut e, &caracteres(id.as_str()));
        let mut ya = false;
        let mut i: usize = 0;
        while i < todas.len()
            invariant
                i <= todas@.len(),
                ya == (exists|m: int| 0 <= m < i && (#[trigger] vistas(todas@)[m]).id == e@),
            decreases todas@.len() - i,
        {
            assert(vistas(todas@)[i as int].id == todas@[i as int].id@);
            if iguales(&caracteres(todas[i].id.as_str()), &e) {
                ya = true;
            }
            i = i + 1;
        }
        if !ya {
            let mut arch = caracteres("graficos/");
            agregar(&mut arch, &caracteres(id.as_str()));
            agregar(&mut arch, &caracteres(".toml"));
            let texto = match titulo {
                Some(t) => t.clone(),
                None => id.clone(),
            };
            let nueva = Referencia {
                id: cadena(&e),
                tipo: "grafico".to_owned(),
                texto,
                archivo: cadena(&arch),
                linea: 1,
            };
            let ghost antes_v = vistas(todas@);
            todas.push(nueva);
            assert(vistas(todas@) =~= antes_v.push(nueva.vista()));
        }
        j = j + 1;
    }
    assert(graficos@.take(graficos@.len() as int) =~= graficos@);
    let ghost todo = vistas(todas@);
    let mut r: Vec<Referencia> = Vec::new();
    let ghost mut n: int = 0;
    let mut resto = todas;
    assert(todo.take(0) =~= Seq::<ReferenciaV>::empty());
    while resto.len() > 0
        invariant
            0 <= n <= todo.len(),
            vistas(resto@) == todo.skip(n),
            vistas(r@) == ordenadas(todo.take(n)),
        decreases resto@.len(),
    {
        let ghost r0 = vistas(resto@);
        assert(r0.len() == resto@.len());
        assert(n < todo.len());
        assert(r0[0] == todo[n]);
        let x = resto.remove(0);
        assert(x.vista() == todo[n]);
        assert(todo.take(n + 1).drop_last() =~= todo.take(n));
        assert(todo.take(n + 1).last() == todo[n]);
        poner_en_orden(&mut r, x);
        assert(vistas(resto@) =~= r0.drop_first());
        assert(r0.drop_first() =~= todo.skip(n + 1));
        proof {
            n = n + 1;
        }
    }
    assert(todo.take(n) =~= todo);
    r
}

proof fn lema_antes_transitivo(a: ReferenciaV, b: ReferenciaV, c: ReferenciaV)
    requires
        antes(a, b),
        antes(b, c),
    ensures
        antes(a, c),
{
    if lex_menor(a.archivo, b.archivo) && lex_menor(b.archivo, c.archivo) {
        lema_lex_transitivo(a.archivo, b.archivo, c.archivo);
    }
}

proof fn lema_antes_irreflexivo(a: ReferenciaV)
    ensures
        !antes(a, a),
{
    lema_lex_irreflexivo(a.archivo);
}

proof fn lema_no_antes_transitivo(a: ReferenciaV, b: ReferenciaV, c: ReferenciaV)
    requires
        !antes(a, b),
        !antes(b, c),
    ensures
        !antes(a, c),
{
    if antes(a, c) {
        lema_lex_total(a.archivo, b.archivo);
        lema_lex_total(b.archivo, c.archivo);
        lema_lex_total(a.archivo, c.archivo);
        if lex_menor(a.archivo, b.archivo) {
        } else if lex_menor(b.archivo, c.archivo) {
        } else if lex_menor(b.archivo, a.archivo) && lex_menor(c.archivo, b.archivo) {
            lema_lex_transitivo(c.archivo, b.archivo, a.archivo);
            if lex_menor(a.archivo, c.archivo) {
                lema_lex_transitivo(a.archivo, c.archivo, a.archivo);
                lema_lex_irreflexivo(a.archivo);
            } else {
                lema_lex_irreflexivo(a.archivo);
            }
        } else if lex_menor(b.archivo, a.archivo) {
            if lex_menor(a.archivo, c.archivo) {
                lema_lex_transitivo(b.archivo, a.archivo, c.archivo);
                lema_lex_irreflexivo(c.archivo);
            } else {
                lema_lex_irreflexivo(a.archivo);
            }
        } else if lex_menor(c.archivo, b.archivo) {
            if lex_menor(a.archivo, c.archivo) {
                lema_lex_transitivo(a.archivo, c.archivo, b.archivo);
                lema_lex_irreflexivo(a.archivo);
            } else {
                lema_lex_irreflexivo(a.archivo);
            }
        } else {
            lema_lex_irreflexivo(a.archivo);
        }
    }
}

proof fn lema_lugar_separa(o: Seq<ReferenciaV>, x: ReferenciaV)
    ensures
        forall|k: int| lugar(o, x) <= k < o.len() ==> antes(x, #[trigger] o[k]),
        lugar(o, x) > 0 ==> !antes(x, o[lugar(o, x) - 1]),
    decreases o.len(),
{
    lema_lugar(o, x);
    if o.len() > 0 && antes(x, o.last()) {
        lema_lugar_separa(o.drop_last(), x);
        assert forall|k: int| lugar(o, x) <= k < o.len() implies antes(x, #[trigger] o[k]) by {
            if k < o.len() - 1 {
                assert(o.drop_last()[k] == o[k]);
            }
        }
        if lugar(o, x) > 0 {
            lema_lugar(o.drop_last(), x);
            assert(o.drop_last()[lugar(o, x) - 1] == o[lugar(o, x) - 1]);
        }
    }
}

proof fn lema_ordenadas_en_orden(s: Seq<ReferenciaV>)
    ensures
        forall|i: int, j: int| 0 <= i < j < ordenadas(s).len() ==> !antes(#[trigger] ordenadas(s)[j], #[trigger] ordenadas(s)[i]),
    decreases s.len(),
{
    if s.len() > 0 {
        let o = ordenadas(s.drop_last());
        let x = s.last();
        lema_ordenadas_en_orden(s.drop_last());
        lema_lugar(o, x);
        lema_lugar_separa(o, x);
        let p = lugar(o, x);
        let n = o.insert(p, x);
        assert(ordenadas(s) == n);
        assert forall|i: int, j: int| 0 <= i < j < n.len() implies !antes(#[trigger] n[j], #[trigger] n[i]) by {
            if j < p {
                assert(n[i] == o[i] && n[j] == o[j]);
            } else if j == p {
                assert(n[i] == o[i]);
                if i < p - 1 {
                    lema_no_antes_transitivo(x, o[p - 1], o[i]);
                }
            } else if i > p {
                assert(n[i] == o[i - 1] && n[j] == o[j - 1]);
            } else if i == p {
                assert(n[j] == o[j - 1]);
                if antes(o[j - 1], x) {
                    lema_antes_transitivo(x, o[j - 1], x);
                    lema_antes_irreflexivo(x);
                }
            } else {
                assert(n[i] == o[i]);
                assert(n[j] == o[j - 1]);
            }
        }
    }
}

proof fn lema_ordenadas_mismas(s: Seq<ReferenciaV>)
    ensures
        ordenadas(s).to_multiset() == s.to_multiset(),
    decreases s.len(),
{
    if s.len() == 0 {
        assert(ordenadas(s) =~= s);
    } else {
        let o = ordenadas(s.drop_last());
        let x = s.last();
        lema_ordenadas_mismas(s.drop_last());
        lema_lugar(o, x);
        let p = lugar(o, x);
        vstd::seq_lib::to_multiset_insert(o, p, x);
        assert(s =~= s.drop_last().push(x));
        vstd::seq_lib::to_multiset_build(s.drop_last(), x);
    }
}

/// The labels come by file and line, and none is lost or added: the list is
/// sorted, and has the same labels, as many times each, as it was given.
pub proof fn las_referencias_van_por_archivo_y_linea(s: Seq<ReferenciaV>)
    ensures
        forall|i: int, j: int| 0 <= i < j < ordenadas(s).len() ==> !antes(#[trigger] ordenadas(s)[j], #[trigger] ordenadas(s)[i]),
        ordenadas(s).to_multiset() == s.to_multiset(),
{
    lema_ordenadas_en_orden(s);
    lema_ordenadas_mismas(s);
}

/// The labels whose id or text holds the query (both in lowercase).
pub open spec fn con_consulta(v: Seq<ReferenciaV>, q: Seq<char>) -> Seq<ReferenciaV>
    decreases v.len(),
{
    if v.len() == 0 {
        Seq::empty()
    } else if contiene(minusculas_de(v.last().id), q) || contiene(minusculas_de(v.last().texto), q) {
        con_consulta(v.drop_last(), q).push(v.last())
    } else {
        con_consulta(v.drop_last(), q)
    }
}

/// What `xtal refs <consulta>` lists: with a query that is not blank, the
/// labels whose id or text holds it (trimmed, without regard to case); else
/// all of them.
pub open spec fn filtradas(v: Seq<ReferenciaV>, consulta: Option<Seq<char>>) -> Seq<ReferenciaV> {
    match consulta {
        Some(q) => if recortado(q).len() > 0 {
            con_consulta(v, minusculas_de(recortado(q)))
        } else {
            v
        },
        None => v,
    }
}

/// `s` holds `q` somewhere: some stretch of it, starting at any position,
/// is `q`.
proof fn lema_contiene_tramo(s: Seq<char>, q: Seq<char>)
    ensures
        contiene(s, q) <==> exists|i: int| 0 <= i && i + q.len() <= s.len() && #[trigger] s.subrange(i, i + q.len()) == q,
{
    if contiene(s, q) {
        let i = choose|i: int| #[trigger] aparece_en(s, i, q);
        assert(s.subrange(i, i + q.len()) == q);
    }
    if exists|i: int| 0 <= i && i + q.len() <= s.len() && #[trigger] s.subrange(i, i + q.len()) == q {
        let i = choose|i: int| 0 <= i && i + q.len() <= s.len() && #[trigger] s.subrange(i, i + q.len()) == q;
        assert(aparece_en(s, i, q));
    }
}

proof fn lema_con_consulta(v: Seq<ReferenciaV>, q: Seq<char>)
    ensures
        forall|x: ReferenciaV| #[trigger] con_consulta(v, q).contains(x) <==> v.contains(x) && (contiene(
            minusculas_de(x.id),
            q,
        ) || contiene(minusculas_de(x.texto), q)),
    decreases v.len(),
{
    if v.len() > 0 {
        let w = v.drop_last();
        lema_con_consulta(w, q);
        let a = con_consulta(w, q);
        assert forall|x: ReferenciaV| #[trigger] con_consulta(v, q).contains(x) <==> v.contains(x) && (contiene(
            minusculas_de(x.id),
            q,
        ) || contiene(minusculas_de(x.texto), q)) by {
            if v.contains(x) && x != v.last() {
                let k = choose|k: int| 0 <= k < v.len() && v[k] == x;
                assert(k < w.len());
                assert(w[k] == x);
                assert(w.contains(x));
            }
            if w.contains(x) {
                let k = choose|k: int| 0 <= k < w.len() && w[k] == x;
                assert(v[k] == x);
            }
            if con_consulta(v, q) == a.push(v.last()) {
                if a.push(v.last()).contains(x) && x != v.last() {
                    let k = choose|k: int| 0 <= k < a.len() + 1 && a.push(v.last())[k] == x;
                    assert(k < a.len());
                    assert(a[k] == x);
                }
                if a.contains(x) {
                    let k = choose|k: int| 0 <= k < a.len() && a[k] == x;
                    assert(a.push(v.last())[k] == x);
                }
                assert(a.push(v.last())[a.len() as int] == v.last());
            }
            assert(v[v.len() - 1] == v.last());
        }
    }
}

/// With a query that is not blank, a label is listed exactly when it is one
/// of the labels and its id or its text, in lowercase, holds the trimmed
/// query in lowercase anywhere (not only at the start); with a blank query or
/// none, every label is listed.
pub proof fn la_consulta_se_busca_en_cualquier_lugar(v: Seq<ReferenciaV>, consulta: Option<Seq<char>>, x: ReferenciaV)
    ensures
        ({
            match consulta {
                Some(c) => if recortado(c).len() > 0 {
                    let q = minusculas_de(recortado(c));
                    let id = minusculas_de(x.id);
                    let tx = minusculas_de(x.texto);
                    filtradas(v, consulta).contains(x) <==> v.contains(x) && (
                        (exists|i: int| 0 <= i && i + q.len() <= id.len() && #[trigger] id.subrange(i, i + q.len()) == q)
                        || (exists|i: int| 0 <= i && i + q.len() <= tx.len() && #[trigger] tx.subrange(i, i + q.len()) == q))
                } else {
                    filtradas(v, consulta) == v
                },
                None => filtradas(v, consulta) == v,
            }
        }),
{
    if let Some(c) = consulta {
        if recortado(c).len() > 0 {
            let q = minusculas_de(recortado(c));
            lema_con_consulta(v, q);
            lema_contiene_tramo(minusculas_de(x.id), q);
            lema_contiene_tramo(minusculas_de(x.texto), q);
            assert(filtradas(v, consulta).contains(x) == con_consulta(v, q).contains(x));
        }
    }
}

/// Keeps the labels that answer a query.
pub fn filtrar(refs: Vec<Referencia>, consulta: Option<&str>) -> (r: Vec<Referencia>)
    ensures
        vistas(r@) == filtradas(vistas(refs@), match consulta {
            Some(q) => Some(q@),
            None => None,
        }),
{
    let q = match consulta {
        Some(q) => q,
        None => return refs,
    };
    let t = recortar(&caracteres(q));
    if t.len() == 0 {
        return refs;
    }
    let ql = caracteres(minusculas(cadena(&t).as_str()).as_str());
    let ghost todas = vistas(refs@);
    let mut resto = refs;
    let mut r: Vec<Referencia> = Vec::new();
    let ghost mut n: int = 0;
    assert(todas.take(0) =~= Seq::<ReferenciaV>::empty());
    while resto.len() > 0
        invariant
            0 <= n <= todas.len(),
            vistas(resto@) == todas.skip(n),
            ql@ == minusculas_de(recortado(q@)),
            vistas(r@) == con_consulta(todas.take(n), ql@),
        decreases resto@.len(),
    {
        let ghost r0 = vistas(resto@);
        assert(r0.len() == resto@.len());
        assert(r0[0] == todas[n]);
        let x = resto.remove(0);
        assert(todas.take(n + 1).drop_last() =~= todas.take(n));
        assert(todas.take(n + 1).last() == x.vista());
        let id = caracteres(minusculas(x.id.as_str()).as_str());
        let tx = caracteres(minusculas(x.texto.as_str()).as_str());
        if contiene_texto(&id, &ql) || contiene_texto(&tx, &ql) {
            let ghost antes_v = vistas(r@);
            r.push(x);
            assert(vistas(r@) =~= antes_v.push(x.vista()));
        }
        assert(vistas(resto@) =~= r0.drop_first());
        assert(r0.drop_first() =~= todas.skip(n + 1));
        proof {
            n = n + 1;
        }
    }
    assert(todas.take(n) =~= todas);
    r
}

// ---------------------------------------------------------------------------
// What every label of the sweep is like
// ---------------------------------------------------------------------------

/// Where the sweep stands is within the text, and its line is at least the
/// first and at most one past the line breaks already read.
pub open spec fn en_regla(t: Seq<char>, st: Barrido) -> bool {
    0 <= st.i <= t.len() && 1 <= st.linea <= 1 + cuenta(t.subrange(0, st.i), '\n')
}

/// A label as the sweep gives it: from the file it read, with an id that is
/// not empty and has no blanks at its ends, at a line of the text.
pub open spec fn bien_formada(x: ReferenciaV, archivo: Seq<char>, t: Seq<char>) -> bool {
    &&& x.archivo == archivo
    &&& x.id.len() > 0
    &&& !es_blanco(x.id[0])
    &&& !es_blanco(x.id.last())
    &&& 1 <= x.linea <= 1 + cuenta(t, '\n')
}

proof fn lema_cuenta_tramos(t: Seq<char>, a: int, b: int)
    requires
        0 <= a <= b <= t.len(),
    ensures
        cuenta(t.subrange(0, b), '\n') == cuenta(t.subrange(0, a), '\n') + cuenta(t.subrange(a, b), '\n'),
{
    assert(t.subrange(0, b) =~= t.subrange(0, a) + t.subrange(a, b));
    lema_cuenta_concat(t.subrange(0, a), t.subrange(a, b), '\n');
}

proof fn lema_hasta_el_final(t: Seq<char>, a: int)
    requires
        0 <= a <= t.len(),
    ensures
        cuenta(t.subrange(0, a), '\n') <= cuenta(t, '\n'),
{
    lema_cuenta_tramos(t, a, t.len() as int);
    assert(t.subrange(0, t.len() as int) =~= t);
}

proof fn lema_comando(t: Seq<char>, archivo: Seq<char>, st: Barrido, nombre: Seq<char>)
    requires
        en_regla(t, st),
    ensures
        ({
            let (st2, r) = comando(t, archivo, st, nombre);
            &&& st2.i >= st.i
            &&& (st2.i <= t.len() ==> en_regla(t, st2))
            &&& (r matches Some(x) ==> bien_formada(x, archivo, t))
        }),
{
    let k = st.i;
    if let Some(f) = argumento_en(t, k) {
        lema_cierre_llave(t, k + 1, 1);
        lema_cuenta_tramos(t, k, f);
        if nombre == "label"@ {
            lema_recortado_extremos(t.subrange(k + 1, f - 1));
            lema_hasta_el_final(t, k);
        }
    }
}

proof fn lema_paso(t: Seq<char>, archivo: Seq<char>, st: Barrido)
    requires
        en_regla(t, st),
        st.i < t.len(),
    ensures
        ({
            let (st2, r) = paso(t, archivo, st);
            &&& (st.i < st2.i <= t.len() ==> en_regla(t, st2))
            &&& (r matches Some(x) ==> bien_formada(x, archivo, t))
        }),
{
    let i = st.i;
    if t[i] == '\n' {
        lema_cuenta_tramos(t, i, i + 1);
        assert(t.subrange(i, i + 1).drop_last() =~= Seq::<char>::empty());
    } else if t[i] == '%' && (i == 0 || t[i - 1] != '\\') {
        lema_busca(t, i, '\n');
        lema_cuenta_tramos(t, i, busca(t, i, '\n'));
    } else if t[i] != '\\' {
        lema_cuenta_tramos(t, i, i + 1);
    } else {
        lema_fin_letras(t, i + 1);
        let j = fin_letras(t, i + 1);
        if j == i + 1 {
            let n = if i + 2 <= t.len() { i + 2 } else { t.len() as int };
            lema_cuenta_tramos(t, i, n);
        } else {
            let nombre = t.subrange(i + 1, j);
            let k = if j < t.len() && t[j] == '[' { cierre_corchete(t, j, 0) } else { j };
            if j < t.len() && t[j] == '[' {
                lema_cierre_corchete(t, j, 0);
            }
            lema_cuenta_tramos(t, i, j);
            lema_cuenta_tramos(t, j, k);
            lema_cuenta_tramos(t, i, k);
            let l = st.linea + cuenta(t.subrange(j, k), '\n');
            lema_comando(t, archivo, Barrido { i: k, linea: l, ..st }, nombre);
        }
    }
}

proof fn lema_refs_desde(t: Seq<char>, archivo: Seq<char>, st: Barrido)
    requires
        en_regla(t, st),
    ensures
        forall|k: int| 0 <= k < refs_desde(t, archivo, st).len()
            ==> bien_formada(#[trigger] refs_desde(t, archivo, st)[k], archivo, t),
    decreases t.len() - st.i,
{
    if 0 <= st.i < t.len() {
        let (st2, r) = paso(t, archivo, st);
        lema_paso(t, archivo, st);
        if st.i < st2.i <= t.len() {
            lema_refs_desde(t, archivo, st2);
            let resto = refs_desde(t, archivo, st2);
            if r is Some {
                assert forall|k: int| 0 <= k < refs_desde(t, archivo, st).len()
                    implies bien_formada(#[trigger] refs_desde(t, archivo, st)[k], archivo, t) by {
                    if k > 0 {
                        assert(refs_desde(t, archivo, st)[k] == resto[k - 1]);
                    }
                }
            }
        }
    }
}

/// Every label found in a text comes from that text's file, has an id that
/// is not empty and has no blanks at its ends, and stands at a line between
/// the first and the text's last.
pub proof fn cada_etiqueta_esta_bien_formada(archivo: Seq<char>, t: Seq<char>)
    ensures
        forall|k: int| 0 <= k < etiquetas(archivo, t).len()
            ==> bien_formada(#[trigger] etiquetas(archivo, t)[k], archivo, t),
{
    assert(t.subrange(0, 0) =~= Seq::<char>::empty());
    lema_refs_desde(t, archivo, inicio());
}

} // verus!
