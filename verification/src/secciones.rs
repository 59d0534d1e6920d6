//! The sections of the report: a tree, each section with its subsections.
//!
//! Here the tree is edited as `xtal section` does (add, set, rename,
//! remove), listed, and flattened for the app, which shows a list, each
//! entry with how deep it is. Loading and saving the project, and running
//! the command and reading its JSON, are the program's part.
use vstd::prelude::*;
use crate::proceso::juntar;
use crate::texto::{agregar, aparece, cadena, caracteres, empieza_con, iguales, lineas, partir_lineas, recortar_izq, sin_blancos_izq, vistas};

verus! {

/// A section of the report: its title, its text, the plots it inserts as
/// figures, the file that holds its text (relative to the project's root;
/// none while the text is still in `xtal.toml`) and its subsections. It is
/// what `xtal --json section list` gives.
#[derive(Debug)]
pub struct Section {
    pub title: String,
    pub body: String,
    pub body_file: Option<String>,
    pub figures: Vec<String>,
    pub subsections: Vec<Section>,
}

/// A section of the list: its title, body, figures and nesting (0 for a
/// section, 1 for a subsection, ...).
#[derive(Debug)]
pub struct Seccion {
    pub titulo: String,
    pub cuerpo: String,
    pub figuras: Vec<String>,
    pub nivel: usize,
}

pub open spec fn textos(v: Seq<String>) -> Seq<Seq<char>> {
    v.map_values(|s: String| s@)
}

/// A section of the list as plain values.
pub open spec fn entrada(c: Section, nivel: int) -> (Seq<char>, Seq<char>, Seq<Seq<char>>, int) {
    (c.title@, c.body@, textos(c.figures@), nivel)
}

pub open spec fn vista_secciones(v: Seq<Seccion>) -> Seq<(Seq<char>, Seq<char>, Seq<Seq<char>>, int)> {
    v.map_values(|s: Seccion| (s.titulo@, s.cuerpo@, textos(s.figuras@), s.nivel as int))
}

/// The tree as a list: each section, right after it its subsections one
/// level deeper, then the next section.
pub open spec fn aplanado(cs: Seq<Section>, nivel: int) -> Seq<(Seq<char>, Seq<char>, Seq<Seq<char>>, int)>
    decreases cs,
{
    if cs.len() == 0 {
        Seq::empty()
    } else {
        proof {
            assert(decreases_to!(cs => cs[0]));
            assert(decreases_to!(cs[0] => cs[0].subsections));
            assert(decreases_to!(cs[0].subsections => cs[0].subsections@));
        }
        seq![entrada(cs[0], nivel)] + aplanado(cs[0].subsections@, nivel + 1) + aplanado(
            cs.subrange(1, cs.len() as int),
            nivel,
        )
    }
}

/// How deep the tree goes.
pub open spec fn profundidad(cs: Seq<Section>) -> nat
    decreases cs,
{
    if cs.len() == 0 {
        0
    } else {
        proof {
            assert(decreases_to!(cs => cs[0]));
            assert(decreases_to!(cs[0] => cs[0].subsections));
            assert(decreases_to!(cs[0].subsections => cs[0].subsections@));
        }
        let a = 1 + profundidad(cs[0].subsections@);
        let b = profundidad(cs.subrange(1, cs.len() as int));
        if a >= b {
            a
        } else {
            b
        }
    }
}

/// The tree as a list, each entry with its level (starting at `nivel`): a
/// list is drawn and walked better than a tree, and two levels are all a
/// report uses.
pub fn aplanar(arbol: Vec<Section>, nivel: usize) -> (r: Vec<Seccion>)
    requires
        nivel + profundidad(arbol@) <= usize::MAX,
    ensures
        vista_secciones(r@) == aplanado(arbol@, nivel as int),
    decreases arbol@,
{
    let ghost todas = arbol@;
    assert(todas.len() == arbol.len());
    let mut cs = arbol;
    let mut out: Vec<Seccion> = Vec::new();
    let mut j: usize = 0;
    assert(todas.subrange(0, todas.len() as int) =~= todas);
    while cs.len() > 0
        invariant
            j <= todas.len(),
            todas.len() <= usize::MAX,
            todas == arbol@,
            cs@ == todas.subrange(j as int, todas.len() as int),
            nivel + profundidad(cs@) <= usize::MAX,
            vista_secciones(out@) + aplanado(cs@, nivel as int) == aplanado(todas, nivel as int),
        decreases cs@.len(),
    {
        let ghost c0 = cs@;
        let c = cs.remove(0);
        assert(c == todas[j as int]);
        assert(cs@ =~= c0.subrange(1, c0.len() as int));
        assert(cs@ =~= todas.subrange(j + 1, todas.len() as int));
        let ghost antes = vista_secciones(out@);
        out.push(Seccion { titulo: c.title, cuerpo: c.body, figuras: c.figures, nivel });
        assert(vista_secciones(out@) =~= antes.push(entrada(c, nivel as int)));
        assert(decreases_to!(todas => todas[j as int]));
        assert(decreases_to!(todas[j as int] => todas[j as int].subsections));
        assert(decreases_to!(todas[j as int].subsections => todas[j as int].subsections@));
        assert(decreases_to!(todas => c.subsections@));
        let mut sub = aplanar(c.subsections, nivel + 1);
        let ghost medio = vista_secciones(out@);
        out.append(&mut sub);
        assert(vista_secciones(out@) =~= medio + aplanado(c.subsections@, nivel + 1));
        assert(vista_secciones(out@) + aplanado(cs@, nivel as int) =~= antes + aplanado(c0, nivel as int));
        j = j + 1;
    }
    assert(vista_secciones(out@) + aplanado(cs@, nivel as int) =~= vista_secciones(out@));
    out
}

// ---------------------------------------------------------------------------
// Editing the tree
// ---------------------------------------------------------------------------

/// A section as plain values.
#[verifier::ext_equal]
pub struct Nodo {
    pub titulo: Seq<char>,
    pub cuerpo: Seq<char>,
    pub archivo: Option<Seq<char>>,
    pub figuras: Seq<Seq<char>>,
    pub hijos: Seq<Nodo>,
}

pub open spec fn opt_texto(o: Option<String>) -> Option<Seq<char>> {
    match o {
        Some(s) => Some(s@),
        None => None,
    }
}

/// A section as plain values, with its subsections.
pub open spec fn nodo(s: Section) -> Nodo
    decreases s, 0int,
{
    proof {
        assert(decreases_to!(s => s.subsections));
        assert(decreases_to!(s.subsections => s.subsections@));
    }
    Nodo {
        titulo: s.title@,
        cuerpo: s.body@,
        archivo: opt_texto(s.body_file),
        figuras: textos(s.figures@),
        hijos: nodos(s.subsections@),
    }
}

/// Sections as plain values.
pub open spec fn nodos(cs: Seq<Section>) -> Seq<Nodo>
    decreases cs, cs.len(),
{
    if cs.len() == 0 {
        Seq::empty()
    } else {
        proof {
            assert(decreases_to!(cs => cs[0]));
        }
        seq![nodo(cs[0])] + nodos(cs.subrange(1, cs.len() as int))
    }
}

pub proof fn lema_nodos_concat(a: Seq<Section>, b: Seq<Section>)
    ensures
        nodos(a + b) == nodos(a) + nodos(b),
        nodos(a).len() == a.len(),
    decreases a.len(),
{
    if a.len() == 0 {
        assert(a + b =~= b);
        assert(nodos(a) + nodos(b) =~= nodos(b));
    } else {
        lema_nodos_concat(a.subrange(1, a.len() as int), b);
        assert((a + b).subrange(1, (a + b).len() as int) =~= a.subrange(1, a.len() as int) + b);
        assert((a + b)[0] == a[0]);
        assert(nodos(a + b) =~= nodos(a) + nodos(b));
    }
}

pub proof fn lema_nodos_uno(x: Section)
    ensures
        nodos(seq![x]) == seq![nodo(x)],
{
    assert(seq![x][0] == x);
    assert(seq![x].subrange(1, 1) =~= Seq::<Section>::empty());
    assert(nodos(Seq::<Section>::empty()) =~= Seq::<Nodo>::empty());
    assert(nodos(seq![x]) =~= seq![nodo(x)]);
}

/// A change to make to one section.
pub enum Cambio {
    /// Another title.
    Titulo(String),
    /// Another text and other figures, each where given.
    Contenido { body: Option<String>, figures: Option<Vec<String>> },
    /// One more subsection, at the end.
    Hija(Section),
}

/// The section `n` with the change `c`.
pub open spec fn cambiado(c: Cambio, n: Nodo) -> Nodo {
    match c {
        Cambio::Titulo(t) => Nodo { titulo: t@, ..n },
        Cambio::Contenido { body, figures } => Nodo {
            cuerpo: match body {
                Some(b) => b@,
                None => n.cuerpo,
            },
            figuras: match figures {
                Some(f) => textos(f@),
                None => n.figuras,
            },
            ..n
        },
        Cambio::Hija(h) => Nodo { hijos: n.hijos.push(nodo(h)), ..n },
    }
}

/// The sections with the change `c` made to the first one titled `titulo`,
/// in the order of the report (a section, then its subsections, then the
/// next one); and whether there was one.
pub open spec fn con_cambio(ns: Seq<Nodo>, titulo: Seq<char>, c: Cambio) -> (Seq<Nodo>, bool)
    decreases ns,
{
    if ns.len() == 0 {
        (ns, false)
    } else if ns[0].titulo == titulo {
        (seq![cambiado(c, ns[0])] + ns.subrange(1, ns.len() as int), true)
    } else {
        proof {
            assert(decreases_to!(ns => ns[0]));
            assert(decreases_to!(ns[0] => ns[0].hijos));
        }
        let (h, hallada) = con_cambio(ns[0].hijos, titulo, c);
        if hallada {
            (seq![Nodo { hijos: h, ..ns[0] }] + ns.subrange(1, ns.len() as int), true)
        } else {
            let (resto, en_resto) = con_cambio(ns.subrange(1, ns.len() as int), titulo, c);
            (seq![ns[0]] + resto, en_resto)
        }
    }
}

pub proof fn lema_sin_cambio(ns: Seq<Nodo>, titulo: Seq<char>, c: Cambio)
    ensures
        !con_cambio(ns, titulo, c).1 ==> con_cambio(ns, titulo, c).0 == ns,
    decreases ns,
{
    if ns.len() > 0 && ns[0].titulo != titulo {
        assert(decreases_to!(ns => ns[0]));
        assert(decreases_to!(ns[0] => ns[0].hijos));
        lema_sin_cambio(ns[0].hijos, titulo, c);
        lema_sin_cambio(ns.subrange(1, ns.len() as int), titulo, c);
        assert(seq![ns[0]] + ns.subrange(1, ns.len() as int) =~= ns);
    }
}

/// The sections with the change made to the first one titled `titulo` (see
/// `con_cambio`); the change back, unmade, where there is none.
pub fn cambiar(secciones: Vec<Section>, titulo: &Vec<char>, cambio: Cambio) -> (r: (Vec<Section>, Option<Cambio>))
    ensures
        nodos(r.0@) == con_cambio(nodos(secciones@), titulo@, cambio).0,
        (r.1 is None) == con_cambio(nodos(secciones@), titulo@, cambio).1,
        r.1 matches Some(d) ==> d == cambio,
    decreases secciones@,
{
    let ghost todas = secciones@;
    let ghost ns = nodos(todas);
    let ghost c0 = cambio;
    let mut c = cambio;
    assert(todas.len() == secciones.len());
    let mut pend = secciones;
    let mut out: Vec<Section> = Vec::new();
    let mut j: usize = 0;
    assert(todas.subrange(0, 0) =~= Seq::<Section>::empty());
    assert(todas.subrange(0, todas.len() as int) =~= todas);
    while pend.len() > 0
        invariant
            j <= todas.len(),
            todas.len() <= usize::MAX,
            todas == secciones@,
            c0 == cambio,
            ns == nodos(todas),
            pend@ == todas.subrange(j as int, todas.len() as int),
            c == c0,
            con_cambio(ns, titulo@, c0) == (nodos(out@) + con_cambio(nodos(pend@), titulo@, c0).0, con_cambio(
                nodos(pend@),
                titulo@,
                c0,
            ).1),
        decreases pend@.len(),
    {
        let ghost p0 = pend@;
        let ghost hecho0 = out@;
        assert(con_cambio(ns, titulo@, c0) == (nodos(hecho0) + con_cambio(nodos(p0), titulo@, c0).0, con_cambio(
            nodos(p0),
            titulo@,
            c0,
        ).1));
        let s = pend.remove(0);
        assert(s == todas[j as int]);
        assert(p0 =~= seq![s] + pend@);
        proof {
            lema_nodos_concat(seq![s], pend@);
            lema_nodos_uno(s);
            lema_nodos_concat(pend@, Seq::empty());
            assert(nodos(p0)[0] == nodo(s));
            assert(nodos(p0).subrange(1, nodos(p0).len() as int) =~= nodos(pend@));
        }
        let Section { title, body, body_file, figures, subsections } = s;
        if iguales(&caracteres(title.as_str()), titulo) {
            let ghost n0 = nodo(s);
            let nueva = match c {
                Cambio::Titulo(t) => {
                    let n = Section { title: t, body, body_file, figures, subsections };
                    assert(nodo(n) =~= cambiado(c0, n0));
                    n
                },
                Cambio::Contenido { body: b, figures: f } => {
                    let cuerpo = match b {
                        Some(x) => x,
                        None => body,
                    };
                    let figuras = match f {
                        Some(x) => x,
                        None => figures,
                    };
                    let n = Section { title, body: cuerpo, body_file, figures: figuras, subsections };
                    assert(nodo(n) =~= cambiado(c0, n0));
                    n
                },
                Cambio::Hija(h) => {
                    let mut subs = subsections;
                    let ghost antes = subs@;
                    subs.push(h);
                    proof {
                        lema_nodos_concat(antes, seq![h]);
                        lema_nodos_uno(h);
                        assert(subs@ =~= antes + seq![h]);
                    }
                    assert(nodos(subs@) =~= nodos(antes).push(nodo(h)));
                    assert(n0.hijos == nodos(antes));
                    assert(c0 == Cambio::Hija(h));
                    let n = Section { title, body, body_file, figures, subsections: subs };
                    assert(nodo(n).hijos == nodos(subs@));
                    assert(nodo(n) =~= cambiado(c0, n0));
                    n
                },
            };
            let ghost hecho = out@;
            out.push(nueva);
            out.append(&mut pend);
            proof {
                lema_nodos_concat(hecho, seq![nueva]);
                lema_nodos_uno(nueva);
                lema_nodos_concat(hecho.push(nueva), p0.subrange(1, p0.len() as int));
                assert(out@ =~= hecho.push(nueva) + p0.subrange(1, p0.len() as int));
                assert(hecho.push(nueva) =~= hecho + seq![nueva]);
                assert(nodos(hecho.push(nueva)) =~= nodos(hecho) + seq![nodo(nueva)]);
                assert(nodos(p0)[0].titulo == titulo@);
                assert(con_cambio(nodos(p0), titulo@, c0).0 =~= seq![cambiado(c0, n0)] + nodos(p0).subrange(1, nodos(p0).len() as int));
                assert(nodos(out@) =~= nodos(hecho) + con_cambio(nodos(p0), titulo@, c0).0);
                assert(con_cambio(nodos(p0), titulo@, c0).1);
                assert(hecho == hecho0);
                assert(con_cambio(ns, titulo@, c0).0 == nodos(hecho0) + con_cambio(nodos(p0), titulo@, c0).0);
                assert(nodos(out@) =~= con_cambio(ns, titulo@, c0).0);
                assert(c0 == cambio);
                assert(ns == nodos(secciones@));
            }
            return (out, None);
        }
        proof {
            assert(decreases_to!(todas => todas[j as int]));
            assert(decreases_to!(todas[j as int] => todas[j as int].subsections));
            assert(decreases_to!(todas[j as int].subsections => todas[j as int].subsections@));
        }
        let ghost subs0 = subsections@;
        let (subs, resto) = cambiar(subsections, titulo, c);
        let nueva = Section { title, body, body_file, figures, subsections: subs };
        let ghost hecho = out@;
        match resto {
            None => {
                out.push(nueva);
                out.append(&mut pend);
                proof {
                    lema_nodos_concat(hecho, seq![nueva]);
                    lema_nodos_uno(nueva);
                    lema_nodos_concat(hecho.push(nueva), p0.subrange(1, p0.len() as int));
                    assert(out@ =~= hecho.push(nueva) + p0.subrange(1, p0.len() as int));
                    assert(hecho.push(nueva) =~= hecho + seq![nueva]);
                    assert(nodos(hecho.push(nueva)) =~= nodos(hecho) + seq![nodo(nueva)]);
                    assert(nodos(p0)[0].titulo != titulo@);
                    assert(con_cambio(nodos(p0), titulo@, c0).0 =~= seq![nodo(nueva)] + nodos(p0).subrange(
                        1,
                        nodos(p0).len() as int,
                    ));
                    assert(nodos(out@) =~= nodos(hecho) + con_cambio(nodos(p0), titulo@, c0).0);
                    assert(con_cambio(nodos(p0), titulo@, c0).1);
                }
                return (out, None);
            },
            Some(d) => {
                proof {
                    lema_sin_cambio(nodos(subs0), titulo@, c0);
                    lema_nodos_concat(hecho, seq![nueva]);
                    lema_nodos_uno(nueva);
                }
                c = d;
                out.push(nueva);
                assert(nodo(nueva) =~= nodo(s));
                assert(out@ =~= hecho + seq![nueva]);
                j = j + 1;
                assert(nodos(out@) + con_cambio(nodos(pend@), titulo@, c0).0 =~= nodos(hecho) + con_cambio(
                    nodos(p0),
                    titulo@,
                    c0,
                ).0);
            },
        }
    }
    proof {
        assert(nodos(pend@) =~= Seq::<Nodo>::empty());
        assert(nodos(out@) + Seq::<Nodo>::empty() =~= nodos(out@));
    }
    (out, Some(c))
}

pub proof fn lema_nodos_punto(a: Seq<Section>)
    ensures
        nodos(a).len() == a.len(),
        forall|k: int| 0 <= k < a.len() ==> nodos(a)[k] == nodo(#[trigger] a[k]),
    decreases a.len(),
{
    if a.len() > 0 {
        let resto = a.subrange(1, a.len() as int);
        lema_nodos_punto(resto);
        assert forall|k: int| 0 <= k < a.len() implies nodos(a)[k] == nodo(#[trigger] a[k]) by {
            if k > 0 {
                assert(resto[k - 1] == a[k]);
            }
        }
    }
}

/// The first of `ns` from `i` on titled `titulo`; none is `ns.len()`.
pub open spec fn primera_desde(ns: Seq<Nodo>, titulo: Seq<char>, i: int) -> int
    decreases ns.len() - i,
{
    if i < 0 || i >= ns.len() {
        ns.len() as int
    } else if ns[i].titulo == titulo {
        i
    } else {
        primera_desde(ns, titulo, i + 1)
    }
}

pub proof fn lema_primera_desde(ns: Seq<Nodo>, titulo: Seq<char>, i: int)
    requires
        0 <= i <= ns.len(),
    ensures
        i <= primera_desde(ns, titulo, i) <= ns.len(),
        primera_desde(ns, titulo, i) < ns.len() ==> ns[primera_desde(ns, titulo, i)].titulo == titulo,
        forall|k: int| i <= k < primera_desde(ns, titulo, i) ==> (#[trigger] ns[k]).titulo != titulo,
    decreases ns.len() - i,
{
    if i < ns.len() && ns[i].titulo != titulo {
        lema_primera_desde(ns, titulo, i + 1);
    }
}

/// The sections without the first one titled `titulo`, with its
/// subsections: looked for first among these, then inside each one's
/// subsections in order; and whether there was one.
pub open spec fn quitado(ns: Seq<Nodo>, titulo: Seq<char>) -> (Seq<Nodo>, bool)
    decreases ns, 1int, 0int,
{
    let i = primera_desde(ns, titulo, 0);
    if i < ns.len() {
        (ns.remove(i), true)
    } else {
        quitado_en_hijos(ns, titulo, 0)
    }
}

/// The first removal inside the subsections of `ns[k]`, `ns[k + 1]`, ...
pub open spec fn quitado_en_hijos(ns: Seq<Nodo>, titulo: Seq<char>, k: int) -> (Seq<Nodo>, bool)
    decreases ns, 0int, ns.len() - k,
{
    if k < 0 || k >= ns.len() {
        (ns, false)
    } else {
        proof {
            assert(decreases_to!(ns => ns[k]));
            assert(decreases_to!(ns[k] => ns[k].hijos));
        }
        let (h, hallada) = quitado(ns[k].hijos, titulo);
        if hallada {
            (ns.update(k, Nodo { hijos: h, ..ns[k] }), true)
        } else {
            quitado_en_hijos(ns, titulo, k + 1)
        }
    }
}

pub proof fn lema_sin_quitar(ns: Seq<Nodo>, titulo: Seq<char>)
    ensures
        !quitado(ns, titulo).1 ==> quitado(ns, titulo).0 == ns,
    decreases ns, 1int, 0int,
{
    lema_sin_quitar_en_hijos(ns, titulo, 0);
}

pub proof fn lema_sin_quitar_en_hijos(ns: Seq<Nodo>, titulo: Seq<char>, k: int)
    ensures
        !quitado_en_hijos(ns, titulo, k).1 ==> quitado_en_hijos(ns, titulo, k).0 == ns,
    decreases ns, 0int, ns.len() - k,
{
    if 0 <= k < ns.len() {
        lema_sin_quitar_en_hijos(ns, titulo, k + 1);
    }
}

/// The sections without the first one titled `titulo` (see `quitado`),
/// and whether there was one.
pub fn quitar(secciones: Vec<Section>, titulo: &Vec<char>) -> (r: (Vec<Section>, bool))
    ensures
        nodos(r.0@) == quitado(nodos(secciones@), titulo@).0,
        r.1 == quitado(nodos(secciones@), titulo@).1,
    decreases secciones@,
{
    let ghost todas = secciones@;
    let ghost ns = nodos(todas);
    proof {
        lema_nodos_punto(todas);
        lema_primera_desde(ns, titulo@, 0);
    }
    let mut i: usize = 0;
    while i < secciones.len()
        invariant
            i <= secciones@.len(),
            todas == secciones@,
            ns == nodos(todas),
            ns.len() == todas.len(),
            forall|k: int| 0 <= k < todas.len() ==> ns[k] == nodo(#[trigger] todas[k]),
            primera_desde(ns, titulo@, 0) == primera_desde(ns, titulo@, i as int),
        decreases secciones@.len() - i,
    {
        assert(ns[i as int] == nodo(todas[i as int]));
        if iguales(&caracteres(secciones[i].title.as_str()), titulo) {
            let mut v = secciones;
            v.remove(i);
            proof {
                lema_nodos_punto(v@);
                assert(v@ =~= todas.remove(i as int));
                assert forall|k: int| 0 <= k < v@.len() implies nodos(v@)[k] == ns.remove(i as int)[k] by {
                    assert(nodos(v@)[k] == nodo(v@[k]));
                    if k < i {
                        assert(v@[k] == todas[k]);
                    } else {
                        assert(v@[k] == todas[k + 1]);
                    }
                }
                assert(nodos(v@) =~= ns.remove(i as int));
            }
            return (v, true);
        }
        i = i + 1;
    }
    assert(primera_desde(ns, titulo@, 0) == ns.len());
    assert(todas.len() == secciones.len());
    let mut pend = secciones;
    let mut out: Vec<Section> = Vec::new();
    let mut j: usize = 0;
    assert(todas.subrange(0, 0) =~= Seq::<Section>::empty());
    while pend.len() > 0
        invariant
            j <= todas.len(),
            todas.len() <= usize::MAX,
            todas == secciones@,
            ns == nodos(todas),
            ns.len() == todas.len(),
            forall|k: int| 0 <= k < todas.len() ==> ns[k] == nodo(#[trigger] todas[k]),
            pend@ == todas.subrange(j as int, todas.len() as int),
            nodos(out@) == ns.take(j as int),
            quitado(ns, titulo@) == quitado_en_hijos(ns, titulo@, j as int),
            primera_desde(ns, titulo@, 0) == ns.len(),
        decreases pend@.len(),
    {
        let ghost p0 = pend@;
        let ghost hecho = out@;
        let s = pend.remove(0);
        assert(s == todas[j as int]);
        assert(pend@ =~= todas.subrange(j + 1, todas.len() as int));
        proof {
            assert(decreases_to!(todas => todas[j as int]));
            assert(decreases_to!(todas[j as int] => todas[j as int].subsections));
            assert(decreases_to!(todas[j as int].subsections => todas[j as int].subsections@));
            assert(ns[j as int] == nodo(s));
            assert(nodo(s).hijos == nodos(s.subsections@));
        }
        let Section { title, body, body_file, figures, subsections } = s;
        let ghost subs0 = subsections@;
        let (subs, hallada) = quitar(subsections, titulo);
        let nueva = Section { title, body, body_file, figures, subsections: subs };
        out.push(nueva);
        proof {
            lema_nodos_concat(hecho, seq![nueva]);
            lema_nodos_uno(nueva);
            assert(out@ =~= hecho + seq![nueva]);
        }
        if hallada {
            out.append(&mut pend);
            proof {
                let nj = Nodo { hijos: quitado(nodos(subs0), titulo@).0, ..ns[j as int] };
                assert(nodo(nueva) =~= nj);
                lema_nodos_concat(hecho + seq![nueva], todas.subrange(j + 1, todas.len() as int));
                lema_nodos_punto(todas.subrange(j + 1, todas.len() as int));
                assert(out@ =~= hecho + seq![nueva] + todas.subrange(j + 1, todas.len() as int));
                assert(quitado_en_hijos(ns, titulo@, j as int) == (ns.update(j as int, nj), true));
                let resto = todas.subrange(j + 1, todas.len() as int);
                assert(nodos(out@) == ns.take(j as int) + seq![nj] + nodos(resto));
                assert forall|k: int| 0 <= k < ns.len() implies nodos(out@)[k] == ns.update(j as int, nj)[k] by {
                    if k > j {
                        assert(nodos(resto)[k - j - 1] == nodo(resto[k - j - 1]));
                        assert(resto[k - j - 1] == todas[k]);
                    }
                }
                assert(nodos(out@) =~= ns.update(j as int, nj));
            }
            return (out, true);
        }
        proof {
            lema_sin_quitar(nodos(subs0), titulo@);
            assert(nodo(nueva) =~= ns[j as int]);
            assert(ns.take(j + 1) =~= ns.take(j as int).push(ns[j as int]));
        }
        j = j + 1;
    }
    assert(j == todas.len());
    assert(ns.take(j as int) =~= ns);
    assert(quitado_en_hijos(ns, titulo@, j as int) == (ns, false));
    (out, false)
}

/// Some section, at any depth, is titled `titulo`.
pub open spec fn hay_titulo(ns: Seq<Nodo>, titulo: Seq<char>) -> bool
    decreases ns,
{
    if ns.len() == 0 {
        false
    } else if ns[0].titulo == titulo {
        true
    } else {
        proof {
            assert(decreases_to!(ns => ns[0]));
            assert(decreases_to!(ns[0] => ns[0].hijos));
        }
        hay_titulo(ns[0].hijos, titulo) || hay_titulo(ns.subrange(1, ns.len() as int), titulo)
    }
}

pub proof fn lema_hay_titulo(ns: Seq<Nodo>, titulo: Seq<char>, c: Cambio)
    ensures
        con_cambio(ns, titulo, c).1 == hay_titulo(ns, titulo),
    decreases ns,
{
    if ns.len() > 0 && ns[0].titulo != titulo {
        assert(decreases_to!(ns => ns[0]));
        assert(decreases_to!(ns[0] => ns[0].hijos));
        lema_hay_titulo(ns[0].hijos, titulo, c);
        lema_hay_titulo(ns.subrange(1, ns.len() as int), titulo, c);
    }
}

/// Whether some section, at any depth, is titled `titulo`.
pub fn tiene_titulo(secciones: &Vec<Section>, titulo: &Vec<char>) -> (r: bool)
    ensures
        r == hay_titulo(nodos(secciones@), titulo@),
    decreases secciones@,
{
    let ghost todas = secciones@;
    let mut j: usize = 0;
    assert(todas.subrange(0, todas.len() as int) =~= todas);
    while j < secciones.len()
        invariant
            j <= todas.len(),
            todas == secciones@,
            hay_titulo(nodos(todas), titulo@) == hay_titulo(nodos(todas.subrange(j as int, todas.len() as int)), titulo@),
        decreases todas.len() - j,
    {
        let ghost resto = todas.subrange(j as int, todas.len() as int);
        proof {
            assert(resto =~= seq![todas[j as int]] + todas.subrange(j + 1, todas.len() as int));
            lema_nodos_concat(seq![todas[j as int]], todas.subrange(j + 1, todas.len() as int));
            lema_nodos_uno(todas[j as int]);
            let nr = nodos(resto);
            assert(nr[0] == nodo(todas[j as int]));
            assert(nr.subrange(1, nr.len() as int) =~= nodos(todas.subrange(j + 1, todas.len() as int)));
            assert(decreases_to!(todas => todas[j as int]));
            assert(decreases_to!(todas[j as int] => todas[j as int].subsections));
            assert(decreases_to!(todas[j as int].subsections => todas[j as int].subsections@));
        }
        if iguales(&caracteres(secciones[j].title.as_str()), titulo) {
            return true;
        }
        if tiene_titulo(&secciones[j].subsections, titulo) {
            return true;
        }
        j = j + 1;
    }
    assert(nodos(todas.subrange(j as int, todas.len() as int)) =~= Seq::<Nodo>::empty());
    false
}

impl Section {
    /// A section with only its title: no text, no figures, no file, no
    /// subsections.
    pub fn new(title: &str) -> (s: Section)
        ensures
            nodo(s) == (Nodo {
                titulo: title@,
                cuerpo: Seq::empty(),
                archivo: None,
                figuras: Seq::empty(),
                hijos: Seq::empty(),
            }),
    {
        let s = Section {
            title: title.to_owned(),
            body: String::new(),
            body_file: None,
            figures: Vec::new(),
            subsections: Vec::new(),
        };
        proof {
            assert(s.body@ =~= Seq::<char>::empty());
            assert(textos(s.figures@) =~= Seq::<Seq<char>>::empty());
            assert(nodos(s.subsections@) =~= Seq::<Nodo>::empty());
        }
        assert(nodo(s) =~= (Nodo {
            titulo: title@,
            cuerpo: Seq::empty(),
            archivo: None,
            figuras: Seq::empty(),
            hijos: Seq::empty(),
        }));
        s
    }
}

/// The message for a section that is not there.
pub open spec fn no_esta(titulo: Seq<char>) -> Seq<char> {
    "no encontré la sección '"@ + titulo + "'"@
}

fn mensaje_no_esta(titulo: &str) -> (m: String)
    ensures
        m@ == no_esta(titulo@),
{
    let mut t = caracteres("no encontré la sección '");
    agregar(&mut t, &caracteres(titulo));
    agregar(&mut t, &caracteres("'"));
    cadena(&t)
}

/// The section `xtal section add` makes: its title, its text (none where not
/// given) and its figures.
pub open spec fn nueva_seccion(title: Seq<char>, figures: Seq<Seq<char>>, body: Option<Seq<char>>) -> Nodo {
    Nodo {
        titulo: title,
        cuerpo: match body {
            Some(b) => b,
            None => Seq::empty(),
        },
        archivo: None,
        figuras: figures,
        hijos: Seq::empty(),
    }
}

/// `xtal section add`: a new section, at the end of the report, or as the
/// last subsection of the first section titled `under` (an error where
/// there is none).
pub fn section_add(secciones: Vec<Section>, title: &str, figures: Vec<String>, body: Option<String>, under: Option<String>) -> (r: Result<Vec<Section>, String>)
    ensures
        ({
            let nueva = nueva_seccion(title@, textos(figures@), opt_texto(body));
            match under {
                None => r matches Ok(v) && nodos(v@) == nodos(secciones@).push(nueva),
                Some(p) => if hay_titulo(nodos(secciones@), p@) {
                    r matches Ok(v) && nodos(v@) == con_cambio_hija(nodos(secciones@), p@, nueva)
                } else {
                    r matches Err(e) && e@ == "no encontré la sección padre '"@ + p@ + "'"@
                },
            }
        }),
{
    let mut s = Section::new(title);
    s.figures = figures;
    if let Some(b) = body {
        s.body = b;
    }
    let ghost nueva = nueva_seccion(title@, textos(figures@), opt_texto(body));
    assert(nodo(s) =~= nueva);
    match under {
        None => {
            let mut v = secciones;
            let ghost antes = v@;
            v.push(s);
            proof {
                lema_nodos_concat(antes, seq![s]);
                lema_nodos_uno(s);
                assert(v@ =~= antes + seq![s]);
            }
            Ok(v)
        },
        Some(p) => {
            let ghost ns = nodos(secciones@);
            let ghost c = Cambio::Hija(s);
            proof {
                lema_hay_titulo(ns, p@, c);
                lema_con_cambio_hija(ns, p@, s);
            }
            let (v, resto) = cambiar(secciones, &caracteres(p.as_str()), Cambio::Hija(s));
            match resto {
                None => Ok(v),
                Some(_) => {
                    let mut t = caracteres("no encontré la sección padre '");
                    agregar(&mut t, &caracteres(p.as_str()));
                    agregar(&mut t, &caracteres("'"));
                    Err(cadena(&t))
                },
            }
        },
    }
}

/// The sections with `nueva` added as the last subsection of the first one
/// titled `padre`.
pub open spec fn con_cambio_hija(ns: Seq<Nodo>, padre: Seq<char>, nueva: Nodo) -> Seq<Nodo>
    decreases ns,
{
    if ns.len() == 0 {
        ns
    } else if ns[0].titulo == padre {
        seq![Nodo { hijos: ns[0].hijos.push(nueva), ..ns[0] }] + ns.subrange(1, ns.len() as int)
    } else {
        proof {
            assert(decreases_to!(ns => ns[0]));
            assert(decreases_to!(ns[0] => ns[0].hijos));
        }
        if hay_titulo(ns[0].hijos, padre) {
            seq![Nodo { hijos: con_cambio_hija(ns[0].hijos, padre, nueva), ..ns[0] }] + ns.subrange(1, ns.len() as int)
        } else {
            seq![ns[0]] + con_cambio_hija(ns.subrange(1, ns.len() as int), padre, nueva)
        }
    }
}

pub proof fn lema_con_cambio_hija(ns: Seq<Nodo>, padre: Seq<char>, h: Section)
    ensures
        con_cambio(ns, padre, Cambio::Hija(h)).0 == con_cambio_hija(ns, padre, nodo(h)),
    decreases ns,
{
    if ns.len() > 0 && ns[0].titulo != padre {
        assert(decreases_to!(ns => ns[0]));
        assert(decreases_to!(ns[0] => ns[0].hijos));
        lema_con_cambio_hija(ns[0].hijos, padre, h);
        lema_con_cambio_hija(ns.subrange(1, ns.len() as int), padre, h);
        lema_hay_titulo(ns[0].hijos, padre, Cambio::Hija(h));
    }
}

/// A text that brings a line starting (after its blanks) with
/// `[[sections]]`: a whole `xtal.toml`, most surely, not a section's text.
pub open spec fn trae_un_manifiesto(body: Seq<char>) -> bool {
    exists|k: int| 0 <= k < lineas(body).len() && empieza_con(sin_blancos_izq(#[trigger] lineas(body)[k]), "[[sections]]"@)
}

/// Whether a text brings an `xtal.toml` inside (see `trae_un_manifiesto`).
pub fn trae_manifiesto(body: &str) -> (r: bool)
    ensures
        r == trae_un_manifiesto(body@),
{
    let ls = partir_lineas(&caracteres(body));
    let marca = caracteres("[[sections]]");
    let mut k: usize = 0;
    while k < ls.len()
        invariant
            k <= ls@.len(),
            vistas(ls@) == lineas(body@),
            marca@ == "[[sections]]"@,
            forall|j: int| 0 <= j < k ==> !empieza_con(sin_blancos_izq(#[trigger] lineas(body@)[j]), "[[sections]]"@),
        decreases ls@.len() - k,
    {
        assert(vistas(ls@)[k as int] == ls@[k as int]@);
        if aparece(&recortar_izq(&ls[k]), 0, &marca) {
            return true;
        }
        k = k + 1;
    }
    false
}

/// The message for a text that brings an `xtal.toml` inside.
pub open spec fn mensaje_manifiesto() -> Seq<char> {
    "el cuerpo trae un `[[sections]]` adentro: eso es un xtal.toml, \n                                no el texto de una sección. No lo guardo para no duplicarte el informe."@
}

/// `xtal section set`: another text and other figures (each where given) for
/// the first section titled `title`. An error where there is none; and,
/// where there is, where the text brings a whole `xtal.toml` inside, which
/// would leave the report with its sections tripled.
pub fn section_set(secciones: Vec<Section>, title: &str, body: Option<String>, figures: Option<Vec<String>>) -> (r: Result<Vec<Section>, String>)
    ensures
        ({
            let ns = nodos(secciones@);
            if !hay_titulo(ns, title@) {
                r matches Err(e) && e@ == no_esta(title@)
            } else if body matches Some(b) && trae_un_manifiesto(b@) {
                r matches Err(e) && e@ == mensaje_manifiesto()
            } else {
                r matches Ok(v) && nodos(v@) == con_cambio(ns, title@, Cambio::Contenido { body, figures }).0
            }
        }),
{
    let t = caracteres(title);
    let ghost ns = nodos(secciones@);
    proof {
        lema_hay_titulo(ns, title@, Cambio::Contenido { body, figures });
    }
    let hay = tiene_titulo(&secciones, &t);
    if !hay {
        return Err(mensaje_no_esta(title));
    }
    if let Some(b) = &body {
        if trae_manifiesto(b.as_str()) {
            return Err("el cuerpo trae un `[[sections]]` adentro: eso es un xtal.toml, \n                                no el texto de una sección. No lo guardo para no duplicarte el informe.".to_owned());
        }
    }
    let (v, _) = cambiar(secciones, &t, Cambio::Contenido { body, figures });
    Ok(v)
}

/// `xtal section rename`: the first section titled `from` is titled `to`;
/// an error where there is none.
pub fn section_rename(secciones: Vec<Section>, from: &str, to: String) -> (r: Result<Vec<Section>, String>)
    ensures
        ({
            let ns = nodos(secciones@);
            let (cs, hallada) = con_cambio(ns, from@, Cambio::Titulo(to));
            if hallada {
                r matches Ok(v) && nodos(v@) == cs
            } else {
                r matches Err(e) && e@ == no_esta(from@)
            }
        }),
{
    let (v, resto) = cambiar(secciones, &caracteres(from), Cambio::Titulo(to));
    match resto {
        None => Ok(v),
        Some(_) => Err(mensaje_no_esta(from)),
    }
}

/// `xtal section remove`: the report without the first section titled
/// `title` (see `quitado`), with its subsections, which are part of it; an
/// error where there is none.
pub fn section_remove(secciones: Vec<Section>, title: &str) -> (r: Result<Vec<Section>, String>)
    ensures
        ({
            let (cs, hallada) = quitado(nodos(secciones@), title@);
            if hallada {
                r matches Ok(v) && nodos(v@) == cs
            } else {
                r matches Err(e) && e@ == no_esta(title@)
            }
        }),
{
    let (v, hallada) = quitar(secciones, &caracteres(title));
    if hallada {
        Ok(v)
    } else {
        Err(mensaje_no_esta(title))
    }
}

/// `d` levels of indentation, two spaces each.
pub open spec fn sangria(d: nat) -> Seq<char>
    decreases d,
{
    if d == 0 {
        Seq::empty()
    } else {
        sangria((d - 1) as nat) + "  "@
    }
}

/// How `xtal section list` shows an entry: indented by its level, its
/// title after a dash and, where it has any, its figures.
pub open spec fn linea_de(e: (Seq<char>, Seq<char>, Seq<Seq<char>>, int)) -> Seq<char> {
    sangria(e.3 as nat) + "- "@ + e.0 + if e.2.len() == 0 {
        Seq::<char>::empty()
    } else {
        "  [figuras: "@ + juntar(e.2, ", "@) + "]"@
    }
}

fn sangria_exec(d: usize) -> (r: Vec<char>)
    ensures
        r@ == sangria(d as nat),
{
    let mut v: Vec<char> = Vec::new();
    let mut k: usize = 0;
    while k < d
        invariant
            k <= d,
            v@ == sangria(k as nat),
        decreases d - k,
    {
        let ghost antes = v@;
        v.push(' ');
        v.push(' ');
        k = k + 1;
        proof {
            reveal_strlit("  ");
            assert("  "@.len() == 2 && "  "@[0] == ' ' && "  "@[1] == ' ');
            assert(v@ =~= antes + "  "@);
        }
    }
    v
}

/// How `xtal section list` shows a section at the level `nivel`.
fn linea(c: &Section, nivel: usize) -> (r: String)
    ensures
        r@ == linea_de(entrada(*c, nivel as int)),
{
    let mut t = sangria_exec(nivel);
    agregar(&mut t, &caracteres("- "));
    agregar(&mut t, &caracteres(c.title.as_str()));
    if c.figures.len() > 0 {
        agregar(&mut t, &caracteres("  [figuras: "));
        let ghost xs = textos(c.figures@);
        agregar(&mut t, &caracteres(c.figures[0].as_str()));
        let ghost base = t@.subrange(0, t@.len() - c.figures@[0]@.len());
        assert(xs.take(1) =~= seq![xs[0]]);
        assert(t@ =~= base + juntar(xs.take(1), ", "@));
        let mut k: usize = 1;
        while k < c.figures.len()
            invariant
                1 <= k <= c.figures@.len(),
                xs == textos(c.figures@),
                t@ == base + juntar(xs.take(k as int), ", "@),
            decreases c.figures@.len() - k,
        {
            agregar(&mut t, &caracteres(", "));
            agregar(&mut t, &caracteres(c.figures[k].as_str()));
            assert(xs.take(k + 1).drop_last() =~= xs.take(k as int));
            assert(xs.take(k + 1).last() == xs[k as int]);
            k = k + 1;
        }
        assert(xs.take(c.figures@.len() as int) =~= xs);
        agregar(&mut t, &caracteres("]"));
    }
    cadena(&t)
}

/// The lines of `xtal section list`: each section, then its subsections one
/// level deeper, then the next one.
pub fn lineas_de_secciones(secciones: &Vec<Section>, nivel: usize) -> (r: Vec<String>)
    requires
        nivel + profundidad(secciones@) <= usize::MAX,
    ensures
        textos(r@) == aplanado(secciones@, nivel as int).map_values(|e: (Seq<char>, Seq<char>, Seq<Seq<char>>, int)| linea_de(e)),
    decreases secciones@,
{
    let ghost todas = secciones@;
    let mut out: Vec<String> = Vec::new();
    let mut j: usize = 0;
    assert(todas.subrange(0, todas.len() as int) =~= todas);
    while j < secciones.len()
        invariant
            j <= todas.len(),
            todas == secciones@,
            nivel + profundidad(todas) <= usize::MAX,
            nivel + profundidad(todas.subrange(j as int, todas.len() as int)) <= usize::MAX,
            textos(out@) + aplanado(todas.subrange(j as int, todas.len() as int), nivel as int).map_values(
                |e: (Seq<char>, Seq<char>, Seq<Seq<char>>, int)| linea_de(e),
            ) == aplanado(todas, nivel as int).map_values(|e: (Seq<char>, Seq<char>, Seq<Seq<char>>, int)| linea_de(e)),
        decreases todas.len() - j,
    {
        let c = &secciones[j];
        let ghost resto = todas.subrange(j as int, todas.len() as int);
        let ghost sig = todas.subrange(j + 1, todas.len() as int);
        assert(resto[0] == *c);
        assert(resto.subrange(1, resto.len() as int) =~= sig);
        let ghost f = |e: (Seq<char>, Seq<char>, Seq<Seq<char>>, int)| linea_de(e);
        let ghost antes = textos(out@);
        out.push(linea(c, nivel));
        assert(textos(out@) =~= antes.push(linea_de(entrada(*c, nivel as int))));
        proof {
            assert(decreases_to!(todas => todas[j as int]));
            assert(decreases_to!(todas[j as int] => todas[j as int].subsections));
            assert(decreases_to!(todas[j as int].subsections => todas[j as int].subsections@));
        }
        let ghost medio = textos(out@);
        let sub = lineas_de_secciones(&c.subsections, nivel + 1);
        let mut k: usize = 0;
        while k < sub.len()
            invariant
                k <= sub@.len(),
                textos(out@) == medio + textos(sub@).take(k as int),
            decreases sub@.len() - k,
        {
            let ghost previo = textos(out@);
            out.push(sub[k].clone());
            assert(textos(out@) =~= previo.push(sub@[k as int]@));
            assert(textos(sub@).take(k + 1) =~= textos(sub@).take(k as int).push(sub@[k as int]@));
            k = k + 1;
        }
        assert(textos(sub@).take(sub@.len() as int) =~= textos(sub@));
        let ghost a0 = aplanado(resto, nivel as int);
        assert(a0 == seq![entrada(*c, nivel as int)] + aplanado(c.subsections@, nivel + 1) + aplanado(sig, nivel as int));
        assert(a0.map_values(f) =~= seq![linea_de(entrada(*c, nivel as int))] + aplanado(c.subsections@, nivel + 1).map_values(f)
            + aplanado(sig, nivel as int).map_values(f));
        assert(textos(out@) + aplanado(sig, nivel as int).map_values(f) =~= antes + a0.map_values(f));
        j = j + 1;
    }
    assert(aplanado(todas.subrange(j as int, todas.len() as int), nivel as int) =~= Seq::<(Seq<char>, Seq<char>, Seq<Seq<char>>, int)>::empty());
    assert(textos(out@) + Seq::<Seq<char>>::empty() =~= textos(out@));
    out
}

/// Renaming a section and renaming it back leaves the report as it was,
/// where no section had the new title.
pub proof fn renombrar_y_volver(ns: Seq<Nodo>, from: Seq<char>, to: String, de_vuelta: String)
    requires
        !hay_titulo(ns, to@),
        de_vuelta@ == from,
        con_cambio(ns, from, Cambio::Titulo(to)).1,
    ensures
        con_cambio(con_cambio(ns, from, Cambio::Titulo(to)).0, to@, Cambio::Titulo(de_vuelta)) == (ns, true),
    decreases ns,
{
    let ms = con_cambio(ns, from, Cambio::Titulo(to)).0;
    let resto = ns.subrange(1, ns.len() as int);
    if ns[0].titulo == from {
        assert(ms[0].titulo == to@);
        assert(ms.subrange(1, ms.len() as int) =~= resto);
        assert(cambiado(Cambio::Titulo(de_vuelta), ms[0]) =~= ns[0]);
        assert(seq![ns[0]] + resto =~= ns);
    } else {
        assert(decreases_to!(ns => ns[0]));
        assert(decreases_to!(ns[0] => ns[0].hijos));
        assert(ns[0].titulo != to@);
        let (h, hallada) = con_cambio(ns[0].hijos, from, Cambio::Titulo(to));
        if hallada {
            renombrar_y_volver(ns[0].hijos, from, to, de_vuelta);
            assert(ms[0].titulo == ns[0].titulo);
            assert(ms[0].hijos == h);
            assert(ms.subrange(1, ms.len() as int) =~= resto);
            assert(Nodo { hijos: ns[0].hijos, ..ms[0] } =~= ns[0]);
            assert(seq![ns[0]] + resto =~= ns);
        } else {
            lema_sin_cambio(ns[0].hijos, from, Cambio::Titulo(to));
            lema_hay_titulo(ns[0].hijos, to@, Cambio::Titulo(de_vuelta));
            lema_sin_cambio(ns[0].hijos, to@, Cambio::Titulo(de_vuelta));
            renombrar_y_volver(resto, from, to, de_vuelta);
            assert(ms[0] == ns[0]);
            assert(ms.subrange(1, ms.len() as int) =~= con_cambio(resto, from, Cambio::Titulo(to)).0);
            assert(seq![ns[0]] + resto =~= ns);
        }
    }
}

/// Removing a section just added at the end of the report leaves the
/// report as it was, where no section of its level had its title.
pub proof fn quitar_lo_agregado(ns: Seq<Nodo>, nueva: Nodo)
    requires
        forall|i: int| 0 <= i < ns.len() ==> (#[trigger] ns[i]).titulo != nueva.titulo,
    ensures
        quitado(ns.push(nueva), nueva.titulo) == (ns, true),
{
    let ms = ns.push(nueva);
    lema_primera_desde(ms, nueva.titulo, 0);
    assert(ms[ns.len() as int] == nueva);
    if primera_desde(ms, nueva.titulo, 0) < ns.len() {
        assert(ms[primera_desde(ms, nueva.titulo, 0)] == ns[primera_desde(ms, nueva.titulo, 0)]);
    }
    assert(primera_desde(ms, nueva.titulo, 0) == ns.len());
    assert(ms.remove(ns.len() as int) =~= ns);
}

} // verus!
