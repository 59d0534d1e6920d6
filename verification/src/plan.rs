//! The report's plan: which plots it will have and where each one's curves
//! come from; and, against what is on disk, what is missing.
//!
//! Loading the project, its measurements and its plots, and printing, are
//! the program's part; who is complete and what is missing is decided here.
use vstd::prelude::*;
use crate::numeros::{cuantos_desde, inyectiva, lema_cuantos_baja, libre};
use crate::proceso::juntar;
use crate::commands::{slugify, slugify_spec};
use crate::secciones::{lema_nodos_concat, lema_nodos_punto, lema_nodos_uno, nodo, nodos, textos, Nodo, Section};
use crate::store::lema_valor_cifras;
use crate::texto::{agregar, cadena, caracteres, iguales};
use crate::tools::{cifras, en_cifras};

verus! {

broadcast use vstd::string::group_string_axioms;

/// Where the data of a measurement comes from.
#[derive(Debug, Clone, Copy, PartialEq, Eq, Structural)]
pub enum MeasurementKind {
    Theoretical,
    Simulated,
    Measured,
    Random,
}

/// What a plot shows.
#[derive(Debug, Clone, Copy, PartialEq, Eq, Structural)]
pub enum PlotKind {
    Bode,
    Time,
    Xy,
    Generic,
}

/// A plot the report will have: its id, its title, what it shows, the
/// kinds of curve it expects and a note.
#[derive(Debug, Clone)]
pub struct PlannedPlot {
    pub id: String,
    pub title: Option<String>,
    pub kind: PlotKind,
    pub sources: Vec<MeasurementKind>,
    pub note: Option<String>,
}

impl PlannedPlot {
    /// A planned plot with only its id: no title, generic, no sources yet.
    pub fn new(id: String) -> (p: PlannedPlot)
        ensures
            p.id@ == id@,
            p.title is None,
            p.kind == PlotKind::Generic,
            p.sources@.len() == 0,
            p.note is None,
    {
        PlannedPlot { id, title: None, kind: PlotKind::Generic, sources: Vec::new(), note: None }
    }
}

/// A planned plot as plain values: its id, title, kind, sources and note.
pub type VistaPlan = (Seq<char>, Option<Seq<char>>, PlotKind, Seq<MeasurementKind>, Option<Seq<char>>);

/// A planned plot as plain values.
pub open spec fn vista_plan(p: PlannedPlot) -> VistaPlan {
    (p.id@, opt_texto(p.title), p.kind, p.sources@, opt_texto(p.note))
}

pub open spec fn vistas_plan(v: Seq<PlannedPlot>) -> Seq<VistaPlan> {
    v.map_values(|p: PlannedPlot| vista_plan(p))
}

pub open spec fn ids_de(v: Seq<PlannedPlot>) -> Seq<Seq<char>> {
    v.map_values(|p: PlannedPlot| p.id@)
}

// ---------------------------------------------------------------------------
// Ids
// ---------------------------------------------------------------------------

/// `base-n`.
pub open spec fn con_sufijo(base: Seq<char>, n: nat) -> Seq<char> {
    base + seq!['-'] + cifras(n)
}

/// The series `base-2`, `base-3`, ...
pub open spec fn serie_de_id(base: Seq<char>) -> spec_fn(nat) -> Seq<char> {
    |n: nat| con_sufijo(base, n)
}

pub proof fn lema_serie_de_id(base: Seq<char>)
    ensures
        inyectiva(serie_de_id(base)),
{
    assert forall|n: nat, m: nat| #[trigger] serie_de_id(base)(n) == #[trigger] serie_de_id(base)(m) implies n == m by {
        let a = con_sufijo(base, n);
        let b = con_sufijo(base, m);
        assert(serie_de_id(base)(n) == a);
        assert(serie_de_id(base)(m) == b);
        assert(cifras(n).len() == cifras(m).len());
        assert(a.subrange((base.len() + 1) as int, a.len() as int) =~= cifras(n));
        assert(b.subrange((base.len() + 1) as int, b.len() as int) =~= cifras(m));
        lema_valor_cifras(n);
        lema_valor_cifras(m);
    }
}

/// The id that does not clash with those gathered: `base` if nobody has it,
/// else `base-2`, `base-3`, ..., the first one free. Ugly but honest: better
/// `bode-2` than losing the plot just described.
pub open spec fn id_unico_spec(ya_hay: Seq<Seq<char>>, base: Seq<char>) -> Seq<char> {
    if !ya_hay.contains(base) {
        base
    } else {
        con_sufijo(base, libre(ya_hay, 2, serie_de_id(base)))
    }
}

/// Whether some planned plot has the id `id`.
fn hay_id(ya_hay: &Vec<PlannedPlot>, id: &Vec<char>) -> (r: bool)
    ensures
        r == ids_de(ya_hay@).contains(id@),
{
    let mut k: usize = 0;
    while k < ya_hay.len()
        invariant
            k <= ya_hay@.len(),
            forall|j: int| 0 <= j < k ==> (#[trigger] ya_hay@[j]).id@ != id@,
        decreases ya_hay@.len() - k,
    {
        if iguales(&caracteres(ya_hay[k].id.as_str()), id) {
            assert(ids_de(ya_hay@)[k as int] == id@);
            return true;
        }
        k = k + 1;
    }
    assert forall|j: int| 0 <= j < ids_de(ya_hay@).len() implies ids_de(ya_hay@)[j] != id@ by {
        assert(ids_de(ya_hay@)[j] == ya_hay@[j].id@);
    }
    false
}

/// An id that does not clash with those gathered so far (see
/// `id_unico_spec`).
pub fn id_unico(base: String, ya_hay: &Vec<PlannedPlot>) -> (r: String)
    requires
        ya_hay@.len() + 2 < usize::MAX,
    ensures
        r@ == id_unico_spec(ids_de(ya_hay@), base@),
{
    let b = caracteres(base.as_str());
    if !hay_id(ya_hay, &b) {
        return base;
    }
    let ghost t = ids_de(ya_hay@);
    let ghost f = serie_de_id(base@);
    proof {
        lema_serie_de_id(base@);
        lema_cuantos_baja(t, 2, f);
    }
    let mut n: usize = 2;
    let mut candidato = b.clone();
    candidato.push('-');
    agregar(&mut candidato, &en_cifras(n));
    while hay_id(ya_hay, &candidato)
        invariant
            t == ids_de(ya_hay@),
            f == serie_de_id(base@),
            inyectiva(f),
            b@ == base@,
            t.len() == ya_hay@.len(),
            ya_hay@.len() + 2 < usize::MAX,
            2 <= n,
            candidato@ == con_sufijo(base@, n as nat),
            libre(t, n as nat, f) == libre(t, 2, f),
            (n - 2) + cuantos_desde(t, n as nat, f) <= cuantos_desde(t, 2, f),
            cuantos_desde(t, 2, f) <= t.len(),
        decreases cuantos_desde(t, n as nat, f),
    {
        proof {
            assert(f(n as nat) == candidato@);
            lema_cuantos_baja(t, n as nat, f);
        }
        n = n + 1;
        candidato = b.clone();
        candidato.push('-');
        agregar(&mut candidato, &en_cifras(n));
    }
    proof {
        assert(f(n as nat) == candidato@);
    }
    cadena(&candidato)
}

/// The kind of plot a name gives (`bode`, `time`, `xy`); any other is generic.
pub fn parse_kind(s: &str) -> (k: PlotKind)
    ensures
        k == (if s@ == "bode"@ {
            PlotKind::Bode
        } else if s@ == "time"@ {
            PlotKind::Time
        } else if s@ == "xy"@ {
            PlotKind::Xy
        } else {
            PlotKind::Generic
        }),
{
    let t = caracteres(s);
    if iguales(&t, &caracteres("bode")) {
        PlotKind::Bode
    } else if iguales(&t, &caracteres("time")) {
        PlotKind::Time
    } else if iguales(&t, &caracteres("xy")) {
        PlotKind::Xy
    } else {
        PlotKind::Generic
    }
}

// ---------------------------------------------------------------------------
// Sources
// ---------------------------------------------------------------------------

pub open spec fn nombre_fuente_spec(kind: MeasurementKind) -> Seq<char> {
    match kind {
        MeasurementKind::Theoretical => "teórica"@,
        MeasurementKind::Simulated => "simulada"@,
        MeasurementKind::Measured => "medida"@,
        MeasurementKind::Random => "sintética"@,
    }
}

/// The name of a kind of curve, as the report's author says it.
pub fn nombre_fuente(kind: MeasurementKind) -> (r: &'static str)
    ensures
        r@ == nombre_fuente_spec(kind),
{
    match kind {
        MeasurementKind::Theoretical => "teórica",
        MeasurementKind::Simulated => "simulada",
        MeasurementKind::Measured => "medida",
        MeasurementKind::Random => "sintética",
    }
}

pub open spec fn pista_spec(kind: MeasurementKind, plot_id: Seq<char>) -> Seq<char> {
    match kind {
        MeasurementKind::Theoretical => "xtal meas formula --id <id> --expr \"...\" --from .. --to .."@,
        MeasurementKind::Simulated => "xtal sim ac <circuito> --as <id> --node \"v(out)\" --from .. --to .."@,
        MeasurementKind::Measured => "xtal meas import <archivo.csv> --id <id> --kind measured"@,
        MeasurementKind::Random => "xtal plot add-series "@ + plot_id + " --measurement <id>"@,
    }
}

/// The command that gets each missing curve: "the simulated one is missing"
/// without saying how to get it sends one to the documentation.
pub fn pista(kind: MeasurementKind, plot_id: &str) -> (r: String)
    ensures
        r@ == pista_spec(kind, plot_id@),
{
    match kind {
        MeasurementKind::Theoretical => "xtal meas formula --id <id> --expr \"...\" --from .. --to ..".to_owned(),
        MeasurementKind::Simulated => "xtal sim ac <circuito> --as <id> --node \"v(out)\" --from .. --to ..".to_owned(),
        MeasurementKind::Measured => "xtal meas import <archivo.csv> --id <id> --kind measured".to_owned(),
        MeasurementKind::Random => {
            let mut t = caracteres("xtal plot add-series ");
            agregar(&mut t, &caracteres(plot_id));
            agregar(&mut t, &caracteres(" --measurement <id>"));
            cadena(&t)
        },
    }
}

pub open spec fn describe_sources_spec(sources: Seq<MeasurementKind>) -> Seq<char> {
    if sources.len() == 0 {
        "sin fuentes declaradas"@
    } else {
        juntar(sources.map_values(|k: MeasurementKind| nombre_fuente_spec(k)), " + "@)
    }
}

/// The sources of a plot, readable: their names joined with ` + `.
pub fn describe_sources(sources: &Vec<MeasurementKind>) -> (r: String)
    ensures
        r@ == describe_sources_spec(sources@),
{
    if sources.len() == 0 {
        return "sin fuentes declaradas".to_owned();
    }
    let ghost xs = sources@.map_values(|k: MeasurementKind| nombre_fuente_spec(k));
    let mut t = caracteres(nombre_fuente(sources[0]));
    assert(xs.take(1) =~= seq![xs[0]]);
    let mut k: usize = 1;
    while k < sources.len()
        invariant
            1 <= k <= sources@.len(),
            xs == sources@.map_values(|k: MeasurementKind| nombre_fuente_spec(k)),
            t@ == juntar(xs.take(k as int), " + "@),
        decreases sources@.len() - k,
    {
        agregar(&mut t, &caracteres(" + "));
        agregar(&mut t, &caracteres(nombre_fuente(sources[k])));
        assert(xs.take(k + 1).drop_last() =~= xs.take(k as int));
        assert(xs.take(k + 1).last() == xs[k as int]);
        k = k + 1;
    }
    assert(xs.take(sources@.len() as int) =~= xs);
    cadena(&t)
}

// ---------------------------------------------------------------------------
// Figures
// ---------------------------------------------------------------------------

/// Some section (or subsection, at any depth) inserts the plot `id` as a
/// figure.
pub open spec fn figura_en(cs: Seq<Section>, id: Seq<char>) -> bool
    decreases cs,
{
    if cs.len() == 0 {
        false
    } else {
        proof {
            assert(decreases_to!(cs => cs[0]));
            assert(decreases_to!(cs[0] => cs[0].subsections));
            assert(decreases_to!(cs[0].subsections => cs[0].subsections@));
        }
        textos(cs[0].figures@).contains(id) || figura_en(cs[0].subsections@, id) || figura_en(
            cs.subrange(1, cs.len() as int),
            id,
        )
    }
}

/// Whether `x` is one of `v`.
fn esta(v: &Vec<String>, x: &Vec<char>) -> (r: bool)
    ensures
        r == textos(v@).contains(x@),
{
    let mut k: usize = 0;
    while k < v.len()
        invariant
            k <= v@.len(),
            forall|j: int| 0 <= j < k ==> (#[trigger] v@[j])@ != x@,
        decreases v@.len() - k,
    {
        if iguales(&caracteres(v[k].as_str()), x) {
            assert(textos(v@)[k as int] == x@);
            return true;
        }
        k = k + 1;
    }
    assert forall|j: int| 0 <= j < textos(v@).len() implies textos(v@)[j] != x@ by {
        assert(textos(v@)[j] == v@[j]@);
    }
    false
}

/// Whether the plot `id` is in the report: some section inserts it as a
/// figure. Where none does, it will not be in the PDF, however complete.
pub fn tiene_figura(secciones: &Vec<Section>, id: &str) -> (r: bool)
    ensures
        r == figura_en(secciones@, id@),
    decreases secciones@,
{
    let buscado = caracteres(id);
    let mut j: usize = 0;
    assert(secciones@.subrange(0, secciones@.len() as int) =~= secciones@);
    while j < secciones.len()
        invariant
            j <= secciones@.len(),
            buscado@ == id@,
            figura_en(secciones@, id@) == figura_en(secciones@.subrange(j as int, secciones@.len() as int), id@),
        decreases secciones@.len() - j,
    {
        let c = &secciones[j];
        let ghost resto = secciones@.subrange(j as int, secciones@.len() as int);
        assert(resto[0] == *c);
        assert(resto.subrange(1, resto.len() as int) =~= secciones@.subrange(j + 1, secciones@.len() as int));
        if esta(&c.figures, &buscado) {
            assert(figura_en(resto, id@));
            return true;
        }
        proof {
            assert(decreases_to!(secciones@ => secciones@[j as int]));
            assert(decreases_to!(secciones@[j as int] => secciones@[j as int].subsections));
            assert(decreases_to!(secciones@[j as int].subsections => secciones@[j as int].subsections@));
        }
        if tiene_figura(&c.subsections, id) {
            return true;
        }
        j = j + 1;
    }
    false
}

// ---------------------------------------------------------------------------
// What is missing
// ---------------------------------------------------------------------------

/// A measurement, as far as the plan goes: its id and where its data comes
/// from.
#[derive(Debug, Clone)]
pub struct Medicion {
    pub id: String,
    pub kind: MeasurementKind,
}

/// A plot on disk, as far as the plan goes: its id and the measurement of
/// each of its curves.
#[derive(Debug, Clone)]
pub struct Grafico {
    pub id: String,
    pub series: Vec<String>,
}

/// A kind of curve a planned plot expects, and the measurements of that kind
/// already in the plot.
#[derive(Debug)]
pub struct SourceState {
    pub kind: MeasurementKind,
    pub presentes: Vec<String>,
}

/// What is there of a planned plot: whether the plot exists, each source it
/// expects, and whether some section inserts it.
#[derive(Debug)]
pub struct EstadoGrafico {
    pub id: String,
    pub title: Option<String>,
    pub kind: PlotKind,
    pub existe: bool,
    pub fuentes: Vec<SourceState>,
    pub en_informe: bool,
}

pub open spec fn opt_texto(o: Option<String>) -> Option<Seq<char>> {
    match o {
        Some(s) => Some(s@),
        None => None,
    }
}

/// Where the measurement `id` comes from, if there is one.
pub open spec fn tipo_de(ms: Seq<Medicion>, id: Seq<char>) -> Option<MeasurementKind>
    decreases ms.len(),
{
    if ms.len() == 0 {
        None
    } else if ms[0].id@ == id {
        Some(ms[0].kind)
    } else {
        tipo_de(ms.drop_first(), id)
    }
}

/// The measurements of the curves of the plot `id`, if there is one.
pub open spec fn series_de(gs: Seq<Grafico>, id: Seq<char>) -> Option<Seq<Seq<char>>>
    decreases gs.len(),
{
    if gs.len() == 0 {
        None
    } else if gs[0].id@ == id {
        Some(textos(gs[0].series@))
    } else {
        series_de(gs.drop_first(), id)
    }
}

/// The curves among `series` whose measurement is of the kind `kind`, in order.
pub open spec fn presentes_spec(series: Seq<Seq<char>>, ms: Seq<Medicion>, kind: MeasurementKind) -> Seq<Seq<char>>
    decreases series.len(),
{
    if series.len() == 0 {
        Seq::empty()
    } else if tipo_de(ms, series.last()) == Some(kind) {
        presentes_spec(series.drop_last(), ms, kind).push(series.last())
    } else {
        presentes_spec(series.drop_last(), ms, kind)
    }
}

/// Each source a planned plot expects, with the measurements of its kind in
/// the plot (none where the plot does not exist).
pub open spec fn fuentes_spec(p: PlannedPlot, gs: Seq<Grafico>, ms: Seq<Medicion>) -> Seq<(MeasurementKind, Seq<Seq<char>>)> {
    p.sources@.map_values(
        |k: MeasurementKind|
            (k, match series_de(gs, p.id@) {
                Some(ss) => presentes_spec(ss, ms, k),
                None => Seq::empty(),
            }),
    )
}

pub open spec fn vista_fuentes(v: Seq<SourceState>) -> Seq<(MeasurementKind, Seq<Seq<char>>)> {
    v.map_values(|f: SourceState| (f.kind, textos(f.presentes@)))
}

/// `e` is what there is of `p`.
pub open spec fn es_estado_de(e: EstadoGrafico, p: PlannedPlot, ms: Seq<Medicion>, gs: Seq<Grafico>, secs: Seq<Section>) -> bool {
    &&& e.id@ == p.id@
    &&& opt_texto(e.title) == opt_texto(p.title)
    &&& e.kind == p.kind
    &&& e.existe == (series_de(gs, p.id@) is Some)
    &&& vista_fuentes(e.fuentes@) == fuentes_spec(p, gs, ms)
    &&& e.en_informe == figura_en(secs, p.id@)
}

/// Where the measurement `id` comes from.
fn buscar_tipo(ms: &Vec<Medicion>, id: &Vec<char>) -> (r: Option<MeasurementKind>)
    ensures
        r == tipo_de(ms@, id@),
{
    let mut k: usize = 0;
    assert(ms@.subrange(0, ms@.len() as int) =~= ms@);
    while k < ms.len()
        invariant
            k <= ms@.len(),
            tipo_de(ms@, id@) == tipo_de(ms@.subrange(k as int, ms@.len() as int), id@),
        decreases ms@.len() - k,
    {
        let ghost resto = ms@.subrange(k as int, ms@.len() as int);
        assert(resto[0] == ms@[k as int]);
        assert(resto.drop_first() =~= ms@.subrange(k + 1, ms@.len() as int));
        if iguales(&caracteres(ms[k].id.as_str()), id) {
            return Some(ms[k].kind);
        }
        k = k + 1;
    }
    None
}

/// The plot `id`, if there is one.
fn buscar_grafico(gs: &Vec<Grafico>, id: &Vec<char>) -> (r: Option<usize>)
    ensures
        match r {
            Some(k) => k < gs@.len() && series_de(gs@, id@) == Some(textos(gs@[k as int].series@)),
            None => series_de(gs@, id@) is None,
        },
{
    let mut k: usize = 0;
    assert(gs@.subrange(0, gs@.len() as int) =~= gs@);
    while k < gs.len()
        invariant
            k <= gs@.len(),
            series_de(gs@, id@) == series_de(gs@.subrange(k as int, gs@.len() as int), id@),
        decreases gs@.len() - k,
    {
        let ghost resto = gs@.subrange(k as int, gs@.len() as int);
        assert(resto[0] == gs@[k as int]);
        assert(resto.drop_first() =~= gs@.subrange(k + 1, gs@.len() as int));
        if iguales(&caracteres(gs[k].id.as_str()), id) {
            return Some(k);
        }
        k = k + 1;
    }
    None
}

/// The curves of `series` whose measurement is of the kind `kind`.
fn presentes(series: &Vec<String>, ms: &Vec<Medicion>, kind: MeasurementKind) -> (r: Vec<String>)
    ensures
        textos(r@) == presentes_spec(textos(series@), ms@, kind),
{
    let mut out: Vec<String> = Vec::new();
    let mut k: usize = 0;
    while k < series.len()
        invariant
            k <= series@.len(),
            textos(out@) == presentes_spec(textos(series@).take(k as int), ms@, kind),
        decreases series@.len() - k,
    {
        let ghost pre = textos(series@).take(k + 1);
        assert(pre.drop_last() =~= textos(series@).take(k as int));
        assert(pre.last() == series@[k as int]@);
        let t = buscar_tipo(ms, &caracteres(series[k].as_str()));
        if t == Some(kind) {
            let ghost antes = textos(out@);
            out.push(series[k].clone());
            assert(textos(out@) =~= antes.push(series@[k as int]@));
        }
        k = k + 1;
    }
    assert(textos(series@).take(series@.len() as int) =~= textos(series@));
    out
}

/// What there is of one planned plot.
pub fn estado_de(p: &PlannedPlot, ms: &Vec<Medicion>, gs: &Vec<Grafico>, secs: &Vec<Section>) -> (e: EstadoGrafico)
    ensures
        es_estado_de(e, *p, ms@, gs@, secs@),
{
    let id = caracteres(p.id.as_str());
    let g = buscar_grafico(gs, &id);
    let ghost esperado = fuentes_spec(*p, gs@, ms@);
    let mut fuentes: Vec<SourceState> = Vec::new();
    let mut k: usize = 0;
    while k < p.sources.len()
        invariant
            k <= p.sources@.len(),
            id@ == p.id@,
            esperado == fuentes_spec(*p, gs@, ms@),
            match g {
                Some(i) => i < gs@.len() && series_de(gs@, p.id@) == Some(textos(gs@[i as int].series@)),
                None => series_de(gs@, p.id@) is None,
            },
            vista_fuentes(fuentes@) == esperado.take(k as int),
        decreases p.sources@.len() - k,
    {
        let kind = p.sources[k];
        let ps = match g {
            Some(i) => presentes(&gs[i].series, ms, kind),
            None => Vec::new(),
        };
        let ghost antes = vista_fuentes(fuentes@);
        let ghost lista = match series_de(gs@, p.id@) {
            Some(ss) => presentes_spec(ss, ms@, kind),
            None => Seq::empty(),
        };
        assert(esperado[k as int] == (kind, lista));
        assert(textos(ps@) == lista) by {
            if g is None {
                assert(textos(ps@) =~= Seq::<Seq<char>>::empty());
            }
        }
        fuentes.push(SourceState { kind, presentes: ps });
        assert(vista_fuentes(fuentes@) =~= antes.push(esperado[k as int]));
        assert(esperado.take(k + 1) =~= esperado.take(k as int).push(esperado[k as int]));
        k = k + 1;
    }
    assert(esperado.take(p.sources@.len() as int) =~= esperado);
    EstadoGrafico {
        id: p.id.clone(),
        title: p.title.clone(),
        kind: p.kind,
        existe: g.is_some(),
        fuentes,
        en_informe: tiene_figura(secs, p.id.as_str()),
    }
}

/// What there is of each planned plot, in the plan's order: the plot, the
/// measurements of each kind it expects already in it, and whether some
/// section inserts it.
pub fn estado_del_plan(plan: &Vec<PlannedPlot>, ms: &Vec<Medicion>, gs: &Vec<Grafico>, secs: &Vec<Section>) -> (r: Vec<EstadoGrafico>)
    ensures
        r@.len() == plan@.len(),
        forall|i: int| 0 <= i < plan@.len() ==> es_estado_de(#[trigger] r@[i], plan@[i], ms@, gs@, secs@),
{
    let mut out: Vec<EstadoGrafico> = Vec::new();
    let mut k: usize = 0;
    while k < plan.len()
        invariant
            k <= plan@.len(),
            out@.len() == k,
            forall|i: int| 0 <= i < k ==> es_estado_de(#[trigger] out@[i], plan@[i], ms@, gs@, secs@),
        decreases plan@.len() - k,
    {
        out.push(estado_de(&plan[k], ms, gs, secs));
        k = k + 1;
    }
    out
}

/// The plot exists and has a curve of each kind it expects.
pub open spec fn completo_spec(e: EstadoGrafico) -> bool {
    e.existe && forall|i: int| 0 <= i < e.fuentes@.len() ==> (#[trigger] e.fuentes@[i]).presentes@.len() > 0
}

/// Whether a planned plot is complete: it exists with a curve of each kind.
pub fn completo(e: &EstadoGrafico) -> (r: bool)
    ensures
        r == completo_spec(*e),
{
    if !e.existe {
        return false;
    }
    let mut k: usize = 0;
    while k < e.fuentes.len()
        invariant
            k <= e.fuentes@.len(),
            forall|i: int| 0 <= i < k ==> (#[trigger] e.fuentes@[i]).presentes@.len() > 0,
        decreases e.fuentes@.len() - k,
    {
        if e.fuentes[k].presentes.len() == 0 {
            return false;
        }
        k = k + 1;
    }
    true
}

/// Whether a planned plot will be in the PDF as planned: complete, and
/// inserted by some section.
pub fn listo_en_el_pdf(e: &EstadoGrafico) -> (r: bool)
    ensures
        r == (completo_spec(*e) && e.en_informe),
{
    completo(e) && e.en_informe
}

/// The sources of `fs` with no measurement yet.
pub open spec fn vacias(fs: Seq<SourceState>) -> nat
    decreases fs.len(),
{
    if fs.len() == 0 {
        0
    } else {
        vacias(fs.drop_last()) + if fs.last().presentes@.len() == 0 {
            1nat
        } else {
            0nat
        }
    }
}

/// How many things are missing for the report to be complete: each source
/// without a measurement, and each plot that no section inserts.
pub open spec fn faltan_spec(informe: Seq<EstadoGrafico>) -> nat
    decreases informe.len(),
{
    if informe.len() == 0 {
        0
    } else {
        faltan_spec(informe.drop_last()) + vacias(informe.last().fuentes@) + if informe.last().en_informe {
            0nat
        } else {
            1nat
        }
    }
}

/// A source of a planned plot with no measurement in it.
pub open spec fn sin_medicion() -> spec_fn(SourceState) -> bool {
    |s: SourceState| s.presentes@.len() == 0
}

proof fn lema_vacias_filtro(fs: Seq<SourceState>)
    ensures
        vacias(fs) == fs.filter(sin_medicion()).len(),
    decreases fs.len(),
{
    reveal(Seq::filter);
    if fs.len() > 0 {
        lema_vacias_filtro(fs.drop_last());
    }
}

/// What is missing grows, plot by plot, by one for every source of the plot
/// that has no measurement (two empty sources are two things missing), and by
/// one more where no section inserts the plot; an empty plan lacks nothing.
pub proof fn cada_fuente_vacia_es_una_falta(informe: Seq<EstadoGrafico>, e: EstadoGrafico)
    ensures
        faltan_spec(Seq::<EstadoGrafico>::empty()) == 0,
        faltan_spec(informe.push(e)) == faltan_spec(informe) + e.fuentes@.filter(sin_medicion()).len()
            + if e.en_informe { 0int } else { 1int },
{
    lema_vacias_filtro(e.fuentes@);
    assert(informe.push(e).drop_last() =~= informe);
}

/// All the sources and plots of a state, one for each plot and each source.
pub open spec fn cosas(informe: Seq<EstadoGrafico>) -> nat
    decreases informe.len(),
{
    if informe.len() == 0 {
        0
    } else {
        cosas(informe.drop_last()) + informe.last().fuentes@.len() + 1
    }
}

proof fn lema_vacias_cota(fs: Seq<SourceState>)
    ensures
        vacias(fs) <= fs.len(),
    decreases fs.len(),
{
    if fs.len() > 0 {
        lema_vacias_cota(fs.drop_last());
    }
}

proof fn lema_faltan_cota(informe: Seq<EstadoGrafico>)
    ensures
        faltan_spec(informe) <= cosas(informe),
    decreases informe.len(),
{
    if informe.len() > 0 {
        lema_faltan_cota(informe.drop_last());
        lema_vacias_cota(informe.last().fuentes@);
    }
}

/// How many things are missing for the report to be complete (see
/// `faltan_spec`).
pub fn faltan(informe: &Vec<EstadoGrafico>) -> (r: usize)
    requires
        cosas(informe@) <= usize::MAX,
    ensures
        r == faltan_spec(informe@),
{
    let mut n: usize = 0;
    let mut k: usize = 0;
    while k < informe.len()
        invariant
            k <= informe@.len(),
            cosas(informe@) <= usize::MAX,
            n == faltan_spec(informe@.take(k as int)),
        decreases informe@.len() - k,
    {
        let ghost pre = informe@.take(k + 1);
        assert(pre.drop_last() =~= informe@.take(k as int));
        assert(pre.last() == informe@[k as int]);
        proof {
            lema_faltan_cota(pre);
            lema_cosas_prefijo(informe@, k + 1);
        }
        let e = &informe[k];
        let mut j: usize = 0;
        let ghost n0 = n;
        while j < e.fuentes.len()
            invariant
                j <= e.fuentes@.len(),
                n == n0 + vacias(e.fuentes@.take(j as int)),
                n0 + vacias(e.fuentes@) <= usize::MAX,
            decreases e.fuentes@.len() - j,
        {
            assert(e.fuentes@.take(j + 1).drop_last() =~= e.fuentes@.take(j as int));
            assert(e.fuentes@.take(j + 1).last() == e.fuentes@[j as int]);
            proof {
                lema_vacias_prefijo(e.fuentes@, j + 1);
            }
            if e.fuentes[j].presentes.len() == 0 {
                n = n + 1;
            }
            j = j + 1;
        }
        assert(e.fuentes@.take(e.fuentes@.len() as int) =~= e.fuentes@);
        if !e.en_informe {
            n = n + 1;
        }
        k = k + 1;
    }
    assert(informe@.take(informe@.len() as int) =~= informe@);
    n
}

proof fn lema_vacias_prefijo(fs: Seq<SourceState>, j: int)
    requires
        0 <= j <= fs.len(),
    ensures
        vacias(fs.take(j)) <= vacias(fs),
    decreases fs.len() - j,
{
    if j < fs.len() {
        lema_vacias_prefijo(fs, j + 1);
        assert(fs.take(j + 1).drop_last() =~= fs.take(j));
    } else {
        assert(fs.take(j) =~= fs);
    }
}

proof fn lema_cosas_prefijo(informe: Seq<EstadoGrafico>, k: int)
    requires
        0 <= k <= informe.len(),
    ensures
        cosas(informe.take(k)) <= cosas(informe),
    decreases informe.len() - k,
{
    if k < informe.len() {
        lema_cosas_prefijo(informe, k + 1);
        assert(informe.take(k + 1).drop_last() =~= informe.take(k));
    } else {
        assert(informe.take(k) =~= informe);
    }
}

/// Whether the whole report is as planned: it has a plan, and each planned
/// plot will be in the PDF as planned.
pub fn todo_completo(informe: &Vec<EstadoGrafico>) -> (r: bool)
    ensures
        r == (informe@.len() > 0 && forall|i: int| 0 <= i < informe@.len() ==> completo_spec(#[trigger] informe@[i])
            && informe@[i].en_informe),
{
    let mut k: usize = 0;
    while k < informe.len()
        invariant
            k <= informe@.len(),
            forall|i: int| 0 <= i < k ==> completo_spec(#[trigger] informe@[i]) && informe@[i].en_informe,
        decreases informe@.len() - k,
    {
        if !listo_en_el_pdf(&informe[k]) {
            return false;
        }
        k = k + 1;
    }
    informe.len() > 0
}

proof fn lema_vacias_cero(fs: Seq<SourceState>)
    ensures
        vacias(fs) == 0 <==> forall|j: int| 0 <= j < fs.len() ==> (#[trigger] fs[j]).presentes@.len() > 0,
    decreases fs.len(),
{
    if fs.len() > 0 {
        lema_vacias_cero(fs.drop_last());
        if vacias(fs) == 0 {
            assert forall|j: int| 0 <= j < fs.len() implies (#[trigger] fs[j]).presentes@.len() > 0 by {
                if j < fs.len() - 1 {
                    assert(fs.drop_last()[j] == fs[j]);
                }
            }
        }
        if forall|j: int| 0 <= j < fs.len() ==> (#[trigger] fs[j]).presentes@.len() > 0 {
            assert forall|j: int| 0 <= j < fs.drop_last().len() implies (#[trigger] fs.drop_last()[j]).presentes@.len()
                > 0 by {
                assert(fs.drop_last()[j] == fs[j]);
            }
            assert(fs.last() == fs[fs.len() - 1]);
        }
    }
}

/// Nothing is missing exactly when every source of every planned plot has a
/// measurement and every planned plot is inserted by some section.
pub proof fn nada_falta_si_esta_todo(informe: Seq<EstadoGrafico>)
    ensures
        faltan_spec(informe) == 0 <==> forall|i: int| 0 <= i < informe.len() ==> (#[trigger] informe[i]).en_informe
            && forall|j: int| 0 <= j < informe[i].fuentes@.len() ==> (#[trigger] informe[i].fuentes@[j]).presentes@.len()
            > 0,
    decreases informe.len(),
{
    if informe.len() > 0 {
        let pre = informe.drop_last();
        let u = informe.last();
        nada_falta_si_esta_todo(pre);
        lema_vacias_cero(u.fuentes@);
        if faltan_spec(informe) == 0 {
            assert forall|i: int| 0 <= i < informe.len() implies (#[trigger] informe[i]).en_informe && forall|j: int|
                0 <= j < informe[i].fuentes@.len() ==> (#[trigger] informe[i].fuentes@[j]).presentes@.len() > 0 by {
                if i < informe.len() - 1 {
                    assert(pre[i] == informe[i]);
                }
            }
        }
        if forall|i: int| 0 <= i < informe.len() ==> (#[trigger] informe[i]).en_informe && forall|j: int|
            0 <= j < informe[i].fuentes@.len() ==> (#[trigger] informe[i].fuentes@[j]).presentes@.len() > 0 {
            assert forall|i: int| 0 <= i < pre.len() implies (#[trigger] pre[i]).en_informe && forall|j: int|
                0 <= j < pre[i].fuentes@.len() ==> (#[trigger] pre[i].fuentes@[j]).presentes@.len() > 0 by {
                assert(pre[i] == informe[i]);
            }
            assert(u == informe[informe.len() - 1]);
        }
    }
}

/// A planned plot that does not exist has no curve of any kind: what is
/// there is read from the plot.
pub proof fn sin_grafico_no_hay_curvas(e: EstadoGrafico, p: PlannedPlot, ms: Seq<Medicion>, gs: Seq<Grafico>, secs: Seq<Section>)
    requires
        es_estado_de(e, p, ms, gs, secs),
        !e.existe,
    ensures
        forall|j: int| 0 <= j < e.fuentes@.len() ==> (#[trigger] e.fuentes@[j]).presentes@.len() == 0,
        !completo_spec(e),
{
    assert forall|j: int| 0 <= j < e.fuentes@.len() implies (#[trigger] e.fuentes@[j]).presentes@.len() == 0 by {
        assert(series_de(gs, p.id@) is None);
        assert(vista_fuentes(e.fuentes@).len() == e.fuentes@.len());
        assert(vista_fuentes(e.fuentes@)[j] == fuentes_spec(p, gs, ms)[j]);
        assert(fuentes_spec(p, gs, ms)[j].1 =~= Seq::<Seq<char>>::empty());
        assert(textos(e.fuentes@[j].presentes@).len() == 0);
    }
}

// ---------------------------------------------------------------------------
// Editing the plan
// ---------------------------------------------------------------------------

fn copia_texto(o: &Option<String>) -> (r: Option<String>)
    ensures
        opt_texto(r) == opt_texto(*o),
{
    match o {
        Some(t) => Some(t.clone()),
        None => None,
    }
}

/// A copy of a planned plot.
pub fn copia(p: &PlannedPlot) -> (r: PlannedPlot)
    ensures
        vista_plan(r) == vista_plan(*p),
{
    let mut fuentes: Vec<MeasurementKind> = Vec::new();
    let mut k: usize = 0;
    while k < p.sources.len()
        invariant
            k <= p.sources@.len(),
            fuentes@ == p.sources@.take(k as int),
        decreases p.sources@.len() - k,
    {
        fuentes.push(p.sources[k]);
        assert(p.sources@.take(k + 1) =~= p.sources@.take(k as int).push(p.sources@[k as int]));
        k = k + 1;
    }
    assert(p.sources@.take(p.sources@.len() as int) =~= p.sources@);
    PlannedPlot {
        id: p.id.clone(),
        title: copia_texto(&p.title),
        kind: p.kind,
        sources: fuentes,
        note: copia_texto(&p.note),
    }
}

/// The first position from `i` on of a planned plot with the id `id`; none
/// is the length.
pub open spec fn posicion_desde(v: Seq<VistaPlan>, id: Seq<char>, i: int) -> int
    decreases v.len() - i,
{
    if i < 0 || i >= v.len() {
        v.len() as int
    } else if v[i].0 == id {
        i
    } else {
        posicion_desde(v, id, i + 1)
    }
}

pub proof fn lema_posicion_desde(v: Seq<VistaPlan>, id: Seq<char>, i: int)
    requires
        0 <= i <= v.len(),
    ensures
        i <= posicion_desde(v, id, i) <= v.len(),
        posicion_desde(v, id, i) < v.len() ==> v[posicion_desde(v, id, i)].0 == id,
        forall|k: int| i <= k < posicion_desde(v, id, i) ==> (#[trigger] v[k]).0 != id,
    decreases v.len() - i,
{
    if i < v.len() && v[i].0 != id {
        lema_posicion_desde(v, id, i + 1);
    }
}

proof fn lema_posicion_es(v: Seq<VistaPlan>, id: Seq<char>, k: int)
    requires
        0 <= k <= v.len(),
        forall|m: int| 0 <= m < k ==> (#[trigger] v[m]).0 != id,
        k == v.len() || v[k].0 == id,
    ensures
        posicion_desde(v, id, 0) == k,
{
    lema_posicion_desde(v, id, 0);
    let h = posicion_desde(v, id, 0);
    if h < k {
        assert(v[h].0 != id);
    }
    if h > k {
        assert(v[k].0 != id);
    }
}

/// The plan with `e`: in place of the first one with its id, or at the end
/// where there is none. A repeated id overwrites instead of duplicating: the
/// command can run twice without leaving rubbish.
pub open spec fn con_entrada_spec(v: Seq<VistaPlan>, e: VistaPlan) -> Seq<VistaPlan> {
    let i = posicion_desde(v, e.0, 0);
    if i < v.len() {
        v.update(i, e)
    } else {
        v.push(e)
    }
}

/// `xtal plan add`: the plan with `entry` (see `con_entrada_spec`), and
/// whether it replaced one.
pub fn con_entrada(plan: Vec<PlannedPlot>, entry: PlannedPlot) -> (r: (Vec<PlannedPlot>, bool))
    ensures
        vistas_plan(r.0@) == con_entrada_spec(vistas_plan(plan@), vista_plan(entry)),
        r.1 == (posicion_desde(vistas_plan(plan@), entry.id@, 0) < plan@.len()),
{
    let ghost v = vistas_plan(plan@);
    let id = caracteres(entry.id.as_str());
    proof {
        lema_posicion_desde(v, entry.id@, 0);
    }
    let mut k: usize = 0;
    while k < plan.len()
        invariant
            k <= plan@.len(),
            v == vistas_plan(plan@),
            id@ == entry.id@,
            posicion_desde(v, entry.id@, 0) == posicion_desde(v, entry.id@, k as int),
        decreases plan@.len() - k,
    {
        assert(v[k as int] == vista_plan(plan@[k as int]));
        if iguales(&caracteres(plan[k].id.as_str()), &id) {
            let mut w = plan;
            let ghost e = vista_plan(entry);
            w.set(k, entry);
            assert(vistas_plan(w@) =~= v.update(k as int, e));
            return (w, true);
        }
        k = k + 1;
    }
    let mut w = plan;
    let ghost e = vista_plan(entry);
    w.push(entry);
    assert(vistas_plan(w@) =~= v.push(e));
    (w, false)
}

/// Adding the same plot twice leaves the plan as adding it once.
pub proof fn agregar_dos_veces_es_agregar_una(v: Seq<VistaPlan>, e: VistaPlan)
    ensures
        con_entrada_spec(con_entrada_spec(v, e), e) == con_entrada_spec(v, e),
{
    lema_posicion_desde(v, e.0, 0);
    let i = posicion_desde(v, e.0, 0);
    let w = con_entrada_spec(v, e);
    if i < v.len() {
        assert forall|m: int| 0 <= m < i implies (#[trigger] w[m]).0 != e.0 by {
            assert(w[m] == v[m]);
        }
        lema_posicion_es(w, e.0, i);
        assert(w.update(i, e) =~= w);
    } else {
        assert forall|m: int| 0 <= m < v.len() implies (#[trigger] w[m]).0 != e.0 by {
            assert(w[m] == v[m]);
        }
        lema_posicion_es(w, e.0, v.len() as int);
        assert(w.update(v.len() as int, e) =~= w);
    }
}

/// The plan without the plots with the id `id`, in order.
pub open spec fn sin_id(v: Seq<VistaPlan>, id: Seq<char>) -> Seq<VistaPlan>
    decreases v.len(),
{
    if v.len() == 0 {
        v
    } else if v.last().0 == id {
        sin_id(v.drop_last(), id)
    } else {
        sin_id(v.drop_last(), id).push(v.last())
    }
}

/// The message for an id that is not in the plan.
pub open spec fn no_esta_en_el_plan(id: Seq<char>) -> Seq<char> {
    "'"@ + id + "' no está en el plan (mirá `xtal plan list`)"@
}

/// `xtal plan remove`: the plan without the plots with the id `id`; an error
/// where there is none. The plot itself is not deleted: it may have curves.
pub fn sin_entrada(plan: Vec<PlannedPlot>, id: &str) -> (r: Result<Vec<PlannedPlot>, String>)
    ensures
        ({
            let v = vistas_plan(plan@);
            if exists|k: int| 0 <= k < v.len() && (#[trigger] v[k]).0 == id@ {
                r matches Ok(w) && vistas_plan(w@) == sin_id(v, id@)
            } else {
                r matches Err(e) && e@ == no_esta_en_el_plan(id@)
            }
        }),
{
    let ghost v = vistas_plan(plan@);
    let buscado = caracteres(id);
    let mut w: Vec<PlannedPlot> = Vec::new();
    let mut hubo = false;
    let mut pend = plan;
    let mut k: usize = 0;
    let ghost todas = pend@;
    assert(todas.len() == pend.len());
    assert(v.take(0) =~= Seq::<VistaPlan>::empty());
    while pend.len() > 0
        invariant
            v == vistas_plan(todas),
            todas.len() <= usize::MAX,
            k <= todas.len(),
            pend@ == todas.subrange(k as int, todas.len() as int),
            buscado@ == id@,
            vistas_plan(w@) == sin_id(v.take(k as int), id@),
            hubo == exists|j: int| 0 <= j < k && (#[trigger] v[j]).0 == id@,
        decreases pend@.len(),
    {
        let ghost p0 = pend@;
        let p = pend.remove(0);
        assert(p == todas[k as int]);
        assert(pend@ =~= todas.subrange(k + 1, todas.len() as int));
        assert(v[k as int] == vista_plan(p));
        assert(v.take(k + 1).drop_last() =~= v.take(k as int));
        assert(v.take(k + 1).last() == v[k as int]);
        if iguales(&caracteres(p.id.as_str()), &buscado) {
            hubo = true;
        } else {
            let ghost antes = vistas_plan(w@);
            w.push(p);
            assert(vistas_plan(w@) =~= antes.push(v[k as int]));
        }
        k = k + 1;
    }
    assert(k == todas.len());
    assert(v.take(k as int) =~= v);
    if hubo {
        Ok(w)
    } else {
        let mut t = caracteres("'");
        agregar(&mut t, &buscado);
        agregar(&mut t, &caracteres("' no está en el plan (mirá `xtal plan list`)"));
        Err(cadena(&t))
    }
}

proof fn lema_sin_id_push(v: Seq<VistaPlan>, e: VistaPlan, id: Seq<char>)
    ensures
        sin_id(v.push(e), id) == if e.0 == id { sin_id(v, id) } else { sin_id(v, id).push(e) },
{
    assert(v.push(e).drop_last() =~= v);
}

proof fn lema_sin_id_update(v: Seq<VistaPlan>, i: int, e: VistaPlan)
    requires
        0 <= i < v.len(),
        v[i].0 == e.0,
    ensures
        sin_id(v.update(i, e), e.0) == sin_id(v, e.0),
    decreases v.len(),
{
    if i < v.len() - 1 {
        lema_sin_id_update(v.drop_last(), i, e);
        assert(v.update(i, e).drop_last() =~= v.drop_last().update(i, e));
        assert(v.update(i, e).last() == v.last());
    } else {
        assert(v.update(i, e).drop_last() =~= v.drop_last());
    }
}

/// Adding a plot and removing it leaves the plan as removing it would: the
/// plan without that id.
pub proof fn agregar_y_sacar(v: Seq<VistaPlan>, e: VistaPlan)
    ensures
        sin_id(con_entrada_spec(v, e), e.0) == sin_id(v, e.0),
{
    lema_posicion_desde(v, e.0, 0);
    let i = posicion_desde(v, e.0, 0);
    if i < v.len() {
        lema_sin_id_update(v, i, e);
    } else {
        lema_sin_id_push(v, e, e.0);
    }
}

pub proof fn lema_sin_id_limpio(v: Seq<VistaPlan>, id: Seq<char>)
    ensures
        forall|k: int| 0 <= k < sin_id(v, id).len() ==> (#[trigger] sin_id(v, id)[k]).0 != id,
    decreases v.len(),
{
    if v.len() > 0 {
        lema_sin_id_limpio(v.drop_last(), id);
        let a = sin_id(v.drop_last(), id);
        assert forall|k: int| 0 <= k < sin_id(v, id).len() implies (#[trigger] sin_id(v, id)[k]).0 != id by {
            if v.last().0 != id && k == a.len() {
                assert(sin_id(v, id)[k] == v.last());
            } else {
                assert(sin_id(v, id)[k] == a[k]);
            }
        }
    }
}

/// After removing an id, no plot of the plan has it.
pub proof fn sacar_no_deja_el_id(v: Seq<VistaPlan>, id: Seq<char>)
    ensures
        forall|k: int| 0 <= k < sin_id(v, id).len() ==> (#[trigger] sin_id(v, id)[k]).0 != id,
{
    lema_sin_id_limpio(v, id);
}

/// No two plots of the plan share an id.
pub open spec fn ids_distintos(v: Seq<VistaPlan>) -> bool {
    forall|i: int, j: int| 0 <= i < j < v.len() ==> (#[trigger] v[i]).0 != (#[trigger] v[j]).0
}

proof fn lema_sin_id_distintos(v: Seq<VistaPlan>, id: Seq<char>)
    requires
        ids_distintos(v),
    ensures
        ids_distintos(sin_id(v, id)),
        forall|k: int| 0 <= k < sin_id(v, id).len() ==> #[trigger] v.contains(sin_id(v, id)[k]),
    decreases v.len(),
{
    if v.len() > 0 {
        let w = v.drop_last();
        let x = v.last();
        assert forall|i: int, j: int| 0 <= i < j < w.len() implies (#[trigger] w[i]).0 != (#[trigger] w[j]).0 by {
            assert(w[i] == v[i] && w[j] == v[j]);
        }
        lema_sin_id_distintos(w, id);
        let a = sin_id(w, id);
        let r = sin_id(v, id);
        assert forall|k: int| 0 <= k < a.len() implies #[trigger] v.contains(a[k]) by {
            assert(w.contains(a[k]));
            let m = choose|m: int| 0 <= m < w.len() && w[m] == a[k];
            assert(v[m] == w[m]);
        }
        if x.0 != id {
            assert(r == a.push(x));
            assert forall|k: int| 0 <= k < a.len() implies (#[trigger] a[k]).0 != x.0 by {
                assert(w.contains(a[k]));
            let m = choose|m: int| 0 <= m < w.len() && w[m] == a[k];
                assert(v[m] == w[m]);
                assert(v[v.len() - 1] == x);
            }
            assert forall|i: int, j: int| 0 <= i < j < r.len() implies (#[trigger] r[i]).0 != (#[trigger] r[j]).0 by {
                if j == a.len() {
                    assert(r[i] == a[i]);
                } else {
                    assert(r[i] == a[i] && r[j] == a[j]);
                }
            }
            assert forall|k: int| 0 <= k < r.len() implies #[trigger] v.contains(r[k]) by {
                if k == a.len() {
                    assert(v[v.len() - 1] == x);
                } else {
                    assert(r[k] == a[k]);
                }
            }
        }
    }
}

/// Adding a plot or removing an id keeps the ids of the plan distinct; the
/// plot added is in the plan.
pub proof fn las_ids_del_plan_siguen_distintas(v: Seq<VistaPlan>, e: VistaPlan, id: Seq<char>)
    requires
        ids_distintos(v),
    ensures
        ids_distintos(con_entrada_spec(v, e)),
        con_entrada_spec(v, e).contains(e),
        ids_distintos(sin_id(v, id)),
{
    lema_sin_id_distintos(v, id);
    lema_posicion_desde(v, e.0, 0);
    let i = posicion_desde(v, e.0, 0);
    let w = con_entrada_spec(v, e);
    if i < v.len() {
        assert(w[i] == e);
        assert forall|a: int, b: int| 0 <= a < b < w.len() implies (#[trigger] w[a]).0 != (#[trigger] w[b]).0 by {
            assert(w[a].0 == v[a].0 && w[b].0 == v[b].0);
        }
    } else {
        assert(w[v.len() as int] == e);
        assert forall|a: int, b: int| 0 <= a < b < w.len() implies (#[trigger] w[a]).0 != (#[trigger] w[b]).0 by {
            assert(w[a] == v[a]);
            if b < v.len() {
                assert(w[b] == v[b]);
            }
        }
    }
}

// ---------------------------------------------------------------------------
// The interview
// ---------------------------------------------------------------------------

/// How many plots the interview offers at first: two for a report without a
/// plan, as many as it has otherwise.
pub fn cuantos_por_defecto(plan: &Vec<PlannedPlot>) -> (r: usize)
    ensures
        r == (if plan@.len() == 0 { 2 } else { plan@.len() }),
{
    if plan.len() == 0 {
        2
    } else {
        plan.len()
    }
}

/// Whether the number of plots given is taken: at least one, and no more
/// than thirty (the rest go one by one with `xtal plan add`).
pub fn valida_cuantos(n: usize) -> (r: Result<(), &'static str>)
    ensures
        n == 0 ==> (r matches Err(m) && m@ == "tiene que ser al menos uno"@),
        n > 30 ==> (r matches Err(m) && m@ == "¿tantos? poné menos y agregá el resto después con `xtal plan add`"@),
        1 <= n <= 30 ==> r is Ok,
{
    if n == 0 {
        Err("tiene que ser al menos uno")
    } else if n > 30 {
        Err("¿tantos? poné menos y agregá el resto después con `xtal plan add`")
    } else {
        Ok(())
    }
}

/// Whether a plot's title is taken: it must leave a slug (letters or
/// digits), or the plot would get an empty id and a file `graficos/.toml`.
pub fn valida_titulo(titulo: &str) -> (r: Result<(), &'static str>)
    ensures
        slugify_spec(titulo@).len() == 0 ==> (r matches Err(m) && m@
            == "poné un nombre con letras o números, por ejemplo \"Bode de salida\""@),
        slugify_spec(titulo@).len() > 0 ==> r is Ok,
{
    if slugify(titulo).as_str().is_empty() {
        Err("poné un nombre con letras o números, por ejemplo \"Bode de salida\"")
    } else {
        Ok(())
    }
}

/// The kinds of plot the interview offers, in order.
pub open spec fn tipo_elegido(i: int) -> PlotKind {
    if i == 0 {
        PlotKind::Bode
    } else if i == 1 {
        PlotKind::Time
    } else if i == 2 {
        PlotKind::Xy
    } else {
        PlotKind::Generic
    }
}

/// The kinds of curve the interview offers, in order.
pub open spec fn fuente_elegida(i: int) -> MeasurementKind {
    if i == 0 {
        MeasurementKind::Theoretical
    } else if i == 1 {
        MeasurementKind::Simulated
    } else {
        MeasurementKind::Measured
    }
}

/// The plot an answer of the interview describes: its title, the kind
/// chosen (`idx_tipo` among bode, time, xy and generic) and the curves
/// checked (each among theoretical, simulated and measured); its id is the
/// title's slug, with a suffix where another plot of the interview has it.
pub fn entrada_de_la_entrevista(titulo: String, idx_tipo: usize, elegidas: &Vec<usize>, nuevos: &Vec<PlannedPlot>) -> (p: PlannedPlot)
    requires
        idx_tipo < 4,
        forall|i: int| 0 <= i < elegidas@.len() ==> #[trigger] elegidas@[i] < 3,
        nuevos@.len() + 2 < usize::MAX,
    ensures
        vista_plan(p) == (
            id_unico_spec(ids_de(nuevos@), slugify_spec(titulo@)),
            Some(titulo@),
            tipo_elegido(idx_tipo as int),
            elegidas@.map_values(|i: usize| fuente_elegida(i as int)),
            None::<Seq<char>>,
        ),
{
    let id = id_unico(slugify(titulo.as_str()), nuevos);
    let kind = if idx_tipo == 0 {
        PlotKind::Bode
    } else if idx_tipo == 1 {
        PlotKind::Time
    } else if idx_tipo == 2 {
        PlotKind::Xy
    } else {
        PlotKind::Generic
    };
    let mut fuentes: Vec<MeasurementKind> = Vec::new();
    let mut k: usize = 0;
    while k < elegidas.len()
        invariant
            k <= elegidas@.len(),
            fuentes@ == elegidas@.take(k as int).map_values(|i: usize| fuente_elegida(i as int)),
        decreases elegidas@.len() - k,
    {
        let i = elegidas[k];
        let f = if i == 0 {
            MeasurementKind::Theoretical
        } else if i == 1 {
            MeasurementKind::Simulated
        } else {
            MeasurementKind::Measured
        };
        fuentes.push(f);
        assert(elegidas@.take(k + 1).map_values(|i: usize| fuente_elegida(i as int)) =~= elegidas@.take(
            k as int,
        ).map_values(|i: usize| fuente_elegida(i as int)).push(f));
        k = k + 1;
    }
    assert(elegidas@.take(elegidas@.len() as int) =~= elegidas@);
    PlannedPlot { id, title: Some(titulo), kind, sources: fuentes, note: None }
}

/// The plan after the interview: each new plot in place of the one with its
/// id, or at the end.
pub open spec fn plan_tras(v: Seq<VistaPlan>, nuevos: Seq<VistaPlan>) -> Seq<VistaPlan>
    decreases nuevos.len(),
{
    if nuevos.len() == 0 {
        v
    } else {
        con_entrada_spec(plan_tras(v, nuevos.drop_last()), nuevos.last())
    }
}

/// The section the interview adds for a plot: titled as the plot (its id
/// where it has no title), with the plot as its figure.
pub open spec fn seccion_para(e: VistaPlan) -> Nodo {
    Nodo {
        titulo: match e.1 {
            Some(t) => t,
            None => e.0,
        },
        cuerpo: Seq::empty(),
        archivo: None,
        figuras: seq![e.0],
        hijos: Seq::empty(),
    }
}

/// The sections after the interview: one more for each new plot that no
/// section (of the first level) has as a figure yet.
pub open spec fn secciones_tras(ss: Seq<Nodo>, nuevos: Seq<VistaPlan>) -> Seq<Nodo>
    decreases nuevos.len(),
{
    if nuevos.len() == 0 {
        ss
    } else {
        let antes = secciones_tras(ss, nuevos.drop_last());
        let e = nuevos.last();
        if exists|k: int| 0 <= k < antes.len() && (#[trigger] antes[k]).figuras.contains(e.0) {
            antes
        } else {
            antes.push(seccion_para(e))
        }
    }
}

/// Whether some section of the first level has the figure `id`.
fn alguna_con_figura(secciones: &Vec<Section>, id: &Vec<char>) -> (r: bool)
    ensures
        r == exists|k: int| 0 <= k < nodos(secciones@).len() && (#[trigger] nodos(secciones@)[k]).figuras.contains(id@),
{
    proof {
        lema_nodos_punto(secciones@);
    }
    let mut k: usize = 0;
    while k < secciones.len()
        invariant
            k <= secciones@.len(),
            nodos(secciones@).len() == secciones@.len(),
            forall|m: int| 0 <= m < secciones@.len() ==> nodos(secciones@)[m] == nodo(#[trigger] secciones@[m]),
            forall|m: int| 0 <= m < k ==> !(#[trigger] nodos(secciones@)[m]).figuras.contains(id@),
        decreases secciones@.len() - k,
    {
        assert(nodos(secciones@)[k as int] == nodo(secciones@[k as int]));
        if esta(&secciones[k].figures, id) {
            return true;
        }
        k = k + 1;
    }
    false
}

/// What the interview writes: the plan with each new plot, and a section
/// for each plot that no section has as a figure yet, with it as its
/// figure; the skeleton of the report, to fill in afterwards.
pub fn aplicar_entrevista(plan: Vec<PlannedPlot>, secciones: Vec<Section>, nuevos: &Vec<PlannedPlot>) -> (r: (Vec<PlannedPlot>, Vec<Section>))
    ensures
        vistas_plan(r.0@) == plan_tras(vistas_plan(plan@), vistas_plan(nuevos@)),
        nodos(r.1@) == secciones_tras(nodos(secciones@), vistas_plan(nuevos@)),
{
    let ghost v0 = vistas_plan(plan@);
    let ghost s0 = nodos(secciones@);
    let ghost ns = vistas_plan(nuevos@);
    let mut p = plan;
    let mut ss = secciones;
    let mut k: usize = 0;
    assert(ns.take(0) =~= Seq::<VistaPlan>::empty());
    while k < nuevos.len()
        invariant
            k <= nuevos@.len(),
            ns == vistas_plan(nuevos@),
            vistas_plan(p@) == plan_tras(v0, ns.take(k as int)),
            nodos(ss@) == secciones_tras(s0, ns.take(k as int)),
        decreases nuevos@.len() - k,
    {
        let ghost pre = ns.take(k + 1);
        assert(pre.drop_last() =~= ns.take(k as int));
        assert(pre.last() == ns[k as int]);
        assert(ns[k as int] == vista_plan(nuevos@[k as int]));
        let e = &nuevos[k];
        let (p2, _) = con_entrada(p, copia(e));
        p = p2;
        let id = caracteres(e.id.as_str());
        if !alguna_con_figura(&ss, &id) {
            let titulo = match &e.title {
                Some(t) => t.clone(),
                None => e.id.clone(),
            };
            let mut nueva = Section::new(titulo.as_str());
            nueva.figures.push(e.id.clone());
            let ghost antes = ss@;
            ss.push(nueva);
            proof {
                assert(textos(nueva.figures@) =~= seq![e.id@]);
                assert(nodo(nueva) =~= seccion_para(vista_plan(*e)));
                lema_nodos_concat(antes, seq![nueva]);
                lema_nodos_uno(nueva);
                assert(ss@ =~= antes + seq![nueva]);
            }
        }
        k = k + 1;
    }
    assert(ns.take(nuevos@.len() as int) =~= ns);
    (p, ss)
}

/// The name of a kind of plot, as `xtal plan list` writes it.
pub fn nombre_de_tipo(kind: PlotKind) -> (r: &'static str)
    ensures
        r@ == (match kind {
            PlotKind::Bode => "bode"@,
            PlotKind::Time => "time"@,
            PlotKind::Xy => "xy"@,
            PlotKind::Generic => "generic"@,
        }),
{
    match kind {
        PlotKind::Bode => "bode",
        PlotKind::Time => "time",
        PlotKind::Xy => "xy",
        PlotKind::Generic => "generic",
    }
}

proof fn lema_con_entrada_conserva(v: Seq<VistaPlan>, e: VistaPlan, id: Seq<char>)
    requires
        exists|k: int| 0 <= k < v.len() && (#[trigger] v[k]).0 == id,
    ensures
        exists|k: int| 0 <= k < con_entrada_spec(v, e).len() && (#[trigger] con_entrada_spec(v, e)[k]).0 == id,
{
    let k = choose|k: int| 0 <= k < v.len() && (#[trigger] v[k]).0 == id;
    lema_posicion_desde(v, e.0, 0);
    let i = posicion_desde(v, e.0, 0);
    let w = con_entrada_spec(v, e);
    if i < v.len() && i == k {
        assert(w[k].0 == e.0 && v[i].0 == e.0);
        assert(w[k].0 == id);
    } else {
        assert(w[k] == v[k]);
    }
}

/// After the interview every new plot is in the plan.
pub proof fn cada_grafico_queda_en_el_plan(v: Seq<VistaPlan>, nuevos: Seq<VistaPlan>)
    ensures
        forall|j: int| 0 <= j < nuevos.len() ==> exists|k: int|
            0 <= k < plan_tras(v, nuevos).len() && (#[trigger] plan_tras(v, nuevos)[k]).0 == (#[trigger] nuevos[j]).0,
    decreases nuevos.len(),
{
    if nuevos.len() > 0 {
        let pre = nuevos.drop_last();
        let e = nuevos.last();
        cada_grafico_queda_en_el_plan(v, pre);
        let antes = plan_tras(v, pre);
        lema_posicion_desde(antes, e.0, 0);
        let i = posicion_desde(antes, e.0, 0);
        let w = plan_tras(v, nuevos);
        assert forall|j: int| 0 <= j < nuevos.len() implies exists|k: int|
            0 <= k < w.len() && (#[trigger] w[k]).0 == (#[trigger] nuevos[j]).0 by {
            if j == nuevos.len() - 1 {
                if i < antes.len() {
                    assert(w[i].0 == e.0);
                } else {
                    assert(w[antes.len() as int].0 == e.0);
                }
            } else {
                assert(nuevos[j] == pre[j]);
                lema_con_entrada_conserva(antes, e, pre[j].0);
            }
        }
    }
}

/// After the interview every new plot is a figure of some section, so that
/// it is in the PDF.
pub proof fn cada_grafico_queda_en_una_seccion(ss: Seq<Nodo>, nuevos: Seq<VistaPlan>)
    ensures
        forall|j: int| 0 <= j < nuevos.len() ==> exists|k: int|
            0 <= k < secciones_tras(ss, nuevos).len() && (#[trigger] secciones_tras(ss, nuevos)[k]).figuras.contains(
                (#[trigger] nuevos[j]).0,
            ),
    decreases nuevos.len(),
{
    if nuevos.len() > 0 {
        let pre = nuevos.drop_last();
        let e = nuevos.last();
        cada_grafico_queda_en_una_seccion(ss, pre);
        let antes = secciones_tras(ss, pre);
        let w = secciones_tras(ss, nuevos);
        assert forall|j: int| 0 <= j < nuevos.len() implies exists|k: int|
            0 <= k < w.len() && (#[trigger] w[k]).figuras.contains((#[trigger] nuevos[j]).0) by {
            if j == nuevos.len() - 1 {
                if !(exists|k: int| 0 <= k < antes.len() && (#[trigger] antes[k]).figuras.contains(e.0)) {
                    assert(w[antes.len() as int] == seccion_para(e));
                    assert(seccion_para(e).figuras[0] == e.0);
                }
            } else {
                assert(nuevos[j] == pre[j]);
                let k = choose|k: int| 0 <= k < antes.len() && (#[trigger] antes[k]).figuras.contains(pre[j].0);
                assert(w[k] == antes[k]);
            }
        }
    }
}

} // verus!
