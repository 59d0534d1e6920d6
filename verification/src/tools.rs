//! The tools that the MCP server offers, and the command line that each one
//! runs.
//!
//! Each tool builds a command line of `xtal` and the server runs it as a
//! subprocess of its own binary: the MCP cannot drift from the command line,
//! since what a tool does is what the command does. Which command line a
//! call gives is decided here; running it, and the tools that look at the
//! disk themselves, are the program's part.
//!
//! The arguments arrive as arbitrary JSON, and they are checked by hand: the
//! schema that is published helps the client, it guarantees nothing.
use vstd::prelude::*;
use crate::mcp::{opt_texto, textos, RpcError, Session, INVALID_PARAMS, INVALID_REQUEST};
use crate::texto::{agregar, cadena, caracteres, empieza_con, iguales};

verus! {

broadcast use vstd::string::group_string_axioms;

// ---------------------------------------------------------------------------
// The arguments
// ---------------------------------------------------------------------------

/// A value among a call's arguments, as the tools read it.
#[derive(Debug, Clone)]
pub enum Valor {
    Texto(String),
    /// A number: as the command line is given it where it is a decimal, and
    /// cut to a count where it counts something (`n as usize`).
    Numero { decimal: String, cantidad: usize },
    Logico(bool),
    /// An array: its strings, and `None` for what is not one.
    Lista(Vec<Option<String>>),
    /// `null` or an object.
    Otro,
}

/// A call's arguments: the fields of the JSON object, each key once.
#[derive(Debug, Clone)]
pub struct Argumentos {
    pub campos: Vec<(String, Valor)>,
}

/// The value under `clave`, if there is one.
pub open spec fn busca(campos: Seq<(String, Valor)>, clave: Seq<char>) -> Option<Valor>
    decreases campos.len(),
{
    if campos.len() == 0 {
        None
    } else if campos[0].0@ == clave {
        Some(campos[0].1)
    } else {
        busca(campos.drop_first(), clave)
    }
}

/// The string under `clave` (`Value::as_str`).
pub open spec fn texto_en(a: Argumentos, clave: Seq<char>) -> Option<Seq<char>> {
    match busca(a.campos@, clave) {
        Some(Valor::Texto(s)) => Some(s@),
        _ => None,
    }
}

/// An optional string: absent, not a string or empty are all `None`.
pub open spec fn opt_str_spec(a: Argumentos, clave: Seq<char>) -> Option<Seq<char>> {
    match texto_en(a, clave) {
        Some(s) => if s.len() > 0 { Some(s) } else { None },
        None => None,
    }
}

/// A string the tool cannot go without.
pub open spec fn req_str_spec(a: Argumentos, clave: Seq<char>) -> Result<Seq<char>, Seq<char>> {
    match texto_en(a, clave) {
        Some(s) => Ok(s),
        None => Err("falta el argumento obligatorio `"@ + clave + "` (string)"@),
    }
}

/// A number the tool cannot go without, as a decimal.
pub open spec fn req_num_spec(a: Argumentos, clave: Seq<char>) -> Result<Seq<char>, Seq<char>> {
    match busca(a.campos@, clave) {
        Some(Valor::Numero { decimal, cantidad }) => Ok(decimal@),
        _ => Err("falta el argumento obligatorio `"@ + clave + "` (número)"@),
    }
}

/// The decimal digits of `n`, with no leading zero.
pub open spec fn cifras(n: nat) -> Seq<char>
    decreases n,
{
    if n < 10 {
        seq![((n + 0x30) as u32) as char]
    } else {
        cifras(n / 10).push((((n % 10) + 0x30) as u32) as char)
    }
}

/// An optional count, written in decimal.
pub open spec fn opt_cantidad_spec(a: Argumentos, clave: Seq<char>) -> Option<Seq<char>> {
    match busca(a.campos@, clave) {
        Some(Valor::Numero { decimal, cantidad }) => Some(cifras(cantidad as nat)),
        _ => None,
    }
}

/// A flag: `true` only where it is the boolean `true`.
pub open spec fn opt_bool_spec(a: Argumentos, clave: Seq<char>) -> bool {
    match busca(a.campos@, clave) {
        Some(Valor::Logico(b)) => b,
        _ => false,
    }
}

/// The strings of a list, in order, skipping what is not one.
pub open spec fn solo_textos(v: Seq<Option<String>>) -> Seq<Seq<char>>
    decreases v.len(),
{
    if v.len() == 0 {
        Seq::empty()
    } else {
        match v.last() {
            Some(s) => solo_textos(v.drop_last()).push(s@),
            None => solo_textos(v.drop_last()),
        }
    }
}

/// A list of strings; a lone string that is not empty is taken as a list of
/// one, for the client's comfort.
pub open spec fn opt_list_spec(a: Argumentos, clave: Seq<char>) -> Seq<Seq<char>> {
    match busca(a.campos@, clave) {
        Some(Valor::Lista(v)) => solo_textos(v@),
        Some(Valor::Texto(s)) => if s@.len() > 0 { seq![s@] } else { Seq::empty() },
        _ => Seq::empty(),
    }
}

/// `flag value`, where there is a value.
pub open spec fn opcion(flag: Seq<char>, valor: Option<Seq<char>>) -> Seq<Seq<char>> {
    match valor {
        Some(v) => seq![flag, v],
        None => Seq::empty(),
    }
}

/// `flag value` for each value (a repeatable flag).
pub open spec fn cada(flag: Seq<char>, valores: Seq<Seq<char>>) -> Seq<Seq<char>>
    decreases valores.len(),
{
    if valores.len() == 0 {
        Seq::empty()
    } else {
        cada(flag, valores.drop_last()) + seq![flag, valores.last()]
    }
}

/// The value under `clave`.
fn busca_exec<'a>(a: &'a Argumentos, clave: &str) -> (r: Option<&'a Valor>)
    ensures
        match busca(a.campos@, clave@) {
            Some(v) => r == Some(&v),
            None => r is None,
        },
{
    let c = caracteres(clave);
    let mut k: usize = 0;
    assert(a.campos@.skip(0) =~= a.campos@);
    while k < a.campos.len()
        invariant
            k <= a.campos@.len(),
            c@ == clave@,
            busca(a.campos@.skip(k as int), clave@) == busca(a.campos@, clave@),
        decreases a.campos@.len() - k,
    {
        assert(a.campos@.skip(k as int).drop_first() =~= a.campos@.skip(k + 1));
        assert(a.campos@.skip(k as int)[0] == a.campos@[k as int]);
        if iguales(&caracteres(a.campos[k].0.as_str()), &c) {
            return Some(&a.campos[k].1);
        }
        k = k + 1;
    }
    None
}

/// An optional string argument.
pub fn opt_str(a: &Argumentos, clave: &str) -> (r: Option<String>)
    ensures
        opt_texto(r) == opt_str_spec(*a, clave@),
{
    match busca_exec(a, clave) {
        Some(Valor::Texto(s)) => if s.as_str().is_empty() {
            None
        } else {
            Some(s.clone())
        },
        _ => None,
    }
}

/// A string argument the tool cannot go without.
pub fn req_str(a: &Argumentos, clave: &str) -> (r: Result<String, String>)
    ensures
        match (r, req_str_spec(*a, clave@)) {
            (Ok(x), Ok(y)) => x@ == y,
            (Err(x), Err(y)) => x@ == y,
            _ => false,
        },
{
    match busca_exec(a, clave) {
        Some(Valor::Texto(s)) => Ok(s.clone()),
        _ => {
            let mut m = caracteres("falta el argumento obligatorio `");
            crate::texto::agregar(&mut m, &caracteres(clave));
            crate::texto::agregar(&mut m, &caracteres("` (string)"));
            Err(cadena(&m))
        },
    }
}

/// A number argument the tool cannot go without, as a decimal.
pub fn req_num(a: &Argumentos, clave: &str) -> (r: Result<String, String>)
    ensures
        match (r, req_num_spec(*a, clave@)) {
            (Ok(x), Ok(y)) => x@ == y,
            (Err(x), Err(y)) => x@ == y,
            _ => false,
        },
{
    match busca_exec(a, clave) {
        Some(Valor::Numero { decimal, cantidad }) => Ok(decimal.clone()),
        _ => {
            let mut m = caracteres("falta el argumento obligatorio `");
            crate::texto::agregar(&mut m, &caracteres(clave));
            crate::texto::agregar(&mut m, &caracteres("` (número)"));
            Err(cadena(&m))
        },
    }
}

/// `n` in decimal.
pub(crate) fn en_cifras(n: usize) -> (r: Vec<char>)
    ensures
        r@ == cifras(n as nat),
    decreases n,
{
    let c = ((n % 10) as u8 + 0x30u8) as char;
    assert(c == (((n % 10) + 0x30) as u32) as char);
    if n < 10 {
        let mut v: Vec<char> = Vec::new();
        v.push(c);
        assert(n % 10 == n);
        assert(v@ =~= cifras(n as nat));
        v
    } else {
        let mut v = en_cifras(n / 10);
        v.push(c);
        v
    }
}

/// An optional count argument, in decimal.
pub fn opt_cantidad(a: &Argumentos, clave: &str) -> (r: Option<String>)
    ensures
        opt_texto(r) == opt_cantidad_spec(*a, clave@),
{
    match busca_exec(a, clave) {
        Some(Valor::Numero { decimal, cantidad }) => Some(cadena(&en_cifras(*cantidad))),
        _ => None,
    }
}

/// A flag argument.
pub fn opt_bool(a: &Argumentos, clave: &str) -> (r: bool)
    ensures
        r == opt_bool_spec(*a, clave@),
{
    match busca_exec(a, clave) {
        Some(Valor::Logico(b)) => *b,
        _ => false,
    }
}

/// A list of strings argument.
pub fn opt_list(a: &Argumentos, clave: &str) -> (r: Vec<String>)
    ensures
        textos(r@) == opt_list_spec(*a, clave@),
{
    let mut r: Vec<String> = Vec::new();
    match busca_exec(a, clave) {
        Some(Valor::Lista(v)) => {
            let mut k: usize = 0;
            assert(v@.take(0) =~= Seq::<Option<String>>::empty());
            while k < v.len()
                invariant
                    k <= v@.len(),
                    textos(r@) == solo_textos(v@.take(k as int)),
                decreases v@.len() - k,
            {
                assert(v@.take(k + 1).drop_last() =~= v@.take(k as int));
                match &v[k] {
                    Some(s) => {
                        let ghost antes = textos(r@);
                        r.push(s.clone());
                        assert(textos(r@) =~= antes.push(s@));
                    },
                    None => {},
                }
                k = k + 1;
            }
            assert(v@.take(v@.len() as int) =~= v@);
        },
        Some(Valor::Texto(s)) => {
            if !s.as_str().is_empty() {
                r.push(s.clone());
                assert(textos(r@) =~= seq![s@]);
            }
        },
        _ => {},
    }
    if r.len() == 0 {
        assert(textos(r@) =~= Seq::<Seq<char>>::empty());
    }
    r
}

/// Adds `flag value` if there is a value.
pub fn push_opt(argv: &mut Vec<String>, flag: &str, value: Option<String>)
    ensures
        textos(final(argv)@) == textos(old(argv)@) + opcion(flag@, opt_texto(value)),
{
    let ghost antes = textos(argv@);
    match value {
        Some(v) => {
            argv.push(flag.to_owned());
            argv.push(v);
            assert(textos(argv@) =~= antes + opcion(flag@, opt_texto(Some(v))));
        },
        None => {
            assert(textos(argv@) =~= antes + opcion(flag@, opt_texto(value)));
        },
    }
}

/// Adds `flag value` for each value.
pub fn push_each(argv: &mut Vec<String>, flag: &str, values: Vec<String>)
    ensures
        textos(final(argv)@) == textos(old(argv)@) + cada(flag@, textos(values@)),
{
    let ghost antes = textos(argv@);
    let ghost vs = textos(values@);
    let mut k: usize = 0;
    assert(vs.take(0) =~= Seq::<Seq<char>>::empty());
    assert(antes + cada(flag@, vs.take(0)) =~= antes);
    while k < values.len()
        invariant
            k <= values@.len(),
            vs == textos(values@),
            textos(argv@) == antes + cada(flag@, vs.take(k as int)),
        decreases values@.len() - k,
    {
        assert(vs.take(k + 1).drop_last() =~= vs.take(k as int));
        assert(vs.take(k + 1).last() == values@[k as int]@);
        let ghost previo = textos(argv@);
        argv.push(flag.to_owned());
        argv.push(values[k].clone());
        assert(textos(argv@) =~= previo + seq![flag@, values@[k as int]@]);
        k = k + 1;
    }
    assert(vs.take(values@.len() as int) =~= vs);
}

// ---------------------------------------------------------------------------
// The table
// ---------------------------------------------------------------------------

/// A tool as `tools/list` shows it (its argument schema goes with it, by
/// name, where the JSON is written).
#[derive(Debug, Clone, Copy)]
pub struct Tool {
    pub name: &'static str,
    pub title: &'static str,
    pub description: &'static str,
}

pub open spec fn nombres(v: Seq<Tool>) -> Seq<Seq<char>> {
    v.map_values(|t: Tool| t.name@)
}

/// The names of the tools, in order.
pub open spec fn nombres_spec() -> Seq<Seq<char>> {
    seq![
        "xtal_doctor"@,
        "xtal_list_projects"@,
        "xtal_open_project"@,
        "xtal_status"@,
        "xtal_scan"@,
        "xtal_plan_add"@,
        "xtal_project_status"@,
        "xtal_new_project"@,
        "xtal_import_measurement"@,
        "xtal_formula_measurement"@,
        "xtal_import_rawfile"@,
        "xtal_new_plot"@,
        "xtal_add_series"@,
        "xtal_add_section"@,
        "xtal_build_report"@,
        "xtal_run_command"@,
    ]
}

/// The tools with their names, titles and descriptions, in order.
pub open spec fn tools_spec() -> Seq<Tool> {
    seq![
        Tool {
            name: "xtal_doctor",
            title: "Verificar el entorno",
            description: "Verifica qué dependencias externas están instaladas: tectonic (motor LaTeX), pdflatex (fallback), ngspice (simulación) y LTspice. Mirá `can_build`: si es false, xtal_build_report va a fallar y hay que instalar un motor LaTeX antes de intentarlo.",
        },
        Tool {
            name: "xtal_list_projects",
            title: "Buscar proyectos",
            description: "Busca proyectos Xtal (carpetas con xtal.toml) abajo de un directorio. Sirve para orientarse cuando el cliente no tiene un directorio de trabajo útil: listás, y después abrís uno con xtal_open_project.",
        },
        Tool {
            name: "xtal_open_project",
            title: "Abrir un proyecto",
            description: "Fija el proyecto por default para el resto de la sesión y devuelve su estado. Cualquier tool puede pisarlo pasando `project`, así que se puede trabajar en varios proyectos sin reabrir nada.",
        },
        Tool {
            name: "xtal_status",
            title: "Qué falta para el informe",
            description: "LO PRIMERO QUE HAY QUE LLAMAR. Compara el plan del informe contra lo que hay en disco y devuelve, gráfico por gráfico, qué curvas ya están y cuáles faltan. Si `complete` es true, el informe se puede compilar. Volvé a llamarla después de cada paso.",
        },
        Tool {
            name: "xtal_scan",
            title: "Qué hay en la carpeta",
            description: "Lista los archivos que hay en la carpeta del informe y que Xtal no generó —CSV del instrumento, rawfiles, netlists, fotos—, dice cuál ya se usó y con qué comando se usa el que falta. Llamala cuando el usuario dice que dejó datos nuevos: un archivo que nadie importó no aparece en el informe y no se nota hasta el final.",
        },
        Tool {
            name: "xtal_plan_add",
            title: "Planificar un gráfico",
            description: "Anota que el informe va a tener este gráfico y qué curvas se esperan en él; crea además el gráfico vacío. Es contra este plan que xtal_status dice qué falta, así que conviene planificar TODO el informe antes de empezar a cargar datos. Correrlo dos veces con el mismo id actualiza la entrada, no la duplica.",
        },
        Tool {
            name: "xtal_project_status",
            title: "Contenido del proyecto",
            description: "Lista el inventario crudo: mediciones, gráficos y secciones que ya existen. Para saber qué FALTA, usá xtal_status.",
        },
        Tool {
            name: "xtal_new_project",
            title: "Crear un proyecto",
            description: "Crea una carpeta-proyecto nueva con su estructura (xtal.toml, mediciones/, graficos/, salida/) y la deja abierta como proyecto por default de la sesión.",
        },
        Tool {
            name: "xtal_import_measurement",
            title: "Importar un CSV",
            description: "Importa un CSV (típicamente de un osciloscopio) como medición. Con `inspect: true` NO importa nada: solo muestra las columnas y las primeras filas, que es como conviene arrancar con un archivo desconocido antes de elegir x_col/y_col.",
        },
        Tool {
            name: "xtal_formula_measurement",
            title: "Generar una curva teórica",
            description: "Genera una medición teórica evaluando una fórmula sobre un barrido. La sintaxis es la de evalexpr: `math::log10`, `math::sqrt`, `^` para potencia. Ejemplo de un pasabajos RC en dB: `20*math::log10(1/math::sqrt(1+(f/fc)^2))` con la constante fc.",
        },
        Tool {
            name: "xtal_import_rawfile",
            title: "Importar un .raw de LTspice/ngspice",
            description: "Importa el resultado de una simulación ya corrida en LTspice o ngspice (archivo .raw) como medición. Con `inspect: true` solo lista las variables que trae el archivo, sin importar nada: es el paso previo para saber qué pedir en `nodes`.",
        },
        Tool {
            name: "xtal_new_plot",
            title: "Crear un gráfico",
            description: "Crea un gráfico vacío. Un gráfico NO tiene datos: es una receta que referencia mediciones por id. Los datos se agregan después con xtal_add_series. Con kind `bode` el eje X queda logarítmico solo.",
        },
        Tool {
            name: "xtal_add_series",
            title: "Agregar una medición a un gráfico",
            description: "Agrega una medición a un gráfico. El estilo sale solo de la fuente del dato (teórica sólida, simulada con markers, medida punteada) y el color del rol (input amarillo, output verde). Solo pasá color o line si querés pisar ese default.",
        },
        Tool {
            name: "xtal_add_section",
            title: "Agregar una sección al informe",
            description: "Agrega una sección (o subsección, con `under`) al informe, con su texto en LaTeX y los gráficos que van como figuras.",
        },
        Tool {
            name: "xtal_build_report",
            title: "Compilar el informe",
            description: "Genera el LaTeX del proyecto y lo compila a PDF con Tectonic. Devuelve la ruta del PDF. Si falla, el mensaje trae el error de LaTeX ya parseado. La primera compilación de la máquina puede tardar: Tectonic baja los paquetes que necesita.",
        },
        Tool {
            name: "xtal_run_command",
            title: "Comando arbitrario de Xtal",
            description: "Escape hatch: corre cualquier subcomando de la CLI de Xtal con los argumentos crudos, para lo que no cubren las tools de arriba (`sim`, `circuit`, `config`, `meas show`, `setup`...). Pasá los argumentos ya separados, sin el `xtal` del principio. Para saber qué acepta un subcomando, corrélo con `--help`.",
        },
    ]
}

/// The tools, in the order `tools/list` gives them.
pub fn all() -> (r: Vec<Tool>)
    ensures
        r@ == tools_spec(),
        nombres(r@) == nombres_spec(),
{
    let r = vec![
        Tool {
            name: "xtal_doctor",
            title: "Verificar el entorno",
            description: "Verifica qué dependencias externas están instaladas: tectonic (motor LaTeX), pdflatex (fallback), ngspice (simulación) y LTspice. Mirá `can_build`: si es false, xtal_build_report va a fallar y hay que instalar un motor LaTeX antes de intentarlo.",
        },
        Tool {
            name: "xtal_list_projects",
            title: "Buscar proyectos",
            description: "Busca proyectos Xtal (carpetas con xtal.toml) abajo de un directorio. Sirve para orientarse cuando el cliente no tiene un directorio de trabajo útil: listás, y después abrís uno con xtal_open_project.",
        },
        Tool {
            name: "xtal_open_project",
            title: "Abrir un proyecto",
            description: "Fija el proyecto por default para el resto de la sesión y devuelve su estado. Cualquier tool puede pisarlo pasando `project`, así que se puede trabajar en varios proyectos sin reabrir nada.",
        },
        Tool {
            name: "xtal_status",
            title: "Qué falta para el informe",
            description: "LO PRIMERO QUE HAY QUE LLAMAR. Compara el plan del informe contra lo que hay en disco y devuelve, gráfico por gráfico, qué curvas ya están y cuáles faltan. Si `complete` es true, el informe se puede compilar. Volvé a llamarla después de cada paso.",
        },
        Tool {
            name: "xtal_scan",
            title: "Qué hay en la carpeta",
            description: "Lista los archivos que hay en la carpeta del informe y que Xtal no generó —CSV del instrumento, rawfiles, netlists, fotos—, dice cuál ya se usó y con qué comando se usa el que falta. Llamala cuando el usuario dice que dejó datos nuevos: un archivo que nadie importó no aparece en el informe y no se nota hasta el final.",
        },
        Tool {
            name: "xtal_plan_add",
            title: "Planificar un gráfico",
            description: "Anota que el informe va a tener este gráfico y qué curvas se esperan en él; crea además el gráfico vacío. Es contra este plan que xtal_status dice qué falta, así que conviene planificar TODO el informe antes de empezar a cargar datos. Correrlo dos veces con el mismo id actualiza la entrada, no la duplica.",
        },
        Tool {
            name: "xtal_project_status",
            title: "Contenido del proyecto",
            description: "Lista el inventario crudo: mediciones, gráficos y secciones que ya existen. Para saber qué FALTA, usá xtal_status.",
        },
        Tool {
            name: "xtal_new_project",
            title: "Crear un proyecto",
            description: "Crea una carpeta-proyecto nueva con su estructura (xtal.toml, mediciones/, graficos/, salida/) y la deja abierta como proyecto por default de la sesión.",
        },
        Tool {
            name: "xtal_import_measurement",
            title: "Importar un CSV",
            description: "Importa un CSV (típicamente de un osciloscopio) como medición. Con `inspect: true` NO importa nada: solo muestra las columnas y las primeras filas, que es como conviene arrancar con un archivo desconocido antes de elegir x_col/y_col.",
        },
        Tool {
            name: "xtal_formula_measurement",
            title: "Generar una curva teórica",
            description: "Genera una medición teórica evaluando una fórmula sobre un barrido. La sintaxis es la de evalexpr: `math::log10`, `math::sqrt`, `^` para potencia. Ejemplo de un pasabajos RC en dB: `20*math::log10(1/math::sqrt(1+(f/fc)^2))` con la constante fc.",
        },
        Tool {
            name: "xtal_import_rawfile",
            title: "Importar un .raw de LTspice/ngspice",
            description: "Importa el resultado de una simulación ya corrida en LTspice o ngspice (archivo .raw) como medición. Con `inspect: true` solo lista las variables que trae el archivo, sin importar nada: es el paso previo para saber qué pedir en `nodes`.",
        },
        Tool {
            name: "xtal_new_plot",
            title: "Crear un gráfico",
            description: "Crea un gráfico vacío. Un gráfico NO tiene datos: es una receta que referencia mediciones por id. Los datos se agregan después con xtal_add_series. Con kind `bode` el eje X queda logarítmico solo.",
        },
        Tool {
            name: "xtal_add_series",
            title: "Agregar una medición a un gráfico",
            description: "Agrega una medición a un gráfico. El estilo sale solo de la fuente del dato (teórica sólida, simulada con markers, medida punteada) y el color del rol (input amarillo, output verde). Solo pasá color o line si querés pisar ese default.",
        },
        Tool {
            name: "xtal_add_section",
            title: "Agregar una sección al informe",
            description: "Agrega una sección (o subsección, con `under`) al informe, con su texto en LaTeX y los gráficos que van como figuras.",
        },
        Tool {
            name: "xtal_build_report",
            title: "Compilar el informe",
            description: "Genera el LaTeX del proyecto y lo compila a PDF con Tectonic. Devuelve la ruta del PDF. Si falla, el mensaje trae el error de LaTeX ya parseado. La primera compilación de la máquina puede tardar: Tectonic baja los paquetes que necesita.",
        },
        Tool {
            name: "xtal_run_command",
            title: "Comando arbitrario de Xtal",
            description: "Escape hatch: corre cualquier subcomando de la CLI de Xtal con los argumentos crudos, para lo que no cubren las tools de arriba (`sim`, `circuit`, `config`, `meas show`, `setup`...). Pasá los argumentos ya separados, sin el `xtal` del principio. Para saber qué acepta un subcomando, corrélo con `--help`.",
        },
    ];
    assert(r@ =~= tools_spec());
    assert(nombres(r@) =~= nombres_spec());
    r
}

/// Every tool has a name of its own, and every name starts with `xtal_`:
/// looking a tool up by name finds exactly one, and the names do not clash
/// with another server's tools.
pub proof fn los_nombres_son_unicos_y_prefijados()
    ensures
        forall|i: int, j: int| 0 <= i < j < nombres_spec().len() ==> nombres_spec()[i] != nombres_spec()[j],
        forall|i: int| 0 <= i < nombres_spec().len() ==> #[trigger] empieza_con(nombres_spec()[i], "xtal_"@),
{
    reveal_strlit("xtal_");
    reveal_strlit("xtal_doctor");
    reveal_strlit("xtal_list_projects");
    reveal_strlit("xtal_open_project");
    reveal_strlit("xtal_status");
    reveal_strlit("xtal_scan");
    reveal_strlit("xtal_plan_add");
    reveal_strlit("xtal_project_status");
    reveal_strlit("xtal_new_project");
    reveal_strlit("xtal_import_measurement");
    reveal_strlit("xtal_formula_measurement");
    reveal_strlit("xtal_import_rawfile");
    reveal_strlit("xtal_new_plot");
    reveal_strlit("xtal_add_series");
    reveal_strlit("xtal_add_section");
    reveal_strlit("xtal_build_report");
    reveal_strlit("xtal_run_command");
    let n = nombres_spec();
    assert forall|i: int| 0 <= i < n.len() implies #[trigger] empieza_con(n[i], "xtal_"@) by {
        assert(n[i].subrange(0, 5) =~= "xtal_"@);
    }
    assert forall|i: int, j: int| 0 <= i < j < n.len() implies n[i] != n[j] by {
        assert(n[i].len() != n[j].len() || n[i][5] != n[j][5]);
    }
}


// ---------------------------------------------------------------------------
// The command line of each tool
// ---------------------------------------------------------------------------

pub open spec fn lo_mismo(r: Result<Vec<String>, String>, s: Result<Seq<Seq<char>>, Seq<char>>) -> bool {
    match (r, s) {
        (Ok(x), Ok(y)) => textos(x@) == y,
        (Err(x), Err(y)) => x@ == y,
        _ => false,
    }
}

pub open spec fn si(c: bool, v: Seq<Seq<char>>) -> Seq<Seq<char>> {
    if c { v } else { Seq::empty() }
}

/// `plan add <id> [--title] [--kind] [--source]* [--note] --json`.
pub open spec fn plan_add_spec(a: Argumentos) -> Result<Seq<Seq<char>>, Seq<char>> {
    match req_str_spec(a, "id"@) {
        Ok(id) => Ok(seq!["plan"@, "add"@, id] + opcion("--title"@, opt_str_spec(a, "title"@))
            + opcion("--kind"@, opt_str_spec(a, "kind"@)) + cada("--source"@, opt_list_spec(a, "sources"@))
            + opcion("--note"@, opt_str_spec(a, "note"@)) + seq!["--json"@]),
        Err(e) => Err(e),
    }
}

/// `new <name> [--format] [--theme] --json`.
pub open spec fn new_project_spec(a: Argumentos) -> Result<Seq<Seq<char>>, Seq<char>> {
    match req_str_spec(a, "name"@) {
        Ok(name) => Ok(seq!["new"@, name] + opcion("--format"@, opt_str_spec(a, "format"@))
            + opcion("--theme"@, opt_str_spec(a, "theme"@)) + seq!["--json"@]),
        Err(e) => Err(e),
    }
}

/// The options of a CSV import after its id.
pub open spec fn opciones_csv(a: Argumentos) -> Seq<Seq<char>> {
    opcion("--kind"@, opt_str_spec(a, "kind"@)) + opcion("--x-col"@, opt_str_spec(a, "x_col"@))
        + opcion("--y-col"@, opt_str_spec(a, "y_col"@)) + opcion("--delimiter"@, opt_str_spec(a, "delimiter"@))
        + opcion("--skip-rows"@, opt_cantidad_spec(a, "skip_rows"@)) + opcion("--x-unit"@, opt_str_spec(a, "x_unit"@))
        + opcion("--y-unit"@, opt_str_spec(a, "y_unit"@)) + opcion("--label"@, opt_str_spec(a, "label"@))
}

/// `meas import <file>`, then with `inspect` `--inspect --id <id or
/// "inspect">` (the command line wants an id even to look), else `--id
/// <id>`; then the CSV options, and `--json` unless inspecting.
pub open spec fn import_measurement_spec(a: Argumentos) -> Result<Seq<Seq<char>>, Seq<char>> {
    let inspect = opt_bool_spec(a, "inspect"@);
    match req_str_spec(a, "file"@) {
        Ok(file) => {
            let cabeza = seq!["meas"@, "import"@, file];
            if inspect {
                let id = match opt_str_spec(a, "id"@) { Some(i) => i, None => "inspect"@ };
                Ok(cabeza + seq!["--inspect"@, "--id"@, id] + opciones_csv(a))
            } else {
                match req_str_spec(a, "id"@) {
                    Ok(id) => Ok(cabeza + seq!["--id"@, id] + opciones_csv(a) + seq!["--json"@]),
                    Err(e) => Err(e),
                }
            }
        },
        Err(e) => Err(e),
    }
}

/// `meas formula --id --expr --from --to [--var] [--points] [--scale]
/// [--const]* [--kind] [--x-unit] [--y-unit] [--label] --json`.
pub open spec fn formula_measurement_spec(a: Argumentos) -> Result<Seq<Seq<char>>, Seq<char>> {
    match (req_str_spec(a, "id"@), req_str_spec(a, "expr"@), req_num_spec(a, "from"@), req_num_spec(a, "to"@)) {
        (Err(e), _, _, _) => Err(e),
        (Ok(_), Err(e), _, _) => Err(e),
        (Ok(_), Ok(_), Err(e), _) => Err(e),
        (Ok(_), Ok(_), Ok(_), Err(e)) => Err(e),
        (Ok(id), Ok(expr), Ok(from), Ok(to)) => Ok(
            seq!["meas"@, "formula"@, "--id"@, id, "--expr"@, expr, "--from"@, from, "--to"@, to]
                + opcion("--var"@, opt_str_spec(a, "var"@)) + opcion("--points"@, opt_cantidad_spec(a, "points"@))
                + opcion("--scale"@, opt_str_spec(a, "scale"@)) + cada("--const"@, opt_list_spec(a, "constants"@))
                + opcion("--kind"@, opt_str_spec(a, "kind"@)) + opcion("--x-unit"@, opt_str_spec(a, "x_unit"@))
                + opcion("--y-unit"@, opt_str_spec(a, "y_unit"@)) + opcion("--label"@, opt_str_spec(a, "label"@))
                + seq!["--json"@],
        ),
    }
}

/// `raw import <file> --as <id> [--inspect] [--node]* [--plot] [--plot-kind]
/// [--label] [--x-unit] [--y-unit]`; the id may be missing when inspecting.
pub open spec fn import_rawfile_spec(a: Argumentos) -> Result<Seq<Seq<char>>, Seq<char>> {
    let inspect = opt_bool_spec(a, "inspect"@);
    let id = if inspect {
        Ok(match opt_str_spec(a, "id"@) { Some(i) => i, None => "inspect"@ })
    } else {
        req_str_spec(a, "id"@)
    };
    match (req_str_spec(a, "file"@), id) {
        (Err(e), _) => Err(e),
        (Ok(_), Err(e)) => Err(e),
        (Ok(file), Ok(id)) => Ok(
            seq!["raw"@, "import"@, file, "--as"@, id] + si(inspect, seq!["--inspect"@])
                + cada("--node"@, opt_list_spec(a, "nodes"@)) + opcion("--plot"@, opt_str_spec(a, "plot"@))
                + opcion("--plot-kind"@, opt_str_spec(a, "plot_kind"@)) + opcion("--label"@, opt_str_spec(a, "label"@))
                + opcion("--x-unit"@, opt_str_spec(a, "x_unit"@)) + opcion("--y-unit"@, opt_str_spec(a, "y_unit"@)),
        ),
    }
}

/// `plot new <id> [--kind] [--title] [--x-label] [--y-label] [--x-scale]
/// [--y-scale] [--legend] --json`.
pub open spec fn new_plot_spec(a: Argumentos) -> Result<Seq<Seq<char>>, Seq<char>> {
    match req_str_spec(a, "id"@) {
        Ok(id) => Ok(seq!["plot"@, "new"@, id] + opcion("--kind"@, opt_str_spec(a, "kind"@))
            + opcion("--title"@, opt_str_spec(a, "title"@)) + opcion("--x-label"@, opt_str_spec(a, "x_label"@))
            + opcion("--y-label"@, opt_str_spec(a, "y_label"@)) + opcion("--x-scale"@, opt_str_spec(a, "x_scale"@))
            + opcion("--y-scale"@, opt_str_spec(a, "y_scale"@)) + opcion("--legend"@, opt_str_spec(a, "legend"@))
            + seq!["--json"@]),
        Err(e) => Err(e),
    }
}

/// `plot add-series <plot> --measurement <m> [--role] [--panel] [--color]
/// [--line] [--label] --json`.
pub open spec fn add_series_spec(a: Argumentos) -> Result<Seq<Seq<char>>, Seq<char>> {
    match (req_str_spec(a, "plot"@), req_str_spec(a, "measurement"@)) {
        (Err(e), _) => Err(e),
        (Ok(_), Err(e)) => Err(e),
        (Ok(plot), Ok(m)) => Ok(seq!["plot"@, "add-series"@, plot, "--measurement"@, m]
            + opcion("--role"@, opt_str_spec(a, "role"@)) + opcion("--panel"@, opt_str_spec(a, "panel"@))
            + opcion("--color"@, opt_str_spec(a, "color"@)) + opcion("--line"@, opt_str_spec(a, "line"@))
            + opcion("--label"@, opt_str_spec(a, "label"@)) + seq!["--json"@]),
    }
}

/// `section add <title> [--under] [--figure]* [--body]`.
pub open spec fn add_section_spec(a: Argumentos) -> Result<Seq<Seq<char>>, Seq<char>> {
    match req_str_spec(a, "title"@) {
        Ok(t) => Ok(seq!["section"@, "add"@, t] + opcion("--under"@, opt_str_spec(a, "under"@))
            + cada("--figure"@, opt_list_spec(a, "figures"@)) + opcion("--body"@, opt_str_spec(a, "body"@))),
        Err(e) => Err(e),
    }
}

/// `export` with `tex_only`, else `run`; `--monochrome`; `--pdflatex` (only
/// when compiling); `--format`; `--theme`.
pub open spec fn build_report_spec(a: Argumentos) -> Seq<Seq<char>> {
    let tex_only = opt_bool_spec(a, "tex_only"@);
    seq![if tex_only { "export"@ } else { "run"@ }] + si(opt_bool_spec(a, "monochrome"@), seq!["--monochrome"@])
        + si(opt_bool_spec(a, "pdflatex"@) && !tex_only, seq!["--pdflatex"@])
        + opcion("--format"@, opt_str_spec(a, "format"@)) + opcion("--theme"@, opt_str_spec(a, "theme"@))
}

/// The raw arguments, which cannot be empty.
pub open spec fn run_command_spec(a: Argumentos) -> Result<Seq<Seq<char>>, Seq<char>> {
    let v = opt_list_spec(a, "args"@);
    if v.len() == 0 {
        Err("`args` no puede estar vacío"@)
    } else {
        Ok(v)
    }
}

/// The command line that a tool runs with arguments `a`; `None` for the
/// tools that do their work themselves (finding, opening and listing
/// projects) and for names that are no tool.
pub open spec fn argv_spec(nombre: Seq<char>, a: Argumentos) -> Option<Result<Seq<Seq<char>>, Seq<char>>> {
    if nombre == "xtal_doctor"@ {
        Some(Ok(seq!["doctor"@, "--json"@]))
    } else if nombre == "xtal_status"@ {
        Some(Ok(seq!["status"@, "--json"@]))
    } else if nombre == "xtal_scan"@ {
        Some(Ok(seq!["scan"@, "--json"@]))
    } else if nombre == "xtal_plan_add"@ {
        Some(plan_add_spec(a))
    } else if nombre == "xtal_new_project"@ {
        Some(new_project_spec(a))
    } else if nombre == "xtal_import_measurement"@ {
        Some(import_measurement_spec(a))
    } else if nombre == "xtal_formula_measurement"@ {
        Some(formula_measurement_spec(a))
    } else if nombre == "xtal_import_rawfile"@ {
        Some(import_rawfile_spec(a))
    } else if nombre == "xtal_new_plot"@ {
        Some(new_plot_spec(a))
    } else if nombre == "xtal_add_series"@ {
        Some(add_series_spec(a))
    } else if nombre == "xtal_add_section"@ {
        Some(add_section_spec(a))
    } else if nombre == "xtal_build_report"@ {
        Some(Ok(build_report_spec(a)))
    } else if nombre == "xtal_run_command"@ {
        Some(run_command_spec(a))
    } else {
        None
    }
}

/// Adds `t`.
fn poner(argv: &mut Vec<String>, t: &str)
    ensures
        textos(final(argv)@) == textos(old(argv)@).push(t@),
{
    let ghost antes = textos(argv@);
    argv.push(t.to_owned());
    assert(textos(argv@) =~= antes.push(t@));
}

/// Adds `t`.
fn poner_texto(argv: &mut Vec<String>, t: String)
    ensures
        textos(final(argv)@) == textos(old(argv)@).push(t@),
{
    let ghost antes = textos(argv@);
    let ghost v = t@;
    argv.push(t);
    assert(textos(argv@) =~= antes.push(v));
}

fn plan_add(a: &Argumentos) -> (r: Result<Vec<String>, String>)
    ensures
        lo_mismo(r, plan_add_spec(*a)),
{
    let id = match req_str(a, "id") {
        Ok(i) => i,
        Err(e) => return Err(e),
    };
    let mut argv: Vec<String> = Vec::new();
    poner(&mut argv, "plan");
    poner(&mut argv, "add");
    poner_texto(&mut argv, id);
    push_opt(&mut argv, "--title", opt_str(a, "title"));
    push_opt(&mut argv, "--kind", opt_str(a, "kind"));
    push_each(&mut argv, "--source", opt_list(a, "sources"));
    push_opt(&mut argv, "--note", opt_str(a, "note"));
    poner(&mut argv, "--json");
    assert(textos(argv@) =~= plan_add_spec(*a)->Ok_0);
    Ok(argv)
}

fn new_project(a: &Argumentos) -> (r: Result<Vec<String>, String>)
    ensures
        lo_mismo(r, new_project_spec(*a)),
{
    let name = match req_str(a, "name") {
        Ok(n) => n,
        Err(e) => return Err(e),
    };
    let mut argv: Vec<String> = Vec::new();
    poner(&mut argv, "new");
    poner_texto(&mut argv, name);
    push_opt(&mut argv, "--format", opt_str(a, "format"));
    push_opt(&mut argv, "--theme", opt_str(a, "theme"));
    poner(&mut argv, "--json");
    assert(textos(argv@) =~= new_project_spec(*a)->Ok_0);
    Ok(argv)
}

#[verifier::rlimit(40)]
fn opciones_csv_exec(argv: &mut Vec<String>, a: &Argumentos)
    ensures
        textos(final(argv)@) == textos(old(argv)@) + opciones_csv(*a),
{
    let ghost antes = textos(argv@);
    push_opt(argv, "--kind", opt_str(a, "kind"));
    push_opt(argv, "--x-col", opt_str(a, "x_col"));
    push_opt(argv, "--y-col", opt_str(a, "y_col"));
    push_opt(argv, "--delimiter", opt_str(a, "delimiter"));
    push_opt(argv, "--skip-rows", opt_cantidad(a, "skip_rows"));
    push_opt(argv, "--x-unit", opt_str(a, "x_unit"));
    push_opt(argv, "--y-unit", opt_str(a, "y_unit"));
    push_opt(argv, "--label", opt_str(a, "label"));
    assert(textos(argv@) =~= antes + opciones_csv(*a));
}

fn import_measurement(a: &Argumentos) -> (r: Result<Vec<String>, String>)
    ensures
        lo_mismo(r, import_measurement_spec(*a)),
{
    let inspect = opt_bool(a, "inspect");
    let file = match req_str(a, "file") {
        Ok(f) => f,
        Err(e) => return Err(e),
    };
    let mut argv: Vec<String> = Vec::new();
    poner(&mut argv, "meas");
    poner(&mut argv, "import");
    poner_texto(&mut argv, file);
    if inspect {
        poner(&mut argv, "--inspect");
        poner(&mut argv, "--id");
        match opt_str(a, "id") {
            Some(i) => poner_texto(&mut argv, i),
            None => poner(&mut argv, "inspect"),
        }
    } else {
        let id = match req_str(a, "id") {
            Ok(i) => i,
            Err(e) => return Err(e),
        };
        poner(&mut argv, "--id");
        poner_texto(&mut argv, id);
    }
    opciones_csv_exec(&mut argv, a);
    if !inspect {
        poner(&mut argv, "--json");
    }
    assert(textos(argv@) =~= import_measurement_spec(*a)->Ok_0);
    Ok(argv)
}

fn formula_measurement(a: &Argumentos) -> (r: Result<Vec<String>, String>)
    ensures
        lo_mismo(r, formula_measurement_spec(*a)),
{
    let id = match req_str(a, "id") {
        Ok(i) => i,
        Err(e) => return Err(e),
    };
    let expr = match req_str(a, "expr") {
        Ok(i) => i,
        Err(e) => return Err(e),
    };
    let from = match req_num(a, "from") {
        Ok(i) => i,
        Err(e) => return Err(e),
    };
    let to = match req_num(a, "to") {
        Ok(i) => i,
        Err(e) => return Err(e),
    };
    let mut argv: Vec<String> = Vec::new();
    poner(&mut argv, "meas");
    poner(&mut argv, "formula");
    poner(&mut argv, "--id");
    poner_texto(&mut argv, id);
    poner(&mut argv, "--expr");
    poner_texto(&mut argv, expr);
    poner(&mut argv, "--from");
    poner_texto(&mut argv, from);
    poner(&mut argv, "--to");
    poner_texto(&mut argv, to);
    push_opt(&mut argv, "--var", opt_str(a, "var"));
    push_opt(&mut argv, "--points", opt_cantidad(a, "points"));
    push_opt(&mut argv, "--scale", opt_str(a, "scale"));
    push_each(&mut argv, "--const", opt_list(a, "constants"));
    push_opt(&mut argv, "--kind", opt_str(a, "kind"));
    push_opt(&mut argv, "--x-unit", opt_str(a, "x_unit"));
    push_opt(&mut argv, "--y-unit", opt_str(a, "y_unit"));
    push_opt(&mut argv, "--label", opt_str(a, "label"));
    poner(&mut argv, "--json");
    assert(textos(argv@) =~= formula_measurement_spec(*a)->Ok_0);
    Ok(argv)
}

fn import_rawfile(a: &Argumentos) -> (r: Result<Vec<String>, String>)
    ensures
        lo_mismo(r, import_rawfile_spec(*a)),
{
    let inspect = opt_bool(a, "inspect");
    let file = match req_str(a, "file") {
        Ok(f) => f,
        Err(e) => return Err(e),
    };
    let id = if inspect {
        match opt_str(a, "id") {
            Some(i) => i,
            None => "inspect".to_owned(),
        }
    } else {
        match req_str(a, "id") {
            Ok(i) => i,
            Err(e) => return Err(e),
        }
    };
    let mut argv: Vec<String> = Vec::new();
    poner(&mut argv, "raw");
    poner(&mut argv, "import");
    poner_texto(&mut argv, file);
    poner(&mut argv, "--as");
    poner_texto(&mut argv, id);
    if inspect {
        poner(&mut argv, "--inspect");
    }
    push_each(&mut argv, "--node", opt_list(a, "nodes"));
    push_opt(&mut argv, "--plot", opt_str(a, "plot"));
    push_opt(&mut argv, "--plot-kind", opt_str(a, "plot_kind"));
    push_opt(&mut argv, "--label", opt_str(a, "label"));
    push_opt(&mut argv, "--x-unit", opt_str(a, "x_unit"));
    push_opt(&mut argv, "--y-unit", opt_str(a, "y_unit"));
    assert(textos(argv@) =~= import_rawfile_spec(*a)->Ok_0);
    Ok(argv)
}

fn new_plot(a: &Argumentos) -> (r: Result<Vec<String>, String>)
    ensures
        lo_mismo(r, new_plot_spec(*a)),
{
    let id = match req_str(a, "id") {
        Ok(i) => i,
        Err(e) => return Err(e),
    };
    let mut argv: Vec<String> = Vec::new();
    poner(&mut argv, "plot");
    poner(&mut argv, "new");
    poner_texto(&mut argv, id);
    push_opt(&mut argv, "--kind", opt_str(a, "kind"));
    push_opt(&mut argv, "--title", opt_str(a, "title"));
    push_opt(&mut argv, "--x-label", opt_str(a, "x_label"));
    push_opt(&mut argv, "--y-label", opt_str(a, "y_label"));
    push_opt(&mut argv, "--x-scale", opt_str(a, "x_scale"));
    push_opt(&mut argv, "--y-scale", opt_str(a, "y_scale"));
    push_opt(&mut argv, "--legend", opt_str(a, "legend"));
    poner(&mut argv, "--json");
    assert(textos(argv@) =~= new_plot_spec(*a)->Ok_0);
    Ok(argv)
}

fn add_series(a: &Argumentos) -> (r: Result<Vec<String>, String>)
    ensures
        lo_mismo(r, add_series_spec(*a)),
{
    let plot = match req_str(a, "plot") {
        Ok(i) => i,
        Err(e) => return Err(e),
    };
    let m = match req_str(a, "measurement") {
        Ok(i) => i,
        Err(e) => return Err(e),
    };
    let mut argv: Vec<String> = Vec::new();
    poner(&mut argv, "plot");
    poner(&mut argv, "add-series");
    poner_texto(&mut argv, plot);
    poner(&mut argv, "--measurement");
    poner_texto(&mut argv, m);
    push_opt(&mut argv, "--role", opt_str(a, "role"));
    push_opt(&mut argv, "--panel", opt_str(a, "panel"));
    push_opt(&mut argv, "--color", opt_str(a, "color"));
    push_opt(&mut argv, "--line", opt_str(a, "line"));
    push_opt(&mut argv, "--label", opt_str(a, "label"));
    poner(&mut argv, "--json");
    assert(textos(argv@) =~= add_series_spec(*a)->Ok_0);
    Ok(argv)
}

fn add_section(a: &Argumentos) -> (r: Result<Vec<String>, String>)
    ensures
        lo_mismo(r, add_section_spec(*a)),
{
    let t = match req_str(a, "title") {
        Ok(i) => i,
        Err(e) => return Err(e),
    };
    let mut argv: Vec<String> = Vec::new();
    poner(&mut argv, "section");
    poner(&mut argv, "add");
    poner_texto(&mut argv, t);
    push_opt(&mut argv, "--under", opt_str(a, "under"));
    push_each(&mut argv, "--figure", opt_list(a, "figures"));
    push_opt(&mut argv, "--body", opt_str(a, "body"));
    assert(textos(argv@) =~= add_section_spec(*a)->Ok_0);
    Ok(argv)
}

fn build_report(a: &Argumentos) -> (r: Vec<String>)
    ensures
        textos(r@) == build_report_spec(*a),
{
    let tex_only = opt_bool(a, "tex_only");
    let mut argv: Vec<String> = Vec::new();
    poner(&mut argv, if tex_only { "export" } else { "run" });
    if opt_bool(a, "monochrome") {
        poner(&mut argv, "--monochrome");
    }
    if opt_bool(a, "pdflatex") && !tex_only {
        poner(&mut argv, "--pdflatex");
    }
    push_opt(&mut argv, "--format", opt_str(a, "format"));
    push_opt(&mut argv, "--theme", opt_str(a, "theme"));
    assert(textos(argv@) =~= build_report_spec(*a));
    argv
}

fn run_command(a: &Argumentos) -> (r: Result<Vec<String>, String>)
    ensures
        lo_mismo(r, run_command_spec(*a)),
{
    let argv = opt_list(a, "args");
    if argv.len() == 0 {
        Err("`args` no puede estar vacío".to_owned())
    } else {
        Ok(argv)
    }
}

fn dos(a: &str, b: &str) -> (r: Vec<String>)
    ensures
        textos(r@) == seq![a@, b@],
{
    let mut argv: Vec<String> = Vec::new();
    poner(&mut argv, a);
    poner(&mut argv, b);
    assert(textos(argv@) =~= seq![a@, b@]);
    argv
}

fn es(nombre: &Vec<char>, t: &str) -> (r: bool)
    ensures
        r == (nombre@ == t@),
{
    iguales(nombre, &caracteres(t))
}

/// The command line that the tool `nombre` runs with the arguments `a`:
/// `None` where the tool does its work itself or there is no such tool, and
/// the message for the model where an argument is missing.
pub fn argv(nombre: &str, a: &Argumentos) -> (r: Option<Result<Vec<String>, String>>)
    ensures
        match (r, argv_spec(nombre@, *a)) {
            (Some(x), Some(y)) => lo_mismo(x, y),
            (None, None) => true,
            _ => false,
        },
{
    let n = caracteres(nombre);
    if es(&n, "xtal_doctor") {
        Some(Ok(dos("doctor", "--json")))
    } else if es(&n, "xtal_status") {
        Some(Ok(dos("status", "--json")))
    } else if es(&n, "xtal_scan") {
        Some(Ok(dos("scan", "--json")))
    } else if es(&n, "xtal_plan_add") {
        Some(plan_add(a))
    } else if es(&n, "xtal_new_project") {
        Some(new_project(a))
    } else if es(&n, "xtal_import_measurement") {
        Some(import_measurement(a))
    } else if es(&n, "xtal_formula_measurement") {
        Some(formula_measurement(a))
    } else if es(&n, "xtal_import_rawfile") {
        Some(import_rawfile(a))
    } else if es(&n, "xtal_new_plot") {
        Some(new_plot(a))
    } else if es(&n, "xtal_add_series") {
        Some(add_series(a))
    } else if es(&n, "xtal_add_section") {
        Some(add_section(a))
    } else if es(&n, "xtal_build_report") {
        Some(Ok(build_report(a)))
    } else if es(&n, "xtal_run_command") {
        Some(run_command(a))
    } else {
        None
    }
}

/// A command that a tool runs: the project it works on (given to `xtal`
/// before the subcommand), the folder it runs in, and its arguments.
#[derive(Debug)]
pub struct Comando {
    pub proyecto: Option<String>,
    pub carpeta: Option<String>,
    pub argv: Vec<String>,
}

/// The project a tool's command works on: none for `xtal_doctor` (the
/// machine's state) and for `xtal_new_project` (which makes one); for the
/// others the `project` of the arguments, else the one open in the session.
pub open spec fn proyecto_spec(nombre: Seq<char>, s: Session, a: Argumentos) -> Option<Seq<char>> {
    if nombre == "xtal_doctor"@ || nombre == "xtal_new_project"@ {
        None
    } else {
        match opt_str_spec(a, "project"@) {
            Some(p) => Some(p),
            None => opt_texto(s.project),
        }
    }
}

/// The folder a tool's command runs in: the `parent` of a new project; none
/// (the client's) for the others.
pub open spec fn carpeta_spec(nombre: Seq<char>, a: Argumentos) -> Option<Seq<char>> {
    if nombre == "xtal_new_project"@ {
        opt_str_spec(a, "parent"@)
    } else {
        None
    }
}

/// The command that a call of the tool `nombre` runs in the session `s`:
/// `None` where the tool does its work itself (or there is no such tool), the
/// message for the model where an argument is missing.
pub fn comando(s: &Session, nombre: &str, a: &Argumentos) -> (r: Option<Result<Comando, String>>)
    ensures
        match argv_spec(nombre@, *a) {
            None => r is None,
            Some(Err(e)) => r matches Some(Err(m)) && m@ == e,
            Some(Ok(v)) => r matches Some(Ok(c)) && textos(c.argv@) == v
                && opt_texto(c.proyecto) == proyecto_spec(nombre@, *s, *a)
                && opt_texto(c.carpeta) == carpeta_spec(nombre@, *a),
        },
{
    let argv = match argv(nombre, a) {
        None => return None,
        Some(Err(e)) => return Some(Err(e)),
        Some(Ok(v)) => v,
    };
    let n = caracteres(nombre);
    if es(&n, "xtal_new_project") {
        Some(Ok(Comando { proyecto: None, carpeta: opt_str(a, "parent"), argv }))
    } else if es(&n, "xtal_doctor") {
        Some(Ok(Comando { proyecto: None, carpeta: None, argv }))
    } else {
        Some(Ok(Comando { proyecto: s.project_for(opt_str(a, "project")), carpeta: None, argv }))
    }
}

/// The position of the first tool named `name`, if any.
pub open spec fn posicion_de(v: Seq<Seq<char>>, name: Seq<char>) -> Option<int>
    decreases v.len(),
{
    if v.len() == 0 {
        None
    } else {
        match posicion_de(v.drop_last(), name) {
            Some(k) => Some(k),
            None => if v.last() == name { Some(v.len() - 1) } else { None },
        }
    }
}

proof fn lema_posicion_de(v: Seq<Seq<char>>, name: Seq<char>)
    ensures
        match posicion_de(v, name) {
            Some(k) => 0 <= k < v.len() && v[k] == name && forall|j: int| 0 <= j < k ==> v[j] != name,
            None => forall|j: int| 0 <= j < v.len() ==> v[j] != name,
        },
    decreases v.len(),
{
    if v.len() > 0 {
        let w = v.drop_last();
        lema_posicion_de(w, name);
        assert forall|j: int| 0 <= j < w.len() implies w[j] == v[j] by {}
    }
}

/// Which tool a `tools/call` asks for, or the protocol error it gets: no
/// `name` is an invalid request; `arguments` that are not an object (absent
/// ones count as an empty object), or a name that is no tool, are invalid
/// params. A command that fails is not a protocol error: that comes later,
/// as the tool's answer.
pub fn buscar_tool(tools: &Vec<Tool>, name: Option<&str>, args_es_objeto: bool) -> (r: Result<usize, RpcError>)
    ensures
        match name {
            None => r matches Err(e) && e.code == INVALID_REQUEST && e.message@ == "falta `name` en tools/call"@,
            Some(n) => if !args_es_objeto {
                r matches Err(e) && e.code == INVALID_PARAMS && e.message@ == "`arguments` tiene que ser un objeto"@
            } else {
                match posicion_de(nombres(tools@), n@) {
                    Some(k) => r matches Ok(i) && i == k,
                    None => r matches Err(e) && e.code == INVALID_PARAMS
                        && e.message@ == "no existe la tool `"@ + n@ + "`"@,
                }
            },
        },
{
    let n = match name {
        None => return Err(RpcError { code: INVALID_REQUEST, message: "falta `name` en tools/call".to_owned() }),
        Some(n) => n,
    };
    if !args_es_objeto {
        return Err(RpcError { code: INVALID_PARAMS, message: "`arguments` tiene que ser un objeto".to_owned() });
    }
    let c = caracteres(n);
    let ghost ns = nombres(tools@);
    proof {
        lema_posicion_de(ns, n@);
    }
    let mut k: usize = 0;
    while k < tools.len()
        invariant
            k <= tools@.len(),
            name == Some(n),
            args_es_objeto,
            ns == nombres(tools@),
            c@ == n@,
            forall|j: int| 0 <= j < k ==> ns[j] != n@,
            match posicion_de(ns, n@) {
                Some(p) => 0 <= p < ns.len() && ns[p] == n@ && forall|j: int| 0 <= j < p ==> ns[j] != n@,
                None => forall|j: int| 0 <= j < ns.len() ==> ns[j] != n@,
            },
        decreases tools@.len() - k,
    {
        assert(ns[k as int] == tools@[k as int].name@);
        if iguales(&caracteres(tools[k].name), &c) {
            proof {
                match posicion_de(ns, n@) {
                    Some(p) => {
                        if p < k {
                            assert(ns[p] != n@);
                        } else if p > k {
                            assert(ns[k as int] != n@);
                        }
                    },
                    None => {
                        assert(ns[k as int] != n@);
                    },
                }
            }
            return Ok(k);
        }
        k = k + 1;
    }
    let mut m = caracteres("no existe la tool `");
    agregar(&mut m, &c);
    agregar(&mut m, &caracteres("`"));
    Err(RpcError { code: INVALID_PARAMS, message: cadena(&m) })
}

} // verus!
