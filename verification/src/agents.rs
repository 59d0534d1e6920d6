//! The AI agents of the machine, and how Xtal plugs into each.
//!
//! One agent per row: where it lives, where its skills go and whether Xtal
//! knows how to write its MCP configuration. Installing, uninstalling and
//! reporting all walk this table; adding an agent is adding a row, here or in
//! the user's `agents.toml`.
//!
//! Each agent says (`toca`) which files of it Xtal writes, and that is shown
//! before anything is written: it is another program's configuration.
use vstd::prelude::*;
use crate::rutas::{directorios_base, unido, unir};
use crate::texto::{agregar, aparece, cadena, caracteres, empieza_con, iguales, tramo};

verus! {

broadcast use vstd::string::group_string_axioms;

/// The name under which the MCP server is registered in the clients (the
/// default of `xtal mcp install`).
pub const MCP_SERVER_NAME: &'static str = "xtal";

/// A client whose MCP configuration Xtal knows how to write.
#[derive(Debug, Clone, Copy, PartialEq, Eq, Structural)]
pub enum McpClientArg {
    /// Codex (edits `~/.codex/config.toml`).
    Codex,
}

// ---------------------------------------------------------------------------
// Where an agent's folders are
// ---------------------------------------------------------------------------

/// Where a folder of an agent is.
#[derive(Debug, Clone)]
pub enum Ubicacion {
    /// Relative to the user's home.
    Home(String),
    /// Relative to the system's configuration folder.
    Config(String),
    /// An absolute path, as the user wrote it.
    Absoluta(String),
}

/// A place as plain values.
pub enum UbicacionV {
    Home(Seq<char>),
    Config(Seq<char>),
    Absoluta(Seq<char>),
}

impl Ubicacion {
    pub open spec fn vista(&self) -> UbicacionV {
        match self {
            Ubicacion::Home(r) => UbicacionV::Home(r@),
            Ubicacion::Config(r) => UbicacionV::Config(r@),
            Ubicacion::Absoluta(p) => UbicacionV::Absoluta(p@),
        }
    }

    /// The folder, for the given home and configuration folders.
    pub open spec fn ruta_spec(&self, home: Seq<char>, config: Seq<char>) -> Seq<char> {
        match self {
            Ubicacion::Home(r) => unido(home, r@),
            Ubicacion::Config(r) => unido(config, r@),
            Ubicacion::Absoluta(p) => p@,
        }
    }

    /// The folder, for the given home and configuration folders.
    pub fn ruta_en(&self, home: &str, config: &str) -> (r: String)
        ensures
            r@ == self.ruta_spec(home@, config@),
    {
        match self {
            Ubicacion::Home(rel) => unir(home, rel.as_str()),
            Ubicacion::Config(rel) => unir(config, rel.as_str()),
            Ubicacion::Absoluta(p) => p.clone(),
        }
    }

    /// The folder on this machine; `None` where the home cannot be found.
    pub fn ruta(&self) -> (r: Option<String>)
        ensures
            self is Absoluta ==> r == Some(self->Absoluta_0) || (r is Some && r->0@ == self->Absoluta_0@),
            r matches Some(p) ==> exists|h: Seq<char>, c: Seq<char>| p@ == self.ruta_spec(h, c),
    {
        match self {
            Ubicacion::Absoluta(p) => {
                let c = p.clone();
                assert(c@ == self.ruta_spec(Seq::empty(), Seq::empty()));
                Some(c)
            },
            _ => match directorios_base() {
                Some((home, config)) => {
                    let c = self.ruta_en(home.as_str(), config.as_str());
                    assert(c@ == self.ruta_spec(home@, config@));
                    Some(c)
                },
                None => None,
            },
        }
    }

    /// How it is shown: `~/...` where it hangs from the home, the path where
    /// not (nothing where it cannot be found).
    pub fn legible(&self) -> (r: String)
        ensures
            self matches Ubicacion::Home(rel) ==> r@ == "~/"@ + rel@,
            self matches Ubicacion::Absoluta(p) ==> r@ == p@,
            self is Config ==> r@.len() == 0 || exists|h: Seq<char>, c: Seq<char>| r@ == self.ruta_spec(h, c),
    {
        match self {
            Ubicacion::Home(rel) => {
                let mut t = caracteres("~/");
                agregar(&mut t, &caracteres(rel.as_str()));
                cadena(&t)
            },
            _ => match self.ruta() {
                Some(p) => p,
                None => String::new(),
            },
        }
    }

    /// A place that the user wrote: `~/x` hangs from the home; anything else is
    /// absolute.
    pub fn desde_usuario(texto: &str) -> (u: Ubicacion)
        ensures
            u.vista() == desde_usuario_spec(texto@),
    {
        let t = caracteres(texto);
        let pre = caracteres("~/");
        if aparece(&t, 0, &pre) {
            let r = tramo(&t, pre.len(), t.len());
            Ubicacion::Home(cadena(&r))
        } else {
            Ubicacion::Absoluta(texto.to_owned())
        }
    }
}

pub open spec fn desde_usuario_spec(t: Seq<char>) -> UbicacionV {
    if empieza_con(t, "~/"@) {
        UbicacionV::Home(t.subrange("~/"@.len() as int, t.len() as int))
    } else {
        UbicacionV::Absoluta(t)
    }
}

// ---------------------------------------------------------------------------
// The agents
// ---------------------------------------------------------------------------

/// An AI agent that Xtal can plug into.
#[derive(Debug, Clone)]
pub struct Agente {
    /// A stable id for the command line and the JSON.
    pub id: String,
    /// The name the user knows it by.
    pub label: String,
    /// Its configuration folder; that it exists says the agent is installed.
    pub dir: Ubicacion,
    /// Its command, if it has one (a second way of finding it).
    pub bin: Option<String>,
    /// Where skills go, if it reads them.
    pub skills: Option<Ubicacion>,
    /// How to register the MCP server, if Xtal knows how.
    pub mcp: Option<McpClientArg>,
    /// Whether the user added it with `xtal agents add`.
    pub propio: bool,
}

/// An agent that the user added, as `agents.toml` keeps it.
#[derive(Debug, Clone)]
pub struct AgentePropio {
    pub id: String,
    pub label: String,
    /// The folder where the agent looks for its skills; `~/` is allowed.
    pub skills: String,
    /// Its command, if it has one.
    pub bin: Option<String>,
}

/// An agent as plain values.
pub struct AgenteV {
    pub id: Seq<char>,
    pub label: Seq<char>,
    pub dir: UbicacionV,
    pub bin: Option<Seq<char>>,
    pub skills: Option<UbicacionV>,
    pub mcp: Option<McpClientArg>,
    pub propio: bool,
}

pub open spec fn opt_texto(o: Option<String>) -> Option<Seq<char>> {
    match o {
        Some(s) => Some(s@),
        None => None,
    }
}

impl Agente {
    pub open spec fn vista(&self) -> AgenteV {
        AgenteV {
            id: self.id@,
            label: self.label@,
            dir: self.dir.vista(),
            bin: opt_texto(self.bin),
            skills: match self.skills {
                Some(u) => Some(u.vista()),
                None => None,
            },
            mcp: self.mcp,
            propio: self.propio,
        }
    }
}

pub open spec fn vistas(v: Seq<Agente>) -> Seq<AgenteV> {
    v.map_values(|a: Agente| a.vista())
}

/// The agent that a row of `agents.toml` gives: its skills folder is also the
/// sign that it is installed; Xtal does not know how to write the MCP
/// configuration of an agent it does not know.
pub open spec fn agente_propio(p: AgentePropio) -> AgenteV {
    AgenteV {
        id: p.id@,
        label: p.label@,
        dir: desde_usuario_spec(p.skills@),
        bin: opt_texto(p.bin),
        skills: Some(desde_usuario_spec(p.skills@)),
        mcp: None,
        propio: true,
    }
}

fn copia_opt(o: &Option<String>) -> (r: Option<String>)
    ensures
        opt_texto(r) == opt_texto(*o),
{
    match o {
        Some(s) => Some(s.clone()),
        None => None,
    }
}

impl AgentePropio {
    /// The agent of this row.
    pub fn a_agente(&self) -> (a: Agente)
        ensures
            a.vista() == agente_propio(*self),
    {
        Agente {
            id: self.id.clone(),
            label: self.label.clone(),
            dir: Ubicacion::desde_usuario(self.skills.as_str()),
            bin: copia_opt(&self.bin),
            skills: Some(Ubicacion::desde_usuario(self.skills.as_str())),
            mcp: None,
            propio: true,
        }
    }
}

fn agente(
    id: &str,
    label: &str,
    dir: &str,
    bin: Option<&str>,
    skills: Option<&str>,
    mcp: Option<McpClientArg>,
) -> (a: Agente)
    ensures
        a.vista() == (AgenteV {
            id: id@,
            label: label@,
            dir: UbicacionV::Home(dir@),
            bin: match bin {
                Some(b) => Some(b@),
                None => None,
            },
            skills: match skills {
                Some(s) => Some(UbicacionV::Home(s@)),
                None => None,
            },
            mcp,
            propio: false,
        }),
{
    Agente {
        id: id.to_owned(),
        label: label.to_owned(),
        dir: Ubicacion::Home(dir.to_owned()),
        bin: match bin {
            Some(b) => Some(b.to_owned()),
            None => None,
        },
        skills: match skills {
            Some(s) => Some(Ubicacion::Home(s.to_owned())),
            None => None,
        },
        mcp,
        propio: false,
    }
}

/// The agents that Xtal knows out of the box, with the folders it really
/// knows (a skill written in a folder the agent does not read is garbage in
/// someone's home).
pub open spec fn de_fabrica_spec() -> Seq<AgenteV> {
    seq![
        AgenteV {
            id: "codex"@,
            label: "Codex"@,
            dir: UbicacionV::Home(".codex"@),
            bin: Some("codex"@),
            skills: Some(UbicacionV::Home(".codex/skills"@)),
            mcp: Some(McpClientArg::Codex),
            propio: false,
        },
        AgenteV {
            id: "copilot"@,
            label: "GitHub Copilot CLI"@,
            dir: UbicacionV::Home(".copilot"@),
            bin: Some("copilot"@),
            skills: Some(UbicacionV::Home(".copilot/skills"@)),
            mcp: None,
            propio: false,
        },
        AgenteV {
            id: "opencode"@,
            label: "opencode"@,
            dir: UbicacionV::Home(".config/opencode"@),
            bin: Some("opencode"@),
            skills: Some(UbicacionV::Home(".config/opencode/skills"@)),
            mcp: None,
            propio: false,
        },
    ]
}

/// The agents that Xtal knows out of the box.
pub fn de_fabrica() -> (r: Vec<Agente>)
    ensures
        vistas(r@) == de_fabrica_spec(),
{
    let mut r: Vec<Agente> = Vec::new();
    r.push(agente("codex", "Codex", ".codex", Some("codex"), Some(".codex/skills"), Some(McpClientArg::Codex)));
    r.push(agente("copilot", "GitHub Copilot CLI", ".copilot", Some("copilot"), Some(".copilot/skills"), None));
    r.push(agente(
        "opencode",
        "opencode",
        ".config/opencode",
        Some("opencode"),
        Some(".config/opencode/skills"),
        None,
    ));
    assert(vistas(r@) =~= de_fabrica_spec());
    r
}

/// The first position of an agent with id `id`, if any.
pub open spec fn posicion(v: Seq<AgenteV>, id: Seq<char>) -> Option<int>
    decreases v.len(),
{
    if v.len() == 0 {
        None
    } else {
        match posicion(v.drop_last(), id) {
            Some(k) => Some(k),
            None => if v.last().id == id {
                Some(v.len() - 1)
            } else {
                None
            },
        }
    }
}

/// One row of the user's: it replaces the agent with its id, or goes last.
pub open spec fn con_propio(v: Seq<AgenteV>, n: AgenteV) -> Seq<AgenteV> {
    match posicion(v, n.id) {
        Some(k) => v.update(k, n),
        None => v.push(n),
    }
}

/// The table: the agents out of the box, with the user's rows applied in
/// order (a repeated id replaces the agent of the box: the user knows better
/// where their agent looks for skills).
pub open spec fn mezclado(base: Seq<AgenteV>, propios: Seq<AgentePropio>) -> Seq<AgenteV>
    decreases propios.len(),
{
    if propios.len() == 0 {
        base
    } else {
        con_propio(mezclado(base, propios.drop_last()), agente_propio(propios.last()))
    }
}

proof fn lema_posicion(v: Seq<AgenteV>, id: Seq<char>)
    ensures
        posicion(v, id) matches Some(k) ==> 0 <= k < v.len() && v[k].id == id && forall|j: int|
            0 <= j < k ==> v[j].id != id,
        posicion(v, id) is None ==> forall|j: int| 0 <= j < v.len() ==> v[j].id != id,
    decreases v.len(),
{
    if v.len() > 0 {
        let w = v.drop_last();
        lema_posicion(w, id);
        assert forall|j: int| 0 <= j < w.len() implies w[j] == v[j] by {}
    }
}

fn buscar_id(v: &Vec<Agente>, id: &[char]) -> (r: Option<usize>)
    ensures
        match r {
            Some(k) => posicion(vistas(v@), id@) == Some(k as int) && k < v@.len(),
            None => posicion(vistas(v@), id@) is None,
        },
{
    let ghost todos = vistas(v@);
    let mut k: usize = 0;
    while k < v.len()
        invariant
            k <= v@.len(),
            todos == vistas(v@),
            posicion(todos.take(k as int), id@) is None,
        decreases v@.len() - k,
    {
        assert(todos.take(k + 1).drop_last() =~= todos.take(k as int));
        assert(todos[k as int] == v@[k as int].vista());
        if iguales(&caracteres(v[k].id.as_str()), id) {
            proof {
                lema_posicion(todos, id@);
                lema_posicion(todos.take(k as int), id@);
                if let Some(j) = posicion(todos, id@) {
                    if j < k {
                        assert(todos.take(k as int)[j] == todos[j]);
                    }
                }
            }
            return Some(k);
        }
        k = k + 1;
    }
    assert(todos.take(todos.len() as int) =~= todos);
    None
}

/// Joins the agents out of the box and the user's rows.
pub fn mezclar(base: Vec<Agente>, propios: Vec<AgentePropio>) -> (r: Vec<Agente>)
    ensures
        vistas(r@) == mezclado(vistas(base@), propios@),
{
    let mut r = base;
    let ghost b0 = vistas(r@);
    let mut k: usize = 0;
    assert(propios@.take(0) =~= Seq::<AgentePropio>::empty());
    while k < propios.len()
        invariant
            k <= propios@.len(),
            vistas(r@) == mezclado(b0, propios@.take(k as int)),
        decreases propios@.len() - k,
    {
        assert(propios@.take(k + 1).drop_last() =~= propios@.take(k as int));
        let nuevo = propios[k].a_agente();
        let ghost antes = vistas(r@);
        match buscar_id(&r, &caracteres(nuevo.id.as_str())) {
            Some(i) => {
                r.set(i, nuevo);
                assert(vistas(r@) =~= antes.update(i as int, agente_propio(propios@[k as int])));
            },
            None => {
                r.push(nuevo);
                assert(vistas(r@) =~= antes.push(agente_propio(propios@[k as int])));
            },
        }
        k = k + 1;
    }
    assert(propios@.take(propios@.len() as int) =~= propios@);
    r
}

/// The ids of the table are all different.
pub open spec fn ids_unicos(v: Seq<AgenteV>) -> bool {
    forall|i: int, j: int| 0 <= i < j < v.len() ==> (#[trigger] v[i]).id != (#[trigger] v[j]).id
}

/// Joining the user's rows keeps the ids of the table unique (an agent is found
/// by its id, and with a repeated one either could come back), and the row of
/// the user that comes last for an id is the agent the table has for it.
pub proof fn mezclar_mantiene_ids_unicos(base: Seq<AgenteV>, propios: Seq<AgentePropio>)
    requires
        ids_unicos(base),
    ensures
        ids_unicos(mezclado(base, propios)),
        forall|k: int|
            #![trigger agente_propio(propios[k])]
            0 <= k < propios.len() && (forall|j: int| k < j < propios.len() ==> (#[trigger] propios[j]).id@ != propios[k].id@)
                ==> exists|i: int|
                0 <= i < mezclado(base, propios).len() && #[trigger] mezclado(base, propios)[i] == agente_propio(
                    propios[k],
                ),
    decreases propios.len(),
{
    if propios.len() > 0 {
        let previos = propios.drop_last();
        mezclar_mantiene_ids_unicos(base, previos);
        let m = mezclado(base, previos);
        let n = agente_propio(propios.last());
        let r = mezclado(base, propios);
        lema_posicion(m, n.id);
        assert(r == con_propio(m, n));
        assert forall|k: int|
            #![trigger agente_propio(propios[k])]
            0 <= k < propios.len() && (forall|j: int| k < j < propios.len() ==> (#[trigger] propios[j]).id@ != propios[k].id@)
            implies exists|i: int| 0 <= i < r.len() && #[trigger] r[i] == agente_propio(propios[k]) by {
            if k == propios.len() - 1 {
                match posicion(m, n.id) {
                    Some(p) => assert(r[p] == n),
                    None => assert(r[m.len() as int] == n),
                }
            } else {
                assert(previos[k] == propios[k]);
                assert forall|j: int| k < j < previos.len() implies (#[trigger] previos[j]).id@ != previos[k].id@ by {
                    assert(previos[j] == propios[j]);
                }
                let i = choose|i: int| 0 <= i < m.len() && #[trigger] m[i] == agente_propio(previos[k]);
                assert(propios.last().id@ != propios[k].id@);
                match posicion(m, n.id) {
                    Some(p) => {
                        assert(m[p].id == n.id);
                        assert(i != p);
                        assert(r[i] == m[i]);
                    },
                    None => assert(r[i] == m[i]),
                }
            }
        }
    }
}

/// The whole table: the agents out of the box and the user's rows (`propios`,
/// read from `agents.toml`).
pub fn todos(propios: Vec<AgentePropio>) -> (r: Vec<Agente>)
    ensures
        vistas(r@) == mezclado(de_fabrica_spec(), propios@),
{
    mezclar(de_fabrica(), propios)
}

/// The agent with id `id` in the whole table.
pub fn buscar(id: &str, propios: Vec<AgentePropio>) -> (r: Option<Agente>)
    ensures
        match posicion(mezclado(de_fabrica_spec(), propios@), id@) {
            Some(k) => r matches Some(a) && a.vista() == mezclado(de_fabrica_spec(), propios@)[k],
            None => r is None,
        },
{
    let mut lista = todos(propios);
    proof {
        lema_posicion(vistas(lista@), id@);
    }
    match buscar_id(&lista, &caracteres(id)) {
        Some(k) => {
            let a = lista.remove(k);
            Some(a)
        },
        None => None,
    }
}

// ---------------------------------------------------------------------------
// The user's own rows
// ---------------------------------------------------------------------------

/// Where the first row with id `id` stands in the user's list.
pub open spec fn posicion_propia(l: Seq<AgentePropio>, id: Seq<char>) -> Option<int>
    decreases l.len(),
{
    if l.len() == 0 {
        None
    } else {
        match posicion_propia(l.drop_last(), id) {
            Some(k) => Some(k),
            None => if l.last().id@ == id { Some(l.len() - 1) } else { None },
        }
    }
}

/// Whether the user's list has a row with id `id`.
pub open spec fn tiene_fila(l: Seq<AgentePropio>, id: Seq<char>) -> bool {
    exists|k: int| 0 <= k < l.len() && (#[trigger] l[k]).id@ == id
}

/// The user's list with `nuevo` in it: it takes the place of the row with its
/// id, or goes last.
pub open spec fn con_fila(l: Seq<AgentePropio>, nuevo: AgentePropio) -> Seq<AgentePropio> {
    match posicion_propia(l, nuevo.id@) {
        Some(k) => l.update(k, nuevo),
        None => l.push(nuevo),
    }
}

/// The user's list without the rows with id `id`; the others keep their order.
pub open spec fn sin_fila(l: Seq<AgentePropio>, id: Seq<char>) -> Seq<AgentePropio>
    decreases l.len(),
{
    if l.len() == 0 {
        Seq::empty()
    } else {
        let r = sin_fila(l.drop_last(), id);
        if l.last().id@ == id { r } else { r.push(l.last()) }
    }
}

proof fn lema_posicion_propia(l: Seq<AgentePropio>, id: Seq<char>)
    ensures
        posicion_propia(l, id) matches Some(k) ==> 0 <= k < l.len() && l[k].id@ == id
            && forall|j: int| 0 <= j < k ==> l[j].id@ != id,
        posicion_propia(l, id) is None <==> !tiene_fila(l, id),
    decreases l.len(),
{
    if l.len() > 0 {
        let w = l.drop_last();
        lema_posicion_propia(w, id);
        assert forall|j: int| 0 <= j < w.len() implies w[j] == l[j] by {}
        if posicion_propia(l, id) is None {
            assert forall|k: int| 0 <= k < l.len() implies (#[trigger] l[k]).id@ != id by {
                if k < w.len() {
                    assert(w[k] == l[k]);
                }
            }
        } else if posicion_propia(w, id) is None {
            assert(l[l.len() - 1].id@ == id);
        } else {
            let k = posicion_propia(w, id)->Some_0;
            assert(l[k] == w[k]);
        }
    }
}

fn posicion_propia_exec(l: &Vec<AgentePropio>, id: &str) -> (r: Option<usize>)
    ensures
        match r {
            Some(k) => posicion_propia(l@, id@) == Some(k as int),
            None => posicion_propia(l@, id@) is None,
        },
{
    let buscado = caracteres(id);
    let mut k: usize = 0;
    assert(l@.take(0) =~= Seq::<AgentePropio>::empty());
    while k < l.len()
        invariant
            k <= l@.len(),
            buscado@ == id@,
            posicion_propia(l@.take(k as int), id@) is None,
        decreases l@.len() - k,
    {
        assert(l@.take(k + 1).drop_last() =~= l@.take(k as int));
        assert(l@.take(k + 1).last() == l@[k as int]);
        if iguales(&caracteres(l[k].id.as_str()), &buscado) {
            proof {
                lema_posicion_propia(l@, id@);
                lema_posicion_propia(l@.take(k as int), id@);
                lema_posicion_propia(l@.take(k + 1), id@);
                if let Some(j) = posicion_propia(l@, id@) {
                    if j < k {
                        assert(l@.take(k as int)[j] == l@[j]);
                    } else if j > k {
                        assert(l@.take(k + 1)[k as int] == l@[k as int]);
                    }
                }
            }
            return Some(k);
        }
        k = k + 1;
    }
    assert(l@.take(l@.len() as int) =~= l@);
    None
}

/// Whether the user added an agent with id `id`.
pub fn es_propio(lista: &Vec<AgentePropio>, id: &str) -> (r: bool)
    ensures
        r == tiene_fila(lista@, id@),
{
    proof {
        lema_posicion_propia(lista@, id@);
    }
    posicion_propia_exec(lista, id).is_some()
}

/// `xtal agents add` on the user's list: the new row takes the place of the
/// one with its id, or goes last.
pub fn agregar_propio(lista: Vec<AgentePropio>, nuevo: AgentePropio) -> (r: Vec<AgentePropio>)
    ensures
        r@ == con_fila(lista@, nuevo),
{
    let mut lista = lista;
    match posicion_propia_exec(&lista, nuevo.id.as_str()) {
        Some(k) => {
            proof {
                lema_posicion_propia(lista@, nuevo.id@);
            }
            lista.set(k, nuevo);
        },
        None => lista.push(nuevo),
    }
    lista
}

/// `xtal agents remove` on the user's list: the rows with id `id` go, the
/// others stay in their order.
pub fn sacar_propio(lista: Vec<AgentePropio>, id: &str) -> (r: Vec<AgentePropio>)
    ensures
        r@ == sin_fila(lista@, id@),
{
    let buscado = caracteres(id);
    let ghost l0 = lista@;
    let mut resto = lista;
    let mut r: Vec<AgentePropio> = Vec::new();
    let ghost mut k: int = 0;
    assert(l0.take(0) =~= Seq::<AgentePropio>::empty());
    assert(l0.skip(0) =~= l0);
    while resto.len() > 0
        invariant
            0 <= k <= l0.len(),
            buscado@ == id@,
            resto@ == l0.skip(k),
            r@ == sin_fila(l0.take(k), id@),
        decreases resto@.len(),
    {
        let x = resto.remove(0);
        proof {
            assert(x == l0[k]);
            assert(l0.take(k + 1).drop_last() =~= l0.take(k));
            assert(l0.take(k + 1).last() == l0[k]);
            assert(resto@ =~= l0.skip(k + 1));
        }
        if !iguales(&caracteres(x.id.as_str()), &buscado) {
            r.push(x);
        }
        proof {
            k = k + 1;
        }
    }
    assert(l0.take(k) =~= l0);
    r
}

proof fn lema_sin_fila_cambiada(l: Seq<AgentePropio>, k: int, x: AgentePropio, id: Seq<char>)
    requires
        0 <= k < l.len(),
        l[k].id@ == id,
        x.id@ == id,
    ensures
        sin_fila(l.update(k, x), id) == sin_fila(l, id),
    decreases l.len(),
{
    let u = l.update(k, x);
    if k == l.len() - 1 {
        assert(u.drop_last() =~= l.drop_last());
    } else {
        assert(u.drop_last() =~= l.drop_last().update(k, x));
        lema_sin_fila_cambiada(l.drop_last(), k, x, id);
    }
}

proof fn lema_sin_fila_no_la_tiene(l: Seq<AgentePropio>, id: Seq<char>)
    ensures
        !tiene_fila(sin_fila(l, id), id),
        sin_fila(l, id).len() <= l.len(),
    decreases l.len(),
{
    if l.len() > 0 {
        lema_sin_fila_no_la_tiene(l.drop_last(), id);
        let r = sin_fila(l.drop_last(), id);
        if l.last().id@ != id {
            assert forall|k: int| 0 <= k < r.push(l.last()).len() implies (#[trigger] r.push(l.last())[k]).id@ != id by {
                if k < r.len() {
                    assert(r.push(l.last())[k] == r[k]);
                }
            }
        }
    }
}

/// Removing the row that was just added leaves the list as removing it
/// before adding would; after removing, no row with that id is left, and
/// after adding, there is one.
pub proof fn sacar_lo_agregado(l: Seq<AgentePropio>, nuevo: AgentePropio)
    ensures
        sin_fila(con_fila(l, nuevo), nuevo.id@) == sin_fila(l, nuevo.id@),
        !tiene_fila(sin_fila(l, nuevo.id@), nuevo.id@),
        tiene_fila(con_fila(l, nuevo), nuevo.id@),
{
    lema_posicion_propia(l, nuevo.id@);
    lema_sin_fila_no_la_tiene(l, nuevo.id@);
    match posicion_propia(l, nuevo.id@) {
        Some(k) => {
            lema_sin_fila_cambiada(l, k, nuevo, nuevo.id@);
            assert(con_fila(l, nuevo)[k] == nuevo);
        },
        None => {
            assert(l.push(nuevo).drop_last() =~= l);
            assert(con_fila(l, nuevo)[l.len() as int] == nuevo);
        },
    }
}

// ---------------------------------------------------------------------------
// Whether an agent is here
// ---------------------------------------------------------------------------

/// What shows that `a` is installed: a folder that is its configuration
/// folder (for some home and configuration folder) exists, or its command is
/// on the PATH.
pub open spec fn lo_encontro<F: Fn(&str) -> bool, G: Fn(&str) -> bool>(a: Agente, es_carpeta: F, en_path: G) -> bool {
    (exists|p: &str| (exists|h: Seq<char>, c: Seq<char>| p@ == a.dir.ruta_spec(h, c))
        && #[trigger] call_ensures(es_carpeta, (p,), true))
    || (exists|b: &str| a.bin matches Some(x) && b@ == x@ && #[trigger] call_ensures(en_path, (b,), true))
}

/// What shows that `a` is not installed: its command, if it has one, is not on
/// the PATH, and its folder, where it is an absolute path, does not exist.
pub open spec fn no_lo_encontro<F: Fn(&str) -> bool, G: Fn(&str) -> bool>(a: Agente, es_carpeta: F, en_path: G) -> bool {
    &&& (a.bin matches Some(x) ==> exists|b: &str| b@ == x@ && #[trigger] call_ensures(en_path, (b,), false))
    &&& (a.dir matches Ubicacion::Absoluta(d) ==> exists|p: &str| p@ == d@ && #[trigger] call_ensures(es_carpeta, (p,), false))
}

/// The agents among `v` that `marcas` keeps, in order.
pub open spec fn marcados(v: Seq<Agente>, marcas: Seq<bool>) -> Seq<AgenteV>
    decreases v.len(),
{
    if v.len() == 0 || marcas.len() != v.len() {
        Seq::empty()
    } else if marcas.last() {
        marcados(v.drop_last(), marcas.drop_last()).push(v.last().vista())
    } else {
        marcados(v.drop_last(), marcas.drop_last())
    }
}

impl Agente {
    /// Whether the agent is installed on this machine: its configuration folder
    /// is a folder (`es_carpeta`), or else its command is on the PATH
    /// (`en_path`).
    pub fn presente<F: Fn(&str) -> bool, G: Fn(&str) -> bool>(&self, es_carpeta: &F, en_path: &G) -> (r: bool)
        requires
            forall|s: &str| call_requires(*es_carpeta, (s,)),
            forall|s: &str| call_requires(*en_path, (s,)),
        ensures
            r ==> lo_encontro(*self, *es_carpeta, *en_path),
            !r ==> no_lo_encontro(*self, *es_carpeta, *en_path),
    {
        match self.dir.ruta() {
            Some(p) => {
                let ps = p.as_str();
                let hay = es_carpeta(ps);
                if hay {
                    assert(call_ensures(*es_carpeta, (ps,), true));
                    return true;
                }
                proof {
                    if self.dir is Absoluta {
                        assert(call_ensures(*es_carpeta, (ps,), false));
                    }
                }
            },
            None => {},
        }
        match &self.bin {
            Some(b) => {
                let bs = b.as_str();
                let hay = en_path(bs);
                if hay {
                    assert(call_ensures(*en_path, (bs,), true));
                } else {
                    assert(call_ensures(*en_path, (bs,), false));
                }
                hay
            },
            None => false,
        }
    }

    /// Registers the MCP server (`registrar`, with this agent's client) if
    /// Xtal knows how to for this agent: `false` where it does not, `true`
    /// once registered, the error of the registration where it failed.
    pub fn instalar_mcp<F: FnOnce(McpClientArg) -> Result<(), String>>(&self, registrar: F) -> (r: Result<bool, String>)
        requires
            self.mcp matches Some(c) ==> call_requires(registrar, (c,)),
        ensures
            self.mcp is None ==> r matches Ok(false),
            self.mcp matches Some(c) ==> exists|x: Result<(), String>| #[trigger] call_ensures(registrar, (c,), x)
                && match x {
                    Ok(_) => r matches Ok(true),
                    Err(e) => r matches Err(m) && m == e,
                },
    {
        match self.mcp {
            None => Ok(false),
            Some(cliente) => {
                let x = registrar(cliente);
                match x {
                    Ok(_) => Ok(true),
                    Err(e) => Err(e),
                }
            },
        }
    }
}

/// The agents of `agentes` that are installed on this machine, in order.
pub fn presentes<F: Fn(&str) -> bool, G: Fn(&str) -> bool>(agentes: Vec<Agente>, es_carpeta: &F, en_path: &G) -> (r: Vec<Agente>)
    requires
        forall|s: &str| call_requires(*es_carpeta, (s,)),
        forall|s: &str| call_requires(*en_path, (s,)),
    ensures
        exists|marcas: Seq<bool>| {
            &&& marcas.len() == agentes@.len()
            &&& vistas(r@) == marcados(agentes@, marcas)
            &&& forall|i: int| 0 <= i < agentes@.len() ==> (#[trigger] marcas[i] ==> lo_encontro(agentes@[i], *es_carpeta, *en_path))
            &&& forall|i: int| 0 <= i < agentes@.len() ==> (!#[trigger] marcas[i] ==> no_lo_encontro(agentes@[i], *es_carpeta, *en_path))
        },
{
    let ghost orig = agentes@;
    let mut resto = agentes;
    let mut r: Vec<Agente> = Vec::new();
    let ghost mut marcas: Seq<bool> = Seq::empty();
    let ghost mut k: int = 0;
    while resto.len() > 0
        invariant
            0 <= k <= orig.len(),
            resto@ == orig.skip(k),
            forall|s: &str| call_requires(*es_carpeta, (s,)),
            forall|s: &str| call_requires(*en_path, (s,)),
            marcas.len() == k,
            vistas(r@) == marcados(orig.take(k), marcas),
            forall|i: int| 0 <= i < k ==> (#[trigger] marcas[i] ==> lo_encontro(orig[i], *es_carpeta, *en_path)),
            forall|i: int| 0 <= i < k ==> (!#[trigger] marcas[i] ==> no_lo_encontro(orig[i], *es_carpeta, *en_path)),
        decreases resto@.len(),
    {
        let a = resto.remove(0);
        assert(a == orig[k]);
        let hay = a.presente(es_carpeta, en_path);
        let ghost antes = vistas(r@);
        proof {
            assert(orig.take(k + 1).drop_last() =~= orig.take(k));
            assert(orig.take(k + 1).last() == orig[k]);
            assert(marcas.push(hay).drop_last() =~= marcas);
            assert(resto@ =~= orig.skip(k + 1));
        }
        if hay {
            r.push(a);
            assert(vistas(r@) =~= antes.push(orig[k].vista()));
        }
        proof {
            marcas = marcas.push(hay);
            k = k + 1;
        }
    }
    assert(orig.take(orig.len() as int) =~= orig);
    r
}

// ---------------------------------------------------------------------------
// States
// ---------------------------------------------------------------------------

/// The state of an agent's skill.
#[derive(Debug, PartialEq, Eq, Clone, Copy, Structural)]
pub enum SkillState {
    /// The agent does not read skills: nothing to install, and no problem.
    NoAplica,
    /// The agent is not on this machine.
    SinAgente,
    /// The agent is here and the skill is not: it does not know Xtal exists.
    Falta,
    /// It is the skill of another version of Xtal.
    Viejo,
    /// Up to date.
    AlDia,
}

impl SkillState {
    pub open spec fn clave_de(self) -> Seq<char> {
        match self {
            SkillState::NoAplica => "no_aplica"@,
            SkillState::SinAgente => "sin_agente"@,
            SkillState::Falta => "falta"@,
            SkillState::Viejo => "viejo"@,
            SkillState::AlDia => "al_dia"@,
        }
    }

    /// The key that `--json` writes (the app parses it).
    pub fn clave(self) -> (r: &'static str)
        ensures
            r@ == self.clave_de(),
    {
        match self {
            SkillState::NoAplica => "no_aplica",
            SkillState::SinAgente => "sin_agente",
            SkillState::Falta => "falta",
            SkillState::Viejo => "viejo",
            SkillState::AlDia => "al_dia",
        }
    }
}

/// How the MCP registration of an agent is.
#[derive(Debug, PartialEq, Eq, Clone)]
pub enum McpState {
    /// The agent does not use MCP, or Xtal does not know its configuration.
    NoAplica,
    /// No entry for Xtal.
    NoRegistrado,
    /// Registered, pointing to a binary that exists.
    Anda(String),
    /// Registered, but there is no binary at that path any more (typically a
    /// Homebrew Cellar path that died in the last upgrade).
    Roto(String),
}

impl McpState {
    pub open spec fn clave_de(self) -> Seq<char> {
        match self {
            McpState::NoAplica => "no_aplica"@,
            McpState::NoRegistrado => "no_registrado"@,
            McpState::Anda(_) => "ok"@,
            McpState::Roto(_) => "roto"@,
        }
    }

    /// The key that `--json` writes.
    pub fn clave(&self) -> (r: &'static str)
        ensures
            r@ == self.clave_de(),
    {
        match self {
            McpState::NoAplica => "no_aplica",
            McpState::NoRegistrado => "no_registrado",
            McpState::Anda(_) => "ok",
            McpState::Roto(_) => "roto",
        }
    }
}

/// The whole picture of an agent: whether it is here and how it is plugged.
#[derive(Debug)]
pub struct Estado {
    pub agente: Agente,
    pub presente: bool,
    pub skill: SkillState,
    pub skill_path: Option<String>,
    pub mcp: McpState,
}

impl Estado {
    pub open spec fn listo_spec(&self) -> bool {
        !self.presente || ((self.skill == SkillState::AlDia || self.skill == SkillState::NoAplica)
            && !(self.mcp is Roto))
    }

    /// Whether the agent has all it needs to use Xtal. An agent that is not
    /// here has nothing to fix; an MCP left unregistered is no fault (with bash
    /// the MCP is a convenience), one that points to a dead binary is (it fails
    /// silently).
    pub fn listo(&self) -> (r: bool)
        ensures
            r == self.listo_spec(),
    {
        if !self.presente {
            return true;
        }
        let skill_ok = match self.skill {
            SkillState::AlDia | SkillState::NoAplica => true,
            _ => false,
        };
        let mcp_ok = match &self.mcp {
            McpState::Roto(_) => false,
            _ => true,
        };
        skill_ok && mcp_ok
    }

    pub open spec fn falta_spec(&self) -> Option<Seq<char>> {
        if !self.presente {
            None
        } else if self.skill == SkillState::Falta {
            Some("falta el skill: no sabe que Xtal existe"@)
        } else if self.skill == SkillState::Viejo {
            Some("el skill es de otra version de Xtal"@)
        } else if let McpState::Roto(p) = self.mcp {
            Some("el MCP apunta a "@ + p@ + " y ahí no hay nada"@)
        } else {
            None
        }
    }

    /// What it lacks, in one line; `None` if it lacks nothing to report.
    pub fn falta(&self) -> (r: Option<String>)
        ensures
            opt_texto(r) == self.falta_spec(),
    {
        if !self.presente {
            return None;
        }
        match (&self.skill, &self.mcp) {
            (SkillState::Falta, _) => Some("falta el skill: no sabe que Xtal existe".to_owned()),
            (SkillState::Viejo, _) => Some("el skill es de otra version de Xtal".to_owned()),
            (_, McpState::Roto(p)) => {
                let mut t = caracteres("el MCP apunta a ");
                agregar(&mut t, &caracteres(p.as_str()));
                agregar(&mut t, &caracteres(" y ahí no hay nada"));
                Some(cadena(&t))
            },
            _ => None,
        }
    }
}

/// An agent is ready exactly when nothing is reported missing (for every
/// state that `estado_skill` gives: one whose agent is here never has the
/// skill state of an absent agent).
pub proof fn listo_si_no_falta_nada(e: Estado)
    requires
        !(e.presente && e.skill == SkillState::SinAgente),
    ensures
        e.listo_spec() <==> e.falta_spec() is None,
{
}

impl Agente {
    /// What the program writes in this agent's files, given how its skills
    /// folder is shown.
    pub open spec fn toca_spec(&self, skills_legible: Seq<char>) -> Seq<char> {
        let skill = "skill en "@ + skills_legible + "/xtal/"@;
        let mcp = "el server MCP en ~/.codex/config.toml"@;
        match (self.skills, self.mcp) {
            (Some(_), Some(_)) => skill + " y "@ + mcp,
            (Some(_), None) => skill,
            (None, Some(_)) => mcp,
            (None, None) => "nada: no sabemos dónde escribirle"@,
        }
    }

    /// Which files of the agent Xtal writes, in one line. It is built from the
    /// same places that are written, not from a text apart that could lie.
    pub fn toca(&self) -> (r: String)
        ensures
            exists|l: Seq<char>| r@ == self.toca_spec(l),
            self.skills matches Some(Ubicacion::Home(rel)) ==> r@ == self.toca_spec("~/"@ + rel@),
            self.skills matches Some(Ubicacion::Absoluta(p)) ==> r@ == self.toca_spec(p@),
    {
        let mut t: Vec<char> = Vec::new();
        let ghost mut l: Seq<char> = Seq::empty();
        match &self.skills {
            Some(u) => {
                let leg = u.legible();
                proof {
                    l = leg@;
                }
                t = caracteres("skill en ");
                agregar(&mut t, &caracteres(leg.as_str()));
                agregar(&mut t, &caracteres("/xtal/"));
                if self.mcp.is_some() {
                    agregar(&mut t, &caracteres(" y "));
                    agregar(&mut t, &caracteres("el server MCP en ~/.codex/config.toml"));
                }
            },
            None => {
                if self.mcp.is_some() {
                    t = caracteres("el server MCP en ~/.codex/config.toml");
                } else {
                    t = caracteres("nada: no sabemos dónde escribirle");
                }
            },
        }
        assert(t@ == self.toca_spec(l));
        cadena(&t)
    }

    /// Where Xtal's skill goes (or is) for this agent: `xtal/SKILL.md` in its
    /// skills folder; `None` if it reads no skills or the folder cannot be found.
    pub fn skill_path(&self) -> (r: Option<String>)
        ensures
            self.skills is None ==> r is None,
            r matches Some(p) ==> (self.skills matches Some(u) && exists|h: Seq<char>, c: Seq<char>|
                p@ == unido(unido(u.ruta_spec(h, c), "xtal"@), "SKILL.md"@)),
            self.skills matches Some(Ubicacion::Absoluta(d)) ==> (r matches Some(p) && p@ == unido(
                unido(d@, "xtal"@),
                "SKILL.md"@,
            )),
    {
        match &self.skills {
            Some(u) => match u.ruta() {
                Some(d) => {
                    let x = unir(d.as_str(), "xtal");
                    Some(unir(x.as_str(), "SKILL.md"))
                },
                None => None,
            },
            None => None,
        }
    }

    /// The state of this agent's skill: nothing to do where it reads no skills,
    /// no agent where it is not here; else up to date where the file there
    /// (`leido`, `None` where it cannot be read) is the skill of this version
    /// (`skill`), old where it is another, missing where there is none.
    pub fn estado_skill(&self, presente: bool, leido: &Option<String>, skill: &str) -> (r: SkillState)
        ensures
            r == (if self.skills is None {
                SkillState::NoAplica
            } else if !presente {
                SkillState::SinAgente
            } else {
                match leido {
                    Some(t) => if t@ == skill@ {
                        SkillState::AlDia
                    } else {
                        SkillState::Viejo
                    },
                    None => SkillState::Falta,
                }
            }),
    {
        if self.skills.is_none() {
            SkillState::NoAplica
        } else if !presente {
            SkillState::SinAgente
        } else {
            match leido {
                Some(t) => if iguales(&caracteres(t.as_str()), &caracteres(skill)) {
                    SkillState::AlDia
                } else {
                    SkillState::Viejo
                },
                None => SkillState::Falta,
            }
        }
    }

    /// The state of this agent's MCP registration, given what its client's
    /// configuration says (`registro`): nothing to do where Xtal does not know
    /// the client; not registered where the agent is not here.
    pub fn estado_mcp(&self, presente: bool, registro: McpState) -> (r: McpState)
        ensures
            r == (if self.mcp is None {
                McpState::NoAplica
            } else if !presente {
                McpState::NoRegistrado
            } else {
                registro
            }),
    {
        if self.mcp.is_none() {
            McpState::NoAplica
        } else if !presente {
            McpState::NoRegistrado
        } else {
            registro
        }
    }
}

/// The state of a registration, from the command that a client's
/// configuration has for Xtal (`None` where there is none) and whether that
/// command is a file.
pub fn mcp_status(comando: Option<String>, es_archivo: bool) -> (r: McpState)
    ensures
        match comando {
            None => r == McpState::NoRegistrado,
            Some(c) => if es_archivo {
                r matches McpState::Anda(p) && p@ == c@
            } else {
                r matches McpState::Roto(p) && p@ == c@
            },
        },
{
    match comando {
        None => McpState::NoRegistrado,
        Some(c) => if es_archivo {
            McpState::Anda(c)
        } else {
            McpState::Roto(c)
        },
    }
}

// ---------------------------------------------------------------------------
// Ids and choices
// ---------------------------------------------------------------------------

/// The lowercase id of a name: ASCII letters and digits, lowercased, with one
/// `-` for each run of other characters between them.
pub open spec fn slug_desde(t: Seq<char>, n: int, acc: Seq<char>) -> Seq<char>
    decreases t.len() - n,
{
    if n < 0 || n >= t.len() {
        acc
    } else if crate::texto::es_alnum_ascii(t[n]) {
        slug_desde(t, n + 1, acc.push(crate::texto::minuscula_ascii(t[n])))
    } else if acc.len() > 0 && acc.last() != '-' {
        slug_desde(t, n + 1, acc.push('-'))
    } else {
        slug_desde(t, n + 1, acc)
    }
}

/// A text without the `-` at its end (the start never has one).
pub open spec fn sin_guion_final(s: Seq<char>) -> Seq<char> {
    if s.len() > 0 && s.last() == '-' {
        s.drop_last()
    } else {
        s
    }
}

/// `Mi Agente` becomes `mi-agente`.
pub open spec fn slug_spec(t: Seq<char>) -> Seq<char> {
    sin_guion_final(slug_desde(t, 0, Seq::empty()))
}

proof fn lema_slug_sin_guiones_dobles(t: Seq<char>, n: int, acc: Seq<char>)
    requires
        0 <= n <= t.len(),
        acc.len() == 0 || acc[0] != '-',
        forall|k: int| 0 <= k < acc.len() - 1 ==> !(acc[k] == '-' && #[trigger] acc[k + 1] == '-'),
    ensures
        slug_desde(t, n, acc).len() == 0 || slug_desde(t, n, acc)[0] != '-',
        forall|k: int|
            0 <= k < slug_desde(t, n, acc).len() - 1 ==> !(slug_desde(t, n, acc)[k] == '-'
                && #[trigger] slug_desde(t, n, acc)[k + 1] == '-'),
    decreases t.len() - n,
{
    if n < t.len() {
        if crate::texto::es_alnum_ascii(t[n]) {
            let c = crate::texto::minuscula_ascii(t[n]);
            assert(c != '-');
            lema_slug_sin_guiones_dobles(t, n + 1, acc.push(c));
        } else if acc.len() > 0 && acc.last() != '-' {
            lema_slug_sin_guiones_dobles(t, n + 1, acc.push('-'));
        } else {
            lema_slug_sin_guiones_dobles(t, n + 1, acc);
        }
    }
}

/// An id never starts or ends with `-` nor has two in a row, and every
/// character is a lowercase ASCII letter, a digit or `-`.
pub proof fn el_slug_es_un_id(t: Seq<char>)
    ensures
        slug_spec(t).len() == 0 || (slug_spec(t)[0] != '-' && slug_spec(t).last() != '-'),
        forall|k: int|
            0 <= k < slug_spec(t).len() - 1 ==> !(slug_spec(t)[k] == '-' && #[trigger] slug_spec(t)[k + 1] == '-'),
{
    lema_slug_sin_guiones_dobles(t, 0, Seq::empty());
    let s = slug_desde(t, 0, Seq::empty());
    if s.len() > 0 && s.last() == '-' {
        if s.len() >= 2 {
            assert(!(s[s.len() - 2] == '-' && s[(s.len() - 2) + 1] == '-'));
            assert(s.drop_last().last() == s[s.len() - 2]);
        }
        assert forall|k: int| 0 <= k < s.drop_last().len() - 1 implies !(s.drop_last()[k] == '-'
            && #[trigger] s.drop_last()[k + 1] == '-') by {
            assert(s.drop_last()[k] == s[k] && s.drop_last()[k + 1] == s[k + 1]);
        }
    }
}

/// The id that a name gives, for `xtal agents add` without `--id`: a name
/// with no ASCII letter or digit gives none (empty), and the command then asks
/// for `--id`.
pub fn slug(texto: &str) -> (r: String)
    ensures
        r@ == slug_spec(texto@),
{
    let t = caracteres(texto);
    let mut out: Vec<char> = Vec::new();
    let mut n: usize = 0;
    while n < t.len()
        invariant
            n <= t@.len(),
            slug_desde(t@, n as int, out@) == slug_desde(t@, 0, Seq::empty()),
        decreases t@.len() - n,
    {
        let c = t[n];
        if crate::texto::letra_ascii(c) || crate::texto::digito(c) {
            let m = if 'A' <= c && c <= 'Z' {
                let b: u8 = (c as u32 + 32) as u8;
                assert(b as u32 == c as u32 + 32);
                b as char
            } else {
                c
            };
            assert(m == crate::texto::minuscula_ascii(c));
            out.push(m);
        } else if out.len() > 0 && out[out.len() - 1] != '-' {
            out.push('-');
        }
        n = n + 1;
    }
    if out.len() > 0 && out[out.len() - 1] == '-' {
        out.pop();
    }
    cadena(&out)
}

/// The ids of the table, joined with `, `.
pub open spec fn lista_ids(v: Seq<AgenteV>) -> Seq<char>
    decreases v.len(),
{
    if v.len() == 0 {
        Seq::empty()
    } else if v.len() == 1 {
        v[0].id
    } else {
        lista_ids(v.drop_last()) + ", "@ + v.last().id
    }
}

fn ids_juntos(v: &Vec<Agente>) -> (r: Vec<char>)
    ensures
        r@ == lista_ids(vistas(v@)),
{
    let ghost todos = vistas(v@);
    let mut r: Vec<char> = Vec::new();
    let mut k: usize = 0;
    assert(todos.take(0) =~= Seq::<AgenteV>::empty());
    while k < v.len()
        invariant
            k <= v@.len(),
            todos == vistas(v@),
            r@ == lista_ids(todos.take(k as int)),
        decreases v@.len() - k,
    {
        assert(todos.take(k + 1).drop_last() =~= todos.take(k as int));
        assert(todos[k as int] == v@[k as int].vista());
        if k > 0 {
            agregar(&mut r, &caracteres(", "));
        } else {
            assert(todos.take(1)[0] == todos[0]);
        }
        agregar(&mut r, &caracteres(v[k].id.as_str()));
        k = k + 1;
    }
    assert(todos.take(todos.len() as int) =~= todos);
    r
}

/// Which agents a command applies to: the one asked for (an unknown id is an
/// error that lists the known ones); with `all`, those installed (`presentes`;
/// writing a skill for an agent someone does not have is leaving garbage),
/// which must be some; with neither, an error that says how to choose.
pub fn elegir(agent: Option<String>, all: bool, todos: Vec<Agente>, presentes: Vec<Agente>) -> (r: Result<Vec<Agente>, String>)
    ensures
        agent matches Some(id) ==> match posicion(vistas(todos@), id@) {
            Some(k) => r matches Ok(v) && v@.len() == 1 && v@[0].vista() == vistas(todos@)[k],
            None => r matches Err(m) && m@ == "no conozco el agente '"@ + id@ + "'. Los que hay: "@ + lista_ids(
                vistas(todos@),
            ),
        },
        agent is None && all ==> if presentes@.len() > 0 {
            r matches Ok(v) && vistas(v@) == vistas(presentes@)
        } else {
            r matches Err(m) && m@ == "no encontré ningún agente de IA instalado en esta máquina"@
        },
        agent is None && !all ==> (r matches Err(m) && m@ == "decí a cuál: `--agent <id>` o `--all`"@),
{
    match agent {
        Some(id) => {
            let mut todos = todos;
            proof {
                lema_posicion(vistas(todos@), id@);
            }
            match buscar_id(&todos, &caracteres(id.as_str())) {
                Some(k) => {
                    let a = todos.remove(k);
                    let mut v: Vec<Agente> = Vec::new();
                    v.push(a);
                    Ok(v)
                },
                None => {
                    let mut m = caracteres("no conozco el agente '");
                    agregar(&mut m, &caracteres(id.as_str()));
                    agregar(&mut m, &caracteres("'. Los que hay: "));
                    agregar(&mut m, &ids_juntos(&todos));
                    Err(cadena(&m))
                },
            }
        },
        None => {
            if all {
                if presentes.len() == 0 {
                    Err("no encontré ningún agente de IA instalado en esta máquina".to_owned())
                } else {
                    Ok(presentes)
                }
            } else {
                Err("decí a cuál: `--agent <id>` o `--all`".to_owned())
            }
        },
    }
}


/// The file where the agents the user added live (`~/.config/xtal/agents.toml`:
/// apart from `config.toml`, which holds the documents' configuration and is
/// copied between machines; this is what programs *this* machine has).
/// `None` exactly where `config_dir` finds no folder (see `dentro_de`).
pub fn archivo_propios() -> (r: Option<String>)
    ensures
        r matches Some(f) ==> exists|h: Seq<char>| f@ == unido(crate::rutas::dir_de(h), "agents.toml"@),
{
    crate::rutas::dentro_de(crate::rutas::config_dir(), "agents.toml")
}

} // verus!
