//! The decisions of Xtal's MCP server (JSON-RPC 2.0, one message per line on
//! stdio): which protocol version to speak, what each method gets, which
//! project a tool works on, and what a tool answers. Reading and writing the
//! messages (JSON) and running the commands are the program's part.
use vstd::prelude::*;
use crate::texto::{agregar, cadena, caracteres, iguales, recortado, recortar};

verus! {

broadcast use vstd::string::group_string_axioms;

/// JSON-RPC's standard error codes.
pub const PARSE_ERROR: i32 = -32700;
pub const INVALID_REQUEST: i32 = -32600;
pub const METHOD_NOT_FOUND: i32 = -32601;
pub const INVALID_PARAMS: i32 = -32602;
pub const INTERNAL_ERROR: i32 = -32603;

/// The protocol versions the server speaks, newest first.
pub open spec fn versiones() -> Seq<Seq<char>> {
    seq!["2025-06-18"@, "2025-03-26"@, "2024-11-05"@]
}

/// The protocol versions the server speaks, newest first.
pub fn supported_protocol_versions() -> (r: Vec<&'static str>)
    ensures
        r@.map_values(|s: &'static str| s@) == versiones(),
{
    let mut r: Vec<&'static str> = Vec::new();
    r.push("2025-06-18");
    r.push("2025-03-26");
    r.push("2024-11-05");
    assert(r@.map_values(|s: &'static str| s@) =~= versiones());
    r
}

/// The version `initialize` answers: the one the client proposes, where the
/// server speaks it; else the newest (and the client decides whether to go
/// on).
pub open spec fn version_de(pedida: Option<Seq<char>>) -> Seq<char> {
    match pedida {
        Some(v) => if versiones().contains(v) {
            v
        } else {
            versiones()[0]
        },
        None => versiones()[0],
    }
}

/// The protocol version to speak with a client that proposes `pedida`.
pub fn version_negociada(pedida: Option<&str>) -> (r: &'static str)
    ensures
        r@ == version_de(match pedida {
            Some(v) => Some(v@),
            None => None,
        }),
{
    let vs = supported_protocol_versions();
    assert(vs@.map_values(|s: &'static str| s@).len() == 3);
    assert(vs@.len() == 3);
    assert(vs@.map_values(|s: &'static str| s@)[0] == vs@[0]@);
    match pedida {
        Some(v) => {
            let c = caracteres(v);
            let mut k: usize = 0;
            while k < vs.len()
                invariant
                    k <= vs@.len(),
                    pedida == Some(v),
                    vs@.map_values(|s: &'static str| s@) == versiones(),
                    c@ == v@,
                    forall|j: int| 0 <= j < k ==> versiones()[j] != v@,
                decreases vs@.len() - k,
            {
                assert(vs@.map_values(|s: &'static str| s@)[k as int] == vs@[k as int]@);
                assert(versiones()[k as int] == vs@[k as int]@);
                if iguales(&caracteres(vs[k]), &c) {
                    assert(versiones().contains(v@));
                    return vs[k];
                }
                k = k + 1;
            }
            assert(!versiones().contains(v@));
            assert(versiones()[0] == vs@[0]@);
            vs[0]
        },
        None => {
            assert(versiones()[0] == vs@[0]@);
            vs[0]
        },
    }
}

/// A JSON-RPC error.
#[derive(Debug, Clone)]
pub struct RpcError {
    pub code: i32,
    pub message: String,
}

/// What the server does with a message.
#[derive(Debug, PartialEq, Eq, Structural)]
pub enum Metodo {
    /// A notification (no `id`): it is not answered.
    Notificacion,
    Initialize,
    Ping,
    ToolsList,
    ToolsCall,
    /// Anything else: method not found.
    Desconocido,
}

/// What a message with `method` (and an `id` or not) gets.
pub fn clasificar(tiene_id: bool, method: &str) -> (r: Metodo)
    ensures
        r == (if !tiene_id {
            Metodo::Notificacion
        } else if method@ == "initialize"@ {
            Metodo::Initialize
        } else if method@ == "ping"@ {
            Metodo::Ping
        } else if method@ == "tools/list"@ {
            Metodo::ToolsList
        } else if method@ == "tools/call"@ {
            Metodo::ToolsCall
        } else {
            Metodo::Desconocido
        }),
{
    if !tiene_id {
        return Metodo::Notificacion;
    }
    let m = caracteres(method);
    if iguales(&m, &caracteres("initialize")) {
        Metodo::Initialize
    } else if iguales(&m, &caracteres("ping")) {
        Metodo::Ping
    } else if iguales(&m, &caracteres("tools/list")) {
        Metodo::ToolsList
    } else if iguales(&m, &caracteres("tools/call")) {
        Metodo::ToolsCall
    } else {
        Metodo::Desconocido
    }
}

/// The error for a method the server does not have.
pub fn no_soportado(method: &str) -> (e: RpcError)
    ensures
        e.code == METHOD_NOT_FOUND,
        e.message@ == "método no soportado: "@ + method@,
{
    let mut t = caracteres("método no soportado: ");
    agregar(&mut t, &caracteres(method));
    RpcError { code: METHOD_NOT_FOUND, message: cadena(&t) }
}

/// The server's session: the binary it runs and the project opened with
/// `xtal_open_project`, if any.
#[derive(Debug)]
pub struct Session {
    pub exe: String,
    pub project: Option<String>,
}

pub open spec fn opt_texto(o: Option<String>) -> Option<Seq<char>> {
    match o {
        Some(s) => Some(s@),
        None => None,
    }
}

impl Session {
    /// A session that runs `exe`, with no project open.
    pub fn new(exe: String) -> (s: Session)
        ensures
            s.exe@ == exe@,
            s.project is None,
    {
        Session { exe, project: None }
    }

    /// The project a call works on: the `project` of its arguments, else the
    /// one open in the session, else none (and the command line looks for
    /// `xtal.toml` upwards from its directory).
    pub fn project_for(&self, argumento: Option<String>) -> (r: Option<String>)
        ensures
            opt_texto(r) == (match argumento {
                Some(p) => Some(p@),
                None => opt_texto(self.project),
            }),
    {
        match argumento {
            Some(p) => Some(p),
            None => match &self.project {
                Some(p) => Some(p.clone()),
                None => None,
            },
        }
    }
}

/// Words joined with spaces.
pub open spec fn con_espacios(v: Seq<Seq<char>>) -> Seq<char>
    decreases v.len(),
{
    if v.len() == 0 {
        Seq::empty()
    } else if v.len() == 1 {
        v[0]
    } else {
        con_espacios(v.drop_last()) + seq![' '] + v.last()
    }
}

pub open spec fn textos(v: Seq<String>) -> Seq<Seq<char>> {
    v.map_values(|s: String| s@)
}

/// What a tool answers for a run of `xtal args`: on success its output
/// (trimmed), or its error output where the output is empty; on failure its
/// error output, or a message that names the command where it said nothing.
/// A failed command is not a protocol error: the model reads the message and
/// corrects itself.
pub open spec fn respuesta_tool(ok: bool, stdout: Seq<char>, stderr: Seq<char>, args: Seq<Seq<char>>) -> Result<
    Seq<char>,
    Seq<char>,
> {
    let o = recortado(stdout);
    let e = recortado(stderr);
    if ok {
        Ok(if o.len() == 0 { e } else { o })
    } else {
        Err(if e.len() == 0 { "`xtal "@ + con_espacios(args) + "` falló sin mensaje"@ } else { e })
    }
}

/// What a tool answers for a run of `xtal args` that ended with `ok`.
pub fn resultado_tool(ok: bool, stdout: &str, stderr: &str, args: &Vec<String>) -> (r: Result<String, String>)
    ensures
        match (r, respuesta_tool(ok, stdout@, stderr@, textos(args@))) {
            (Ok(a), Ok(b)) => a@ == b,
            (Err(a), Err(b)) => a@ == b,
            _ => false,
        },
{
    let o = recortar(&caracteres(stdout));
    let e = recortar(&caracteres(stderr));
    if ok {
        Ok(cadena(if o.len() == 0 { &e } else { &o }))
    } else if e.len() == 0 {
        let mut t = caracteres("`xtal ");
        let ghost todos = textos(args@);
        let mut k: usize = 0;
        let ghost base = t@;
        assert(todos.take(0) =~= Seq::<Seq<char>>::empty());
        while k < args.len()
            invariant
                k <= args@.len(),
                todos == textos(args@),
                base == "`xtal "@,
                t@ == base + con_espacios(todos.take(k as int)),
            decreases args@.len() - k,
        {
            assert(todos.take(k + 1).drop_last() =~= todos.take(k as int));
            assert(todos[k as int] == args@[k as int]@);
            if k > 0 {
                t.push(' ');
            } else {
                assert(todos.take(1)[0] == todos[0]);
            }
            agregar(&mut t, &caracteres(args[k].as_str()));
            k = k + 1;
        }
        assert(todos.take(todos.len() as int) =~= todos);
        agregar(&mut t, &caracteres("` falló sin mensaje"));
        Err(cadena(&t))
    } else {
        Err(cadena(&e))
    }
}

} // verus!
