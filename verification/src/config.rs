//! The configuration in four layers, the most specific winning:
//!
//! ```text
//! 1. the binary's defaults
//! 2. the user's global configuration   (~/.config/xtal/config.toml)
//! 3. the project's                     (./xtal.toml)
//! 4. the command's flags               (--monochrome, --theme, ...)
//! ```
//!
//! A field left out of a layer has no say and lets the layer below through.
//! What comes out has no `Option`: the renderer never decides anything by
//! itself. Reading the files is the program's part.
use vstd::prelude::*;
use crate::texto::{agregar, cadena, caracteres, iguales, minusculas, minusculas_de};

verus! {

broadcast use vstd::string::group_string_axioms;

/// The document's format.
#[derive(Debug, Clone, Copy, PartialEq, Eq, Structural)]
pub enum DocFormat {
    Facultad,
    Paper,
}

/// A layer of configuration: a field in `None` has no say.
#[derive(Debug, Clone)]
pub struct PartialConfig {
    /// The active theme or institution (`itba`, say).
    pub theme: Option<String>,
    /// The document's default format.
    pub format: Option<DocFormat>,
    /// Monochrome (black and white, monochrome logo).
    pub monochrome: Option<bool>,
}

impl Default for PartialConfig {
    /// A layer with no say on anything.
    fn default() -> (p: Self)
        ensures
            p.theme is None,
            p.format is None,
            p.monochrome is None,
    {
        PartialConfig { theme: None, format: None, monochrome: None }
    }
}

/// The configuration resolved, for the renderer.
#[derive(Debug, Clone, PartialEq)]
pub struct ResolvedConfig {
    pub theme: String,
    pub format: DocFormat,
    pub monochrome: bool,
}

pub open spec fn texto_opt(o: Option<String>) -> Option<Seq<char>> {
    match o {
        Some(s) => Some(s@),
        None => None,
    }
}

/// The first of the values that has a say, else `base`.
pub open spec fn primero<T>(a: Option<T>, b: Option<T>, c: Option<T>, base: T) -> T {
    match a {
        Some(x) => x,
        None => match b {
            Some(x) => x,
            None => match c {
                Some(x) => x,
                None => base,
            },
        },
    }
}

fn copia(o: &Option<String>) -> (r: Option<String>)
    ensures
        texto_opt(r) == texto_opt(*o),
{
    match o {
        Some(s) => Some(s.clone()),
        None => None,
    }
}

impl PartialConfig {
    /// `other` laid over `self`: each field that `other` has a say on wins.
    pub fn overlay(self, other: &PartialConfig) -> (r: PartialConfig)
        ensures
            texto_opt(r.theme) == (if other.theme is Some { texto_opt(other.theme) } else { texto_opt(self.theme) }),
            r.format == (if other.format is Some { other.format } else { self.format }),
            r.monochrome == (if other.monochrome is Some { other.monochrome } else { self.monochrome }),
    {
        let mut s = self;
        if other.theme.is_some() {
            s.theme = copia(&other.theme);
        }
        if other.format.is_some() {
            s.format = other.format;
        }
        if other.monochrome.is_some() {
            s.monochrome = other.monochrome;
        }
        s
    }
}

impl ResolvedConfig {
    /// The first layer: the binary's defaults (the ITBA base).
    pub fn defaults() -> (p: PartialConfig)
        ensures
            texto_opt(p.theme) == Some("itba"@),
            p.format == Some(DocFormat::Facultad),
            p.monochrome == Some(false),
    {
        PartialConfig { theme: Some("itba".to_owned()), format: Some(DocFormat::Facultad), monochrome: Some(false) }
    }
}

/// The project's layer where there is a project, else none.
pub open spec fn capa<T>(project: Option<&PartialConfig>, f: spec_fn(PartialConfig) -> Option<T>) -> Option<T> {
    match project {
        Some(p) => f(*p),
        None => None,
    }
}

/// Resolves the whole cascade: defaults, then the global layer, then the
/// project's (if there is a project; its layer never says anything of
/// monochrome, which belongs to the render and the flags), then the flags.
/// Each field is the one of the most specific layer that has a say on it.
pub fn resolve(global: &PartialConfig, project: Option<&PartialConfig>, cli: &PartialConfig) -> (r: ResolvedConfig)
    ensures
        r.theme@ == primero(
            texto_opt(cli.theme),
            capa(project, |p: PartialConfig| texto_opt(p.theme)),
            texto_opt(global.theme),
            "itba"@,
        ),
        r.format == primero(cli.format, capa(project, |p: PartialConfig| p.format), global.format, DocFormat::Facultad),
        r.monochrome == primero(cli.monochrome, None, global.monochrome, false),
{
    let mut merged = ResolvedConfig::defaults();
    merged = merged.overlay(global);
    match project {
        Some(p) => {
            let capa_proyecto = PartialConfig { theme: copia(&p.theme), format: p.format, monochrome: None };
            merged = merged.overlay(&capa_proyecto);
        },
        None => {},
    }
    merged = merged.overlay(cli);
    let theme = match merged.theme {
        Some(t) => t,
        None => "itba".to_owned(),
    };
    let format = match merged.format {
        Some(f) => f,
        None => DocFormat::Facultad,
    };
    let monochrome = match merged.monochrome {
        Some(m) => m,
        None => false,
    };
    ResolvedConfig { theme, format, monochrome }
}

// ---------------------------------------------------------------------------
// `xtal config get|set`
// ---------------------------------------------------------------------------

/// The error for a key that is not one.
pub open spec fn clave_desconocida(k: Seq<char>) -> Seq<char> {
    "clave desconocida '"@ + k + "' (theme|format|monochrome)"@
}

/// How a format is written by `config get` (its name as `Debug` writes it).
pub open spec fn nombre_formato(f: DocFormat) -> Seq<char> {
    match f {
        DocFormat::Facultad => "Facultad"@,
        DocFormat::Paper => "Paper"@,
    }
}

/// A layer as plain values: its theme, format and monochrome.
pub type VistaCapa = (Option<Seq<char>>, Option<DocFormat>, Option<bool>);

pub open spec fn vista_capa(c: PartialConfig) -> VistaCapa {
    (texto_opt(c.theme), c.format, c.monochrome)
}

/// What `xtal config get <key>` shows of a layer.
pub open spec fn lectura(c: VistaCapa, key: Seq<char>) -> Result<Seq<char>, Seq<char>> {
    if key == "theme"@ {
        Ok(match c.0 { Some(t) => t, None => Seq::empty() })
    } else if key == "format"@ {
        Ok(match c.1 { Some(f) => nombre_formato(f), None => Seq::empty() })
    } else if key == "monochrome"@ {
        Ok(match c.2 { Some(b) => if b { "true"@ } else { "false"@ }, None => Seq::empty() })
    } else {
        Err(clave_desconocida(key))
    }
}

/// What `xtal config set <key> <value>` leaves of a layer, and what it
/// answers.
pub open spec fn escritura(c: VistaCapa, key: Seq<char>, value: Seq<char>) -> (VistaCapa, Result<(), Seq<char>>) {
    if key == "theme"@ {
        ((Some(value), c.1, c.2), Ok(()))
    } else if key == "format"@ {
        match formato_de(value) {
            Ok(f) => ((c.0, Some(f), c.2), Ok(())),
            Err(e) => (c, Err(e)),
        }
    } else if key == "monochrome"@ {
        if value == "true"@ || value == "false"@ {
            ((c.0, c.1, Some(value == "true"@)), Ok(()))
        } else {
            (c, Err("monochrome es true|false"@))
        }
    } else {
        (c, Err(clave_desconocida(key)))
    }
}

/// What `xtal config get <key>` shows of a layer: the value, or nothing where
/// the layer has no say.
pub fn partial_get(cfg: &PartialConfig, key: &str) -> (r: Result<String, String>)
    ensures
        match r {
            Ok(v) => lectura(vista_capa(*cfg), key@) == Ok::<Seq<char>, Seq<char>>(v@),
            Err(e) => lectura(vista_capa(*cfg), key@) == Err::<Seq<char>, Seq<char>>(e@),
        },
        key@ == "theme"@ ==> (r matches Ok(v) && v@ == (match cfg.theme { Some(t) => t@, None => Seq::empty() })),
        key@ == "format"@ ==> (r matches Ok(v) && v@ == (match cfg.format { Some(f) => nombre_formato(f), None => Seq::empty() })),
        key@ == "monochrome"@ ==> (r matches Ok(v) && v@ == (match cfg.monochrome {
            Some(b) => if b { "true"@ } else { "false"@ },
            None => Seq::empty(),
        })),
        key@ != "theme"@ && key@ != "format"@ && key@ != "monochrome"@ ==> (r matches Err(e) && e@ == clave_desconocida(key@)),
{
    proof {
        reveal_strlit("theme");
        reveal_strlit("format");
        reveal_strlit("monochrome");
        reveal_strlit("true");
        reveal_strlit("false");
        assert("theme"@.len() == 5 && "format"@.len() == 6 && "monochrome"@.len() == 10);
        assert("true"@.len() == 4 && "false"@.len() == 5);
    }
    let k = caracteres(key);
    if iguales(&k, &caracteres("theme")) {
        Ok(match &cfg.theme {
            Some(t) => t.clone(),
            None => String::new(),
        })
    } else if iguales(&k, &caracteres("format")) {
        let v = match cfg.format {
            Some(DocFormat::Facultad) => "Facultad".to_owned(),
            Some(DocFormat::Paper) => "Paper".to_owned(),
            None => String::new(),
        };
        Ok(v)
    } else if iguales(&k, &caracteres("monochrome")) {
        Ok(match cfg.monochrome {
            Some(true) => "true".to_owned(),
            Some(false) => "false".to_owned(),
            None => String::new(),
        })
    } else {
        let mut m = caracteres("clave desconocida '");
        agregar(&mut m, &k);
        agregar(&mut m, &caracteres("' (theme|format|monochrome)"));
        Err(cadena(&m))
    }
}

/// A format as the user writes it, in any case.
pub open spec fn formato_de(valor: Seq<char>) -> Result<DocFormat, Seq<char>> {
    let v = minusculas_de(valor);
    if v == "facultad"@ {
        Ok(DocFormat::Facultad)
    } else if v == "paper"@ {
        Ok(DocFormat::Paper)
    } else {
        Err("formato desconocido '"@ + v + "' (facultad|paper)"@)
    }
}

/// Reads a format, in any case.
pub fn parse_format(value: &str) -> (r: Result<DocFormat, String>)
    ensures
        match (r, formato_de(value@)) {
            (Ok(a), Ok(b)) => a == b,
            (Err(a), Err(b)) => a@ == b,
            _ => false,
        },
{
    proof {
        reveal_strlit("facultad");
        reveal_strlit("paper");
    }
    let v = caracteres(minusculas(value).as_str());
    if iguales(&v, &caracteres("facultad")) {
        Ok(DocFormat::Facultad)
    } else if iguales(&v, &caracteres("paper")) {
        Ok(DocFormat::Paper)
    } else {
        let mut m = caracteres("formato desconocido '");
        agregar(&mut m, &v);
        agregar(&mut m, &caracteres("' (facultad|paper)"));
        Err(cadena(&m))
    }
}

/// What `xtal config set <key> <value>` does to a layer: the key gets the
/// value (`monochrome` takes `true` or `false`, `format` a format's name);
/// a key or a value that is not one is an error, and the layer is left as it
/// was.
pub fn partial_set(cfg: &mut PartialConfig, key: &str, value: &str) -> (r: Result<(), String>)
    ensures
        vista_capa(*final(cfg)) == escritura(vista_capa(*old(cfg)), key@, value@).0,
        match r {
            Ok(_) => escritura(vista_capa(*old(cfg)), key@, value@).1 is Ok,
            Err(e) => escritura(vista_capa(*old(cfg)), key@, value@).1 == Err::<(), Seq<char>>(e@),
        },
        key@ == "theme"@ ==> r is Ok && texto_opt(final(cfg).theme) == Some(value@) && final(cfg).format == old(cfg).format
            && final(cfg).monochrome == old(cfg).monochrome,
        key@ == "format"@ ==> match formato_de(value@) {
            Ok(f) => r is Ok && final(cfg).format == Some(f),
            Err(e) => r matches Err(m) && m@ == e && final(cfg).format == old(cfg).format,
        } && texto_opt(final(cfg).theme) == texto_opt(old(cfg).theme) && final(cfg).monochrome == old(cfg).monochrome,
        key@ == "monochrome"@ ==> (if value@ == "true"@ || value@ == "false"@ {
            r is Ok && final(cfg).monochrome == Some(value@ == "true"@)
        } else {
            r matches Err(m) && m@ == "monochrome es true|false"@ && final(cfg).monochrome == old(cfg).monochrome
        }) && texto_opt(final(cfg).theme) == texto_opt(old(cfg).theme) && final(cfg).format == old(cfg).format,
        key@ != "theme"@ && key@ != "format"@ && key@ != "monochrome"@ ==> (r matches Err(e) && e@ == clave_desconocida(key@)
            && texto_opt(final(cfg).theme) == texto_opt(old(cfg).theme) && final(cfg).format == old(cfg).format
            && final(cfg).monochrome == old(cfg).monochrome),
{
    proof {
        reveal_strlit("theme");
        reveal_strlit("format");
        reveal_strlit("monochrome");
        reveal_strlit("true");
        reveal_strlit("false");
        assert("theme"@.len() == 5 && "format"@.len() == 6 && "monochrome"@.len() == 10);
        assert("true"@.len() == 4 && "false"@.len() == 5);
    }
    let k = caracteres(key);
    if iguales(&k, &caracteres("theme")) {
        cfg.theme = Some(value.to_owned());
        Ok(())
    } else if iguales(&k, &caracteres("format")) {
        match parse_format(value) {
            Ok(f) => {
                cfg.format = Some(f);
                Ok(())
            },
            Err(e) => Err(e),
        }
    } else if iguales(&k, &caracteres("monochrome")) {
        let v = caracteres(value);
        if iguales(&v, &caracteres("true")) {
            cfg.monochrome = Some(true);
            Ok(())
        } else if iguales(&v, &caracteres("false")) {
            cfg.monochrome = Some(false);
            Ok(())
        } else {
            Err("monochrome es true|false".to_owned())
        }
    } else {
        let mut m = caracteres("clave desconocida '");
        agregar(&mut m, &k);
        agregar(&mut m, &caracteres("' (theme|format|monochrome)"));
        Err(cadena(&m))
    }
}

/// What `config set` writes, `config get` shows: the theme as given,
/// monochrome as given, and the format by its name.
pub proof fn lo_que_se_pone_se_lee(c: VistaCapa, key: Seq<char>, value: Seq<char>)
    ensures
        key == "theme"@ ==> lectura(escritura(c, key, value).0, key) == Ok::<Seq<char>, Seq<char>>(value),
        key == "monochrome"@ && (value == "true"@ || value == "false"@) ==> lectura(escritura(c, key, value).0, key)
            == Ok::<Seq<char>, Seq<char>>(value),
        key == "format"@ ==> (formato_de(value) matches Ok(f) ==> lectura(escritura(c, key, value).0, key)
            == Ok::<Seq<char>, Seq<char>>(nombre_formato(f))),
{
    reveal_strlit("theme");
    reveal_strlit("format");
    reveal_strlit("monochrome");
    assert("theme"@.len() == 5 && "format"@.len() == 6 && "monochrome"@.len() == 10);
}

} // verus!
