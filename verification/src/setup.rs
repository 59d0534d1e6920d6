//! The decisions of `xtal setup` and of the first run: what is chosen
//! without asking (with `--yes`, or where there is nothing to choose) and,
//! where it asks, which answer is offered first.
//!
//! Asking, writing the configuration and installing are the program's part.
use vstd::prelude::*;
use crate::compile::Engine;
use crate::config::{texto_opt, DocFormat, PartialConfig};
use crate::deps::PkgNames;
use crate::texto::{caracteres, iguales};

verus! {

broadcast use vstd::string::group_string_axioms;

/// What a question comes to: an answer already decided, or a question to ask
/// with the answer offered first (its position among the options).
#[derive(Debug)]
pub enum Eleccion<T> {
    Lista(T),
    Preguntar(usize),
}

pub open spec fn textos(v: Seq<String>) -> Seq<Seq<char>> {
    v.map_values(|s: String| s@)
}

/// The first position of `t` in `v`; none is the length.
pub open spec fn posicion(v: Seq<Seq<char>>, t: Seq<char>, i: int) -> int
    decreases v.len() - i,
{
    if i < 0 || i >= v.len() {
        v.len() as int
    } else if v[i] == t {
        i
    } else {
        posicion(v, t, i + 1)
    }
}

/// The theme offered: the one configured, else `itba`.
pub open spec fn theme_por_defecto(existente: PartialConfig) -> Seq<char> {
    match texto_opt(existente.theme) {
        Some(t) => t,
        None => "itba"@,
    }
}

/// The theme: with `--yes`, or with one theme or none to choose from, the
/// one offered where it is among them, else the first, else `itba`; otherwise
/// the question, offering the one offered (the first where it is not among
/// them).
pub fn pick_theme(yes: bool, themes: &Vec<String>, existente: &PartialConfig) -> (r: Eleccion<String>)
    ensures
        ({
            let ts = textos(themes@);
            let d = theme_por_defecto(*existente);
            if yes || ts.len() <= 1 {
                r matches Eleccion::Lista(t) && t@ == (if ts.contains(d) {
                    d
                } else if ts.len() > 0 {
                    ts[0]
                } else {
                    "itba"@
                })
            } else {
                r matches Eleccion::Preguntar(i) && i == (if posicion(ts, d, 0) < ts.len() {
                    posicion(ts, d, 0)
                } else {
                    0
                })
            }
        }),
{
    let d: String = match &existente.theme {
        Some(t) => t.clone(),
        None => "itba".to_owned(),
    };
    let ghost ts = textos(themes@);
    let dc = caracteres(d.as_str());
    let mut k: usize = 0;
    let mut esta = false;
    while k < themes.len() && !esta
        invariant
            k <= themes@.len(),
            ts == textos(themes@),
            dc@ == d@,
            d@ == theme_por_defecto(*existente),
            posicion(ts, d@, 0) == posicion(ts, d@, k as int),
            forall|j: int| 0 <= j < k ==> ts[j] != d@,
            esta ==> k < themes@.len() && ts[k as int] == d@,
        decreases themes@.len() - k + (if esta { 0int } else { 1int }),
    {
        assert(ts[k as int] == themes@[k as int]@);
        if iguales(&caracteres(themes[k].as_str()), &dc) {
            esta = true;
        } else {
            k = k + 1;
        }
    }
    proof {
        if esta {
            assert(ts.contains(d@));
        } else {
            assert(!ts.contains(d@));
        }
    }
    if yes || themes.len() <= 1 {
        if esta {
            Eleccion::Lista(d)
        } else if themes.len() > 0 {
            Eleccion::Lista(themes[0].clone())
        } else {
            Eleccion::Lista("itba".to_owned())
        }
    } else if esta {
        Eleccion::Preguntar(k)
    } else {
        Eleccion::Preguntar(0)
    }
}

/// The format offered: the one configured, else `facultad`.
pub open spec fn formato_por_defecto(existente: PartialConfig) -> DocFormat {
    match existente.format {
        Some(f) => f,
        None => DocFormat::Facultad,
    }
}

/// The format: with `--yes`, the one offered; otherwise the question
/// (`facultad` first, `paper` second), offering it.
pub fn pick_format(yes: bool, existente: &PartialConfig) -> (r: Eleccion<DocFormat>)
    ensures
        yes ==> r == Eleccion::Lista(formato_por_defecto(*existente)),
        !yes ==> r == Eleccion::<DocFormat>::Preguntar(
            if formato_por_defecto(*existente) == DocFormat::Facultad { 0 } else { 1 },
        ),
{
    let f = match existente.format {
        Some(f) => f,
        None => DocFormat::Facultad,
    };
    if yes {
        Eleccion::Lista(f)
    } else {
        match f {
            DocFormat::Facultad => Eleccion::Preguntar(0),
            DocFormat::Paper => Eleccion::Preguntar(1),
        }
    }
}

/// The format answered: the first option is `facultad`, the second `paper`.
pub fn formato_elegido(idx: usize) -> (f: DocFormat)
    ensures
        f == (if idx == 0 { DocFormat::Facultad } else { DocFormat::Paper }),
{
    if idx == 0 {
        DocFormat::Facultad
    } else {
        DocFormat::Paper
    }
}

/// The LaTeX engine: `--advanced` forces TeX Live's pdflatex without asking;
/// `--yes` takes Tectonic; otherwise the question, offering Tectonic.
pub fn pick_engine(advanced: bool, yes: bool) -> (r: Eleccion<Engine>)
    ensures
        advanced ==> r == Eleccion::Lista(Engine::Pdflatex),
        !advanced && yes ==> r == Eleccion::Lista(Engine::Tectonic),
        !advanced && !yes ==> r == Eleccion::<Engine>::Preguntar(0),
{
    if advanced {
        Eleccion::Lista(Engine::Pdflatex)
    } else if yes {
        Eleccion::Lista(Engine::Tectonic)
    } else {
        Eleccion::Preguntar(0)
    }
}

/// The engine answered: the first option is Tectonic, the second pdflatex.
pub fn motor_elegido(idx: usize) -> (e: Engine)
    ensures
        e == (if idx == 0 { Engine::Tectonic } else { Engine::Pdflatex }),
{
    if idx == 0 {
        Engine::Tectonic
    } else {
        Engine::Pdflatex
    }
}

/// Whether `xtal setup` asks before reconfiguring: there is a configuration
/// with a theme already, and no `--yes`.
pub fn pide_reconfigurar(existente: &PartialConfig, yes: bool) -> (r: bool)
    ensures
        r == (existente.theme is Some && !yes),
{
    existente.theme.is_some() && !yes
}

/// The global configuration `xtal setup` writes: the theme and format
/// chosen; monochrome is each run's decision, not the global one's.
pub fn config_elegida(theme: String, format: DocFormat) -> (c: PartialConfig)
    ensures
        texto_opt(c.theme) == Some(theme@),
        c.format == Some(format),
        c.monochrome is None,
{
    PartialConfig { theme: Some(theme), format: Some(format), monochrome: None }
}

/// The global configuration of the first run: `itba`, `facultad`.
pub fn config_inicial() -> (c: PartialConfig)
    ensures
        texto_opt(c.theme) == Some("itba"@),
        c.format == Some(DocFormat::Facultad),
        c.monochrome is None,
{
    PartialConfig { theme: Some("itba".to_owned()), format: Some(DocFormat::Facultad), monochrome: None }
}

/// The packages of the LaTeX engine. Tectonic is not in Debian's and
/// Ubuntu's repositories (no `apt`: manual instructions instead).
pub fn engine_pkg(engine: Engine) -> (p: PkgNames)
    ensures
        engine == Engine::Tectonic ==> p.brew == Some("tectonic") && p.apt is None && p.dnf == Some("tectonic")
            && p.pacman == Some("tectonic"),
        engine == Engine::Pdflatex ==> p.brew == Some("texlive") && p.apt == Some("texlive-latex-extra")
            && p.dnf == Some("texlive-scheme-medium") && p.pacman == Some("texlive-core"),
        p.scoop is None && p.winget is None && p.choco is None,
{
    match engine {
        Engine::Tectonic => PkgNames {
            brew: Some("tectonic"),
            apt: None,
            dnf: Some("tectonic"),
            pacman: Some("tectonic"),
            scoop: None,
            winget: None,
            choco: None,
        },
        Engine::Pdflatex => PkgNames {
            brew: Some("texlive"),
            apt: Some("texlive-latex-extra"),
            dnf: Some("texlive-scheme-medium"),
            pacman: Some("texlive-core"),
            scoop: None,
            winget: None,
            choco: None,
        },
    }
}

} // verus!
