//! The arguments of the command line that the library's logic reads: what
//! `xtal app` sends to the desktop app, and the value enums of the options.
//! Parsing the command line is the program's part (with its own copies of
//! these types that carry the parser's derives).
use vstd::prelude::*;

verus! {

/// `xtal app [--frente] [orden]`.
#[derive(Debug)]
pub struct AppArgs {
    /// Bring the app in front of everything (by default the order arrives
    /// without stealing the focus).
    pub frente: bool,
    pub command: Option<AppCmd>,
}

/// The orders of `xtal app`.
#[derive(Debug)]
pub enum AppCmd {
    /// Open a project in the app (without a folder, the current project).
    Abrir(AppAbrirArgs),
    /// Save and compile.
    Compilar,
    /// Switch mode: `editor` or `agente`.
    Modo(AppModoArgs),
    /// What the right panel shows: the PDF or the compilation errors.
    Ver(AppVerArgs),
    /// Turn a panel on or off; without `--on` nor `--off`, toggle it.
    Panel(AppPanelArgs),
    /// Open another terminal in the agent's panel.
    Terminal,
    /// Bring the app to the front.
    Frente,
}

#[derive(Debug)]
pub struct AppAbrirArgs {
    /// The project's folder.
    pub carpeta: Option<String>,
}

#[derive(Debug)]
pub struct AppModoArgs {
    pub modo: ModoAppArg,
}

#[derive(Debug)]
pub struct AppVerArgs {
    pub que: VistaAppArg,
}

#[derive(Debug)]
pub struct AppPanelArgs {
    pub cual: PanelAppArg,
    /// Turn it on.
    pub on: bool,
    /// Turn it off.
    pub off: bool,
}

#[derive(Debug, Clone, Copy, PartialEq, Eq, Structural)]
pub enum ModoAppArg {
    Editor,
    Agente,
}

#[derive(Debug, Clone, Copy, PartialEq, Eq, Structural)]
pub enum VistaAppArg {
    Pdf,
    Errores,
}

#[derive(Debug, Clone, Copy, PartialEq, Eq, Structural)]
pub enum PanelAppArg {
    /// The PDF, on the right.
    Pdf,
    /// The project's files, on the left (editor mode).
    Archivos,
    /// The terminal drawer (editor mode).
    Terminal,
    /// What is missing and the sections, on the left (agent mode).
    Informe,
}

impl ModoAppArg {
    pub open spec fn nombre_de(self) -> Seq<char> {
        match self {
            ModoAppArg::Editor => "editor"@,
            ModoAppArg::Agente => "agente"@,
        }
    }

    /// The mode's name in the URL.
    pub fn nombre(self) -> (r: &'static str)
        ensures
            r@ == self.nombre_de(),
    {
        match self {
            ModoAppArg::Editor => "editor",
            ModoAppArg::Agente => "agente",
        }
    }
}

impl VistaAppArg {
    pub open spec fn nombre_de(self) -> Seq<char> {
        match self {
            VistaAppArg::Pdf => "pdf"@,
            VistaAppArg::Errores => "errores"@,
        }
    }

    /// The view's name in the URL.
    pub fn nombre(self) -> (r: &'static str)
        ensures
            r@ == self.nombre_de(),
    {
        match self {
            VistaAppArg::Pdf => "pdf",
            VistaAppArg::Errores => "errores",
        }
    }
}

impl PanelAppArg {
    pub open spec fn nombre_de(self) -> Seq<char> {
        match self {
            PanelAppArg::Pdf => "pdf"@,
            PanelAppArg::Archivos => "archivos"@,
            PanelAppArg::Terminal => "terminal"@,
            PanelAppArg::Informe => "informe"@,
        }
    }

    /// The panel's name in the URL.
    pub fn nombre(self) -> (r: &'static str)
        ensures
            r@ == self.nombre_de(),
    {
        match self {
            PanelAppArg::Pdf => "pdf",
            PanelAppArg::Archivos => "archivos",
            PanelAppArg::Terminal => "terminal",
            PanelAppArg::Informe => "informe",
        }
    }
}

} // verus!
