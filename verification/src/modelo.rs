//! The local model of the editor's autocomplete: which one, where it lives,
//! and when a download of it is complete. Downloading it is the program's
//! part.
use vstd::prelude::*;
use crate::proceso::Plataforma;
use crate::xtal_cli::{unido_en, unir_en};
use crate::texto::{caracteres, contiene, contiene_texto, minusculas, minusculas_de, agregar, cadena};

verus! {

broadcast use vstd::string::group_string_axioms;

/// The repository of the model.
pub const REPO: &'static str = "QuantFactory/Qwen2.5-Coder-1.5B-GGUF";

/// The file of the model.
pub const ARCHIVO: &'static str = "Qwen2.5-Coder-1.5B.Q4_K_M.gguf";

/// Its name, for a person.
pub const NOMBRE: &'static str = "Qwen2.5 Coder 1.5B";

/// What it weighs, to say it before anyone presses a button.
pub const PESO: u64 = 986048352;

/// Where the model lives under `base` (`%LOCALAPPDATA%`: neither the
/// temporary folder, which Windows cleans, nor the app's, replaced on every
/// update), joined as the system `so` joins paths.
pub fn carpeta(so: Plataforma, base: &str) -> (r: String)
    ensures
        r@ == unido_en(so, unido_en(so, base@, "xtal"@), "modelos"@),
{
    let x = unir_en(so, base, "xtal");
    unir_en(so, x.as_str(), "modelos")
}

/// The model's file under `base`, on the system `so`.
pub fn ruta(so: Plataforma, base: &str) -> (r: String)
    ensures
        r@ == unido_en(so, unido_en(so, unido_en(so, base@, "xtal"@), "modelos"@), ARCHIVO@),
{
    let c = carpeta(so, base);
    unir_en(so, c.as_str(), ARCHIVO)
}

/// Whether a file of `tamano` bytes (`None` where there is none) is the whole
/// model: at least half of what it weighs (a cut download leaves a file of
/// some hundred MB, and merely existing is not enough).
pub fn esta_completo(tamano: Option<u64>) -> (r: bool)
    ensures
        r == (tamano matches Some(t) && t >= PESO / 2),
{
    match tamano {
        Some(t) => t >= PESO / 2,
        None => false,
    }
}

/// What the app shows of the model.
#[derive(Debug)]
pub struct Estado {
    pub nombre: &'static str,
    pub completo: bool,
    pub peso: u64,
    pub ocupado: u64,
    pub ruta: String,
}

/// The state of the model, for a file at `ruta` of `tamano` bytes.
pub fn estado(ruta: String, tamano: Option<u64>) -> (e: Estado)
    ensures
        e.nombre@ == NOMBRE@,
        e.completo == esta_completo_spec(tamano),
        e.peso == PESO,
        e.ocupado == (match tamano {
            Some(t) => t,
            None => 0,
        }),
        e.ruta@ == ruta@,
{
    Estado {
        nombre: NOMBRE,
        completo: esta_completo(tamano),
        peso: PESO,
        ocupado: match tamano {
            Some(t) => t,
            None => 0,
        },
        ruta,
    }
}

pub open spec fn esta_completo_spec(tamano: Option<u64>) -> bool {
    tamano matches Some(t) && t >= PESO / 2
}

/// A download error told for someone who does not program.
pub open spec fn explicado(bruto: Seq<char>) -> Seq<char> {
    let b = minusculas_de(bruto);
    if contiene(b, "dns"@) || contiene(b, "connect"@) || contiene(b, "network"@) {
        "No hay internet. Probá de nuevo cuando vuelva."@
    } else if contiene(b, "timed out"@) || contiene(b, "timeout"@) {
        "La conexión tardó demasiado. Probá de nuevo."@
    } else {
        "No pude bajar el modelo: "@ + bruto
    }
}

/// A download error told for someone who does not program.
pub fn explicar(bruto: &str) -> (r: String)
    ensures
        r@ == explicado(bruto@),
{
    let b = caracteres(minusculas(bruto).as_str());
    if contiene_texto(&b, &caracteres("dns")) || contiene_texto(&b, &caracteres("connect"))
        || contiene_texto(&b, &caracteres("network")) {
        "No hay internet. Probá de nuevo cuando vuelva.".to_owned()
    } else if contiene_texto(&b, &caracteres("timed out")) || contiene_texto(&b, &caracteres("timeout")) {
        "La conexión tardó demasiado. Probá de nuevo.".to_owned()
    } else {
        let mut m = caracteres("No pude bajar el modelo: ");
        agregar(&mut m, &caracteres(bruto));
        cadena(&m)
    }
}

} // verus!
