//! The arguments that each MCP tool takes, as the schema published in
//! `tools/list`.
//!
//! Every schema is an object schema: named properties, each with its type and
//! what it is for, and the list of those that a call must give; no other
//! property is accepted. The program writes it out as JSON. The arguments
//! that arrive are still checked by hand (see `tools`): the schema helps the
//! client, it guarantees nothing.
use vstd::prelude::*;
use crate::texto::{caracteres, iguales};
use crate::tools::{los_nombres_son_unicos_y_prefijados, nombres_spec};

verus! {

broadcast use vstd::string::group_string_axioms;

/// The JSON type of a property.
#[derive(Debug, Clone, Copy, PartialEq, Eq, Structural)]
pub enum Tipo {
    /// `string`.
    Texto,
    /// `integer`.
    Entero,
    /// `number`.
    Numero,
    /// `boolean`.
    Booleano,
    /// `array` of `string`s.
    Textos,
}

/// The values a property (or, for an array, each of its items) may take.
#[derive(Debug, Clone, Copy, PartialEq, Eq, Structural)]
pub enum Valores {
    /// Any.
    Ninguno,
    /// The kinds of plot.
    Graficos,
    /// The sources of a curve that a plan expects.
    Fuentes,
    /// The kinds of measurement.
    Mediciones,
    /// The document formats.
    Formatos,
    /// The scales of an axis or a sweep.
    Escalas,
    /// The roles of a series in the circuit.
    Roles,
    /// The panels of a Bode plot.
    Paneles,
    /// The line styles.
    Lineas,
}

/// The values that `v` allows, in the order the schema lists them.
pub open spec fn valores_spec(v: Valores) -> Seq<&'static str> {
    match v {
        Valores::Ninguno => Seq::empty(),
        Valores::Graficos => seq!["bode", "time", "xy", "generic"],
        Valores::Fuentes => seq!["theoretical", "simulated", "measured"],
        Valores::Mediciones => seq!["theoretical", "simulated", "measured", "random"],
        Valores::Formatos => seq!["facultad", "paper"],
        Valores::Escalas => seq!["linear", "log"],
        Valores::Roles => seq!["input", "output", "third", "none"],
        Valores::Paneles => seq!["magnitude", "phase"],
        Valores::Lineas => seq!["solid", "dashed", "dotted", "none"],
    }
}

/// The values that `v` allows; none for a property that takes any.
pub fn valores(v: Valores) -> (r: Vec<&'static str>)
    ensures
        r@ == valores_spec(v),
{
    let r = match v {
        Valores::Ninguno => Vec::new(),
        Valores::Graficos => vec!["bode", "time", "xy", "generic"],
        Valores::Fuentes => vec!["theoretical", "simulated", "measured"],
        Valores::Mediciones => vec!["theoretical", "simulated", "measured", "random"],
        Valores::Formatos => vec!["facultad", "paper"],
        Valores::Escalas => vec!["linear", "log"],
        Valores::Roles => vec!["input", "output", "third", "none"],
        Valores::Paneles => vec!["magnitude", "phase"],
        Valores::Lineas => vec!["solid", "dashed", "dotted", "none"],
    };
    assert(r@ =~= valores_spec(v));
    r
}

/// One property of a tool's arguments.
#[derive(Debug, Clone, Copy)]
pub struct Propiedad {
    pub nombre: &'static str,
    pub tipo: Tipo,
    /// What it is for, where the schema says it.
    pub descripcion: Option<&'static str>,
    pub valores: Valores,
    /// The bounds of an integer, where there are any.
    pub minimo: Option<u32>,
    pub maximo: Option<u32>,
}

/// The object schema of a tool's arguments.
#[derive(Debug, Clone)]
pub struct Esquema {
    pub propiedades: Vec<Propiedad>,
    /// The names of the properties that a call must give.
    pub requeridas: Vec<&'static str>,
}

/// A schema as plain values.
#[verifier::ext_equal]
pub struct EsquemaV {
    pub propiedades: Seq<Propiedad>,
    pub requeridas: Seq<&'static str>,
}

impl View for Esquema {
    type V = EsquemaV;

    open spec fn view(&self) -> EsquemaV {
        EsquemaV { propiedades: self.propiedades@, requeridas: self.requeridas@ }
    }
}

/// The schema of each tool's arguments, by the tool's name.
pub open spec fn esquema_spec(nombre: Seq<char>) -> Option<EsquemaV> {
    if nombre == "xtal_doctor"@ {
        Some(EsquemaV {
            propiedades: Seq::empty(),
            requeridas: Seq::empty(),
        })
    } else if nombre == "xtal_list_projects"@ {
        Some(EsquemaV {
            propiedades: seq![
                Propiedad { nombre: "root", tipo: Tipo::Texto, descripcion: Some("Directorio donde buscar. Default: el home del usuario."), valores: Valores::Ninguno, minimo: None, maximo: None },
                Propiedad { nombre: "depth", tipo: Tipo::Entero, descripcion: Some("Niveles de subdirectorio a recorrer. Default: 4."), valores: Valores::Ninguno, minimo: Some(1u32), maximo: Some(8u32) },
            ],
            requeridas: Seq::empty(),
        })
    } else if nombre == "xtal_open_project"@ {
        Some(EsquemaV {
            propiedades: seq![
                Propiedad { nombre: "path", tipo: Tipo::Texto, descripcion: Some("Ruta a la carpeta del proyecto (la que tiene xtal.toml)."), valores: Valores::Ninguno, minimo: None, maximo: None },
            ],
            requeridas: seq!["path"],
        })
    } else if nombre == "xtal_status"@ {
        Some(EsquemaV {
            propiedades: seq![
                Propiedad { nombre: "project", tipo: Tipo::Texto, descripcion: Some("Ruta al proyecto Xtal. Si se omite, se usa el proyecto abierto con xtal_open_project, y si no hay ninguno, el directorio de trabajo del cliente."), valores: Valores::Ninguno, minimo: None, maximo: None },
            ],
            requeridas: Seq::empty(),
        })
    } else if nombre == "xtal_scan"@ {
        Some(EsquemaV {
            propiedades: seq![
                Propiedad { nombre: "project", tipo: Tipo::Texto, descripcion: Some("Ruta al proyecto Xtal. Si se omite, se usa el proyecto abierto con xtal_open_project, y si no hay ninguno, el directorio de trabajo del cliente."), valores: Valores::Ninguno, minimo: None, maximo: None },
            ],
            requeridas: Seq::empty(),
        })
    } else if nombre == "xtal_plan_add"@ {
        Some(EsquemaV {
            propiedades: seq![
                Propiedad { nombre: "id", tipo: Tipo::Texto, descripcion: Some("Id (slug) del gráfico."), valores: Valores::Ninguno, minimo: None, maximo: None },
                Propiedad { nombre: "title", tipo: Tipo::Texto, descripcion: Some("Título legible, por ejemplo \"Respuesta en frecuencia\"."), valores: Valores::Ninguno, minimo: None, maximo: None },
                Propiedad { nombre: "kind", tipo: Tipo::Texto, descripcion: None, valores: Valores::Graficos, minimo: None, maximo: None },
                Propiedad { nombre: "sources", tipo: Tipo::Textos, descripcion: Some("Curvas esperadas en este gráfico. El caso típico de un TP son las tres."), valores: Valores::Fuentes, minimo: None, maximo: None },
                Propiedad { nombre: "note", tipo: Tipo::Texto, descripcion: Some("Nota libre: de dónde sale el dato, con qué instrumento."), valores: Valores::Ninguno, minimo: None, maximo: None },
                Propiedad { nombre: "project", tipo: Tipo::Texto, descripcion: Some("Ruta al proyecto Xtal. Si se omite, se usa el proyecto abierto con xtal_open_project, y si no hay ninguno, el directorio de trabajo del cliente."), valores: Valores::Ninguno, minimo: None, maximo: None },
            ],
            requeridas: seq!["id"],
        })
    } else if nombre == "xtal_project_status"@ {
        Some(EsquemaV {
            propiedades: seq![
                Propiedad { nombre: "project", tipo: Tipo::Texto, descripcion: Some("Ruta al proyecto Xtal. Si se omite, se usa el proyecto abierto con xtal_open_project, y si no hay ninguno, el directorio de trabajo del cliente."), valores: Valores::Ninguno, minimo: None, maximo: None },
            ],
            requeridas: Seq::empty(),
        })
    } else if nombre == "xtal_new_project"@ {
        Some(EsquemaV {
            propiedades: seq![
                Propiedad { nombre: "name", tipo: Tipo::Texto, descripcion: Some("Nombre del proyecto. La carpeta se llama como el slug del nombre."), valores: Valores::Ninguno, minimo: None, maximo: None },
                Propiedad { nombre: "parent", tipo: Tipo::Texto, descripcion: Some("Directorio donde crear la carpeta. Default: el directorio de trabajo del cliente."), valores: Valores::Ninguno, minimo: None, maximo: None },
                Propiedad { nombre: "format", tipo: Tipo::Texto, descripcion: Some("Formato del documento. Default: el de la config global."), valores: Valores::Formatos, minimo: None, maximo: None },
                Propiedad { nombre: "theme", tipo: Tipo::Texto, descripcion: Some("Theme/institución, por ejemplo `itba`."), valores: Valores::Ninguno, minimo: None, maximo: None },
            ],
            requeridas: seq!["name"],
        })
    } else if nombre == "xtal_import_measurement"@ {
        Some(EsquemaV {
            propiedades: seq![
                Propiedad { nombre: "file", tipo: Tipo::Texto, descripcion: Some("Ruta al archivo CSV."), valores: Valores::Ninguno, minimo: None, maximo: None },
                Propiedad { nombre: "id", tipo: Tipo::Texto, descripcion: Some("Id (slug) de la medición. Obligatorio salvo con inspect."), valores: Valores::Ninguno, minimo: None, maximo: None },
                Propiedad { nombre: "kind", tipo: Tipo::Texto, descripcion: Some("Fuente del dato: define el estilo de línea por default. Default: measured."), valores: Valores::Mediciones, minimo: None, maximo: None },
                Propiedad { nombre: "x_col", tipo: Tipo::Texto, descripcion: Some("Columna X: índice 0-based o nombre de header. Default: 0."), valores: Valores::Ninguno, minimo: None, maximo: None },
                Propiedad { nombre: "y_col", tipo: Tipo::Texto, descripcion: Some("Columna Y: índice 0-based o nombre de header. Default: 1."), valores: Valores::Ninguno, minimo: None, maximo: None },
                Propiedad { nombre: "skip_rows", tipo: Tipo::Entero, descripcion: Some("Filas de metadata a saltar al principio."), valores: Valores::Ninguno, minimo: None, maximo: None },
                Propiedad { nombre: "delimiter", tipo: Tipo::Texto, descripcion: Some("Delimitador. Por default se auto-detecta."), valores: Valores::Ninguno, minimo: None, maximo: None },
                Propiedad { nombre: "x_unit", tipo: Tipo::Texto, descripcion: Some("Unidad del eje X, por ejemplo Hz."), valores: Valores::Ninguno, minimo: None, maximo: None },
                Propiedad { nombre: "y_unit", tipo: Tipo::Texto, descripcion: Some("Unidad del eje Y, por ejemplo dB."), valores: Valores::Ninguno, minimo: None, maximo: None },
                Propiedad { nombre: "label", tipo: Tipo::Texto, descripcion: Some("Etiqueta para la leyenda."), valores: Valores::Ninguno, minimo: None, maximo: None },
                Propiedad { nombre: "inspect", tipo: Tipo::Booleano, descripcion: Some("Solo inspeccionar: no importa nada."), valores: Valores::Ninguno, minimo: None, maximo: None },
                Propiedad { nombre: "project", tipo: Tipo::Texto, descripcion: Some("Ruta al proyecto Xtal. Si se omite, se usa el proyecto abierto con xtal_open_project, y si no hay ninguno, el directorio de trabajo del cliente."), valores: Valores::Ninguno, minimo: None, maximo: None },
            ],
            requeridas: seq!["file"],
        })
    } else if nombre == "xtal_formula_measurement"@ {
        Some(EsquemaV {
            propiedades: seq![
                Propiedad { nombre: "id", tipo: Tipo::Texto, descripcion: Some("Id (slug) de la medición."), valores: Valores::Ninguno, minimo: None, maximo: None },
                Propiedad { nombre: "expr", tipo: Tipo::Texto, descripcion: Some("Expresión a evaluar."), valores: Valores::Ninguno, minimo: None, maximo: None },
                Propiedad { nombre: "var", tipo: Tipo::Texto, descripcion: Some("Variable de barrido. Default: f."), valores: Valores::Ninguno, minimo: None, maximo: None },
                Propiedad { nombre: "from", tipo: Tipo::Numero, descripcion: Some("Inicio del barrido."), valores: Valores::Ninguno, minimo: None, maximo: None },
                Propiedad { nombre: "to", tipo: Tipo::Numero, descripcion: Some("Fin del barrido."), valores: Valores::Ninguno, minimo: None, maximo: None },
                Propiedad { nombre: "points", tipo: Tipo::Entero, descripcion: Some("Cantidad de puntos. Default: 200."), valores: Valores::Ninguno, minimo: None, maximo: None },
                Propiedad { nombre: "scale", tipo: Tipo::Texto, descripcion: Some("Distribución de los puntos. Default: log."), valores: Valores::Escalas, minimo: None, maximo: None },
                Propiedad { nombre: "constants", tipo: Tipo::Textos, descripcion: Some("Constantes con nombre, formato `fc=1000`."), valores: Valores::Ninguno, minimo: None, maximo: None },
                Propiedad { nombre: "kind", tipo: Tipo::Texto, descripcion: Some("Default: theoretical."), valores: Valores::Mediciones, minimo: None, maximo: None },
                Propiedad { nombre: "x_unit", tipo: Tipo::Texto, descripcion: None, valores: Valores::Ninguno, minimo: None, maximo: None },
                Propiedad { nombre: "y_unit", tipo: Tipo::Texto, descripcion: None, valores: Valores::Ninguno, minimo: None, maximo: None },
                Propiedad { nombre: "label", tipo: Tipo::Texto, descripcion: None, valores: Valores::Ninguno, minimo: None, maximo: None },
                Propiedad { nombre: "project", tipo: Tipo::Texto, descripcion: Some("Ruta al proyecto Xtal. Si se omite, se usa el proyecto abierto con xtal_open_project, y si no hay ninguno, el directorio de trabajo del cliente."), valores: Valores::Ninguno, minimo: None, maximo: None },
            ],
            requeridas: seq!["id", "expr", "from", "to"],
        })
    } else if nombre == "xtal_import_rawfile"@ {
        Some(EsquemaV {
            propiedades: seq![
                Propiedad { nombre: "file", tipo: Tipo::Texto, descripcion: Some("Ruta al archivo .raw."), valores: Valores::Ninguno, minimo: None, maximo: None },
                Propiedad { nombre: "id", tipo: Tipo::Texto, descripcion: Some("Id base de las mediciones. Con varias variables se le sufija el nombre del vector."), valores: Valores::Ninguno, minimo: None, maximo: None },
                Propiedad { nombre: "nodes", tipo: Tipo::Textos, descripcion: Some("Variables a importar, por ejemplo [\"v(out)\", \"v(in)\"]. Si se omite, importa todas."), valores: Valores::Ninguno, minimo: None, maximo: None },
                Propiedad { nombre: "plot", tipo: Tipo::Texto, descripcion: Some("Si se pasa, además crea un gráfico con este id y le agrega las series importadas."), valores: Valores::Ninguno, minimo: None, maximo: None },
                Propiedad { nombre: "plot_kind", tipo: Tipo::Texto, descripcion: None, valores: Valores::Graficos, minimo: None, maximo: None },
                Propiedad { nombre: "label", tipo: Tipo::Texto, descripcion: None, valores: Valores::Ninguno, minimo: None, maximo: None },
                Propiedad { nombre: "x_unit", tipo: Tipo::Texto, descripcion: None, valores: Valores::Ninguno, minimo: None, maximo: None },
                Propiedad { nombre: "y_unit", tipo: Tipo::Texto, descripcion: None, valores: Valores::Ninguno, minimo: None, maximo: None },
                Propiedad { nombre: "inspect", tipo: Tipo::Booleano, descripcion: Some("Solo inspeccionar: no importa nada."), valores: Valores::Ninguno, minimo: None, maximo: None },
                Propiedad { nombre: "project", tipo: Tipo::Texto, descripcion: Some("Ruta al proyecto Xtal. Si se omite, se usa el proyecto abierto con xtal_open_project, y si no hay ninguno, el directorio de trabajo del cliente."), valores: Valores::Ninguno, minimo: None, maximo: None },
            ],
            requeridas: seq!["file"],
        })
    } else if nombre == "xtal_new_plot"@ {
        Some(EsquemaV {
            propiedades: seq![
                Propiedad { nombre: "id", tipo: Tipo::Texto, descripcion: Some("Id (slug) del gráfico."), valores: Valores::Ninguno, minimo: None, maximo: None },
                Propiedad { nombre: "kind", tipo: Tipo::Texto, descripcion: Some("Default: generic."), valores: Valores::Graficos, minimo: None, maximo: None },
                Propiedad { nombre: "title", tipo: Tipo::Texto, descripcion: None, valores: Valores::Ninguno, minimo: None, maximo: None },
                Propiedad { nombre: "x_label", tipo: Tipo::Texto, descripcion: None, valores: Valores::Ninguno, minimo: None, maximo: None },
                Propiedad { nombre: "y_label", tipo: Tipo::Texto, descripcion: None, valores: Valores::Ninguno, minimo: None, maximo: None },
                Propiedad { nombre: "x_scale", tipo: Tipo::Texto, descripcion: None, valores: Valores::Escalas, minimo: None, maximo: None },
                Propiedad { nombre: "y_scale", tipo: Tipo::Texto, descripcion: None, valores: Valores::Escalas, minimo: None, maximo: None },
                Propiedad { nombre: "legend", tipo: Tipo::Texto, descripcion: Some("Posición de la leyenda. Por default se ubica sola en la esquina más despejada."), valores: Valores::Ninguno, minimo: None, maximo: None },
                Propiedad { nombre: "project", tipo: Tipo::Texto, descripcion: Some("Ruta al proyecto Xtal. Si se omite, se usa el proyecto abierto con xtal_open_project, y si no hay ninguno, el directorio de trabajo del cliente."), valores: Valores::Ninguno, minimo: None, maximo: None },
            ],
            requeridas: seq!["id"],
        })
    } else if nombre == "xtal_add_series"@ {
        Some(EsquemaV {
            propiedades: seq![
                Propiedad { nombre: "plot", tipo: Tipo::Texto, descripcion: Some("Id del gráfico."), valores: Valores::Ninguno, minimo: None, maximo: None },
                Propiedad { nombre: "measurement", tipo: Tipo::Texto, descripcion: Some("Id de la medición."), valores: Valores::Ninguno, minimo: None, maximo: None },
                Propiedad { nombre: "role", tipo: Tipo::Texto, descripcion: Some("Rol en el circuito: define el color. Default: none."), valores: Valores::Roles, minimo: None, maximo: None },
                Propiedad { nombre: "panel", tipo: Tipo::Texto, descripcion: Some("Panel del Bode. Solo aplica a gráficos bode. Default: magnitude."), valores: Valores::Paneles, minimo: None, maximo: None },
                Propiedad { nombre: "color", tipo: Tipo::Texto, descripcion: Some("Override de color: nombre o HEX."), valores: Valores::Ninguno, minimo: None, maximo: None },
                Propiedad { nombre: "line", tipo: Tipo::Texto, descripcion: Some("Override del estilo de línea."), valores: Valores::Lineas, minimo: None, maximo: None },
                Propiedad { nombre: "label", tipo: Tipo::Texto, descripcion: Some("Etiqueta de leyenda."), valores: Valores::Ninguno, minimo: None, maximo: None },
                Propiedad { nombre: "project", tipo: Tipo::Texto, descripcion: Some("Ruta al proyecto Xtal. Si se omite, se usa el proyecto abierto con xtal_open_project, y si no hay ninguno, el directorio de trabajo del cliente."), valores: Valores::Ninguno, minimo: None, maximo: None },
            ],
            requeridas: seq!["plot", "measurement"],
        })
    } else if nombre == "xtal_add_section"@ {
        Some(EsquemaV {
            propiedades: seq![
                Propiedad { nombre: "title", tipo: Tipo::Texto, descripcion: Some("Título de la sección."), valores: Valores::Ninguno, minimo: None, maximo: None },
                Propiedad { nombre: "under", tipo: Tipo::Texto, descripcion: Some("Título de la sección padre, para crear una subsección."), valores: Valores::Ninguno, minimo: None, maximo: None },
                Propiedad { nombre: "figures", tipo: Tipo::Textos, descripcion: Some("Ids de gráficos a insertar como figuras."), valores: Valores::Ninguno, minimo: None, maximo: None },
                Propiedad { nombre: "body", tipo: Tipo::Texto, descripcion: Some("Cuerpo de la sección, en LaTeX."), valores: Valores::Ninguno, minimo: None, maximo: None },
                Propiedad { nombre: "project", tipo: Tipo::Texto, descripcion: Some("Ruta al proyecto Xtal. Si se omite, se usa el proyecto abierto con xtal_open_project, y si no hay ninguno, el directorio de trabajo del cliente."), valores: Valores::Ninguno, minimo: None, maximo: None },
            ],
            requeridas: seq!["title"],
        })
    } else if nombre == "xtal_build_report"@ {
        Some(EsquemaV {
            propiedades: seq![
                Propiedad { nombre: "monochrome", tipo: Tipo::Booleano, descripcion: Some("Todo en blanco y negro, con el logo monocromo."), valores: Valores::Ninguno, minimo: None, maximo: None },
                Propiedad { nombre: "pdflatex", tipo: Tipo::Booleano, descripcion: Some("Usar pdflatex (TeX Live) en vez de Tectonic."), valores: Valores::Ninguno, minimo: None, maximo: None },
                Propiedad { nombre: "format", tipo: Tipo::Texto, descripcion: None, valores: Valores::Formatos, minimo: None, maximo: None },
                Propiedad { nombre: "theme", tipo: Tipo::Texto, descripcion: None, valores: Valores::Ninguno, minimo: None, maximo: None },
                Propiedad { nombre: "tex_only", tipo: Tipo::Booleano, descripcion: Some("Generar solo el .tex, sin compilar el PDF."), valores: Valores::Ninguno, minimo: None, maximo: None },
                Propiedad { nombre: "project", tipo: Tipo::Texto, descripcion: Some("Ruta al proyecto Xtal. Si se omite, se usa el proyecto abierto con xtal_open_project, y si no hay ninguno, el directorio de trabajo del cliente."), valores: Valores::Ninguno, minimo: None, maximo: None },
            ],
            requeridas: Seq::empty(),
        })
    } else if nombre == "xtal_run_command"@ {
        Some(EsquemaV {
            propiedades: seq![
                Propiedad { nombre: "args", tipo: Tipo::Textos, descripcion: Some("Argumentos, por ejemplo [\"sim\", \"ac\", \"--help\"] o [\"meas\", \"show\", \"v_out\", \"--json\"]."), valores: Valores::Ninguno, minimo: None, maximo: None },
                Propiedad { nombre: "project", tipo: Tipo::Texto, descripcion: Some("Ruta al proyecto Xtal. Si se omite, se usa el proyecto abierto con xtal_open_project, y si no hay ninguno, el directorio de trabajo del cliente."), valores: Valores::Ninguno, minimo: None, maximo: None },
            ],
            requeridas: seq!["args"],
        })
    } else {
        None
    }
}

/// The schema of the tool `nombre`'s arguments; `None` for a name that is
/// no tool's.
pub fn esquema(nombre: &str) -> (e: Option<Esquema>)
    ensures
        match e {
            Some(s) => esquema_spec(nombre@) == Some(s@),
            None => esquema_spec(nombre@) is None,
        },
{
    let n = caracteres(nombre);
    if iguales(&n, &caracteres("xtal_doctor")) {
        let e = Esquema {
            propiedades: Vec::new(),
            requeridas: Vec::new(),
        };
        assert(e@ =~= esquema_spec(nombre@)->Some_0);
        return Some(e);
    }
    if iguales(&n, &caracteres("xtal_list_projects")) {
        let e = Esquema {
            propiedades: vec![
                Propiedad { nombre: "root", tipo: Tipo::Texto, descripcion: Some("Directorio donde buscar. Default: el home del usuario."), valores: Valores::Ninguno, minimo: None, maximo: None },
                Propiedad { nombre: "depth", tipo: Tipo::Entero, descripcion: Some("Niveles de subdirectorio a recorrer. Default: 4."), valores: Valores::Ninguno, minimo: Some(1u32), maximo: Some(8u32) },
            ],
            requeridas: Vec::new(),
        };
        assert(e@ =~= esquema_spec(nombre@)->Some_0);
        return Some(e);
    }
    if iguales(&n, &caracteres("xtal_open_project")) {
        let e = Esquema {
            propiedades: vec![
                Propiedad { nombre: "path", tipo: Tipo::Texto, descripcion: Some("Ruta a la carpeta del proyecto (la que tiene xtal.toml)."), valores: Valores::Ninguno, minimo: None, maximo: None },
            ],
            requeridas: vec!["path"],
        };
        assert(e@ =~= esquema_spec(nombre@)->Some_0);
        return Some(e);
    }
    if iguales(&n, &caracteres("xtal_status")) {
        let e = Esquema {
            propiedades: vec![
                Propiedad { nombre: "project", tipo: Tipo::Texto, descripcion: Some("Ruta al proyecto Xtal. Si se omite, se usa el proyecto abierto con xtal_open_project, y si no hay ninguno, el directorio de trabajo del cliente."), valores: Valores::Ninguno, minimo: None, maximo: None },
            ],
            requeridas: Vec::new(),
        };
        assert(e@ =~= esquema_spec(nombre@)->Some_0);
        return Some(e);
    }
    if iguales(&n, &caracteres("xtal_scan")) {
        let e = Esquema {
            propiedades: vec![
                Propiedad { nombre: "project", tipo: Tipo::Texto, descripcion: Some("Ruta al proyecto Xtal. Si se omite, se usa el proyecto abierto con xtal_open_project, y si no hay ninguno, el directorio de trabajo del cliente."), valores: Valores::Ninguno, minimo: None, maximo: None },
            ],
            requeridas: Vec::new(),
        };
        assert(e@ =~= esquema_spec(nombre@)->Some_0);
        return Some(e);
    }
    if iguales(&n, &caracteres("xtal_plan_add")) {
        let e = Esquema {
            propiedades: vec![
                Propiedad { nombre: "id", tipo: Tipo::Texto, descripcion: Some("Id (slug) del gráfico."), valores: Valores::Ninguno, minimo: None, maximo: None },
                Propiedad { nombre: "title", tipo: Tipo::Texto, descripcion: Some("Título legible, por ejemplo \"Respuesta en frecuencia\"."), valores: Valores::Ninguno, minimo: None, maximo: None },
                Propiedad { nombre: "kind", tipo: Tipo::Texto, descripcion: None, valores: Valores::Graficos, minimo: None, maximo: None },
                Propiedad { nombre: "sources", tipo: Tipo::Textos, descripcion: Some("Curvas esperadas en este gráfico. El caso típico de un TP son las tres."), valores: Valores::Fuentes, minimo: None, maximo: None },
                Propiedad { nombre: "note", tipo: Tipo::Texto, descripcion: Some("Nota libre: de dónde sale el dato, con qué instrumento."), valores: Valores::Ninguno, minimo: None, maximo: None },
                Propiedad { nombre: "project", tipo: Tipo::Texto, descripcion: Some("Ruta al proyecto Xtal. Si se omite, se usa el proyecto abierto con xtal_open_project, y si no hay ninguno, el directorio de trabajo del cliente."), valores: Valores::Ninguno, minimo: None, maximo: None },
            ],
            requeridas: vec!["id"],
        };
        assert(e@ =~= esquema_spec(nombre@)->Some_0);
        return Some(e);
    }
    if iguales(&n, &caracteres("xtal_project_status")) {
        let e = Esquema {
            propiedades: vec![
                Propiedad { nombre: "project", tipo: Tipo::Texto, descripcion: Some("Ruta al proyecto Xtal. Si se omite, se usa el proyecto abierto con xtal_open_project, y si no hay ninguno, el directorio de trabajo del cliente."), valores: Valores::Ninguno, minimo: None, maximo: None },
            ],
            requeridas: Vec::new(),
        };
        assert(e@ =~= esquema_spec(nombre@)->Some_0);
        return Some(e);
    }
    if iguales(&n, &caracteres("xtal_new_project")) {
        let e = Esquema {
            propiedades: vec![
                Propiedad { nombre: "name", tipo: Tipo::Texto, descripcion: Some("Nombre del proyecto. La carpeta se llama como el slug del nombre."), valores: Valores::Ninguno, minimo: None, maximo: None },
                Propiedad { nombre: "parent", tipo: Tipo::Texto, descripcion: Some("Directorio donde crear la carpeta. Default: el directorio de trabajo del cliente."), valores: Valores::Ninguno, minimo: None, maximo: None },
                Propiedad { nombre: "format", tipo: Tipo::Texto, descripcion: Some("Formato del documento. Default: el de la config global."), valores: Valores::Formatos, minimo: None, maximo: None },
                Propiedad { nombre: "theme", tipo: Tipo::Texto, descripcion: Some("Theme/institución, por ejemplo `itba`."), valores: Valores::Ninguno, minimo: None, maximo: None },
            ],
            requeridas: vec!["name"],
        };
        assert(e@ =~= esquema_spec(nombre@)->Some_0);
        return Some(e);
    }
    if iguales(&n, &caracteres("xtal_import_measurement")) {
        let e = Esquema {
            propiedades: vec![
                Propiedad { nombre: "file", tipo: Tipo::Texto, descripcion: Some("Ruta al archivo CSV."), valores: Valores::Ninguno, minimo: None, maximo: None },
                Propiedad { nombre: "id", tipo: Tipo::Texto, descripcion: Some("Id (slug) de la medición. Obligatorio salvo con inspect."), valores: Valores::Ninguno, minimo: None, maximo: None },
                Propiedad { nombre: "kind", tipo: Tipo::Texto, descripcion: Some("Fuente del dato: define el estilo de línea por default. Default: measured."), valores: Valores::Mediciones, minimo: None, maximo: None },
                Propiedad { nombre: "x_col", tipo: Tipo::Texto, descripcion: Some("Columna X: índice 0-based o nombre de header. Default: 0."), valores: Valores::Ninguno, minimo: None, maximo: None },
                Propiedad { nombre: "y_col", tipo: Tipo::Texto, descripcion: Some("Columna Y: índice 0-based o nombre de header. Default: 1."), valores: Valores::Ninguno, minimo: None, maximo: None },
                Propiedad { nombre: "skip_rows", tipo: Tipo::Entero, descripcion: Some("Filas de metadata a saltar al principio."), valores: Valores::Ninguno, minimo: None, maximo: None },
                Propiedad { nombre: "delimiter", tipo: Tipo::Texto, descripcion: Some("Delimitador. Por default se auto-detecta."), valores: Valores::Ninguno, minimo: None, maximo: None },
                Propiedad { nombre: "x_unit", tipo: Tipo::Texto, descripcion: Some("Unidad del eje X, por ejemplo Hz."), valores: Valores::Ninguno, minimo: None, maximo: None },
                Propiedad { nombre: "y_unit", tipo: Tipo::Texto, descripcion: Some("Unidad del eje Y, por ejemplo dB."), valores: Valores::Ninguno, minimo: None, maximo: None },
                Propiedad { nombre: "label", tipo: Tipo::Texto, descripcion: Some("Etiqueta para la leyenda."), valores: Valores::Ninguno, minimo: None, maximo: None },
                Propiedad { nombre: "inspect", tipo: Tipo::Booleano, descripcion: Some("Solo inspeccionar: no importa nada."), valores: Valores::Ninguno, minimo: None, maximo: None },
                Propiedad { nombre: "project", tipo: Tipo::Texto, descripcion: Some("Ruta al proyecto Xtal. Si se omite, se usa el proyecto abierto con xtal_open_project, y si no hay ninguno, el directorio de trabajo del cliente."), valores: Valores::Ninguno, minimo: None, maximo: None },
            ],
            requeridas: vec!["file"],
        };
        assert(e@ =~= esquema_spec(nombre@)->Some_0);
        return Some(e);
    }
    if iguales(&n, &caracteres("xtal_formula_measurement")) {
        let e = Esquema {
            propiedades: vec![
                Propiedad { nombre: "id", tipo: Tipo::Texto, descripcion: Some("Id (slug) de la medición."), valores: Valores::Ninguno, minimo: None, maximo: None },
                Propiedad { nombre: "expr", tipo: Tipo::Texto, descripcion: Some("Expresión a evaluar."), valores: Valores::Ninguno, minimo: None, maximo: None },
                Propiedad { nombre: "var", tipo: Tipo::Texto, descripcion: Some("Variable de barrido. Default: f."), valores: Valores::Ninguno, minimo: None, maximo: None },
                Propiedad { nombre: "from", tipo: Tipo::Numero, descripcion: Some("Inicio del barrido."), valores: Valores::Ninguno, minimo: None, maximo: None },
                Propiedad { nombre: "to", tipo: Tipo::Numero, descripcion: Some("Fin del barrido."), valores: Valores::Ninguno, minimo: None, maximo: None },
                Propiedad { nombre: "points", tipo: Tipo::Entero, descripcion: Some("Cantidad de puntos. Default: 200."), valores: Valores::Ninguno, minimo: None, maximo: None },
                Propiedad { nombre: "scale", tipo: Tipo::Texto, descripcion: Some("Distribución de los puntos. Default: log."), valores: Valores::Escalas, minimo: None, maximo: None },
                Propiedad { nombre: "constants", tipo: Tipo::Textos, descripcion: Some("Constantes con nombre, formato `fc=1000`."), valores: Valores::Ninguno, minimo: None, maximo: None },
                Propiedad { nombre: "kind", tipo: Tipo::Texto, descripcion: Some("Default: theoretical."), valores: Valores::Mediciones, minimo: None, maximo: None },
                Propiedad { nombre: "x_unit", tipo: Tipo::Texto, descripcion: None, valores: Valores::Ninguno, minimo: None, maximo: None },
                Propiedad { nombre: "y_unit", tipo: Tipo::Texto, descripcion: None, valores: Valores::Ninguno, minimo: None, maximo: None },
                Propiedad { nombre: "label", tipo: Tipo::Texto, descripcion: None, valores: Valores::Ninguno, minimo: None, maximo: None },
                Propiedad { nombre: "project", tipo: Tipo::Texto, descripcion: Some("Ruta al proyecto Xtal. Si se omite, se usa el proyecto abierto con xtal_open_project, y si no hay ninguno, el directorio de trabajo del cliente."), valores: Valores::Ninguno, minimo: None, maximo: None },
            ],
            requeridas: vec!["id", "expr", "from", "to"],
        };
        assert(e@ =~= esquema_spec(nombre@)->Some_0);
        return Some(e);
    }
    if iguales(&n, &caracteres("xtal_import_rawfile")) {
        let e = Esquema {
            propiedades: vec![
                Propiedad { nombre: "file", tipo: Tipo::Texto, descripcion: Some("Ruta al archivo .raw."), valores: Valores::Ninguno, minimo: None, maximo: None },
                Propiedad { nombre: "id", tipo: Tipo::Texto, descripcion: Some("Id base de las mediciones. Con varias variables se le sufija el nombre del vector."), valores: Valores::Ninguno, minimo: None, maximo: None },
                Propiedad { nombre: "nodes", tipo: Tipo::Textos, descripcion: Some("Variables a importar, por ejemplo [\"v(out)\", \"v(in)\"]. Si se omite, importa todas."), valores: Valores::Ninguno, minimo: None, maximo: None },
                Propiedad { nombre: "plot", tipo: Tipo::Texto, descripcion: Some("Si se pasa, además crea un gráfico con este id y le agrega las series importadas."), valores: Valores::Ninguno, minimo: None, maximo: None },
                Propiedad { nombre: "plot_kind", tipo: Tipo::Texto, descripcion: None, valores: Valores::Graficos, minimo: None, maximo: None },
                Propiedad { nombre: "label", tipo: Tipo::Texto, descripcion: None, valores: Valores::Ninguno, minimo: None, maximo: None },
                Propiedad { nombre: "x_unit", tipo: Tipo::Texto, descripcion: None, valores: Valores::Ninguno, minimo: None, maximo: None },
                Propiedad { nombre: "y_unit", tipo: Tipo::Texto, descripcion: None, valores: Valores::Ninguno, minimo: None, maximo: None },
                Propiedad { nombre: "inspect", tipo: Tipo::Booleano, descripcion: Some("Solo inspeccionar: no importa nada."), valores: Valores::Ninguno, minimo: None, maximo: None },
                Propiedad { nombre: "project", tipo: Tipo::Texto, descripcion: Some("Ruta al proyecto Xtal. Si se omite, se usa el proyecto abierto con xtal_open_project, y si no hay ninguno, el directorio de trabajo del cliente."), valores: Valores::Ninguno, minimo: None, maximo: None },
            ],
            requeridas: vec!["file"],
        };
        assert(e@ =~= esquema_spec(nombre@)->Some_0);
        return Some(e);
    }
    if iguales(&n, &caracteres("xtal_new_plot")) {
        let e = Esquema {
            propiedades: vec![
                Propiedad { nombre: "id", tipo: Tipo::Texto, descripcion: Some("Id (slug) del gráfico."), valores: Valores::Ninguno, minimo: None, maximo: None },
                Propiedad { nombre: "kind", tipo: Tipo::Texto, descripcion: Some("Default: generic."), valores: Valores::Graficos, minimo: None, maximo: None },
                Propiedad { nombre: "title", tipo: Tipo::Texto, descripcion: None, valores: Valores::Ninguno, minimo: None, maximo: None },
                Propiedad { nombre: "x_label", tipo: Tipo::Texto, descripcion: None, valores: Valores::Ninguno, minimo: None, maximo: None },
                Propiedad { nombre: "y_label", tipo: Tipo::Texto, descripcion: None, valores: Valores::Ninguno, minimo: None, maximo: None },
                Propiedad { nombre: "x_scale", tipo: Tipo::Texto, descripcion: None, valores: Valores::Escalas, minimo: None, maximo: None },
                Propiedad { nombre: "y_scale", tipo: Tipo::Texto, descripcion: None, valores: Valores::Escalas, minimo: None, maximo: None },
                Propiedad { nombre: "legend", tipo: Tipo::Texto, descripcion: Some("Posición de la leyenda. Por default se ubica sola en la esquina más despejada."), valores: Valores::Ninguno, minimo: None, maximo: None },
                Propiedad { nombre: "project", tipo: Tipo::Texto, descripcion: Some("Ruta al proyecto Xtal. Si se omite, se usa el proyecto abierto con xtal_open_project, y si no hay ninguno, el directorio de trabajo del cliente."), valores: Valores::Ninguno, minimo: None, maximo: None },
            ],
            requeridas: vec!["id"],
        };
        assert(e@ =~= esquema_spec(nombre@)->Some_0);
        return Some(e);
    }
    if iguales(&n, &caracteres("xtal_add_series")) {
        let e = Esquema {
            propiedades: vec![
                Propiedad { nombre: "plot", tipo: Tipo::Texto, descripcion: Some("Id del gráfico."), valores: Valores::Ninguno, minimo: None, maximo: None },
                Propiedad { nombre: "measurement", tipo: Tipo::Texto, descripcion: Some("Id de la medición."), valores: Valores::Ninguno, minimo: None, maximo: None },
                Propiedad { nombre: "role", tipo: Tipo::Texto, descripcion: Some("Rol en el circuito: define el color. Default: none."), valores: Valores::Roles, minimo: None, maximo: None },
                Propiedad { nombre: "panel", tipo: Tipo::Texto, descripcion: Some("Panel del Bode. Solo aplica a gráficos bode. Default: magnitude."), valores: Valores::Paneles, minimo: None, maximo: None },
                Propiedad { nombre: "color", tipo: Tipo::Texto, descripcion: Some("Override de color: nombre o HEX."), valores: Valores::Ninguno, minimo: None, maximo: None },
                Propiedad { nombre: "line", tipo: Tipo::Texto, descripcion: Some("Override del estilo de línea."), valores: Valores::Lineas, minimo: None, maximo: None },
                Propiedad { nombre: "label", tipo: Tipo::Texto, descripcion: Some("Etiqueta de leyenda."), valores: Valores::Ninguno, minimo: None, maximo: None },
                Propiedad { nombre: "project", tipo: Tipo::Texto, descripcion: Some("Ruta al proyecto Xtal. Si se omite, se usa el proyecto abierto con xtal_open_project, y si no hay ninguno, el directorio de trabajo del cliente."), valores: Valores::Ninguno, minimo: None, maximo: None },
            ],
            requeridas: vec!["plot", "measurement"],
        };
        assert(e@ =~= esquema_spec(nombre@)->Some_0);
        return Some(e);
    }
    if iguales(&n, &caracteres("xtal_add_section")) {
        let e = Esquema {
            propiedades: vec![
                Propiedad { nombre: "title", tipo: Tipo::Texto, descripcion: Some("Título de la sección."), valores: Valores::Ninguno, minimo: None, maximo: None },
                Propiedad { nombre: "under", tipo: Tipo::Texto, descripcion: Some("Título de la sección padre, para crear una subsección."), valores: Valores::Ninguno, minimo: None, maximo: None },
                Propiedad { nombre: "figures", tipo: Tipo::Textos, descripcion: Some("Ids de gráficos a insertar como figuras."), valores: Valores::Ninguno, minimo: None, maximo: None },
                Propiedad { nombre: "body", tipo: Tipo::Texto, descripcion: Some("Cuerpo de la sección, en LaTeX."), valores: Valores::Ninguno, minimo: None, maximo: None },
                Propiedad { nombre: "project", tipo: Tipo::Texto, descripcion: Some("Ruta al proyecto Xtal. Si se omite, se usa el proyecto abierto con xtal_open_project, y si no hay ninguno, el directorio de trabajo del cliente."), valores: Valores::Ninguno, minimo: None, maximo: None },
            ],
            requeridas: vec!["title"],
        };
        assert(e@ =~= esquema_spec(nombre@)->Some_0);
        return Some(e);
    }
    if iguales(&n, &caracteres("xtal_build_report")) {
        let e = Esquema {
            propiedades: vec![
                Propiedad { nombre: "monochrome", tipo: Tipo::Booleano, descripcion: Some("Todo en blanco y negro, con el logo monocromo."), valores: Valores::Ninguno, minimo: None, maximo: None },
                Propiedad { nombre: "pdflatex", tipo: Tipo::Booleano, descripcion: Some("Usar pdflatex (TeX Live) en vez de Tectonic."), valores: Valores::Ninguno, minimo: None, maximo: None },
                Propiedad { nombre: "format", tipo: Tipo::Texto, descripcion: None, valores: Valores::Formatos, minimo: None, maximo: None },
                Propiedad { nombre: "theme", tipo: Tipo::Texto, descripcion: None, valores: Valores::Ninguno, minimo: None, maximo: None },
                Propiedad { nombre: "tex_only", tipo: Tipo::Booleano, descripcion: Some("Generar solo el .tex, sin compilar el PDF."), valores: Valores::Ninguno, minimo: None, maximo: None },
                Propiedad { nombre: "project", tipo: Tipo::Texto, descripcion: Some("Ruta al proyecto Xtal. Si se omite, se usa el proyecto abierto con xtal_open_project, y si no hay ninguno, el directorio de trabajo del cliente."), valores: Valores::Ninguno, minimo: None, maximo: None },
            ],
            requeridas: Vec::new(),
        };
        assert(e@ =~= esquema_spec(nombre@)->Some_0);
        return Some(e);
    }
    if iguales(&n, &caracteres("xtal_run_command")) {
        let e = Esquema {
            propiedades: vec![
                Propiedad { nombre: "args", tipo: Tipo::Textos, descripcion: Some("Argumentos, por ejemplo [\"sim\", \"ac\", \"--help\"] o [\"meas\", \"show\", \"v_out\", \"--json\"]."), valores: Valores::Ninguno, minimo: None, maximo: None },
                Propiedad { nombre: "project", tipo: Tipo::Texto, descripcion: Some("Ruta al proyecto Xtal. Si se omite, se usa el proyecto abierto con xtal_open_project, y si no hay ninguno, el directorio de trabajo del cliente."), valores: Valores::Ninguno, minimo: None, maximo: None },
            ],
            requeridas: vec!["args"],
        };
        assert(e@ =~= esquema_spec(nombre@)->Some_0);
        return Some(e);
    }
    None
}

/// Every tool has a schema for its arguments.
pub proof fn cada_herramienta_tiene_su_esquema()
    ensures
        forall|i: int| 0 <= i < nombres_spec().len() ==> (#[trigger] esquema_spec(nombres_spec()[i])) is Some,
{
    los_nombres_son_unicos_y_prefijados();
    assert forall|i: int| 0 <= i < nombres_spec().len() implies (#[trigger] esquema_spec(nombres_spec()[i])) is Some by {
        let s = nombres_spec();
        assert(forall|j: int| 0 <= j < i ==> s[j] != s[i]);
    }
}

/// Every property that a schema requires is one of its properties.
pub proof fn lo_requerido_es_una_propiedad(nombre: Seq<char>)
    ensures
        esquema_spec(nombre) matches Some(e) ==> forall|k: int| 0 <= k < e.requeridas.len() ==>
            exists|j: int| 0 <= j < e.propiedades.len() && #[trigger] e.propiedades[j].nombre == #[trigger] e.requeridas[k],
{
    if nombre == "xtal_doctor"@ {
    } else if nombre == "xtal_list_projects"@ {
    } else if nombre == "xtal_open_project"@ {
        let e = esquema_spec(nombre)->Some_0;
        assert(e.propiedades[0].nombre == e.requeridas[0]);
    } else if nombre == "xtal_status"@ {
    } else if nombre == "xtal_scan"@ {
    } else if nombre == "xtal_plan_add"@ {
        let e = esquema_spec(nombre)->Some_0;
        assert(e.propiedades[0].nombre == e.requeridas[0]);
    } else if nombre == "xtal_project_status"@ {
    } else if nombre == "xtal_new_project"@ {
        let e = esquema_spec(nombre)->Some_0;
        assert(e.propiedades[0].nombre == e.requeridas[0]);
    } else if nombre == "xtal_import_measurement"@ {
        let e = esquema_spec(nombre)->Some_0;
        assert(e.propiedades[0].nombre == e.requeridas[0]);
    } else if nombre == "xtal_formula_measurement"@ {
        let e = esquema_spec(nombre)->Some_0;
        assert(e.propiedades[0].nombre == e.requeridas[0]);
        assert(e.propiedades[1].nombre == e.requeridas[1]);
        assert(e.propiedades[3].nombre == e.requeridas[2]);
        assert(e.propiedades[4].nombre == e.requeridas[3]);
    } else if nombre == "xtal_import_rawfile"@ {
        let e = esquema_spec(nombre)->Some_0;
        assert(e.propiedades[0].nombre == e.requeridas[0]);
    } else if nombre == "xtal_new_plot"@ {
        let e = esquema_spec(nombre)->Some_0;
        assert(e.propiedades[0].nombre == e.requeridas[0]);
    } else if nombre == "xtal_add_series"@ {
        let e = esquema_spec(nombre)->Some_0;
        assert(e.propiedades[0].nombre == e.requeridas[0]);
        assert(e.propiedades[1].nombre == e.requeridas[1]);
    } else if nombre == "xtal_add_section"@ {
        let e = esquema_spec(nombre)->Some_0;
        assert(e.propiedades[0].nombre == e.requeridas[0]);
    } else if nombre == "xtal_build_report"@ {
    } else if nombre == "xtal_run_command"@ {
        let e = esquema_spec(nombre)->Some_0;
        assert(e.propiedades[0].nombre == e.requeridas[0]);
    }
}

} // verus!
