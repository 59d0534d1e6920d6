//! Reading instruments' CSV files (oscilloscopes and the like): metadata rows
//! before the header, `,` `;` or tab as the delimiter, columns chosen by index
//! or by header name, and a first row that may be a header.
//!
//! Decoding the file (whatever its encoding) is the program's part; the text
//! comes here. The records are read by the `csv` crate.
use vstd::prelude::*;
use vstd::utf8::encode_utf8;
use crate::texto::{
    agregar, cadena, caracteres, es_digito, hasta, hasta_exec, iguales, lema_hasta, leer_usize,
    lineas, minuscula_ascii, partir_lineas, recortado, recortar, son_digitos, todo_blanco,
    es_todo_blanco, tramo, usize_de, vistas,
};

verus! {

broadcast use vstd::string::group_string_axioms;

/// A column: by index (from 0) or by header name.
#[derive(Debug, Clone, PartialEq, Eq)]
pub enum ColumnRef {
    Index(usize),
    Name(String),
}

/// A column as plain values.
pub enum ColumnaV {
    Index(usize),
    Name(Seq<char>),
}

impl ColumnRef {
    pub open spec fn vista(&self) -> ColumnaV {
        match self {
            ColumnRef::Index(i) => ColumnaV::Index(*i),
            ColumnRef::Name(n) => ColumnaV::Name(n@),
        }
    }

    /// Reads a command-line argument: a number is an index, anything else a
    /// name.
    pub fn parse(s: &str) -> (c: ColumnRef)
        ensures
            c.vista() == (match usize_de(s@) {
                Some(i) => ColumnaV::Index(i),
                None => ColumnaV::Name(s@),
            }),
    {
        match leer_usize(&caracteres(s)) {
            Some(i) => ColumnRef::Index(i),
            None => ColumnRef::Name(s.to_owned()),
        }
    }

    /// How the column is written: its index in decimal, or its name.
    pub fn texto(&self) -> (r: String)
        ensures
            match self {
                ColumnRef::Index(i) => usize_de(r@) == Some(*i) && r@[0] != '+' && (r@.len() == 1 || r@[0] != '0'),
                ColumnRef::Name(n) => r@ == n@,
            },
    {
        match self {
            ColumnRef::Index(i) => decimal_texto(*i),
            ColumnRef::Name(n) => n.clone(),
        }
    }
}

/// `n` in decimal.
fn decimal(n: usize) -> (r: Vec<char>)
    ensures
        r@.len() > 0,
        son_digitos(r@),
        crate::texto::valor_decimal(r@) == n,
        r@.len() == 1 || r@[0] != '0',
        n > 0 ==> r@[0] != '0',
    decreases n,
{
    let c = ((n % 10) as u8 + 0x30u8) as char;
    assert(c as u32 == (n % 10) + 0x30) by {
        assert(((n % 10) as u8 + 0x30u8) as u32 == (n % 10) + 0x30);
    }
    assert('0' as u32 == 0x30);
    assert(es_digito(c));
    if n < 10 {
        let mut v: Vec<char> = Vec::new();
        v.push(c);
        assert(v@.drop_last() =~= Seq::<char>::empty());
        assert(v@.last() == c);
        assert(crate::texto::valor_decimal(v@) == crate::texto::valor_decimal(v@.drop_last()) * 10 + ((c as u32) - ('0' as u32)) as nat);
        assert(n % 10 == n);
        v
    } else {
        let mut v = decimal(n / 10);
        let ghost v0 = v@;
        v.push(c);
        assert(v@.drop_last() =~= v0);
        assert(v@[0] == v0[0]);
        assert(v@.last() == c);
        assert(crate::texto::valor_decimal(v@) == crate::texto::valor_decimal(v0) * 10 + ((c as u32) - ('0' as u32)) as nat);
        assert(n == (n / 10) * 10 + n % 10);
        assert forall|k: int| 0 <= k < v@.len() implies es_digito(#[trigger] v@[k]) by {
            if k < v0.len() {
                assert(v@[k] == v0[k]);
            }
        }
        v
    }
}

pub(crate) fn decimal_texto(n: usize) -> (r: String)
    ensures
        usize_de(r@) == Some(n),
        r@.len() > 0,
        r@[0] != '+',
        r@.len() == 1 || r@[0] != '0',
{
    let d = decimal(n);
    assert(crate::texto::digitos_sin_signo(d@) == d@);
    cadena(&d)
}

/// Which file an imported measurement came from: the `[csv]` block of its
/// `.toml` (without it a CSV left in `fuentes/` could not be told from one
/// already imported).
#[derive(Debug, Clone)]
pub struct CsvSpec {
    /// The file, as imported (relative to the project when inside it).
    pub file: String,
    /// The metadata rows skipped before the header.
    pub skip_rows: usize,
    /// The column of the X axis (index or header name).
    pub x_col: String,
    /// The column of the Y axis.
    pub y_col: String,
    /// The delimiter, only where it was forced by hand.
    pub delimiter: Option<String>,
}

/// How to import a CSV.
#[derive(Debug, Clone)]
pub struct CsvImportOptions {
    /// The delimiter; `None` detects it.
    pub delimiter: Option<u8>,
    /// Rows to skip at the start (the instrument's metadata).
    pub skip_rows: usize,
    /// The column of the X axis.
    pub x_col: ColumnRef,
    /// The column of the Y axis.
    pub y_col: ColumnRef,
}

impl Default for CsvImportOptions {
    /// Detect the delimiter, skip nothing, X from column 0 and Y from 1.
    fn default() -> (o: Self)
        ensures
            o.delimiter is None,
            o.skip_rows == 0,
            o.x_col == ColumnRef::Index(0),
            o.y_col == ColumnRef::Index(1),
    {
        CsvImportOptions { delimiter: None, skip_rows: 0, x_col: ColumnRef::Index(0), y_col: ColumnRef::Index(1) }
    }
}

impl CsvSpec {
    /// The block for a file read with `opts`.
    pub fn new(file: &str, opts: &CsvImportOptions) -> (s: CsvSpec)
        ensures
            s.file@ == file@,
            s.skip_rows == opts.skip_rows,
            match opts.x_col {
                ColumnRef::Index(i) => usize_de(s.x_col@) == Some(i) && s.x_col@[0] != '+' && (s.x_col@.len() == 1
                    || s.x_col@[0] != '0'),
                ColumnRef::Name(n) => s.x_col@ == n@,
            },
            match opts.y_col {
                ColumnRef::Index(i) => usize_de(s.y_col@) == Some(i) && s.y_col@[0] != '+' && (s.y_col@.len() == 1
                    || s.y_col@[0] != '0'),
                ColumnRef::Name(n) => s.y_col@ == n@,
            },
            match opts.delimiter {
                Some(d) => s.delimiter matches Some(t) && t@ == seq![d as char],
                None => s.delimiter is None,
            },
    {
        CsvSpec {
            file: file.to_owned(),
            skip_rows: opts.skip_rows,
            x_col: opts.x_col.texto(),
            y_col: opts.y_col.texto(),
            delimiter: match opts.delimiter {
                Some(d) => {
                    let mut v: Vec<char> = Vec::new();
                    v.push(d as char);
                    Some(cadena(&v))
                },
                None => None,
            },
        }
    }
}

/// What inspecting a CSV found, without importing it.
#[derive(Debug, Clone)]
pub struct CsvInspection {
    pub detected_delimiter: char,
    pub column_count: usize,
    pub header_guess: Option<Vec<String>>,
    pub first_rows: Vec<Vec<String>>,
}

// ---------------------------------------------------------------------------
// The delimiter
// ---------------------------------------------------------------------------

/// How many times the byte `b` occurs in `s`.
pub open spec fn veces(s: Seq<u8>, b: u8) -> nat
    decreases s.len(),
{
    if s.len() == 0 {
        0
    } else {
        veces(s.drop_last(), b) + if s.last() == b { 1nat } else { 0nat }
    }
}

/// The candidate that occurs most in the line, among `,`, `;` and tab (in that
/// order, an earlier one winning a tie; `,` where none occurs).
pub open spec fn delimitador_de(linea: Seq<char>) -> u8 {
    let b = encode_utf8(linea);
    let c = veces(b, 0x2c);
    let p = veces(b, 0x3b);
    let t = veces(b, 0x09);
    let (mejor, n) = if p > c { (0x3bu8, p) } else { (0x2cu8, c) };
    if t > n { 0x09u8 } else { mejor }
}

proof fn lema_veces_cota(s: Seq<u8>, b: u8)
    ensures
        veces(s, b) <= s.len(),
    decreases s.len(),
{
    if s.len() > 0 {
        lema_veces_cota(s.drop_last(), b);
    }
}

/// Detects the delimiter from the first line with data.
pub fn sniff_delimiter(line: &str) -> (d: u8)
    ensures
        d == delimitador_de(line@),
{
    let b = line.as_bytes();
    let mut c: usize = 0;
    let mut p: usize = 0;
    let mut t: usize = 0;
    let mut i: usize = 0;
    while i < b.len()
        invariant
            i <= b@.len(),
            b@ == encode_utf8(line@),
            c == veces(b@.take(i as int), 0x2c),
            p == veces(b@.take(i as int), 0x3b),
            t == veces(b@.take(i as int), 0x09),
        decreases b@.len() - i,
    {
        proof {
            assert(b@.take(i + 1).drop_last() =~= b@.take(i as int));
            lema_veces_cota(b@.take(i as int), 0x2c);
            lema_veces_cota(b@.take(i as int), 0x3b);
            lema_veces_cota(b@.take(i as int), 0x09);
        }
        if b[i] == 0x2c {
            c = c + 1;
        } else if b[i] == 0x3b {
            p = p + 1;
        } else if b[i] == 0x09 {
            t = t + 1;
        }
        i = i + 1;
    }
    assert(b@.take(b@.len() as int) =~= b@);
    let (mejor, n) = if p > c { (0x3bu8, p) } else { (0x2cu8, c) };
    if t > n {
        0x09
    } else {
        mejor
    }
}

/// The lines of the text after the first `skip_rows`.
pub open spec fn tras_saltar(texto: Seq<char>, skip_rows: usize) -> Seq<Seq<char>> {
    let ls = lineas(texto);
    if skip_rows >= ls.len() {
        Seq::empty()
    } else {
        ls.subrange(skip_rows as int, ls.len() as int)
    }
}

/// The lines of a decoded text after skipping `skip_rows` (the instrument's
/// metadata).
pub fn lines_after_skip(text: &str, skip_rows: usize) -> (r: Vec<Vec<char>>)
    ensures
        vistas(r@) == tras_saltar(text@, skip_rows),
{
    let ls = partir_lineas(&caracteres(text));
    let mut r: Vec<Vec<char>> = Vec::new();
    let mut k: usize = skip_rows;
    if k >= ls.len() {
        return r;
    }
    while k < ls.len()
        invariant
            skip_rows <= k <= ls@.len(),
            vistas(ls@) == lineas(text@),
            vistas(r@) == vistas(ls@).subrange(skip_rows as int, k as int),
        decreases ls@.len() - k,
    {
        let t = tramo(&ls[k], 0, ls[k].len());
        assert(t@ =~= ls@[k as int]@);
        let ghost antes = vistas(r@);
        assert(vistas(ls@)[k as int] == ls@[k as int]@);
        r.push(t);
        assert(vistas(r@) =~= antes.push(ls@[k as int]@));
        assert(vistas(r@) =~= vistas(ls@).subrange(skip_rows as int, k + 1));
        k = k + 1;
    }
    r
}

// ---------------------------------------------------------------------------
// Numbers and headers
// ---------------------------------------------------------------------------

/// Digits with at most one `.` among them and at least one digit.
pub open spec fn mantisa(m: Seq<char>) -> bool {
    let p = hasta(m, 0, '.');
    if p < m.len() {
        let a = m.subrange(0, p);
        let b = m.subrange(p + 1, m.len() as int);
        son_digitos(a) && son_digitos(b) && (a.len() > 0 || b.len() > 0)
    } else {
        m.len() > 0 && son_digitos(m)
    }
}

/// What follows the `e` of an exponent: an optional sign and digits.
pub open spec fn exponente(x: Seq<char>) -> bool {
    let d = if x.len() > 0 && (x[0] == '+' || x[0] == '-') {
        x.drop_first()
    } else {
        x
    };
    d.len() > 0 && son_digitos(d)
}

/// The text in ASCII lowercase.
pub open spec fn en_minusculas(s: Seq<char>) -> Seq<char> {
    s.map_values(|c: char| minuscula_ascii(c))
}

/// What `f64::from_str` accepts (its documented grammar, once lowercased): an
/// optional sign, then `inf`, `infinity`, `nan`, or a mantissa with an
/// optional exponent.
pub open spec fn es_flotante(s: Seq<char>) -> bool {
    let l = en_minusculas(s);
    let t = if l.len() > 0 && (l[0] == '+' || l[0] == '-') {
        l.drop_first()
    } else {
        l
    };
    let e = hasta(t, 0, 'e');
    t == "inf"@ || t == "infinity"@ || t == "nan"@ || if e < t.len() {
        mantisa(t.subrange(0, e)) && exponente(t.subrange(e + 1, t.len() as int))
    } else {
        mantisa(t)
    }
}

fn todos_digitos(s: &[char]) -> (r: bool)
    ensures
        r == son_digitos(s@),
{
    let mut i: usize = 0;
    while i < s.len()
        invariant
            i <= s@.len(),
            forall|k: int| 0 <= k < i ==> es_digito(#[trigger] s@[k]),
        decreases s@.len() - i,
    {
        if !crate::texto::digito(s[i]) {
            return false;
        }
        i = i + 1;
    }
    true
}

fn es_mantisa(m: &[char]) -> (r: bool)
    ensures
        r == mantisa(m@),
{
    let p = hasta_exec(m, 0, '.');
    if p < m.len() {
        let a = tramo(m, 0, p);
        let b = tramo(m, p + 1, m.len());
        todos_digitos(&a) && todos_digitos(&b) && (a.len() > 0 || b.len() > 0)
    } else {
        assert(m@.subrange(0, m@.len() as int) =~= m@);
        m.len() > 0 && todos_digitos(m)
    }
}

fn es_exponente(x: &[char]) -> (r: bool)
    ensures
        r == exponente(x@),
{
    if x.len() > 0 && (x[0] == '+' || x[0] == '-') {
        let d = tramo(x, 1, x.len());
        assert(d@ =~= x@.drop_first());
        d.len() > 0 && todos_digitos(&d)
    } else {
        x.len() > 0 && todos_digitos(x)
    }
}

/// Whether a text is a number that `f64::from_str` reads.
pub fn parece_numero(s: &[char]) -> (r: bool)
    ensures
        r == es_flotante(s@),
{
    let mut l: Vec<char> = Vec::new();
    let mut i: usize = 0;
    while i < s.len()
        invariant
            i <= s@.len(),
            l@ == en_minusculas(s@.take(i as int)),
        decreases s@.len() - i,
    {
        let c = s[i];
        let m = if 'A' <= c && c <= 'Z' {
            let v: u8 = (c as u32 + 32) as u8;
            assert(v as u32 == c as u32 + 32);
            v as char
        } else {
            c
        };
        assert(m == minuscula_ascii(c));
        l.push(m);
        i = i + 1;
        assert(l@ =~= en_minusculas(s@.take(i as int)));
    }
    assert(s@.take(s@.len() as int) =~= s@);
    let t = if l.len() > 0 && (l[0] == '+' || l[0] == '-') {
        let t = tramo(&l, 1, l.len());
        assert(t@ =~= l@.drop_first());
        t
    } else {
        let t = tramo(&l, 0, l.len());
        assert(t@ =~= l@);
        t
    };
    if iguales(&t, &caracteres("inf")) || iguales(&t, &caracteres("infinity")) || iguales(&t, &caracteres("nan")) {
        return true;
    }
    let e = hasta_exec(&t, 0, 'e');
    if e < t.len() {
        es_mantisa(&tramo(&t, 0, e)) && es_exponente(&tramo(&t, e + 1, t.len()))
    } else {
        assert(t@.subrange(0, t@.len() as int) =~= t@);
        es_mantisa(&t)
    }
}

pub open spec fn textos(v: Seq<String>) -> Seq<Seq<char>> {
    v.map_values(|s: String| s@)
}

/// A cell that is missing, or that, trimmed, is not a number.
pub open spec fn no_numerica(r: Seq<Seq<char>>, i: int) -> bool {
    i >= r.len() || !es_flotante(recortado(r[i]))
}

/// Whether a row looks like a header: one of the target columns is missing or
/// is not a number.
pub fn looks_like_header(record: &[String], x_idx: usize, y_idx: usize) -> (r: bool)
    ensures
        r == (no_numerica(textos(record@), x_idx as int) || no_numerica(textos(record@), y_idx as int)),
{
    let x_bad = if x_idx < record.len() {
        !parece_numero(&recortar(&caracteres(record[x_idx].as_str())))
    } else {
        true
    };
    let y_bad = if y_idx < record.len() {
        !parece_numero(&recortar(&caracteres(record[y_idx].as_str())))
    } else {
        true
    };
    x_bad || y_bad
}

// ---------------------------------------------------------------------------
// Columns and records
// ---------------------------------------------------------------------------

/// What can go wrong reading a CSV.
#[derive(Debug)]
pub enum DataError {
    /// The records could not be read.
    Csv(csv::Error),
    /// A column that does not exist (by name, or with no header to look in).
    ColumnNotFound(String),
    /// No `xtal.toml` here or in any folder above.
    NoProject,
}

/// Equal but for the case of ASCII letters.
pub open spec fn igual_sin_caso(a: Seq<char>, b: Seq<char>) -> bool {
    en_minusculas(a) == en_minusculas(b)
}

/// The first header whose trimmed text is the trimmed name, but for case.
pub open spec fn posicion_en(h: Seq<Seq<char>>, nombre: Seq<char>) -> Option<int>
    decreases h.len(),
{
    if h.len() == 0 {
        None
    } else {
        match posicion_en(h.drop_last(), nombre) {
            Some(k) => Some(k),
            None => if igual_sin_caso(recortado(h.last()), recortado(nombre)) {
                Some(h.len() - 1)
            } else {
                None
            },
        }
    }
}

fn en_minusculas_exec(s: &[char]) -> (r: Vec<char>)
    ensures
        r@ == en_minusculas(s@),
{
    let mut l: Vec<char> = Vec::new();
    let mut i: usize = 0;
    while i < s.len()
        invariant
            i <= s@.len(),
            l@ == en_minusculas(s@.take(i as int)),
        decreases s@.len() - i,
    {
        let c = s[i];
        let m = if 'A' <= c && c <= 'Z' {
            let v: u8 = (c as u32 + 32) as u8;
            assert(v as u32 == c as u32 + 32);
            v as char
        } else {
            c
        };
        assert(m == minuscula_ascii(c));
        l.push(m);
        i = i + 1;
        assert(l@ =~= en_minusculas(s@.take(i as int)));
    }
    assert(s@.take(s@.len() as int) =~= s@);
    l
}

/// The index of a column: its own where it is given by index; by name, the
/// first header that matches it (trimmed, without regard to ASCII case).
pub fn resolve_column(col: &ColumnRef, header: Option<&[String]>) -> (r: Result<usize, DataError>)
    ensures
        match col {
            ColumnRef::Index(i) => r matches Ok(k) && k == *i,
            ColumnRef::Name(n) => match header {
                None => r matches Err(DataError::ColumnNotFound(m)) && m@ == n@,
                Some(h) => match posicion_en(textos(h@), n@) {
                    Some(k) => r matches Ok(j) && j as int == k,
                    None => r matches Err(DataError::ColumnNotFound(m)) && m@ == n@,
                },
            },
        },
{
    match col {
        ColumnRef::Index(i) => Ok(*i),
        ColumnRef::Name(name) => {
            match header {
                None => Err(DataError::ColumnNotFound(name.clone())),
                Some(h) => {
                    let buscado = en_minusculas_exec(&recortar(&caracteres(name.as_str())));
                    let ghost hs = textos(h@);
                    let mut k: usize = 0;
                    assert(hs.take(0) =~= Seq::<Seq<char>>::empty());
                    while k < h.len()
                        invariant
                            k <= h@.len(),
                            header == Some(h),
                            *col == ColumnRef::Name(*name),
                            hs == textos(h@),
                            buscado@ == en_minusculas(recortado(name@)),
                            posicion_en(hs.take(k as int), name@) is None,
                        decreases h@.len() - k,
                    {
                        assert(hs.take(k + 1).drop_last() =~= hs.take(k as int));
                        assert(hs[k as int] == h@[k as int]@);
                        let cand = en_minusculas_exec(&recortar(&caracteres(h[k].as_str())));
                        if iguales(&cand, &buscado) {
                            proof {
                                lema_posicion_en(hs, name@, k as int);
                            }
                            return Ok(k);
                        }
                        k = k + 1;
                    }
                    assert(hs.take(hs.len() as int) =~= hs);
                    Err(DataError::ColumnNotFound(name.clone()))
                },
            }
        },
    }
}

proof fn lema_posicion_en(h: Seq<Seq<char>>, n: Seq<char>, k: int)
    requires
        0 <= k < h.len(),
        posicion_en(h.take(k), n) is None,
        igual_sin_caso(recortado(h[k]), recortado(n)),
    ensures
        posicion_en(h, n) == Some(k),
    decreases h.len(),
{
    if h.len() - 1 > k {
        assert(h.drop_last().take(k) =~= h.take(k));
        lema_posicion_en(h.drop_last(), n, k);
    } else {
        assert(h.drop_last() =~= h.take(k));
    }
}

/// The records that the `csv` crate reads from a text with a delimiter (no
/// header row, rows of any length); `None` where it reports an error.
pub uninterp spec fn registros_csv(texto: Seq<char>, delimitador: u8) -> Option<Seq<Seq<Seq<char>>>>;

pub open spec fn filas(v: Seq<Vec<String>>) -> Seq<Seq<Seq<char>>> {
    v.map_values(|r: Vec<String>| textos(r@))
}

#[verifier::external_type_specification]
#[verifier::external_body]
pub struct ExCsvError(csv::Error);

/// Reads the records of `texto` with `csv::ReaderBuilder` (the given
/// delimiter, no header row, flexible row lengths); what it reads, and whether
/// it fails, is named `registros_csv`.
#[verifier::external_body]
fn leer_registros(texto: &str, delimitador: u8) -> (r: Result<Vec<Vec<String>>, csv::Error>)
    ensures
        match r {
            Ok(v) => registros_csv(texto@, delimitador) == Some(filas(v@)),
            Err(_) => registros_csv(texto@, delimitador) is None,
        },
{
    let mut rdr = csv::ReaderBuilder::new().delimiter(delimitador).has_headers(false).flexible(true).from_reader(
        texto.as_bytes(),
    );
    let mut filas = Vec::new();
    for fila in rdr.records() {
        filas.push(fila?.iter().map(|s| s.to_string()).collect());
    }
    Ok(filas)
}

/// Reads all the records of a text (its skipped rows already out).
pub fn read_records(text: &str, delimiter: u8) -> (r: Result<Vec<Vec<String>>, DataError>)
    ensures
        match r {
            Ok(v) => registros_csv(text@, delimiter) == Some(filas(v@)),
            Err(e) => registros_csv(text@, delimiter) is None && e is Csv,
        },
{
    match leer_registros(text, delimiter) {
        Ok(v) => Ok(v),
        Err(e) => Err(DataError::Csv(e)),
    }
}


// ---------------------------------------------------------------------------
// Inspecting
// ---------------------------------------------------------------------------

/// The first line that is not blank (empty where there is none).
pub open spec fn primera_con_datos(ls: Seq<Seq<char>>) -> Seq<char>
    decreases ls.len(),
{
    if ls.len() == 0 {
        Seq::empty()
    } else if !todo_blanco(ls[0]) {
        ls[0]
    } else {
        primera_con_datos(ls.drop_first())
    }
}

/// Lines joined with `\n`.
pub open spec fn unidas(ls: Seq<Seq<char>>) -> Seq<char>
    decreases ls.len(),
{
    if ls.len() == 0 {
        Seq::empty()
    } else if ls.len() == 1 {
        ls[0]
    } else {
        unidas(ls.drop_last()) + seq!['\n'] + ls.last()
    }
}

/// The delimiter a read uses: the forced one, else the one detected in the
/// first line with data.
pub open spec fn delimitador_usado(ls: Seq<Seq<char>>, forzado: Option<u8>) -> u8 {
    match forzado {
        Some(d) => d,
        None => delimitador_de(primera_con_datos(ls)),
    }
}

/// What inspecting a text finds, as plain values: the delimiter, the number of
/// columns of the first record, that record if it looks like a header with the
/// default mapping (columns 0 and 1, or 0 and 0 with one column), and the first
/// `max_rows` records; `None` where the records cannot be read.
pub open spec fn inspeccion(texto: Seq<char>, opts: CsvImportOptions, max_rows: usize) -> Option<
    (u8, int, Option<Seq<Seq<char>>>, Seq<Seq<Seq<char>>>),
> {
    let ls = tras_saltar(texto, opts.skip_rows);
    let d = delimitador_usado(ls, opts.delimiter);
    match registros_csv(unidas(ls), d) {
        None => None,
        Some(rs) => {
            let n = if rs.len() > 0 { rs[0].len() as int } else { 0 };
            let y = if n - 1 < 1 { if n - 1 < 0 { 0 } else { n - 1 } } else { 1 };
            Some(
                (
                    d,
                    n,
                    if rs.len() > 0 && (no_numerica(rs[0], 0) || no_numerica(rs[0], y)) {
                        Some(rs[0])
                    } else {
                        None
                    },
                    if rs.len() > max_rows { rs.take(max_rows as int) } else { rs },
                ),
            )
        },
    }
}

fn primera_linea_con_datos(ls: &Vec<Vec<char>>) -> (r: Vec<char>)
    ensures
        r@ == primera_con_datos(vistas(ls@)),
{
    let ghost todas = vistas(ls@);
    let mut k: usize = 0;
    assert(todas.subrange(0, todas.len() as int) =~= todas);
    while k < ls.len()
        invariant
            k <= ls@.len(),
            todas == vistas(ls@),
            primera_con_datos(todas.subrange(k as int, todas.len() as int)) == primera_con_datos(todas),
        decreases ls@.len() - k,
    {
        assert(todas.subrange(k as int, todas.len() as int)[0] == ls@[k as int]@);
        assert(todas.subrange(k as int, todas.len() as int).drop_first() =~= todas.subrange(k + 1, todas.len() as int));
        if !es_todo_blanco(&ls[k]) {
            return tramo(&ls[k], 0, ls[k].len());
        }
        k = k + 1;
    }
    Vec::new()
}

fn unir_lineas(ls: &Vec<Vec<char>>) -> (r: Vec<char>)
    ensures
        r@ == unidas(vistas(ls@)),
{
    let ghost todas = vistas(ls@);
    let mut r: Vec<char> = Vec::new();
    let mut k: usize = 0;
    assert(todas.take(0) =~= Seq::<Seq<char>>::empty());
    while k < ls.len()
        invariant
            k <= ls@.len(),
            todas == vistas(ls@),
            r@ == unidas(todas.take(k as int)),
        decreases ls@.len() - k,
    {
        assert(todas.take(k + 1).drop_last() =~= todas.take(k as int));
        assert(todas[k as int] == ls@[k as int]@);
        if k > 0 {
            r.push('\n');
        } else {
            assert(todas.take(1)[0] == todas[0]);
        }
        agregar(&mut r, &ls[k]);
        k = k + 1;
    }
    assert(todas.take(todas.len() as int) =~= todas);
    r
}

pub open spec fn opt_filas(o: Option<Vec<String>>) -> Option<Seq<Seq<char>>> {
    match o {
        Some(v) => Some(textos(v@)),
        None => None,
    }
}

fn copia_fila(v: &Vec<String>) -> (r: Vec<String>)
    ensures
        textos(r@) == textos(v@),
{
    let mut r: Vec<String> = Vec::new();
    let mut k: usize = 0;
    while k < v.len()
        invariant
            k <= v@.len(),
            textos(r@) == textos(v@).take(k as int),
        decreases v@.len() - k,
    {
        let ghost antes = r@;
        let c = v[k].clone();
        assert(c@ == v@[k as int]@);
        r.push(c);
        assert(r@ == antes.push(c));
        assert(textos(r@) =~= textos(antes).push(c@));
        k = k + 1;
        assert(textos(r@) =~= textos(v@).take(k as int));
    }
    assert(textos(v@).take(v@.len() as int) =~= textos(v@));
    r
}

/// Inspects a CSV's decoded text: the delimiter, how many columns, whether
/// the first row looks like a header, and the first rows. It does not fail on
/// data that are not numbers: it is there to decide the mapping.
pub fn inspect(text: &str, opts: &CsvImportOptions, max_rows: usize) -> (r: Result<CsvInspection, DataError>)
    ensures
        match (r, inspeccion(text@, *opts, max_rows)) {
            (Ok(i), Some((d, n, h, f))) => i.detected_delimiter == d as char && i.column_count as int == n
                && opt_filas(i.header_guess) == h && filas(i.first_rows@) == f,
            (Err(e), None) => e is Csv,
            _ => false,
        },
{
    let lines = lines_after_skip(text, opts.skip_rows);
    let delimiter = match opts.delimiter {
        Some(d) => d,
        None => {
            let primera = primera_linea_con_datos(&lines);
            sniff_delimiter(cadena(&primera).as_str())
        },
    };
    let joined = cadena(&unir_lineas(&lines));
    let mut records = match read_records(joined.as_str(), delimiter) {
        Ok(v) => v,
        Err(e) => return Err(e),
    };
    let column_count: usize = if records.len() > 0 { records[0].len() } else { 0 };
    let y: usize = if column_count == 0 { 0 } else if column_count - 1 < 1 { column_count - 1 } else { 1 };
    let header_guess = if records.len() > 0 && looks_like_header(records[0].as_slice(), 0, y) {
        Some(copia_fila(&records[0]))
    } else {
        None
    };
    let ghost todos = filas(records@);
    records.truncate(max_rows);
    assert(filas(records@) =~= if todos.len() > max_rows { todos.take(max_rows as int) } else { todos });
    Ok(CsvInspection { detected_delimiter: delimiter as char, column_count, header_guess, first_rows: records })
}

// ---------------------------------------------------------------------------
// Importing pairs
// ---------------------------------------------------------------------------

/// A cell of a pair: missing (what the column is called in the error), or
/// there, as read and as it goes to the number parser (trimmed, with `,` as
/// the decimal point of some European instruments turned into `.`).
#[derive(Debug, Clone, PartialEq, Eq)]
pub enum Celda {
    Falta(String),
    Hay { crudo: String, limpio: String },
}

pub enum CeldaV {
    Falta(Seq<char>),
    Hay(Seq<char>, Seq<char>),
}

impl Celda {
    pub open spec fn vista(&self) -> CeldaV {
        match self {
            Celda::Falta(m) => CeldaV::Falta(m@),
            Celda::Hay { crudo, limpio } => CeldaV::Hay(crudo@, limpio@),
        }
    }
}

/// A row of data: its position among the data rows, and its two cells.
#[derive(Debug, Clone)]
pub struct ParXY {
    pub fila: usize,
    pub x: Celda,
    pub y: Celda,
}

/// `,` turned into `.`.
pub open spec fn con_punto(s: Seq<char>) -> Seq<char> {
    s.map_values(|c: char| if c == ',' { '.' } else { c })
}

/// The cell `idx` of a record, for the axis `cual`.
pub open spec fn celda_de(r: Seq<Seq<char>>, idx: int, cual: Seq<char>) -> CeldaV {
    if 0 <= idx < r.len() {
        CeldaV::Hay(r[idx], con_punto(recortado(r[idx])))
    } else {
        CeldaV::Falta(cual + " (índice "@ + crate::tools::cifras(idx as nat) + ")"@)
    }
}

/// The index of a column (`Err` with its name where it is not found).
pub open spec fn resuelta(col: ColumnRef, header: Option<Seq<Seq<char>>>) -> Result<int, Seq<char>> {
    match col {
        ColumnRef::Index(i) => Ok(i as int),
        ColumnRef::Name(n) => match header {
            None => Err(n@),
            Some(h) => match posicion_en(h, n@) {
                Some(k) => Ok(k),
                None => Err(n@),
            },
        },
    }
}

/// A record whose every cell is blank (the empty rows at the end of an
/// instrument's CSV).
pub open spec fn vacia(r: Seq<Seq<char>>) -> bool {
    forall|k: int| 0 <= k < r.len() ==> todo_blanco(#[trigger] r[k])
}

/// The pairs of the data rows from `i`, `i` being their position.
pub open spec fn pares_desde(datos: Seq<Seq<Seq<char>>>, i: int, x: int, y: int) -> Seq<(int, CeldaV, CeldaV)>
    decreases datos.len() - i,
{
    if i < 0 || i >= datos.len() {
        Seq::empty()
    } else if vacia(datos[i]) {
        pares_desde(datos, i + 1, x, y)
    } else {
        seq![(i, celda_de(datos[i], x, "x"@), celda_de(datos[i], y, "y"@))] + pares_desde(datos, i + 1, x, y)
    }
}

/// What importing a CSV's text gives before the numbers are read: `None`
/// where the records cannot be read; the name of a column that is not found;
/// else the pairs of the data rows. Columns asked for by name make the first
/// record the header; otherwise a first record that looks like one is
/// skipped. Blank rows are skipped.
pub open spec fn lectura_xy(texto: Seq<char>, opts: CsvImportOptions) -> Option<Result<Seq<(int, CeldaV, CeldaV)>, Seq<char>>> {
    let ls = tras_saltar(texto, opts.skip_rows);
    match registros_csv(unidas(ls), delimitador_usado(ls, opts.delimiter)) {
        None => None,
        Some(rs) => if rs.len() == 0 {
            Some(Ok(Seq::empty()))
        } else {
            let por_nombre = opts.x_col is Name || opts.y_col is Name;
            let header = if por_nombre { Some(rs[0]) } else { None };
            let datos = if por_nombre { rs.drop_first() } else { rs };
            match (resuelta(opts.x_col, header), resuelta(opts.y_col, header)) {
                (Err(n), _) => Some(Err(n)),
                (Ok(_), Err(n)) => Some(Err(n)),
                (Ok(x), Ok(y)) => {
                    let datos = if !por_nombre && datos.len() > 0 && (no_numerica(datos[0], x) || no_numerica(datos[0], y)) {
                        datos.drop_first()
                    } else {
                        datos
                    };
                    Some(Ok(pares_desde(datos, 0, x, y)))
                },
            }
        },
    }
}

pub open spec fn vista_pares(v: Seq<ParXY>) -> Seq<(int, CeldaV, CeldaV)> {
    v.map_values(|p: ParXY| (p.fila as int, p.x.vista(), p.y.vista()))
}

fn celda(r: &Vec<String>, idx: usize, cual: &str) -> (c: Celda)
    ensures
        c.vista() == celda_de(textos(r@), idx as int, cual@),
{
    if idx < r.len() {
        let t = recortar(&caracteres(r[idx].as_str()));
        let mut l: Vec<char> = Vec::new();
        let mut k: usize = 0;
        while k < t.len()
            invariant
                k <= t@.len(),
                l@ == con_punto(t@.take(k as int)),
            decreases t@.len() - k,
        {
            l.push(if t[k] == ',' { '.' } else { t[k] });
            k = k + 1;
            assert(l@ =~= con_punto(t@.take(k as int)));
        }
        assert(t@.take(t@.len() as int) =~= t@);
        assert(textos(r@)[idx as int] == r@[idx as int]@);
        Celda::Hay { crudo: r[idx].clone(), limpio: cadena(&l) }
    } else {
        let mut m = caracteres(cual);
        agregar(&mut m, &caracteres(" (índice "));
        agregar(&mut m, &crate::tools::en_cifras(idx));
        agregar(&mut m, &caracteres(")"));
        Celda::Falta(cadena(&m))
    }
}

fn es_vacia(r: &Vec<String>) -> (b: bool)
    ensures
        b == vacia(textos(r@)),
{
    let mut k: usize = 0;
    while k < r.len()
        invariant
            k <= r@.len(),
            forall|j: int| 0 <= j < k ==> todo_blanco(#[trigger] textos(r@)[j]),
        decreases r@.len() - k,
    {
        assert(textos(r@)[k as int] == r@[k as int]@);
        if !es_todo_blanco(&caracteres(r[k].as_str())) {
            return false;
        }
        k = k + 1;
    }
    true
}

/// The pairs of a CSV's decoded text, before the numbers are read: the
/// program reads each cleaned cell as an `f64`, and a missing cell is a
/// `ColumnNotFound` with the name the cell carries.
pub fn celdas_xy(text: &str, opts: &CsvImportOptions) -> (r: Result<Vec<ParXY>, DataError>)
    ensures
        match (r, lectura_xy(text@, *opts)) {
            (Ok(v), Some(Ok(p))) => vista_pares(v@) == p,
            (Err(DataError::ColumnNotFound(m)), Some(Err(n))) => m@ == n,
            (Err(DataError::Csv(_)), None) => true,
            _ => false,
        },
{
    let lines = lines_after_skip(text, opts.skip_rows);
    let delimiter = match opts.delimiter {
        Some(d) => d,
        None => {
            let primera = primera_linea_con_datos(&lines);
            sniff_delimiter(cadena(&primera).as_str())
        },
    };
    let joined = cadena(&unir_lineas(&lines));
    let mut records = match read_records(joined.as_str(), delimiter) {
        Ok(v) => v,
        Err(e) => return Err(e),
    };
    let ghost rs = filas(records@);
    if records.len() == 0 {
        assert(vista_pares(Seq::<ParXY>::empty()) =~= Seq::<(int, CeldaV, CeldaV)>::empty());
        return Ok(Vec::new());
    }
    let por_nombre = matches!(opts.x_col, ColumnRef::Name(_)) || matches!(opts.y_col, ColumnRef::Name(_));
    let header: Option<Vec<String>> = if por_nombre {
        Some(records.remove(0))
    } else {
        None
    };
    proof {
        if por_nombre {
            assert(filas(records@) =~= rs.drop_first());
        }
    }
    let x = match resolve_column(&opts.x_col, match &header { Some(h) => Some(h.as_slice()), None => None }) {
        Ok(i) => i,
        Err(e) => return Err(e),
    };
    let y = match resolve_column(&opts.y_col, match &header { Some(h) => Some(h.as_slice()), None => None }) {
        Ok(i) => i,
        Err(e) => return Err(e),
    };
    if !por_nombre && records.len() > 0 && looks_like_header(records[0].as_slice(), x, y) {
        let ghost antes = filas(records@);
        records.remove(0);
        assert(filas(records@) =~= antes.drop_first());
    }
    let ghost datos = filas(records@);
    let mut out: Vec<ParXY> = Vec::new();
    let mut i: usize = 0;
    while i < records.len()
        invariant
            i <= records@.len(),
            datos == filas(records@),
            vista_pares(out@) + pares_desde(datos, i as int, x as int, y as int) == pares_desde(datos, 0, x as int, y as int),
        decreases records@.len() - i,
    {
        assert(datos[i as int] == textos(records@[i as int]@));
        if !es_vacia(&records[i]) {
            let par = ParXY { fila: i, x: celda(&records[i], x, "x"), y: celda(&records[i], y, "y") };
            let ghost antes = vista_pares(out@);
            out.push(par);
            assert(vista_pares(out@) =~= antes.push((i as int, par.x.vista(), par.y.vista())));
            assert(vista_pares(out@) + pares_desde(datos, i + 1, x as int, y as int) =~= antes + pares_desde(
                datos,
                i as int,
                x as int,
                y as int,
            ));
        }
        i = i + 1;
    }
    assert(vista_pares(out@) =~= vista_pares(out@) + pares_desde(datos, i as int, x as int, y as int));
    Ok(out)
}

} // verus!
