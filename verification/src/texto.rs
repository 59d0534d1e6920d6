//! Text helpers shared by the parsers: characters, blanks, case and decimal
//! numbers.
//!
//! The parsers of the library work on the characters of a text (`Vec<char>`,
//! whose view is the `Seq<char>` of the text). The Unicode tables that std
//! carries (what is a letter, what is blank, how a letter is lowercased) are
//! reached through the small trusted wrappers at the end of this file.
use vstd::prelude::*;

verus! {

broadcast use vstd::string::group_string_axioms;

// ---------------------------------------------------------------------------
// Characters
// ---------------------------------------------------------------------------

/// An ASCII letter.
pub open spec fn es_letra_ascii(c: char) -> bool {
    ('a' <= c && c <= 'z') || ('A' <= c && c <= 'Z')
}

/// An ASCII decimal digit.
pub open spec fn es_digito(c: char) -> bool {
    '0' <= c && c <= '9'
}

/// An ASCII letter or digit.
pub open spec fn es_alnum_ascii(c: char) -> bool {
    es_letra_ascii(c) || es_digito(c)
}

/// `char::to_ascii_lowercase`: ASCII uppercase letters go to lowercase.
pub open spec fn minuscula_ascii(c: char) -> char {
    if 'A' <= c && c <= 'Z' {
        ((c as u32) + 32) as char
    } else {
        c
    }
}

/// `char::to_ascii_lowercase`.
pub fn a_minuscula_ascii(c: char) -> (r: char)
    ensures
        r == minuscula_ascii(c),
{
    if 'A' <= c && c <= 'Z' {
        let v: u8 = (c as u32 + 32) as u8;
        assert(v as u32 == c as u32 + 32);
        v as char
    } else {
        c
    }
}

pub fn letra_ascii(c: char) -> (b: bool)
    ensures
        b == es_letra_ascii(c),
{
    ('a' <= c && c <= 'z') || ('A' <= c && c <= 'Z')
}

pub fn digito(c: char) -> (b: bool)
    ensures
        b == es_digito(c),
{
    '0' <= c && c <= '9'
}

/// The characters of a string slice, in order.
pub fn caracteres(s: &str) -> (v: Vec<char>)
    ensures
        v@ == s@,
{
    let mut v: Vec<char> = Vec::new();
    for c in it: s.chars()
        invariant
            v@ == it.seq().take(it.index() as int),
            it.seq() == s@,
    {
        v.push(c);
    }
    v
}

/// Two character sequences are equal.
pub fn iguales(a: &[char], b: &[char]) -> (r: bool)
    ensures
        r == (a@ == b@),
{
    if a.len() != b.len() {
        return false;
    }
    let mut i: usize = 0;
    while i < a.len()
        invariant
            a@.len() == b@.len(),
            i <= a@.len(),
            forall|k: int| 0 <= k < i ==> a@[k] == b@[k],
        decreases a@.len() - i,
    {
        if a[i] != b[i] {
            return false;
        }
        i = i + 1;
    }
    assert(a@ =~= b@);
    true
}

/// `s` starts with `p` at position `i`.
pub open spec fn aparece_en(s: Seq<char>, i: int, p: Seq<char>) -> bool {
    0 <= i && i + p.len() <= s.len() && s.subrange(i, i + p.len()) == p
}

pub fn aparece(s: &[char], i: usize, p: &[char]) -> (r: bool)
    ensures
        r == aparece_en(s@, i as int, p@),
{
    if i > s.len() || p.len() > s.len() - i {
        return false;
    }
    let mut k: usize = 0;
    while k < p.len()
        invariant
            i + p@.len() <= s@.len(),
            s@.len() == s.len(),
            k <= p@.len(),
            forall|j: int| 0 <= j < k ==> s@[i + j] == p@[j],
        decreases p@.len() - k,
    {
        if s[i + k] != p[k] {
            assert(s@.subrange(i as int, i + p@.len())[k as int] != p@[k as int]);
            return false;
        }
        k = k + 1;
    }
    assert(s@.subrange(i as int, i + p@.len()) =~= p@);
    true
}

/// `p` occurs somewhere in `s` (`str::contains` with a string pattern).
pub open spec fn contiene(s: Seq<char>, p: Seq<char>) -> bool {
    exists|i: int| #[trigger] aparece_en(s, i, p)
}

pub fn contiene_texto(s: &[char], p: &[char]) -> (r: bool)
    ensures
        r == contiene(s@, p@),
{
    let mut i: usize = 0;
    while i < s.len()
        invariant
            i <= s@.len(),
            forall|k: int| 0 <= k < i ==> !aparece_en(s@, k, p@),
        decreases s@.len() - i,
    {
        if aparece(s, i, p) {
            return true;
        }
        i = i + 1;
    }
    if aparece(s, s.len(), p) {
        return true;
    }
    assert forall|k: int| !aparece_en(s@, k, p@) by {
        if 0 <= k < i {
        }
    }
    false
}

/// `p` is a prefix of `s`.
pub open spec fn empieza_con(s: Seq<char>, p: Seq<char>) -> bool {
    aparece_en(s, 0, p)
}

/// `c` occurs in `s`.
pub fn contiene_char(s: &[char], c: char) -> (r: bool)
    ensures
        r == s@.contains(c),
{
    let mut i: usize = 0;
    while i < s.len()
        invariant
            i <= s@.len(),
            forall|k: int| 0 <= k < i ==> s@[k] != c,
        decreases s@.len() - i,
    {
        if s[i] == c {
            return true;
        }
        i = i + 1;
    }
    false
}

/// The characters `s[a..b]`.
pub fn tramo(s: &[char], a: usize, b: usize) -> (r: Vec<char>)
    requires
        a <= b <= s@.len(),
    ensures
        r@ == s@.subrange(a as int, b as int),
{
    let mut r: Vec<char> = Vec::new();
    let mut i: usize = a;
    while i < b
        invariant
            a <= i <= b <= s@.len(),
            r@ == s@.subrange(a as int, i as int),
        decreases b - i,
    {
        r.push(s[i]);
        i = i + 1;
        assert(r@ =~= s@.subrange(a as int, i as int));
    }
    r
}

/// Appends the characters of `b` to `a`.
pub fn agregar(a: &mut Vec<char>, b: &[char])
    ensures
        final(a)@ == old(a)@ + b@,
{
    let ghost inicial = a@;
    let mut i: usize = 0;
    while i < b.len()
        invariant
            i <= b@.len(),
            a@ == inicial + b@.take(i as int),
        decreases b@.len() - i,
    {
        a.push(b[i]);
        i = i + 1;
        assert(a@ =~= inicial + b@.take(i as int));
    }
    assert(b@.take(b@.len() as int) =~= b@);
}

/// How many times `c` occurs in `s`.
pub open spec fn cuenta(s: Seq<char>, c: char) -> nat
    decreases s.len(),
{
    if s.len() == 0 {
        0
    } else {
        cuenta(s.drop_last(), c) + if s.last() == c { 1nat } else { 0nat }
    }
}

pub proof fn lema_cuenta_concat(a: Seq<char>, b: Seq<char>, c: char)
    ensures
        cuenta(a + b, c) == cuenta(a, c) + cuenta(b, c),
    decreases b.len(),
{
    if b.len() == 0 {
        assert(a + b =~= a);
    } else {
        lema_cuenta_concat(a, b.drop_last(), c);
        assert((a + b).drop_last() =~= a + b.drop_last());
    }
}

pub proof fn lema_cuenta_cota(s: Seq<char>, c: char)
    ensures
        cuenta(s, c) <= s.len(),
    decreases s.len(),
{
    if s.len() > 0 {
        lema_cuenta_cota(s.drop_last(), c);
    }
}

/// Counts `c` in `s[a..b]`.
pub fn contar(s: &[char], a: usize, b: usize, c: char) -> (n: usize)
    requires
        a <= b <= s@.len(),
    ensures
        n == cuenta(s@.subrange(a as int, b as int), c),
{
    let mut n: usize = 0;
    let mut i: usize = a;
    while i < b
        invariant
            a <= i <= b <= s@.len(),
            n == cuenta(s@.subrange(a as int, i as int), c),
            n <= i - a,
        decreases b - i,
    {
        proof {
            assert(s@.subrange(a as int, i + 1).drop_last() =~= s@.subrange(a as int, i as int));
        }
        if s[i] == c {
            n = n + 1;
        }
        i = i + 1;
    }
    n
}

// ---------------------------------------------------------------------------
// Blanks
// ---------------------------------------------------------------------------

/// `s` without the blanks at its start.
pub open spec fn sin_blancos_izq(s: Seq<char>) -> Seq<char>
    decreases s.len(),
{
    if s.len() > 0 && es_blanco(s[0]) {
        sin_blancos_izq(s.drop_first())
    } else {
        s
    }
}

/// `s` without the blanks at its end.
pub open spec fn sin_blancos_der(s: Seq<char>) -> Seq<char>
    decreases s.len(),
{
    if s.len() > 0 && es_blanco(s.last()) {
        sin_blancos_der(s.drop_last())
    } else {
        s
    }
}

/// `str::trim`: the text without the blanks at both ends.
pub open spec fn recortado(s: Seq<char>) -> Seq<char> {
    sin_blancos_der(sin_blancos_izq(s))
}

proof fn lema_izq_sin_blanco(s: Seq<char>)
    ensures
        sin_blancos_izq(s).len() > 0 ==> !es_blanco(sin_blancos_izq(s)[0]),
    decreases s.len(),
{
    if s.len() > 0 && es_blanco(s[0]) {
        lema_izq_sin_blanco(s.drop_first());
    }
}

proof fn lema_der_sin_blanco(s: Seq<char>)
    ensures
        sin_blancos_der(s).len() <= s.len(),
        forall|k: int| 0 <= k < sin_blancos_der(s).len() ==> sin_blancos_der(s)[k] == s[k],
        sin_blancos_der(s).len() > 0 ==> !es_blanco(sin_blancos_der(s).last()),
    decreases s.len(),
{
    if s.len() > 0 && es_blanco(s.last()) {
        lema_der_sin_blanco(s.drop_last());
        assert forall|k: int| 0 <= k < sin_blancos_der(s).len() implies sin_blancos_der(s)[k] == s[k] by {
            assert(s.drop_last()[k] == s[k]);
        }
    }
}

/// A trimmed text that is not empty starts and ends with something other
/// than a blank.
pub proof fn lema_recortado_extremos(s: Seq<char>)
    ensures
        recortado(s).len() > 0 ==> !es_blanco(recortado(s)[0]) && !es_blanco(recortado(s).last()),
{
    lema_izq_sin_blanco(s);
    lema_der_sin_blanco(sin_blancos_izq(s));
}

proof fn lema_sin_blancos_izq_skip(s: Seq<char>, i: int)
    requires
        0 <= i <= s.len(),
        forall|k: int| 0 <= k < i ==> es_blanco(s[k]),
        i == s.len() || !es_blanco(s[i]),
    ensures
        sin_blancos_izq(s) == s.subrange(i, s.len() as int),
    decreases i,
{
    if i == 0 {
        assert(s.subrange(0, s.len() as int) =~= s);
    } else {
        assert(s.drop_first().subrange(i - 1, s.drop_first().len() as int) =~= s.subrange(i, s.len() as int));
        lema_sin_blancos_izq_skip(s.drop_first(), i - 1);
    }
}

proof fn lema_sin_blancos_der_take(s: Seq<char>, j: int)
    requires
        0 <= j <= s.len(),
        forall|k: int| j <= k < s.len() ==> es_blanco(s[k]),
        j == 0 || !es_blanco(s[j - 1]),
    ensures
        sin_blancos_der(s) == s.take(j),
    decreases s.len() - j,
{
    if j == s.len() {
        assert(s.take(j) =~= s);
    } else {
        assert(s.drop_last().take(j) =~= s.take(j));
        lema_sin_blancos_der_take(s.drop_last(), j);
    }
}

/// `str::trim` on characters.
pub fn recortar(s: &[char]) -> (r: Vec<char>)
    ensures
        r@ == recortado(s@),
{
    let mut i: usize = 0;
    while i < s.len() && es_espacio(s[i])
        invariant
            i <= s@.len(),
            forall|k: int| 0 <= k < i ==> es_blanco(s@[k]),
        decreases s@.len() - i,
    {
        i = i + 1;
    }
    proof {
        lema_sin_blancos_izq_skip(s@, i as int);
    }
    let mut j: usize = s.len();
    while j > i && es_espacio(s[j - 1])
        invariant
            i <= j <= s@.len(),
            forall|k: int| j <= k < s@.len() ==> es_blanco(s@[k]),
        decreases j,
    {
        j = j - 1;
    }
    proof {
        let t = s@.subrange(i as int, s@.len() as int);
        assert forall|k: int| j - i <= k < t.len() implies es_blanco(t[k]) by {
            assert(t[k] == s@[k + i]);
        }
        if j > i {
            assert(t[j - i - 1] == s@[j - 1]);
        }
        lema_sin_blancos_der_take(t, j - i);
        assert(t.take(j - i) =~= s@.subrange(i as int, j as int));
    }
    tramo(s, i, j)
}

/// `s` has no character that is not blank.
pub open spec fn todo_blanco(s: Seq<char>) -> bool {
    forall|k: int| 0 <= k < s.len() ==> es_blanco(#[trigger] s[k])
}

pub fn es_todo_blanco(s: &[char]) -> (r: bool)
    ensures
        r == todo_blanco(s@),
{
    let mut i: usize = 0;
    while i < s.len()
        invariant
            i <= s@.len(),
            forall|k: int| 0 <= k < i ==> es_blanco(s@[k]),
        decreases s@.len() - i,
    {
        if !es_espacio(s[i]) {
            return false;
        }
        i = i + 1;
    }
    true
}

/// The words of `s` (split at blanks), joined with one space: what
/// `s.split_whitespace().collect::<Vec<_>>().join(" ")` gives.
pub open spec fn colapsado(s: Seq<char>) -> Seq<char>
    decreases s.len(),
{
    if s.len() == 0 {
        Seq::empty()
    } else {
        let p = colapsado(s.drop_last());
        let c = s.last();
        if es_blanco(c) {
            p
        } else if s.len() >= 2 && es_blanco(s[s.len() - 2]) && p.len() > 0 {
            p.push(' ').push(c)
        } else {
            p.push(c)
        }
    }
}

pub fn colapsar(s: &[char]) -> (r: Vec<char>)
    ensures
        r@ == colapsado(s@),
{
    let mut r: Vec<char> = Vec::new();
    let mut i: usize = 0;
    while i < s.len()
        invariant
            i <= s@.len(),
            r@ == colapsado(s@.take(i as int)),
        decreases s@.len() - i,
    {
        let c = s[i];
        proof {
            assert(s@.take(i + 1).drop_last() =~= s@.take(i as int));
        }
        if !es_espacio(c) {
            if i >= 1 && es_espacio(s[i - 1]) && r.len() > 0 {
                r.push(' ');
            }
            r.push(c);
        }
        i = i + 1;
    }
    assert(s@.take(s@.len() as int) =~= s@);
    r
}

// ---------------------------------------------------------------------------
// Decimal numbers
// ---------------------------------------------------------------------------

/// All characters are ASCII digits.
pub open spec fn son_digitos(s: Seq<char>) -> bool {
    forall|k: int| 0 <= k < s.len() ==> es_digito(#[trigger] s[k])
}

/// The value of a run of decimal digits.
pub open spec fn valor_decimal(s: Seq<char>) -> nat
    decreases s.len(),
{
    if s.len() == 0 {
        0
    } else {
        valor_decimal(s.drop_last()) * 10 + ((s.last() as u32) - ('0' as u32)) as nat
    }
}

/// The magnitude part of an unsigned integer in std's `FromStr` syntax: an
/// optional `+` and then at least one digit.
pub open spec fn digitos_sin_signo(s: Seq<char>) -> Seq<char> {
    if s.len() > 0 && s[0] == '+' {
        s.drop_first()
    } else {
        s
    }
}

/// What `<integer>::from_str` accepts for an unsigned value no larger than `tope`:
/// an optional `+`, one or more ASCII digits and nothing else, with a value
/// that fits.
pub open spec fn natural_de(s: Seq<char>, tope: nat) -> Option<nat> {
    let d = digitos_sin_signo(s);
    if d.len() > 0 && son_digitos(d) && valor_decimal(d) <= tope {
        Some(valor_decimal(d))
    } else {
        None
    }
}

/// `s.parse::<u64>()`, with `Err` as `None`.
pub open spec fn u64_de(s: Seq<char>) -> Option<u64> {
    match natural_de(s, u64::MAX as nat) {
        Some(n) => Some(n as u64),
        None => None,
    }
}

/// `s.parse::<u32>()`, with `Err` as `None`.
pub open spec fn u32_de(s: Seq<char>) -> Option<u32> {
    match natural_de(s, u32::MAX as nat) {
        Some(n) => Some(n as u32),
        None => None,
    }
}

/// `s.parse::<usize>()`, with `Err` as `None`.
pub open spec fn usize_de(s: Seq<char>) -> Option<usize> {
    match natural_de(s, usize::MAX as nat) {
        Some(n) => Some(n as usize),
        None => None,
    }
}

/// `s.parse::<i64>()`, with `Err` as `None`: an optional sign, then digits.
pub open spec fn i64_de(s: Seq<char>) -> Option<i64> {
    if s.len() > 0 && s[0] == '-' {
        let d = s.drop_first();
        if d.len() > 0 && son_digitos(d) && valor_decimal(d) <= 0x8000_0000_0000_0000 {
            Some((0 - valor_decimal(d)) as i64)
        } else {
            None
        }
    } else {
        match natural_de(s, i64::MAX as nat) {
            Some(n) => Some(n as i64),
            None => None,
        }
    }
}

proof fn lema_valor_monotono(s: Seq<char>, i: int)
    requires
        0 <= i <= s.len(),
        son_digitos(s),
    ensures
        valor_decimal(s.take(i)) <= valor_decimal(s),
    decreases s.len() - i,
{
    if i < s.len() {
        assert(s.drop_last().take(i) =~= s.take(i));
        assert forall|k: int| 0 <= k < s.drop_last().len() implies es_digito(#[trigger] s.drop_last()[k]) by {
            assert(s.drop_last()[k] == s[k]);
        }
        lema_valor_monotono(s.drop_last(), i);
        assert(valor_decimal(s) >= valor_decimal(s.drop_last()));
    } else {
        assert(s.take(i) =~= s);
    }
}

/// Reads the digits of `s[a..]` as a number, refusing values above `tope`.
fn leer_digitos(s: &[char], a: usize, tope: u64) -> (r: Option<u64>)
    requires
        a <= s@.len(),
        tope >= 10,
    ensures
        ({
            let d = s@.subrange(a as int, s@.len() as int);
            r == if d.len() > 0 && son_digitos(d) && valor_decimal(d) <= tope {
                Some(valor_decimal(d) as u64)
            } else {
                None::<u64>
            }
        }),
{
    let ghost d = s@.subrange(a as int, s@.len() as int);
    if a == s.len() {
        return None;
    }
    let mut v: u64 = 0;
    let mut i: usize = a;
    while i < s.len()
        invariant
            a <= i <= s@.len(),
            d == s@.subrange(a as int, s@.len() as int),
            son_digitos(d.take(i - a)),
            v == valor_decimal(d.take(i - a)),
            v <= tope,
            tope >= 10,
        decreases s@.len() - i,
    {
        let c = s[i];
        proof {
            assert(d.take(i - a + 1).drop_last() =~= d.take(i - a));
            assert(d.take(i - a + 1).last() == c);
        }
        if !digito(c) {
            proof {
                assert(d[i - a] == c);
            }
            return None;
        }
        let dig: u64 = (c as u32 - '0' as u32) as u64;
        if v > (tope - dig) / 10 {
            proof {
                assert(son_digitos(d.take(i - a + 1)));
                assert(valor_decimal(d.take(i - a + 1)) > tope) by (nonlinear_arith)
                    requires
                        valor_decimal(d.take(i - a + 1)) == v * 10 + dig,
                        v > (tope - dig) / 10,
                        dig <= tope || true,
                        dig <= 9;
                if son_digitos(d) {
                    lema_valor_monotono(d, i - a + 1);
                }
            }
            return None;
        }
        proof {
            assert(v * 10 + dig <= tope) by (nonlinear_arith)
                requires
                    v <= (tope - dig) / 10,
                    dig <= 9,
                    dig <= tope;
        }
        v = v * 10 + dig;
        i = i + 1;
        proof {
            assert(son_digitos(d.take(i - a)));
        }
    }
    assert(d.take(i - a) =~= d);
    Some(v)
}

/// `s.parse::<u64>()` on characters.
pub fn leer_u64(s: &[char]) -> (r: Option<u64>)
    ensures
        r == u64_de(s@),
{
    if s.len() > 0 && s[0] == '+' {
        assert(s@.subrange(1, s@.len() as int) =~= s@.drop_first());
        leer_digitos(s, 1, u64::MAX)
    } else {
        assert(s@.subrange(0, s@.len() as int) =~= s@);
        leer_digitos(s, 0, u64::MAX)
    }
}

/// `s.parse::<u32>()` on characters.
pub fn leer_u32(s: &[char]) -> (r: Option<u32>)
    ensures
        r == u32_de(s@),
{
    let a: usize = if s.len() > 0 && s[0] == '+' { 1 } else { 0 };
    if a == 1 {
        assert(s@.subrange(1, s@.len() as int) =~= s@.drop_first());
    } else {
        assert(s@.subrange(0, s@.len() as int) =~= s@);
    }
    match leer_digitos(s, a, 0xffff_ffff) {
        Some(v) => Some(v as u32),
        None => None,
    }
}

/// `s.parse::<usize>()` on characters.
pub fn leer_usize(s: &[char]) -> (r: Option<usize>)
    ensures
        r == usize_de(s@),
{
    let a: usize = if s.len() > 0 && s[0] == '+' { 1 } else { 0 };
    if a == 1 {
        assert(s@.subrange(1, s@.len() as int) =~= s@.drop_first());
    } else {
        assert(s@.subrange(0, s@.len() as int) =~= s@);
    }
    let tope: u64 = usize::MAX as u64;
    match leer_digitos(s, a, tope) {
        Some(v) => Some(v as usize),
        None => None,
    }
}

/// `s.parse::<i64>()` on characters.
pub fn leer_i64(s: &[char]) -> (r: Option<i64>)
    ensures
        r == i64_de(s@),
{
    if s.len() > 0 && s[0] == '-' {
        assert(s@.subrange(1, s@.len() as int) =~= s@.drop_first());
        match leer_digitos(s, 1, 0x8000_0000_0000_0000) {
            Some(v) => if v == 0x8000_0000_0000_0000 {
                Some(i64::MIN)
            } else {
                Some(0 - (v as i64))
            },
            None => None,
        }
    } else {
        let a: usize = if s.len() > 0 && s[0] == '+' { 1 } else { 0 };
        if a == 1 {
            assert(s@.subrange(1, s@.len() as int) =~= s@.drop_first());
        } else {
            assert(s@.subrange(0, s@.len() as int) =~= s@);
        }
        match leer_digitos(s, a, 0x7fff_ffff_ffff_ffff) {
            Some(v) => Some(v as i64),
            None => None,
        }
    }
}

// ---------------------------------------------------------------------------
// Lines and words
// ---------------------------------------------------------------------------

/// The characters of each entry.
pub open spec fn vistas(v: Seq<Vec<char>>) -> Seq<Seq<char>> {
    v.map_values(|x: Vec<char>| x@)
}

/// The first position at or after `i` that holds `c`, or the end.
pub open spec fn hasta(t: Seq<char>, i: int, c: char) -> int
    decreases t.len() - i,
{
    if 0 <= i < t.len() && t[i] != c {
        hasta(t, i + 1, c)
    } else {
        i
    }
}

pub proof fn lema_hasta(t: Seq<char>, i: int, c: char)
    requires
        0 <= i <= t.len(),
    ensures
        i <= hasta(t, i, c) <= t.len(),
        forall|k: int| i <= k < hasta(t, i, c) ==> #[trigger] t[k] != c,
        hasta(t, i, c) == t.len() || t[hasta(t, i, c)] == c,
    decreases t.len() - i,
{
    if i < t.len() && t[i] != c {
        lema_hasta(t, i + 1, c);
    }
}

pub fn hasta_exec(t: &[char], i: usize, c: char) -> (j: usize)
    requires
        i <= t@.len(),
    ensures
        j == hasta(t@, i as int, c),
        i <= j <= t@.len(),
{
    let mut j = i;
    while j < t.len() && t[j] != c
        invariant
            i <= j <= t@.len(),
            hasta(t@, j as int, c) == hasta(t@, i as int, c),
        decreases t@.len() - j,
    {
        j = j + 1;
    }
    j
}

/// A line without the `\r` that a `\r\n` ending leaves.
pub open spec fn sin_retorno(s: Seq<char>) -> Seq<char> {
    if s.len() > 0 && s.last() == '\r' {
        s.drop_last()
    } else {
        s
    }
}

/// The lines of `s` from position `i`, as `str::lines` gives them: split at
/// `\n`, a `\r` before the `\n` dropped, and no empty line after a final `\n`.
pub open spec fn lineas_desde(s: Seq<char>, i: int) -> Seq<Seq<char>>
    decreases s.len() - i,
{
    if i < 0 || i >= s.len() {
        Seq::empty()
    } else {
        let j = hasta(s, i, '\n');
        if j < i || j > s.len() {
            Seq::empty()
        } else if j < s.len() {
            seq![sin_retorno(s.subrange(i, j))] + lineas_desde(s, j + 1)
        } else {
            seq![s.subrange(i, j)]
        }
    }
}

/// `str::lines`.
pub open spec fn lineas(s: Seq<char>) -> Seq<Seq<char>> {
    lineas_desde(s, 0)
}

/// `str::lines` on characters.
pub fn partir_lineas(s: &[char]) -> (r: Vec<Vec<char>>)
    ensures
        vistas(r@) == lineas(s@),
{
    let mut r: Vec<Vec<char>> = Vec::new();
    let mut i: usize = 0;
    while i < s.len()
        invariant
            i <= s@.len(),
            vistas(r@) + lineas_desde(s@, i as int) == lineas(s@),
        decreases s@.len() - i,
    {
        let j = hasta_exec(s, i, '\n');
        let ghost antes = vistas(r@);
        if j < s.len() {
            let mut linea = tramo(s, i, j);
            if linea.len() > 0 && linea[linea.len() - 1] == '\r' {
                linea.pop();
            }
            proof {
                assert(linea@ == sin_retorno(s@.subrange(i as int, j as int)));
            }
            r.push(linea);
            proof {
                assert(vistas(r@) =~= antes.push(sin_retorno(s@.subrange(i as int, j as int))));
                assert(vistas(r@) + lineas_desde(s@, j + 1) =~= antes + lineas_desde(s@, i as int));
            }
            i = j + 1;
        } else {
            let linea = tramo(s, i, j);
            r.push(linea);
            proof {
                assert(vistas(r@) =~= antes.push(s@.subrange(i as int, j as int)));
                assert(vistas(r@) + lineas_desde(s@, j as int) =~= antes + lineas_desde(s@, i as int));
            }
            i = j;
        }
    }
    assert(vistas(r@) + lineas_desde(s@, i as int) =~= vistas(r@));
    r
}

/// The end of the run of characters that are not blank, from `i`.
pub open spec fn fin_palabra(t: Seq<char>, i: int) -> int
    decreases t.len() - i,
{
    if 0 <= i < t.len() && !es_blanco(t[i]) {
        fin_palabra(t, i + 1)
    } else {
        i
    }
}

/// The first position at or after `i` that is not blank, or the end.
pub open spec fn salta_blancos(t: Seq<char>, i: int) -> int
    decreases t.len() - i,
{
    if 0 <= i < t.len() && es_blanco(t[i]) {
        salta_blancos(t, i + 1)
    } else {
        i
    }
}

pub proof fn lema_fin_palabra(t: Seq<char>, i: int)
    requires
        0 <= i <= t.len(),
    ensures
        i <= fin_palabra(t, i) <= t.len(),
    decreases t.len() - i,
{
    if i < t.len() && !es_blanco(t[i]) {
        lema_fin_palabra(t, i + 1);
    }
}

pub proof fn lema_salta_blancos(t: Seq<char>, i: int)
    requires
        0 <= i <= t.len(),
    ensures
        i <= salta_blancos(t, i) <= t.len(),
        salta_blancos(t, i) == t.len() || !es_blanco(t[salta_blancos(t, i)]),
    decreases t.len() - i,
{
    if i < t.len() && es_blanco(t[i]) {
        lema_salta_blancos(t, i + 1);
    }
}

/// The words of `s` from position `i`, as `str::split_whitespace` gives them.
pub open spec fn palabras_desde(s: Seq<char>, i: int) -> Seq<Seq<char>>
    decreases s.len() - i,
{
    let a = salta_blancos(s, i);
    if i < 0 || a < i || a >= s.len() {
        Seq::empty()
    } else {
        let b = fin_palabra(s, a);
        if b <= a || b > s.len() {
            Seq::empty()
        } else {
            seq![s.subrange(a, b)] + palabras_desde(s, b)
        }
    }
}

/// `str::split_whitespace`.
pub open spec fn palabras(s: Seq<char>) -> Seq<Seq<char>> {
    palabras_desde(s, 0)
}

/// `str::split_whitespace` on characters.
pub fn partir_palabras(s: &[char]) -> (r: Vec<Vec<char>>)
    ensures
        vistas(r@) == palabras(s@),
{
    let mut r: Vec<Vec<char>> = Vec::new();
    let mut i: usize = 0;
    while i < s.len()
        invariant
            i <= s@.len(),
            vistas(r@) + palabras_desde(s@, i as int) == palabras(s@),
        decreases s@.len() - i,
    {
        let ghost antes = vistas(r@);
        let mut a = i;
        while a < s.len() && es_espacio(s[a])
            invariant
                i <= a <= s@.len(),
                salta_blancos(s@, a as int) == salta_blancos(s@, i as int),
            decreases s@.len() - a,
        {
            a = a + 1;
        }
        if a >= s.len() {
            proof {
                assert(palabras_desde(s@, i as int) =~= Seq::<Seq<char>>::empty());
                assert(palabras_desde(s@, a as int) =~= Seq::<Seq<char>>::empty());
            }
            i = a;
        } else {
            let mut b = a;
            while b < s.len() && !es_espacio(s[b])
                invariant
                    a <= b <= s@.len(),
                    fin_palabra(s@, b as int) == fin_palabra(s@, a as int),
                decreases s@.len() - b,
            {
                b = b + 1;
            }
            r.push(tramo(s, a, b));
            proof {
                assert(vistas(r@) =~= antes.push(s@.subrange(a as int, b as int)));
                assert(palabras_desde(s@, i as int) == seq![s@.subrange(a as int, b as int)] + palabras_desde(s@, b as int));
                assert(vistas(r@) + palabras_desde(s@, b as int) =~= antes + palabras_desde(s@, i as int));
            }
            i = b;
        }
    }
    assert(vistas(r@) + palabras_desde(s@, i as int) =~= vistas(r@));
    r
}

// ---------------------------------------------------------------------------
// Splitting at a character
// ---------------------------------------------------------------------------

/// The pieces of `s` from `i`, as `str::split(c)` gives them: every piece
/// between two separators, empty ones too, and always a last piece.
pub open spec fn trozos_desde(s: Seq<char>, i: int, c: char) -> Seq<Seq<char>>
    decreases s.len() - i,
{
    if i < 0 || i > s.len() {
        Seq::empty()
    } else {
        let j = hasta(s, i, c);
        if j < i || j > s.len() {
            Seq::empty()
        } else if j < s.len() {
            seq![s.subrange(i, j)] + trozos_desde(s, j + 1, c)
        } else {
            seq![s.subrange(i, j)]
        }
    }
}

/// `str::split(c)`.
pub open spec fn trozos(s: Seq<char>, c: char) -> Seq<Seq<char>> {
    trozos_desde(s, 0, c)
}

/// The pieces that are not empty, in order.
pub open spec fn sin_vacios(ps: Seq<Seq<char>>) -> Seq<Seq<char>>
    decreases ps.len(),
{
    if ps.len() == 0 {
        Seq::empty()
    } else if ps.last().len() > 0 {
        sin_vacios(ps.drop_last()).push(ps.last())
    } else {
        sin_vacios(ps.drop_last())
    }
}

/// What comes before the first `c` (all of `s` if there is none).
pub open spec fn antes_de(s: Seq<char>, c: char) -> Seq<char> {
    s.subrange(0, hasta(s, 0, c))
}

/// What comes after the first `c` (nothing if there is none): with
/// `antes_de`, `str::split_once(c).unwrap_or((s, ""))`.
pub open spec fn despues_de(s: Seq<char>, c: char) -> Seq<char> {
    if hasta(s, 0, c) < s.len() {
        s.subrange(hasta(s, 0, c) + 1, s.len() as int)
    } else {
        Seq::empty()
    }
}

/// `str::split(c)` on characters.
pub fn partir_en(s: &[char], c: char) -> (r: Vec<Vec<char>>)
    ensures
        vistas(r@) == trozos(s@, c),
{
    let mut r: Vec<Vec<char>> = Vec::new();
    let mut i: usize = 0;
    let mut fin = false;
    while !fin
        invariant
            i <= s@.len(),
            !fin ==> vistas(r@) + trozos_desde(s@, i as int, c) == trozos(s@, c),
            fin ==> vistas(r@) == trozos(s@, c),
        decreases s@.len() - i + (if fin { 0int } else { 1int }),
    {
        let j = hasta_exec(s, i, c);
        proof {
            lema_hasta(s@, i as int, c);
        }
        let t = tramo(s, i, j);
        let ghost antes = vistas(r@);
        r.push(t);
        assert(vistas(r@) =~= antes.push(s@.subrange(i as int, j as int)));
        if j < s.len() {
            assert(vistas(r@) + trozos_desde(s@, j + 1, c) =~= antes + trozos_desde(s@, i as int, c));
            i = j + 1;
        } else {
            assert(vistas(r@) =~= antes + trozos_desde(s@, i as int, c));
            fin = true;
        }
    }
    r
}

/// Keeps the pieces that are not empty.
pub fn quitar_vacios(v: &Vec<Vec<char>>) -> (r: Vec<Vec<char>>)
    ensures
        vistas(r@) == sin_vacios(vistas(v@)),
{
    let ghost todos = vistas(v@);
    let mut r: Vec<Vec<char>> = Vec::new();
    let mut k: usize = 0;
    assert(todos.take(0) =~= Seq::<Seq<char>>::empty());
    while k < v.len()
        invariant
            k <= v@.len(),
            todos == vistas(v@),
            vistas(r@) == sin_vacios(todos.take(k as int)),
        decreases v@.len() - k,
    {
        assert(todos.take(k + 1).drop_last() =~= todos.take(k as int));
        assert(todos[k as int] == v@[k as int]@);
        if v[k].len() > 0 {
            let ghost antes = vistas(r@);
            let t = tramo(&v[k], 0, v[k].len());
            assert(t@ =~= v@[k as int]@);
            r.push(t);
            assert(vistas(r@) =~= antes.push(todos[k as int]));
        }
        k = k + 1;
    }
    assert(todos.take(todos.len() as int) =~= todos);
    r
}

/// `(antes_de(s, c), despues_de(s, c))` on characters.
pub fn partir_una_vez(s: &[char], c: char) -> (r: (Vec<char>, Vec<char>))
    ensures
        r.0@ == antes_de(s@, c),
        r.1@ == despues_de(s@, c),
{
    let j = hasta_exec(s, 0, c);
    let a = tramo(s, 0, j);
    if j < s.len() {
        (a, tramo(s, j + 1, s.len()))
    } else {
        (a, Vec::new())
    }
}

// ---------------------------------------------------------------------------
// The last occurrence of a character
// ---------------------------------------------------------------------------

/// The position of the last `c` among the first `n` characters, or -1.
pub open spec fn ultima_antes(s: Seq<char>, n: int, c: char) -> int
    decreases n,
{
    if n <= 0 || n > s.len() {
        -1
    } else if s[n - 1] == c {
        n - 1
    } else {
        ultima_antes(s, n - 1, c)
    }
}

/// The position of the last `c` in `s`, or -1.
pub open spec fn ultima(s: Seq<char>, c: char) -> int {
    ultima_antes(s, s.len() as int, c)
}

pub proof fn lema_ultima_antes(s: Seq<char>, n: int, c: char)
    requires
        0 <= n <= s.len(),
    ensures
        -1 <= ultima_antes(s, n, c) < n,
        ultima_antes(s, n, c) >= 0 ==> s[ultima_antes(s, n, c)] == c,
        forall|k: int| ultima_antes(s, n, c) < k < n ==> s[k] != c,
    decreases n,
{
    if n > 0 && s[n - 1] != c {
        lema_ultima_antes(s, n - 1, c);
    }
}

/// The position of the last `c` in `s`, if there is one.
pub fn ultima_exec(s: &[char], c: char) -> (r: Option<usize>)
    ensures
        match r {
            Some(k) => ultima(s@, c) == k as int,
            None => ultima(s@, c) == -1,
        },
{
    let mut n: usize = s.len();
    while n > 0 && s[n - 1] != c
        invariant
            n <= s@.len(),
            ultima_antes(s@, n as int, c) == ultima(s@, c),
        decreases n,
    {
        n = n - 1;
    }
    if n == 0 {
        None
    } else {
        Some(n - 1)
    }
}

/// What follows the last `c` (all of `s` if there is none): the name in a path
/// when `c` is `/`.
pub open spec fn tras_ultima(s: Seq<char>, c: char) -> Seq<char> {
    s.subrange(ultima(s, c) + 1, s.len() as int)
}

// ---------------------------------------------------------------------------
// Lexicographic order
// ---------------------------------------------------------------------------

/// `a` comes strictly before `b`, character by character (for UTF-8 text this
/// is also the order of the bytes, which is `str`'s order).
pub open spec fn lex_menor(a: Seq<char>, b: Seq<char>) -> bool
    decreases a.len(),
{
    if a.len() == 0 {
        b.len() > 0
    } else if b.len() == 0 {
        false
    } else if a[0] != b[0] {
        a[0] < b[0]
    } else {
        lex_menor(a.drop_first(), b.drop_first())
    }
}

pub proof fn lema_lex_irreflexivo(a: Seq<char>)
    ensures
        !lex_menor(a, a),
    decreases a.len(),
{
    if a.len() > 0 {
        lema_lex_irreflexivo(a.drop_first());
    }
}

pub proof fn lema_lex_transitivo(a: Seq<char>, b: Seq<char>, c: Seq<char>)
    requires
        lex_menor(a, b),
        lex_menor(b, c),
    ensures
        lex_menor(a, c),
    decreases a.len(),
{
    if a.len() > 0 && b.len() > 0 && c.len() > 0 && a[0] == b[0] && b[0] == c[0] {
        lema_lex_transitivo(a.drop_first(), b.drop_first(), c.drop_first());
    }
}

pub proof fn lema_lex_total(a: Seq<char>, b: Seq<char>)
    ensures
        a == b || lex_menor(a, b) || lex_menor(b, a),
    decreases a.len(),
{
    if a.len() > 0 && b.len() > 0 && a[0] == b[0] {
        lema_lex_total(a.drop_first(), b.drop_first());
        if a.drop_first() == b.drop_first() {
            assert(a =~= seq![a[0]] + a.drop_first());
            assert(b =~= seq![b[0]] + b.drop_first());
        }
    } else if a.len() == 0 && b.len() == 0 {
        assert(a =~= b);
    }
}

/// Whether `a` comes strictly before `b`.
pub fn lex_antes(a: &[char], b: &[char]) -> (r: bool)
    ensures
        r == lex_menor(a@, b@),
{
    let mut i: usize = 0;
    assert(a@.subrange(0, a@.len() as int) =~= a@);
    assert(b@.subrange(0, b@.len() as int) =~= b@);
    while i < a.len() && i < b.len() && a[i] == b[i]
        invariant
            i <= a@.len(),
            i <= b@.len(),
            lex_menor(a@.subrange(i as int, a@.len() as int), b@.subrange(i as int, b@.len() as int))
                == lex_menor(a@, b@),
        decreases a@.len() - i,
    {
        assert(a@.subrange(i as int, a@.len() as int).drop_first() =~= a@.subrange(i + 1, a@.len() as int));
        assert(b@.subrange(i as int, b@.len() as int).drop_first() =~= b@.subrange(i + 1, b@.len() as int));
        i = i + 1;
    }
    if i == a.len() {
        i < b.len()
    } else if i == b.len() {
        false
    } else {
        a[i] < b[i]
    }
}

// ---------------------------------------------------------------------------
// Trimming one character
// ---------------------------------------------------------------------------

/// The first position from `i` that does not hold `c`.
pub open spec fn salta_char(t: Seq<char>, i: int, c: char) -> int
    decreases t.len() - i,
{
    if 0 <= i < t.len() && t[i] == c {
        salta_char(t, i + 1, c)
    } else {
        i
    }
}

/// The end of `t[a..j]` without the `c`s at its end.
pub open spec fn corta_char(t: Seq<char>, a: int, j: int, c: char) -> int
    decreases j - a,
{
    if a < j && 0 < j <= t.len() && t[j - 1] == c {
        corta_char(t, a, j - 1, c)
    } else {
        j
    }
}

/// `str::trim_matches(c)`.
pub open spec fn sin_extremos(t: Seq<char>, c: char) -> Seq<char> {
    let a = salta_char(t, 0, c);
    t.subrange(a, corta_char(t, a, t.len() as int, c))
}

pub proof fn lema_salta_char(t: Seq<char>, i: int, c: char)
    requires
        0 <= i <= t.len(),
    ensures
        i <= salta_char(t, i, c) <= t.len(),
    decreases t.len() - i,
{
    if i < t.len() && t[i] == c {
        lema_salta_char(t, i + 1, c);
    }
}

pub proof fn lema_corta_char(t: Seq<char>, a: int, j: int, c: char)
    requires
        0 <= a <= j <= t.len(),
    ensures
        a <= corta_char(t, a, j, c) <= j,
    decreases j - a,
{
    if a < j && t[j - 1] == c {
        lema_corta_char(t, a, j - 1, c);
    }
}

/// `str::trim_matches(c)` on characters.
pub fn recortar_char(t: &[char], c: char) -> (r: Vec<char>)
    ensures
        r@ == sin_extremos(t@, c),
{
    let mut a: usize = 0;
    while a < t.len() && t[a] == c
        invariant
            a <= t@.len(),
            salta_char(t@, a as int, c) == salta_char(t@, 0, c),
        decreases t@.len() - a,
    {
        a = a + 1;
    }
    let mut b: usize = t.len();
    while a < b && t[b - 1] == c
        invariant
            a <= b <= t@.len(),
            corta_char(t@, a as int, b as int, c) == corta_char(t@, a as int, t@.len() as int, c),
        decreases b - a,
    {
        b = b - 1;
    }
    tramo(t, a, b)
}

/// `str::trim_start` on characters.
pub fn recortar_izq(s: &[char]) -> (r: Vec<char>)
    ensures
        r@ == sin_blancos_izq(s@),
{
    let mut i: usize = 0;
    while i < s.len() && es_espacio(s[i])
        invariant
            i <= s@.len(),
            forall|k: int| 0 <= k < i ==> es_blanco(s@[k]),
        decreases s@.len() - i,
    {
        i = i + 1;
    }
    proof {
        lema_sin_blancos_izq_skip(s@, i as int);
    }
    tramo(s, i, s.len())
}

// ---------------------------------------------------------------------------
// What std knows of Unicode
// ---------------------------------------------------------------------------

/// Whether `char::is_whitespace` holds of `c` (the Unicode White_Space property).
pub uninterp spec fn es_blanco(c: char) -> bool;

/// Whether `char::is_alphanumeric` holds of `c` (Alphabetic, or a numeric category).
pub uninterp spec fn es_alfanumerico(c: char) -> bool;

/// The characters that `char::to_lowercase` yields for `c`.
pub uninterp spec fn minuscula_de(c: char) -> Seq<char>;

/// The text that `str::to_lowercase` gives for `s`.
pub uninterp spec fn minusculas_de(s: Seq<char>) -> Seq<char>;

/// Calls `char::is_whitespace`; the result is named `es_blanco`.
#[verifier::external_body]
pub(crate) fn es_espacio(c: char) -> (b: bool)
    ensures
        b == es_blanco(c),
{
    c.is_whitespace()
}

/// Calls `char::is_alphanumeric`; the result is named `es_alfanumerico`.
#[verifier::external_body]
pub(crate) fn alfanumerico(c: char) -> (b: bool)
    ensures
        b == es_alfanumerico(c),
{
    c.is_alphanumeric()
}

/// Calls `char::to_lowercase` and collects what it yields; the result is named
/// `minuscula_de`.
#[verifier::external_body]
pub(crate) fn minuscula(c: char) -> (r: Vec<char>)
    ensures
        r@ == minuscula_de(c),
{
    c.to_lowercase().collect()
}

/// Calls `str::to_lowercase`; the result is named `minusculas_de`. (It is not
/// the characters lowercased one by one: a final sigma is treated apart.)
#[verifier::external_body]
pub(crate) fn minusculas(s: &str) -> (r: String)
    ensures
        r@ == minusculas_de(s@),
{
    s.to_lowercase()
}

/// Collects characters into a `String` (`String: FromIterator<&char>`).
#[verifier::external_body]
pub(crate) fn cadena(v: &[char]) -> (s: String)
    ensures
        s@ == v@,
{
    v.iter().collect()
}

} // verus!
