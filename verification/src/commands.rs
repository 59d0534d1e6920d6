//! Helpers of the command line's commands.
use vstd::prelude::*;
use crate::texto::{agregar, alfanumerico, cadena, caracteres, es_alfanumerico, minuscula, minuscula_de, recortar_char, sin_extremos};

verus! {

broadcast use vstd::string::group_string_axioms;

/// The slug of `t` from `n`: each letter or digit (accented ones too) as
/// `char::to_lowercase` gives it, and one `-` for each run of anything else
/// after the first letter or digit.
pub open spec fn slugify_desde(t: Seq<char>, n: int, acc: Seq<char>, guion: bool) -> Seq<char>
    decreases t.len() - n,
{
    if n < 0 || n >= t.len() {
        acc
    } else if es_alfanumerico(t[n]) {
        slugify_desde(t, n + 1, acc + minuscula_de(t[n]), false)
    } else if !guion && acc.len() > 0 {
        slugify_desde(t, n + 1, acc.push('-'), true)
    } else {
        slugify_desde(t, n + 1, acc, guion)
    }
}

/// A name as a slug: lowercase letters and digits, with `-` between the words
/// and none at the ends.
pub open spec fn slugify_spec(name: Seq<char>) -> Seq<char> {
    sin_extremos(slugify_desde(name, 0, Seq::empty(), false), '-')
}

/// Turns a name into a slug: lowercase, letters and digits, dashes.
pub fn slugify(name: &str) -> (r: String)
    ensures
        r@ == slugify_spec(name@),
{
    let t = caracteres(name);
    let mut out: Vec<char> = Vec::new();
    let mut guion = false;
    let mut n: usize = 0;
    while n < t.len()
        invariant
            n <= t@.len(),
            t@ == name@,
            slugify_desde(t@, n as int, out@, guion) == slugify_desde(t@, 0, Seq::empty(), false),
        decreases t@.len() - n,
    {
        let c = t[n];
        if alfanumerico(c) {
            let m = minuscula(c);
            agregar(&mut out, &m);
            guion = false;
        } else if !guion && out.len() > 0 {
            out.push('-');
            guion = true;
        }
        n = n + 1;
    }
    let r = recortar_char(&out, '-');
    cadena(&r)
}

} // verus!
