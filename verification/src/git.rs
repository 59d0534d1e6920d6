//! The state of the project's git repository, read from
//! `git status --porcelain=v2 --branch`.
//!
//! The porcelain v2 format is stable and meant for programs: it does not change
//! with the user's configuration nor with the system's language.
use vstd::prelude::*;
use crate::texto::{
    aparece, aparece_en, caracteres, contiene_char, empieza_con, leer_u32, lineas,
    palabras, partir_lineas, partir_palabras, recortado, recortar, tramo, u32_de, vistas,
    cadena,
};

verus! {

broadcast use vstd::string::group_string_axioms;

/// What the bar of the editor shows of the repository.
#[derive(Clone, Debug)]
pub struct EstadoGit {
    pub es_repo: bool,
    pub rama: String,
    /// Commits that are here and not in the remote: what a push sends.
    pub adelante: u32,
    /// Commits that are in the remote and not here: what a pull brings.
    pub atras: u32,
    pub modificados: u32,
    pub nuevos: u32,
    pub borrados: u32,
    /// Files with a merge conflict.
    pub conflictos: u32,
}

/// The state as plain values.
pub struct EstadoGitV {
    pub es_repo: bool,
    pub rama: Seq<char>,
    pub adelante: int,
    pub atras: int,
    pub modificados: int,
    pub nuevos: int,
    pub borrados: int,
    pub conflictos: int,
}

impl EstadoGit {
    pub open spec fn vista(&self) -> EstadoGitV {
        EstadoGitV {
            es_repo: self.es_repo,
            rama: self.rama@,
            adelante: self.adelante as int,
            atras: self.atras as int,
            modificados: self.modificados as int,
            nuevos: self.nuevos as int,
            borrados: self.borrados as int,
            conflictos: self.conflictos as int,
        }
    }
}

impl Default for EstadoGit {
    /// Not a repository: nothing counted, no branch.
    fn default() -> (e: Self)
        ensures
            e.vista() == vacio(false),
    {
        EstadoGit {
            es_repo: false,
            rama: String::new(),
            adelante: 0,
            atras: 0,
            modificados: 0,
            nuevos: 0,
            borrados: 0,
            conflictos: 0,
        }
    }
}

/// A state with nothing counted.
pub open spec fn vacio(es_repo: bool) -> EstadoGitV {
    EstadoGitV {
        es_repo,
        rama: Seq::empty(),
        adelante: 0,
        atras: 0,
        modificados: 0,
        nuevos: 0,
        borrados: 0,
        conflictos: 0,
    }
}

/// The text after a prefix.
pub open spec fn resto(l: Seq<char>, p: Seq<char>) -> Seq<char> {
    l.subrange(p.len() as int, l.len() as int)
}

/// One word of `# branch.ab +2 -3`: a sign and a count; a count that does not
/// parse counts as zero.
pub open spec fn tras_parte(e: EstadoGitV, parte: Seq<char>) -> EstadoGitV {
    let n = match u32_de(parte.drop_first()) {
        Some(v) => v as int,
        None => 0,
    };
    if parte.len() > 0 && parte[0] == '+' {
        EstadoGitV { adelante: n, ..e }
    } else if parte.len() > 0 && parte[0] == '-' {
        EstadoGitV { atras: n, ..e }
    } else {
        e
    }
}

/// The words of `# branch.ab`, one after the other.
pub open spec fn tras_partes(e: EstadoGitV, partes: Seq<Seq<char>>) -> EstadoGitV
    decreases partes.len(),
{
    if partes.len() == 0 {
        e
    } else {
        tras_parte(tras_partes(e, partes.drop_last()), partes.last())
    }
}

/// The second field of a changed entry (two letters: index and work tree).
pub open spec fn campo_xy(l: Seq<char>) -> Seq<char> {
    if palabras(l).len() > 1 {
        palabras(l)[1]
    } else {
        seq!['.', '.']
    }
}

/// What one line of the porcelain output changes.
pub open spec fn tras_linea(e: EstadoGitV, l: Seq<char>) -> EstadoGitV {
    if empieza_con(l, "# branch.head "@) {
        EstadoGitV { rama: recortado(resto(l, "# branch.head "@)), ..e }
    } else if empieza_con(l, "# branch.ab "@) {
        tras_partes(e, palabras(resto(l, "# branch.ab "@)))
    } else if empieza_con(l, "? "@) {
        EstadoGitV { nuevos: e.nuevos + 1, ..e }
    } else if empieza_con(l, "u "@) {
        EstadoGitV { conflictos: e.conflictos + 1, ..e }
    } else if empieza_con(l, "1 "@) || empieza_con(l, "2 "@) {
        if campo_xy(l).contains('D') {
            EstadoGitV { borrados: e.borrados + 1, ..e }
        } else {
            EstadoGitV { modificados: e.modificados + 1, ..e }
        }
    } else {
        e
    }
}

/// The lines, one after the other.
pub open spec fn tras_lineas(e: EstadoGitV, ls: Seq<Seq<char>>) -> EstadoGitV
    decreases ls.len(),
{
    if ls.len() == 0 {
        e
    } else {
        tras_linea(tras_lineas(e, ls.drop_last()), ls.last())
    }
}

/// The state that the output of `git status --porcelain=v2 --branch` describes.
pub open spec fn estado_de(salida: Seq<char>) -> EstadoGitV {
    tras_lineas(vacio(true), lineas(salida))
}

/// The words of a `# branch.ab` line start with an ASCII character (the
/// count after the sign is read from the second byte on).
pub open spec fn partes_legibles(l: Seq<char>) -> bool {
    empieza_con(l, "# branch.ab "@) ==> forall|k: int|
        0 <= k < palabras(resto(l, "# branch.ab "@)).len() ==> (#[trigger] palabras(
            resto(l, "# branch.ab "@),
        )[k])[0] < '\u{80}'
}

/// Every line of the output can be read.
pub open spec fn legible(salida: Seq<char>) -> bool {
    forall|i: int| 0 <= i < lineas(salida).len() ==> partes_legibles(#[trigger] lineas(salida)[i])
}

proof fn lema_partes_no_vacias(s: Seq<char>, i: int)
    requires
        0 <= i <= s.len(),
    ensures
        forall|k: int| 0 <= k < crate::texto::palabras_desde(s, i).len()
            ==> (#[trigger] crate::texto::palabras_desde(s, i)[k]).len() > 0,
    decreases s.len() - i,
{
    crate::texto::lema_salta_blancos(s, i);
    let a = crate::texto::salta_blancos(s, i);
    if a < s.len() {
        crate::texto::lema_fin_palabra(s, a);
        let b = crate::texto::fin_palabra(s, a);
        if b > a {
            lema_partes_no_vacias(s, b);
            let resto_ = crate::texto::palabras_desde(s, b);
            assert forall|k: int| 0 <= k < crate::texto::palabras_desde(s, i).len()
                implies (#[trigger] crate::texto::palabras_desde(s, i)[k]).len() > 0 by {
                if k > 0 {
                    assert(crate::texto::palabras_desde(s, i)[k] == resto_[k - 1]);
                }
            }
        }
    }
}

/// Reads one `# branch.ab` word into the state.
fn leer_parte(e: &mut EstadoGit, parte: &[char])
    requires
        parte@.len() > 0,
        parte@[0] < '\u{80}',
    ensures
        final(e).vista() == tras_parte(old(e).vista(), parte@),
{
    let resto_ = tramo(parte, 1, parte.len());
    assert(resto_@ =~= parte@.drop_first());
    let n: u32 = match leer_u32(&resto_) {
        Some(v) => v,
        None => 0,
    };
    if parte[0] == '+' {
        e.adelante = n;
    } else if parte[0] == '-' {
        e.atras = n;
    }
}

/// Parses the output of `git status --porcelain=v2 --branch`.
///
/// The branch comes from `# branch.head`; `# branch.ab +A -B` gives how far
/// ahead and behind the upstream the branch is (without that line there is no
/// upstream, and both stay at zero); `?` entries are new files, `u` entries
/// conflicts, and `1`/`2` entries changes, deletions where either letter of
/// the second field is `D`.
pub fn parsear(salida: &str) -> (e: EstadoGit)
    requires
        legible(salida@),
        lineas(salida@).len() < u32::MAX,
    ensures
        e.vista() == estado_de(salida@),
{
    let texto = caracteres(salida);
    let ls = partir_lineas(&texto);
    let cab = caracteres("# branch.head ");
    let ab = caracteres("# branch.ab ");
    let nuevo = caracteres("? ");
    let choque = caracteres("u ");
    let uno = caracteres("1 ");
    let dos = caracteres("2 ");
    let mut e = EstadoGit {
        es_repo: true,
        rama: String::new(),
        adelante: 0,
        atras: 0,
        modificados: 0,
        nuevos: 0,
        borrados: 0,
        conflictos: 0,
    };
    let ghost todas = vistas(ls@);
    assert(todas.take(0) =~= Seq::<Seq<char>>::empty());
    let mut i: usize = 0;
    while i < ls.len()
        invariant
            i <= ls@.len(),
            todas == vistas(ls@),
            todas == lineas(salida@),
            todas.len() < u32::MAX,
            legible(salida@),
            cab@ == "# branch.head "@,
            ab@ == "# branch.ab "@,
            nuevo@ == "? "@,
            choque@ == "u "@,
            uno@ == "1 "@,
            dos@ == "2 "@,
            e.vista() == tras_lineas(vacio(true), todas.take(i as int)),
            e.nuevos <= i,
            e.conflictos <= i,
            e.modificados <= i,
            e.borrados <= i,
        decreases ls@.len() - i,
    {
        let linea = &ls[i];
        let ghost l = linea@;
        assert(l == todas[i as int]);
        assert(todas.take(i + 1).drop_last() =~= todas.take(i as int));
        assert(todas.take(i + 1).last() == l);
        if aparece(linea, 0, &cab) {
            let r = tramo(linea, cab.len(), linea.len());
            let t = recortar(&r);
            e.rama = cadena(&t);
        } else if aparece(linea, 0, &ab) {
            let r = tramo(linea, ab.len(), linea.len());
            let partes = partir_palabras(&r);
            let ghost ps = vistas(partes@);
            proof {
                assert(partes_legibles(todas[i as int]));
                lema_partes_no_vacias(r@, 0);
            }
            let ghost e0 = e.vista();
            let mut k: usize = 0;
            assert(ps.take(0) =~= Seq::<Seq<char>>::empty());
            while k < partes.len()
                invariant
                    k <= partes@.len(),
                    ps == vistas(partes@),
                    ps == palabras(r@),
                    r@ == resto(l, "# branch.ab "@),
                    empieza_con(l, "# branch.ab "@),
                    partes_legibles(l),
                    forall|j: int| 0 <= j < ps.len() ==> (#[trigger] ps[j]).len() > 0,
                    e.vista() == tras_partes(e0, ps.take(k as int)),
                    e.nuevos == e0.nuevos,
                    e.conflictos == e0.conflictos,
                    e.modificados == e0.modificados,
                    e.borrados == e0.borrados,
                decreases partes@.len() - k,
            {
                assert(ps[k as int] == partes@[k as int]@);
                assert(ps.take(k + 1).drop_last() =~= ps.take(k as int));
                leer_parte(&mut e, &partes[k]);
                k = k + 1;
            }
            assert(ps.take(ps.len() as int) =~= ps);
        } else if aparece(linea, 0, &nuevo) {
            e.nuevos = e.nuevos + 1;
        } else if aparece(linea, 0, &choque) {
            e.conflictos = e.conflictos + 1;
        } else if aparece(linea, 0, &uno) || aparece(linea, 0, &dos) {
            let ps = partir_palabras(linea);
            let borrado = if ps.len() > 1 {
                contiene_char(&ps[1], 'D')
            } else {
                assert(!seq!['.', '.'].contains('D')) by {
                    assert(seq!['.', '.'][0] != 'D' && seq!['.', '.'][1] != 'D');
                }
                false
            };
            if borrado {
                e.borrados = e.borrados + 1;
            } else {
                e.modificados = e.modificados + 1;
            }
        }
        i = i + 1;
    }
    assert(todas.take(todas.len() as int) =~= todas);
    e
}

/// A changed entry (a line `1 ...` or `2 ...`) counts once: as a deletion
/// where its second field (the index letter and the work-tree letter) holds a
/// `D` on either side, as a modification otherwise; nothing else of the state
/// changes.
pub proof fn una_d_de_cualquier_lado_es_un_borrado(e: EstadoGitV, l: Seq<char>)
    requires
        l.len() >= 2,
        l[0] == '1' || l[0] == '2',
        l[1] == ' ',
        palabras(l).len() > 1,
    ensures
        ({
            let xy = palabras(l)[1];
            let d = exists|i: int| 0 <= i < xy.len() && xy[i] == 'D';
            &&& d ==> tras_linea(e, l) == (EstadoGitV { borrados: e.borrados + 1, ..e })
            &&& !d ==> tras_linea(e, l) == (EstadoGitV { modificados: e.modificados + 1, ..e })
        }),
{
    reveal_strlit("# branch.head ");
    reveal_strlit("# branch.ab ");
    reveal_strlit("? ");
    reveal_strlit("u ");
    reveal_strlit("1 ");
    reveal_strlit("2 ");
    assert(!empieza_con(l, "# branch.head "@)) by {
        assert("# branch.head "@[0] == '#');
        if empieza_con(l, "# branch.head "@) {
            assert(l.subrange(0, 14)[0] == l[0]);
        }
    }
    assert(!empieza_con(l, "# branch.ab "@)) by {
        assert("# branch.ab "@[0] == '#');
        if empieza_con(l, "# branch.ab "@) {
            assert(l.subrange(0, 12)[0] == l[0]);
        }
    }
    assert(!empieza_con(l, "? "@)) by {
        if empieza_con(l, "? "@) {
            assert(l.subrange(0, 2)[0] == l[0]);
        }
    }
    assert(!empieza_con(l, "u "@)) by {
        if empieza_con(l, "u "@) {
            assert(l.subrange(0, 2)[0] == l[0]);
        }
    }
    if l[0] == '1' {
        assert(l.subrange(0, 2) =~= "1 "@);
    } else {
        assert(l.subrange(0, 2) =~= "2 "@);
    }
}

} // verus!
