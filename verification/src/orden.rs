//! Sorting by a key made of a flag and a text: entries whose flag is `false`
//! first, then by the text, character by character (the order of `(bool,
//! String)` keys). Both the file tree and the list of themes sort this way.
use vstd::prelude::*;
use crate::texto::{lema_lex_irreflexivo, lema_lex_total, lema_lex_transitivo, lex_antes, lex_menor};

verus! {

/// Key `a` goes strictly before key `b`.
pub open spec fn antes_que(a: (bool, Seq<char>), b: (bool, Seq<char>)) -> bool {
    (!a.0 && b.0) || (a.0 == b.0 && lex_menor(a.1, b.1))
}

/// The key of an entry.
pub open spec fn clave<T>(x: (bool, Vec<char>, T)) -> (bool, Seq<char>) {
    (x.0, x.1@)
}

/// No entry goes before an earlier one.
pub open spec fn ordenada<T>(v: Seq<(bool, Vec<char>, T)>) -> bool {
    forall|i: int, j: int| 0 <= i < j < v.len() ==> !antes_que(clave(#[trigger] v[j]), clave(#[trigger] v[i]))
}

proof fn lema_asimetria(a: (bool, Seq<char>), b: (bool, Seq<char>))
    requires
        antes_que(a, b),
    ensures
        !antes_que(b, a),
{
    if a.0 == b.0 && lex_menor(b.1, a.1) {
        lema_lex_transitivo(a.1, b.1, a.1);
        lema_lex_irreflexivo(a.1);
    }
}

proof fn lema_no_antes(a: (bool, Seq<char>), b: (bool, Seq<char>), c: (bool, Seq<char>))
    requires
        !antes_que(b, a),
        !antes_que(c, b),
    ensures
        !antes_que(c, a),
{
    lema_lex_total(a.1, b.1);
    lema_lex_total(b.1, c.1);
    lema_lex_total(a.1, c.1);
    if antes_que(c, a) {
        if a.0 == b.0 && b.0 == c.0 {
            if lex_menor(c.1, a.1) {
                if a.1 == b.1 {
                } else if lex_menor(a.1, b.1) {
                    if b.1 == c.1 {
                    } else {
                        lema_lex_transitivo(a.1, b.1, c.1);
                        lema_lex_transitivo(c.1, a.1, b.1);
                        lema_lex_irreflexivo(b.1);
                        lema_lex_transitivo(b.1, c.1, a.1);
                    }
                } else {
                    lema_lex_transitivo(b.1, a.1, b.1);
                }
            }
        }
    }
}

fn va_antes(a: bool, ta: &[char], b: bool, tb: &[char]) -> (r: bool)
    ensures
        r == antes_que((a, ta@), (b, tb@)),
{
    (!a && b) || (a == b && lex_antes(ta, tb))
}

/// Sorts entries by their key; equal keys keep their order.
pub fn ordenar_por_clave<T>(v: Vec<(bool, Vec<char>, T)>) -> (r: Vec<(bool, Vec<char>, T)>)
    ensures
        ordenada(r@),
        r@.to_multiset() == v@.to_multiset(),
{
    broadcast use vstd::seq_lib::group_seq_properties;
    broadcast use vstd::multiset::group_multiset_axioms;

    let mut pend = v;
    let mut r: Vec<(bool, Vec<char>, T)> = Vec::new();
    while pend.len() > 0
        invariant
            ordenada(r@),
            r@.to_multiset().add(pend@.to_multiset()) == v@.to_multiset(),
        decreases pend@.len(),
    {
        let ghost p0 = pend@;
        let x = pend.pop().unwrap();
        assert(p0 =~= pend@.push(x));
        let mut p: usize = 0;
        while p < r.len() && va_antes(r[p].0, &r[p].1, x.0, &x.1)
            invariant
                p <= r@.len(),
                forall|k: int| 0 <= k < p ==> antes_que(clave(#[trigger] r@[k]), clave(x)),
            decreases r@.len() - p,
        {
            p = p + 1;
        }
        let ghost r0 = r@;
        let ghost kx = clave(x);
        r.insert(p, x);
        proof {
            assert(r@ == r0.insert(p as int, x));
            vstd::seq_lib::to_multiset_insert(r0, p as int, x);
            vstd::seq_lib::to_multiset_build(pend@, x);
            assert(r@.to_multiset().add(pend@.to_multiset()) =~= r0.to_multiset().add(p0.to_multiset()));
            assert forall|i: int, j: int| 0 <= i < j < r@.len() implies !antes_que(
                clave(#[trigger] r@[j]),
                clave(#[trigger] r@[i]),
            ) by {
                if j < p {
                    assert(r@[i] == r0[i] && r@[j] == r0[j]);
                } else if j == p {
                    assert(r@[i] == r0[i]);
                    lema_asimetria(clave(r0[i]), kx);
                } else if i > p {
                    assert(r@[i] == r0[i - 1] && r@[j] == r0[j - 1]);
                } else if i == p {
                    assert(r@[j] == r0[j - 1]);
                    if j - 1 > p {
                        lema_no_antes(kx, clave(r0[p as int]), clave(r0[j - 1]));
                    }
                } else {
                    assert(r@[i] == r0[i]);
                    assert(r@[j] == r0[j - 1]);
                }
            }
        }
    }
    assert(pend@ =~= Seq::<(bool, Vec<char>, T)>::empty());
    r
}


/// Mapping both sides keeps two sequences with the same elements with the same
/// elements.
pub proof fn lema_mapa_multiconjunto<A, B>(a: Seq<A>, b: Seq<A>, f: spec_fn(A) -> B)
    requires
        a.to_multiset() == b.to_multiset(),
    ensures
        a.map_values(f).to_multiset() == b.map_values(f).to_multiset(),
    decreases a.len(),
{
    broadcast use vstd::seq_lib::group_seq_properties;
    broadcast use vstd::multiset::group_multiset_axioms;

    if a.len() == 0 {
        vstd::seq_lib::to_multiset_len(b);
        assert(b.len() == 0);
        assert(a.map_values(f) =~= Seq::<B>::empty());
        assert(b.map_values(f) =~= Seq::<B>::empty());
    } else {
        let x = a.last();
        let a1 = a.drop_last();
        assert(a =~= a1.push(x));
        vstd::seq_lib::to_multiset_build(a1, x);
        assert(b.to_multiset().count(x) > 0);
        vstd::seq_lib::to_multiset_contains(b, x);
        assert(b.contains(x));
        let i = choose|i: int| 0 <= i < b.len() && b[i] == x;
        let b1 = b.remove(i);
        vstd::seq_lib::to_multiset_remove(b, i);
        assert(a1.to_multiset() =~= b1.to_multiset());
        lema_mapa_multiconjunto(a1, b1, f);
        assert(a.map_values(f) =~= a1.map_values(f).push(f(x)));
        assert(b.map_values(f) =~= b1.map_values(f).insert(i, f(x)));
        vstd::seq_lib::to_multiset_build(a1.map_values(f), f(x));
        vstd::seq_lib::to_multiset_insert(b1.map_values(f), i, f(x));
    }
}

/// The entries without their keys.
pub open spec fn valores<T>(v: Seq<(bool, Vec<char>, T)>) -> Seq<T> {
    v.map_values(|x: (bool, Vec<char>, T)| x.2)
}

/// Takes the keys off the entries, in order.
pub fn sin_claves<T>(v: Vec<(bool, Vec<char>, T)>) -> (r: Vec<T>)
    ensures
        r@ == valores(v@),
{
    let mut v = v;
    let ghost todo = v@;
    let mut r: Vec<T> = Vec::new();
    while v.len() > 0
        invariant
            r@ + valores(v@) == valores(todo),
        decreases v@.len(),
    {
        let ghost v0 = v@;
        let x = v.remove(0);
        let ghost r0 = r@;
        r.push(x.2);
        assert(v0 =~= seq![x] + v@);
        assert(r@ + valores(v@) =~= r0 + valores(v0));
    }
    assert(r@ =~= r@ + valores(v@));
    r
}

} // verus!
