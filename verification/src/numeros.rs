//! The first free name of a numbered series: `bode-2`, `bode-3`, ... or
//! `secciones/01-objetivo.tex`, `secciones/02-objetivo.tex`, ...
//!
//! A series gives a name to each number, a different one to each. Among the
//! names already taken, some are of the series; each step past a taken one
//! leaves one less of them ahead, which is why the search ends.
use vstd::prelude::*;

verus! {

/// No two numbers get the same name.
pub open spec fn inyectiva(f: spec_fn(nat) -> Seq<char>) -> bool {
    forall|n: nat, m: nat| #[trigger] f(n) == #[trigger] f(m) ==> n == m
}

/// `s` is the name of a number from `n` on.
pub open spec fn usado_desde(s: Seq<char>, n: nat, f: spec_fn(nat) -> Seq<char>) -> bool {
    exists|m: nat| m >= n && s == #[trigger] f(m)
}

/// How many of `t` are names of numbers from `n` on.
pub open spec fn cuantos_desde(t: Seq<Seq<char>>, n: nat, f: spec_fn(nat) -> Seq<char>) -> nat
    decreases t.len(),
{
    if t.len() == 0 {
        0
    } else {
        cuantos_desde(t.drop_last(), n, f) + if usado_desde(t.last(), n, f) {
            1nat
        } else {
            0nat
        }
    }
}

pub proof fn lema_cuantos_baja(t: Seq<Seq<char>>, n: nat, f: spec_fn(nat) -> Seq<char>)
    requires
        inyectiva(f),
    ensures
        cuantos_desde(t, n + 1, f) <= cuantos_desde(t, n, f),
        cuantos_desde(t, n, f) <= t.len(),
        t.contains(f(n)) ==> cuantos_desde(t, n + 1, f) < cuantos_desde(t, n, f),
    decreases t.len(),
{
    if t.len() > 0 {
        lema_cuantos_baja(t.drop_last(), n, f);
        let s = t.last();
        if usado_desde(s, n + 1, f) {
            let m = choose|m: nat| m >= n + 1 && s == #[trigger] f(m);
            assert(m >= n && s == f(m));
        }
        if s == f(n) {
            assert(usado_desde(s, n, f));
            if usado_desde(s, n + 1, f) {
                let m = choose|m: nat| m >= n + 1 && s == #[trigger] f(m);
                assert(f(n) == f(m));
            }
        }
        if t.contains(f(n)) && s != f(n) {
            let i = choose|i: int| 0 <= i < t.len() && t[i] == f(n);
            assert(t.drop_last()[i] == t[i]);
            assert(t.drop_last().contains(f(n)));
        }
    }
}

/// The first number from `n` on whose name is not in `t`.
pub open spec fn libre(t: Seq<Seq<char>>, n: nat, f: spec_fn(nat) -> Seq<char>) -> nat
    decreases cuantos_desde(t, n, f),
    when inyectiva(f)
{
    if t.contains(f(n)) {
        proof {
            lema_cuantos_baja(t, n, f);
        }
        libre(t, n + 1, f)
    } else {
        n
    }
}

pub proof fn lema_libre(t: Seq<Seq<char>>, n: nat, f: spec_fn(nat) -> Seq<char>)
    requires
        inyectiva(f),
    ensures
        !t.contains(f(libre(t, n, f))),
        n <= libre(t, n, f) <= n + cuantos_desde(t, n, f),
        forall|m: nat| n <= m < libre(t, n, f) ==> t.contains(#[trigger] f(m)),
    decreases cuantos_desde(t, n, f),
{
    if t.contains(f(n)) {
        lema_cuantos_baja(t, n, f);
        lema_libre(t, n + 1, f);
    }
}

} // verus!
