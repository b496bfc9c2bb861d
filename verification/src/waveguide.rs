//! Kelly-Lochbaum scattering through the chain of waveguide junctions.
//!
//! At junction `j` a fraction `r[j]` of the incident wave difference
//! reflects and the rest transmits, both attenuated by the loss gain
//! `g`. Every junction reads only the previous sample's neighbor
//! values: the double-buffered pass reads one generation and writes the
//! other, and the single-pair pass of [`process_waveguide`] carries the
//! pre-call forward value alongside so that nothing written during the
//! pass is ever read back within it.

use vstd::prelude::*;
use crate::fixed::{Fx, fx_add_spec, fx_sub_spec, fx_mul_spec, fx_add, fx_sub, fx_mul};

verus! {

/// A sequence of fixed-point values as mathematical integers.
pub open spec fn sv(s: Seq<i64>) -> Seq<int> {
    s.map_values(|x: i64| x as int)
}

/// Reflected fraction of the incident wave difference at one junction.
pub open spec fn scat_diff(f: int, rin: int, rj: int) -> int {
    fx_mul_spec(rj, fx_sub_spec(f, rin))
}

/// Next-generation forward wave leaving a junction toward the mouth.
pub open spec fn scat_fwd(f: int, rin: int, rj: int, g: int) -> int {
    fx_mul_spec(g, fx_add_spec(f, scat_diff(f, rin, rj)))
}

/// Next-generation backward wave leaving a junction toward the throat.
pub open spec fn scat_rev(f: int, rin: int, rj: int, g: int) -> int {
    fx_mul_spec(g, fx_add_spec(rin, scat_diff(f, rin, rj)))
}

/// A silent line stays silent: scattering zero waves yields zero waves,
/// for every reflection coefficient and every loss gain. The junctions
/// themselves inject no energy, so once a transient has decayed the
/// line cannot start oscillating on its own.
pub proof fn lemma_silence_is_fixed(rj: int, g: int)
    ensures
        scat_fwd(0, 0, rj, g) == 0,
        scat_rev(0, 0, rj, g) == 0,
{
    crate::fixed::lemma_fx_mul_zero(rj);
    crate::fixed::lemma_fx_mul_zero(g);
}

/// One junction: reflect a fraction `rj` of the wave difference and
/// attenuate both outgoing waves by `g`.
pub fn scatter_junction(f: Fx, rin: Fx, rj: Fx, g: Fx) -> (fr: (Fx, Fx))
    ensures
        fr.0 as int == scat_fwd(f as int, rin as int, rj as int, g as int),
        fr.1 as int == scat_rev(f as int, rin as int, rj as int, g as int),
{
    let diff: i64 = fx_mul(rj, fx_sub(f, rin));
    (fx_mul(g, fx_add(f, diff)), fx_mul(g, fx_add(rin, diff)))
}

/// Double-buffered scattering pass: reads the current generation only,
/// writes junction outputs into the next generation. The throat slot
/// `fwd_nxt[0]` and the mouth slot `rev_nxt[n]` are left for the
/// boundary filters.
pub fn advance_line(
    fwd_cur: &Vec<Fx>,
    rev_cur: &Vec<Fx>,
    fwd_nxt: &mut Vec<Fx>,
    rev_nxt: &mut Vec<Fx>,
    r: &Vec<Fx>,
    g: Fx,
)
    requires
        fwd_cur.len() == r.len() + 1,
        rev_cur.len() == r.len() + 1,
        old(fwd_nxt).len() == r.len() + 1,
        old(rev_nxt).len() == r.len() + 1,
    ensures
        final(fwd_nxt).len() == r.len() + 1,
        final(rev_nxt).len() == r.len() + 1,
        final(fwd_nxt)[0] == old(fwd_nxt)[0],
        final(rev_nxt)[r.len() as int] == old(rev_nxt)[r.len() as int],
        forall|j: int|
            0 <= j < r.len() ==> final(fwd_nxt)[j + 1] as int == scat_fwd(
                fwd_cur[j] as int,
                rev_cur[j + 1] as int,
                r[j] as int,
                g as int,
            ),
        forall|j: int|
            0 <= j < r.len() ==> final(rev_nxt)[j] as int == scat_rev(
                fwd_cur[j] as int,
                rev_cur[j + 1] as int,
                r[j] as int,
                g as int,
            ),
{
    let n: usize = r.len();
    let mut j: usize = 0;
    while j < n
        invariant
            n == r.len(),
            fwd_cur.len() == n + 1,
            rev_cur.len() == n + 1,
            fwd_nxt.len() == n + 1,
            rev_nxt.len() == n + 1,
            0 <= j <= n,
            fwd_nxt[0] == old(fwd_nxt)[0],
            rev_nxt[n as int] == old(rev_nxt)[n as int],
            forall|k: int|
                0 <= k < j ==> fwd_nxt[k + 1] as int == scat_fwd(
                    fwd_cur[k] as int,
                    rev_cur[k + 1] as int,
                    r[k] as int,
                    g as int,
                ),
            forall|k: int|
                0 <= k < j ==> rev_nxt[k] as int == scat_rev(
                    fwd_cur[k] as int,
                    rev_cur[k + 1] as int,
                    r[k] as int,
                    g as int,
                ),
        decreases n - j,
    {
        let (fo, ro) = scatter_junction(fwd_cur[j], rev_cur[j + 1], r[j], g);
        fwd_nxt.set(j + 1, fo);
        rev_nxt.set(j, ro);
        j = j + 1;
    }
}

/// Scattering pass over one pair of wave buffers.
///
/// When either buffer is shorter than the junction count requires, the
/// call leaves both untouched. Otherwise every junction reads only the
/// buffers' values from before the call: position `j + 1` of the
/// forward buffer and position `j` of the backward buffer receive the
/// outputs of junction `j` computed from the pre-call `fwd[j]` and
/// `rev[j + 1]`, never from a value another junction wrote during the
/// same pass.
pub fn process_waveguide(fwd: &mut Vec<Fx>, rev: &mut Vec<Fx>, r: &Vec<Fx>, g: Fx)
    ensures
        final(fwd).len() == old(fwd).len(),
        final(rev).len() == old(rev).len(),
        (old(fwd).len() < r.len() + 1 || old(rev).len() < r.len() + 1) ==> (final(fwd)@
            == old(fwd)@ && final(rev)@ == old(rev)@),
        (old(fwd).len() >= r.len() + 1 && old(rev).len() >= r.len() + 1) ==> {
            &&& final(fwd)[0] == old(fwd)[0]
            &&& forall|j: int|
                0 <= j < r.len() ==> final(fwd)[j + 1] as int == scat_fwd(
                    old(fwd)[j] as int,
                    old(rev)[j + 1] as int,
                    r[j] as int,
                    g as int,
                )
            &&& forall|j: int| r.len() < j < old(fwd).len() ==> final(fwd)[j] == old(fwd)[j]
            &&& forall|j: int|
                0 <= j < r.len() ==> final(rev)[j] as int == scat_rev(
                    old(fwd)[j] as int,
                    old(rev)[j + 1] as int,
                    r[j] as int,
                    g as int,
                )
            &&& forall|j: int| r.len() <= j < old(rev).len() ==> final(rev)[j] == old(rev)[j]
        },
{
    let n: usize = r.len();
    if fwd.len() <= n || rev.len() <= n {
        return ;
    }
    // The pre-call forward value of the junction at hand is carried in
    // a local, so overwriting fwd[j + 1] never feeds junction j + 1.
    let mut carry: i64 = fwd[0];
    let mut j: usize = 0;
    while j < n
        invariant
            n == r.len(),
            fwd.len() == old(fwd).len() >= n + 1,
            rev.len() == old(rev).len() >= n + 1,
            0 <= j <= n,
            carry == old(fwd)[j as int],
            fwd[0] == old(fwd)[0],
            forall|k: int|
                0 <= k < j ==> fwd[k + 1] as int == scat_fwd(
                    old(fwd)[k] as int,
                    old(rev)[k + 1] as int,
                    r[k] as int,
                    g as int,
                ),
            forall|k: int| j < k < fwd.len() ==> fwd[k] == old(fwd)[k],
            forall|k: int|
                0 <= k < j ==> rev[k] as int == scat_rev(
                    old(fwd)[k] as int,
                    old(rev)[k + 1] as int,
                    r[k] as int,
                    g as int,
                ),
            forall|k: int| j <= k < rev.len() ==> rev[k] == old(rev)[k],
        decreases n - j,
    {
        let f_in: i64 = carry;
        let r_in: i64 = rev[j + 1];
        carry = fwd[j + 1];
        let (fo, ro) = scatter_junction(f_in, r_in, r[j], g);
        fwd.set(j + 1, fo);
        rev.set(j, ro);
        j = j + 1;
    }
}

} // verus!
