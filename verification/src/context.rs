//! The parameter-driven engine: translator, band splitter, boundary
//! filters, bypass delay and the per-sample wave propagation step.

use vstd::prelude::*;
use crate::fixed::{
    Fx, ONE, HALF, fx_add_spec, fx_sub_spec, fx_mul_spec, fx_div_spec, fx_add, fx_sub, fx_mul,
    fx_div, div_small, lemma_fx_mul_nonneg, lemma_fx_mul_zero, lemma_fx_div_nonneg,
};
use crate::fxmath::{
    PI_FX, TWO_PI_FX, SQRT2_FX, pow10_fx, pow2_fx, pow_frac, tan_fx, pow2_spec, pow10_spec,
    pow_frac_spec, tan_spec,
};
use crate::params::{Parameters, EngineError, TOL_RATE, TOL_SHAPE, TOL_FINE, drift_exceeds, drift};
use crate::waveguide::{sv, scat_fwd, scat_rev, advance_line};

verus! {

/// log2 e in Q16.16.
pub const LOG2_E_FX: i64 = 94548;

/// Speed of sound, 343 m/s, in Q16.16.
pub const C_FX: i64 = 22478848;

/// Characteristic impedance of air, 413 rayl, in Q16.16.
pub const RHO_C_FX: i64 = 27066368;

/// 100 times the speed of sound (length is configured in centimeters).
pub const C100_FX: i64 = 2247884800;

/// 0.99, the pole radius safety factor, in Q16.16.
pub const POINT99_FX: i64 = 64881;

/// 0.45, the cutoff clamp fraction of the sample rate, in Q16.16.
pub const POINT45_FX: i64 = 29491;

/// Largest segment count the translator will produce; a longer horn is
/// clamped rather than allocating without bound.
pub const MAX_SEGMENTS: usize = 1048576;

/// Physical profile and filter coefficients derived from one
/// configuration.
pub struct Profile {
    /// Number of scattering junctions (segments).
    pub n: usize,
    /// Acoustic impedance at each of the n + 1 segment boundaries.
    pub z: Vec<Fx>,
    /// Reflection coefficient at each of the n junctions.
    pub r: Vec<Fx>,
    /// Per-junction loss gain.
    pub g: Fx,
    /// Throat-transition coupling.
    pub tr_coeff: Fx,
    /// Throat one-pole feed coefficient.
    pub rt_b0: Fx,
    /// Throat one-pole recursion coefficient.
    pub rt_a1: Fx,
    /// Mouth two-pole feed coefficient.
    pub rm_b0: Fx,
    /// Mouth two-pole first recursion coefficient.
    pub rm_a1: Fx,
    /// Mouth two-pole second recursion coefficient.
    pub rm_a2: Fx,
    /// Crossover low-band numerator coefficients.
    pub b0_lp: Fx,
    pub b1_lp: Fx,
    pub b2_lp: Fx,
    /// Crossover high-band numerator coefficients.
    pub b0_hp: Fx,
    pub b1_hp: Fx,
    pub b2_hp: Fx,
    /// Crossover shared denominator coefficients.
    pub a1_c: Fx,
    pub a2_c: Fx,
    /// Linear output gain.
    pub output_gain: Fx,
}

/// Mathematical image of a profile.
#[verifier::ext_equal]
pub ghost struct ProfV {
    pub n: int,
    pub r: Seq<int>,
    pub g: int,
    pub tr_coeff: int,
    pub rt_b0: int,
    pub rt_a1: int,
    pub rm_b0: int,
    pub rm_a1: int,
    pub rm_a2: int,
    pub b0_lp: int,
    pub b1_lp: int,
    pub b2_lp: int,
    pub b0_hp: int,
    pub b1_hp: int,
    pub b2_hp: int,
    pub a1_c: int,
    pub a2_c: int,
    pub output_gain: int,
}

impl View for Profile {
    type V = ProfV;

    open spec fn view(&self) -> ProfV {
        ProfV {
            n: self.n as int,
            r: sv(self.r@),
            g: self.g as int,
            tr_coeff: self.tr_coeff as int,
            rt_b0: self.rt_b0 as int,
            rt_a1: self.rt_a1 as int,
            rm_b0: self.rm_b0 as int,
            rm_a1: self.rm_a1 as int,
            rm_a2: self.rm_a2 as int,
            b0_lp: self.b0_lp as int,
            b1_lp: self.b1_lp as int,
            b2_lp: self.b2_lp as int,
            b0_hp: self.b0_hp as int,
            b1_hp: self.b1_hp as int,
            b2_hp: self.b2_hp as int,
            a1_c: self.a1_c as int,
            a2_c: self.a2_c as int,
            output_gain: self.output_gain as int,
        }
    }
}

impl Profile {
    /// Shape of a valid profile: at least one junction, matching buffer
    /// lengths, positive impedances, reflections strictly inside the
    /// open unit interval.
    pub open spec fn wf(&self) -> bool {
        &&& 1 <= self.n <= MAX_SEGMENTS
        &&& self.z.len() == self.n + 1
        &&& self.r.len() == self.n
        &&& forall|j: int| 0 <= j < self.z.len() ==> 1 <= #[trigger] self.z[j]
        &&& forall|j: int| 0 <= j < self.r.len() ==> -ONE < #[trigger] self.r[j] < ONE
    }
}

/// Per-channel engine state: two wave-buffer generations selected by a
/// parity bit, the boundary filter histories, the band-splitter
/// histories and the bypass delay line.
pub struct ChannelState {
    pub fwd_a: Vec<Fx>,
    pub rev_a: Vec<Fx>,
    pub fwd_b: Vec<Fx>,
    pub rev_b: Vec<Fx>,
    /// False: generation a is current; true: generation b is current.
    pub parity: bool,
    pub rt_y1: Fx,
    pub rm_y1: Fx,
    pub rm_y2: Fx,
    pub lp: Vec<Fx>,
    pub hp: Vec<Fx>,
    pub delay: Vec<Fx>,
    pub delay_idx: usize,
}

/// Mathematical image of a channel: the current and other wave-buffer
/// generations (parity resolved away), filter histories and delay line.
#[verifier::ext_equal]
pub ghost struct ChanV {
    pub fwd_cur: Seq<int>,
    pub rev_cur: Seq<int>,
    pub fwd_oth: Seq<int>,
    pub rev_oth: Seq<int>,
    pub rt_y1: int,
    pub rm_y1: int,
    pub rm_y2: int,
    pub lp: Seq<int>,
    pub hp: Seq<int>,
    pub delay: Seq<int>,
    pub delay_idx: int,
}

impl View for ChannelState {
    type V = ChanV;

    open spec fn view(&self) -> ChanV {
        ChanV {
            fwd_cur: if self.parity {
                sv(self.fwd_b@)
            } else {
                sv(self.fwd_a@)
            },
            rev_cur: if self.parity {
                sv(self.rev_b@)
            } else {
                sv(self.rev_a@)
            },
            fwd_oth: if self.parity {
                sv(self.fwd_a@)
            } else {
                sv(self.fwd_b@)
            },
            rev_oth: if self.parity {
                sv(self.rev_a@)
            } else {
                sv(self.rev_b@)
            },
            rt_y1: self.rt_y1 as int,
            rm_y1: self.rm_y1 as int,
            rm_y2: self.rm_y2 as int,
            lp: sv(self.lp@),
            hp: sv(self.hp@),
            delay: sv(self.delay@),
            delay_idx: self.delay_idx as int,
        }
    }
}

impl ChannelState {
    /// Buffer lengths match the profile's segment count and the delay
    /// cursor is inside the delay line.
    pub open spec fn wf(&self, n: int) -> bool {
        &&& n >= 1
        &&& self.fwd_a.len() == n + 1
        &&& self.rev_a.len() == n + 1
        &&& self.fwd_b.len() == n + 1
        &&& self.rev_b.len() == n + 1
        &&& self.lp.len() == 8
        &&& self.hp.len() == 8
        &&& self.delay.len() == n
        &&& self.delay_idx < n
    }
}

/// Five-term multiply-accumulate of a direct-form biquad, in the exact
/// association order of the engine: b0 x + b1 h0 + b2 h1 - a1 h2 - a2 h3.
pub open spec fn mac5(
    b0: int,
    x: int,
    b1: int,
    h0: int,
    b2: int,
    h1: int,
    a1: int,
    h2: int,
    a2: int,
    h3: int,
) -> int {
    fx_sub_spec(
        fx_sub_spec(
            fx_add_spec(fx_add_spec(fx_mul_spec(b0, x), fx_mul_spec(b1, h0)), fx_mul_spec(b2, h1)),
            fx_mul_spec(a1, h2),
        ),
        fx_mul_spec(a2, h3),
    )
}

fn mac5e(b0: Fx, x: Fx, b1: Fx, h0: Fx, b2: Fx, h1: Fx, a1: Fx, h2: Fx, a2: Fx, h3: Fx) -> (y: Fx)
    ensures
        y as int == mac5(
            b0 as int,
            x as int,
            b1 as int,
            h0 as int,
            b2 as int,
            h1 as int,
            a1 as int,
            h2 as int,
            a2 as int,
            h3 as int,
        ),
{
    fx_sub(
        fx_sub(fx_add(fx_add(fx_mul(b0, x), fx_mul(b1, h0)), fx_mul(b2, h1)), fx_mul(a1, h2)),
        fx_mul(a2, h3),
    )
}

/// History of one band after one sample through its two cascaded
/// second-order sections.
pub open spec fn split_hist(b0: int, b1: int, b2: int, a1: int, a2: int, h: Seq<int>, x: int) -> Seq<
    int,
>
    recommends
        h.len() == 8,
{
    let y1 = mac5(b0, x, b1, h[0], b2, h[1], a1, h[2], a2, h[3]);
    let y = mac5(b0, y1, b1, h[4], b2, h[5], a1, h[6], a2, h[7]);
    seq![x, h[0], y1, h[2], y1, h[4], y, h[6]]
}

/// Output of one band for one sample.
pub open spec fn split_out(b0: int, b1: int, b2: int, a1: int, a2: int, h: Seq<int>, x: int) -> int
    recommends
        h.len() == 8,
{
    let y1 = mac5(b0, x, b1, h[0], b2, h[1], a1, h[2], a2, h[3]);
    mac5(b0, y1, b1, h[4], b2, h[5], a1, h[6], a2, h[7])
}

/// One band of the crossover for one sample: two cascaded second-order
/// sections sharing the denominator coefficients.
pub fn split_band(h: &mut Vec<Fx>, b0: Fx, b1: Fx, b2: Fx, a1: Fx, a2: Fx, x: Fx) -> (y: Fx)
    requires
        old(h).len() == 8,
    ensures
        final(h).len() == 8,
        sv(final(h)@) == split_hist(
            b0 as int,
            b1 as int,
            b2 as int,
            a1 as int,
            a2 as int,
            sv(old(h)@),
            x as int,
        ),
        y as int == split_out(
            b0 as int,
            b1 as int,
            b2 as int,
            a1 as int,
            a2 as int,
            sv(old(h)@),
            x as int,
        ),
{
    let y1: i64 = mac5e(b0, x, b1, h[0], b2, h[1], a1, h[2], a2, h[3]);
    let h0: i64 = h[0];
    h.set(1, h0);
    h.set(0, x);
    let h2: i64 = h[2];
    h.set(3, h2);
    h.set(2, y1);
    let y: i64 = mac5e(b0, y1, b1, h[4], b2, h[5], a1, h[6], a2, h[7]);
    let h4: i64 = h[4];
    h.set(5, h4);
    h.set(4, y1);
    let h6: i64 = h[6];
    h.set(7, h6);
    h.set(6, y);
    proof {
        assert(sv(h@) =~= split_hist(
            b0 as int,
            b1 as int,
            b2 as int,
            a1 as int,
            a2 as int,
            sv(old(h)@),
            x as int,
        ));
    }
    y
}

/// Mouth reflection: the two-pole radiation filter applied to the wave
/// arriving at the open end.
pub open spec fn mouth_refl(mb0: int, ma1: int, ma2: int, fw_n: int, y1: int, y2: int) -> int {
    fx_sub_spec(fx_sub_spec(fx_mul_spec(mb0, fw_n), fx_mul_spec(ma1, y1)), fx_mul_spec(ma2, y2))
}

/// Throat feedback: the one-pole filter applied to the wave arriving
/// back at the narrow end.
pub open spec fn throat_fb(tb0: int, ta1: int, rev0: int, y1: int) -> int {
    fx_sub_spec(fx_mul_spec(tb0, rev0), fx_mul_spec(ta1, y1))
}

/// One sample of the engine on one channel: band split, scattering
/// into the other generation, mouth and throat boundary filters,
/// generation swap, bypass delay and output combination. Returns the
/// new channel state and the output sample.
pub open spec fn spec_step(p: ProfV, s: ChanV, x: int) -> (ChanV, int)
    recommends
        p.n >= 1,
        p.r.len() == p.n,
        s.fwd_cur.len() == p.n + 1,
        s.rev_cur.len() == p.n + 1,
        s.fwd_oth.len() == p.n + 1,
        s.rev_oth.len() == p.n + 1,
        s.lp.len() == 8,
        s.hp.len() == 8,
        s.delay.len() == p.n,
        0 <= s.delay_idx < p.n,
{
    let low = split_out(p.b0_lp, p.b1_lp, p.b2_lp, p.a1_c, p.a2_c, s.lp, x);
    let lp2 = split_hist(p.b0_lp, p.b1_lp, p.b2_lp, p.a1_c, p.a2_c, s.lp, x);
    let high = split_out(p.b0_hp, p.b1_hp, p.b2_hp, p.a1_c, p.a2_c, s.hp, x);
    let hp2 = split_hist(p.b0_hp, p.b1_hp, p.b2_hp, p.a1_c, p.a2_c, s.hp, x);
    let fwd_mid = Seq::new(
        s.fwd_oth.len(),
        |j: int|
            if j == 0 {
                s.fwd_oth[0]
            } else {
                scat_fwd(s.fwd_cur[j - 1], s.rev_cur[j], p.r[j - 1], p.g)
            },
    );
    let rev_mid = Seq::new(
        s.rev_oth.len(),
        |j: int|
            if j < p.n {
                scat_rev(s.fwd_cur[j], s.rev_cur[j + 1], p.r[j], p.g)
            } else {
                s.rev_oth[j]
            },
    );
    let fw_n = fwd_mid[p.n];
    let refl = mouth_refl(p.rm_b0, p.rm_a1, p.rm_a2, fw_n, s.rm_y1, s.rm_y2);
    let rev_new = rev_mid.update(p.n, refl);
    let tf = throat_fb(p.rt_b0, p.rt_a1, rev_new[0], s.rt_y1);
    let fwd_new = fwd_mid.update(0, fx_add_spec(high, fx_mul_spec(p.tr_coeff, tf)));
    let transmitted = fx_add_spec(fw_n, refl);
    let delayed = s.delay[s.delay_idx];
    let delay2 = s.delay.update(s.delay_idx, low);
    let idx2 = if s.delay_idx + 1 >= p.n {
        0
    } else {
        s.delay_idx + 1
    };
    let y = fx_add_spec(fx_mul_spec(transmitted, p.output_gain), delayed);
    (
        ChanV {
            fwd_cur: fwd_new,
            rev_cur: rev_new,
            fwd_oth: s.fwd_cur,
            rev_oth: s.rev_cur,
            rt_y1: tf,
            rm_y1: refl,
            rm_y2: s.rm_y1,
            lp: lp2,
            hp: hp2,
            delay: delay2,
            delay_idx: idx2,
        },
        y,
    )
}

/// Boundary filters on the freshly written next generation: the mouth
/// reflection fills the last backward slot, the throat feedback and the
/// high-band input fill the first forward slot. Returns the transmitted
/// output (mouth arrival plus its reflection).
fn boundary_step(
    fwd_n: &mut Vec<Fx>,
    rev_n: &mut Vec<Fx>,
    rt_y1: &mut Fx,
    rm_y1: &mut Fx,
    rm_y2: &mut Fx,
    prof: &Profile,
    high: Fx,
) -> (t: Fx)
    requires
        prof.n >= 1,
        old(fwd_n).len() == prof.n + 1,
        old(rev_n).len() == prof.n + 1,
    ensures
        ({
            let n = prof.n as int;
            let fw_n = old(fwd_n)[n] as int;
            let refl = mouth_refl(
                prof.rm_b0 as int,
                prof.rm_a1 as int,
                prof.rm_a2 as int,
                fw_n,
                *old(rm_y1) as int,
                *old(rm_y2) as int,
            );
            let rev2 = sv(old(rev_n)@).update(n, refl);
            let tf = throat_fb(prof.rt_b0 as int, prof.rt_a1 as int, rev2[0], *old(rt_y1) as int);
            &&& sv(final(rev_n)@) == rev2
            &&& sv(final(fwd_n)@) == sv(old(fwd_n)@).update(
                0,
                fx_add_spec(high as int, fx_mul_spec(prof.tr_coeff as int, tf)),
            )
            &&& *final(rt_y1) as int == tf
            &&& *final(rm_y1) as int == refl
            &&& *final(rm_y2) == *old(rm_y1)
            &&& t as int == fx_add_spec(fw_n, refl)
        }),
{
    let n: usize = prof.n;
    let fw_n: i64 = fwd_n[n];
    let refl: i64 = fx_sub(
        fx_sub(fx_mul(prof.rm_b0, fw_n), fx_mul(prof.rm_a1, *rm_y1)),
        fx_mul(prof.rm_a2, *rm_y2),
    );
    rev_n.set(n, refl);
    *rm_y2 = *rm_y1;
    *rm_y1 = refl;
    let rev0: i64 = rev_n[0];
    let tf: i64 = fx_sub(fx_mul(prof.rt_b0, rev0), fx_mul(prof.rt_a1, *rt_y1));
    *rt_y1 = tf;
    let inj: i64 = fx_add(high, fx_mul(prof.tr_coeff, tf));
    fwd_n.set(0, inj);
    proof {
        assert(sv(rev_n@) =~= sv(old(rev_n)@).update(prof.n as int, refl as int));
        assert(sv(fwd_n@) =~= sv(old(fwd_n)@).update(0, inj as int));
    }
    fx_add(fw_n, refl)
}

/// One sample on one channel; the exec twin of [`spec_step`].
pub fn step_sample(st: &mut ChannelState, prof: &Profile, x: Fx) -> (y: Fx)
    requires
        prof.wf(),
        old(st).wf(prof.n as int),
    ensures
        final(st).wf(prof.n as int),
        final(st)@ == spec_step(prof@, old(st)@, x as int).0,
        y as int == spec_step(prof@, old(st)@, x as int).1,
        final(st).parity == !old(st).parity,
{
    let low: i64 = split_band(
        &mut st.lp,
        prof.b0_lp,
        prof.b1_lp,
        prof.b2_lp,
        prof.a1_c,
        prof.a2_c,
        x,
    );
    let high: i64 = split_band(
        &mut st.hp,
        prof.b0_hp,
        prof.b1_hp,
        prof.b2_hp,
        prof.a1_c,
        prof.a2_c,
        x,
    );
    let transmitted: i64;
    if st.parity {
        advance_line(&st.fwd_b, &st.rev_b, &mut st.fwd_a, &mut st.rev_a, &prof.r, prof.g);
        transmitted = boundary_step(
            &mut st.fwd_a,
            &mut st.rev_a,
            &mut st.rt_y1,
            &mut st.rm_y1,
            &mut st.rm_y2,
            prof,
            high,
        );
    } else {
        advance_line(&st.fwd_a, &st.rev_a, &mut st.fwd_b, &mut st.rev_b, &prof.r, prof.g);
        transmitted = boundary_step(
            &mut st.fwd_b,
            &mut st.rev_b,
            &mut st.rt_y1,
            &mut st.rm_y1,
            &mut st.rm_y2,
            prof,
            high,
        );
    }
    st.parity = !st.parity;
    let delayed: i64 = st.delay[st.delay_idx];
    st.delay.set(st.delay_idx, low);
    st.delay_idx = if st.delay_idx + 1 >= prof.n {
        0
    } else {
        st.delay_idx + 1
    };
    proof {
        let sres = spec_step(prof@, old(st)@, x as int).0;
        assert(st@.fwd_cur =~= sres.fwd_cur);
        assert(st@.rev_cur =~= sres.rev_cur);
        assert(st@.fwd_oth =~= sres.fwd_oth);
        assert(st@.rev_oth =~= sres.rev_oth);
        assert(st@.lp =~= sres.lp);
        assert(st@.hp =~= sres.hp);
        assert(st@.delay =~= sres.delay);
        assert(st@ =~= sres);
    }
    fx_add(fx_mul(transmitted, prof.output_gain), delayed)
}

/// The engine run over a whole block on one channel: fold of
/// [`spec_step`] over the input samples, producing the final channel
/// state and the output samples.
pub open spec fn spec_run(p: ProfV, s: ChanV, ins: Seq<int>) -> (ChanV, Seq<int>)
    decreases ins.len(),
{
    if ins.len() == 0 {
        (s, Seq::empty())
    } else {
        let first = spec_step(p, s, ins[0]);
        let rest = spec_run(p, first.0, ins.drop_first());
        (rest.0, seq![first.1] + rest.1)
    }
}

/// Unrolling [`spec_run`] from the back: running on `ins.push(x)` is
/// running on `ins` and then stepping once on `x`.
pub proof fn lemma_run_snoc(p: ProfV, s: ChanV, ins: Seq<int>, x: int)
    ensures
        spec_run(p, s, ins.push(x)).0 == spec_step(p, spec_run(p, s, ins).0, x).0,
        spec_run(p, s, ins.push(x)).1 == spec_run(p, s, ins).1.push(
            spec_step(p, spec_run(p, s, ins).0, x).1,
        ),
    decreases ins.len(),
{
    reveal_with_fuel(spec_run, 3);
    if ins.len() == 0 {
        assert(ins.push(x)[0] == x);
        assert(ins.push(x).drop_first() =~= Seq::<int>::empty());
        assert(spec_run(p, s, ins).1.push(spec_step(p, s, x).1) =~= seq![spec_step(p, s, x).1]
            + Seq::<int>::empty());
    } else {
        let s1 = spec_step(p, s, ins[0]).0;
        lemma_run_snoc(p, s1, ins.drop_first(), x);
        assert(ins.push(x)[0] == ins[0]);
        assert(ins.push(x).drop_first() =~= ins.drop_first().push(x));
        assert(spec_run(p, s, ins).1.push(spec_step(p, spec_run(p, s, ins).0, x).1) =~= seq![
            spec_step(p, s, ins[0]).1,
        ] + spec_run(p, s1, ins.drop_first()).1.push(
            spec_step(p, spec_run(p, s1, ins.drop_first()).0, x).1,
        ));
    }
}

/// One channel of one block, in place: read the channel's slice of the
/// buffer, run the engine, write the outputs back over the same slice.
#[verifier::rlimit(50)]
fn process_channel(st: &mut ChannelState, prof: &Profile, data: &mut Vec<Fx>, base: usize, bs: usize)
    requires
        prof.wf(),
        old(st).wf(prof.n as int),
        base + bs <= old(data).len(),
    ensures
        final(st).wf(prof.n as int),
        final(data).len() == old(data).len(),
        forall|k: int| 0 <= k < base ==> final(data)[k] == old(data)[k],
        forall|k: int| base + bs <= k < old(data).len() ==> final(data)[k] == old(data)[k],
        final(st).parity == (if bs % 2 == 0 {
            old(st).parity
        } else {
            !old(st).parity
        }),
        ({
            let r = spec_run(
                prof@,
                old(st)@,
                sv(old(data)@.subrange(base as int, base + bs)),
            );
            final(st)@ == r.0 && sv(final(data)@.subrange(base as int, base + bs)) == r.1
        }),
{
    let ghost ins = sv(old(data)@.subrange(base as int, base + bs as int));
    let mut i: usize = 0;
    while i < bs
        invariant
            prof.wf(),
            st.wf(prof.n as int),
            st.parity == (if i % 2 == 0 {
                old(st).parity
            } else {
                !old(st).parity
            }),
            data.len() == old(data).len(),
            base + bs <= data.len(),
            0 <= i <= bs,
            ins == sv(old(data)@.subrange(base as int, base + bs as int)),
            forall|k: int| 0 <= k < base ==> data[k] == old(data)[k],
            forall|k: int| base + i <= k < data.len() ==> data[k] == old(data)[k],
            st@ == spec_run(prof@, old(st)@, ins.take(i as int)).0,
            sv(data@.subrange(base as int, base + i)) == spec_run(
                prof@,
                old(st)@,
                ins.take(i as int),
            ).1,
        decreases bs - i,
    {
        let idx: usize = base + i;
        let x: i64 = data[idx];
        proof {
            assert(old(data)@.subrange(base as int, base + bs as int)[i as int] == old(
                data,
            )@[base + i]);
            assert(ins[i as int] == x as int);
            assert(ins.take(i + 1) =~= ins.take(i as int).push(x as int));
            lemma_run_snoc(prof@, old(st)@, ins.take(i as int), x as int);
        }
        let y: i64 = step_sample(st, prof, x);
        data.set(idx, y);
        proof {
            assert(sv(data@.subrange(base as int, base + i + 1)) =~= sv(
                data@.subrange(base as int, base + i),
            ).push(y as int));
            assert(sv(data@.subrange(base as int, base + i)) =~= spec_run(
                prof@,
                old(st)@,
                ins.take(i as int),
            ).1);
        }
        i = i + 1;
    }
    proof {
        assert(ins.take(bs as int) =~= ins);
    }
}

/// Segment count derived from horn length and sample rate: the length
/// in meters divided by the spatial step `c / sample_rate`, rounded to
/// the nearest integer, floored at one and capped at [`MAX_SEGMENTS`].
pub open spec fn spec_segments(ln: int, sr: int) -> int {
    let q = fx_div_spec(fx_mul_spec(ln, sr), 2247884800);
    let rounded = fx_add_spec(q, 32768) / 65536;
    if rounded < 1 {
        1
    } else if rounded > 1048576 {
        1048576
    } else {
        rounded
    }
}

fn segment_count(ln: Fx, sr: Fx) -> (n: usize)
    requires
        sr >= 1,
    ensures
        n as int == spec_segments(ln as int, sr as int),
        1 <= n <= MAX_SEGMENTS,
{
    let q: i64 = fx_div(fx_mul(ln, sr), C100_FX);
    let s: i64 = fx_add(q, HALF);
    if s < 65536 {
        proof {
            if s >= 0 {
                vstd::arithmetic::div_mod::lemma_basic_div(s as int, 65536);
            } else {
                vstd::arithmetic::div_mod::lemma_div_is_ordered(s as int, 0, 65536);
                vstd::arithmetic::div_mod::lemma_div_of0(65536);
            }
        }
        1
    } else {
        let d: i64 = div_small(s, 65536);
        proof {
            vstd::arithmetic::div_mod::lemma_div_is_ordered(65536, s as int, 65536);
            vstd::arithmetic::div_mod::lemma_div_multiples_vanish(1, 65536);
        }
        if d > 1048576 {
            1048576
        } else {
            d as usize
        }
    }
}

/// Boundary impedance of one segment: `rho c / (pi max(radius^2, eps))`,
/// floored at one raw unit so the profile is always strictly positive.
pub open spec fn spec_z(radius: int) -> int {
    let r2 = fx_mul_spec(radius, radius);
    let r2c = if r2 < 1 {
        1
    } else if r2 > 281474976710656 {
        281474976710656
    } else {
        r2
    };
    let area = fx_mul_spec(205887, r2c);
    let z0 = fx_div_spec(27066368, area);
    if z0 < 1 {
        1
    } else {
        z0
    }
}

fn impedance_of(radius: Fx) -> (z: Fx)
    ensures
        z as int == spec_z(radius as int),
        1 <= z,
{
    proof {
        crate::fixed::lemma_fx_square_nonneg(radius as int);
    }
    let r2: i64 = fx_mul(radius, radius);
    let r2c: i64 = if r2 < 1 {
        1
    } else if r2 > 281474976710656 {
        281474976710656
    } else {
        r2
    };
    proof {
        crate::fixed::lemma_fx_mul_lower_bound(PI_FX as int, r2c as int, 205887, 1);
        lemma_fx_mul_nonneg(PI_FX as int, r2c as int);
        vstd::arithmetic::mul::lemma_mul_upper_bound(
            PI_FX as int,
            205887,
            r2c as int,
            281474976710656,
        );
    }
    let area: i64 = fx_mul(PI_FX, r2c);
    let z0: i64 = fx_div(RHO_C_FX, area);
    if z0 < 1 {
        1
    } else {
        z0
    }
}

/// Radius of segment boundary `i`: the throat radius at the first
/// boundary, the mouth radius at the last, and in between the
/// throat-to-mouth interpolation by the position fraction raised to the
/// curvature exponent (the fraction floored at one raw unit).
pub open spec fn spec_radius(i: int, n: int, thr: int, mor: int, ce: int) -> int {
    if i == 0 {
        thr
    } else if i == n {
        mor
    } else {
        let fr0 = fx_div_spec(i * 65536, n * 65536);
        let fr = if fr0 < 1 {
            1int
        } else if fr0 > 65536 {
            65536int
        } else {
            fr0
        };
        fx_add_spec(thr, fx_mul_spec(fx_sub_spec(mor, thr), pow_frac_spec(fr, ce)))
    }
}

/// Exact value of [`boundary_pole`]: 0.99 exp(-2 pi f_norm), where
/// f_norm is the boundary cutoff over the sample rate, the cutoff
/// clamped to 0.45 of the sample rate and falling back to a quarter of
/// the sample rate for a degenerate radius.
pub open spec fn spec_pole(radius: int, sr: int) -> int {
    let den = fx_mul_spec(TWO_PI_FX as int, radius);
    let fc = if den >= 1 {
        fx_div_spec(C_FX as int, den)
    } else {
        fx_div_spec(sr, (4 * 65536) as int)
    };
    let cap = fx_mul_spec(sr, POINT45_FX as int);
    let fmin = if fc < cap {
        fc
    } else {
        cap
    };
    let f_norm = fx_div_spec(fmin, sr);
    let arg = fx_mul_spec(fx_mul_spec(TWO_PI_FX as int, f_norm), LOG2_E_FX as int);
    fx_mul_spec(POINT99_FX as int, pow2_spec(-arg))
}

/// Pole of a boundary reflection filter: 0.99 exp(-2 pi f_norm), where
/// f_norm is the boundary cutoff (clamped to 0.45 of the sample rate)
/// over the sample rate. Always within [0, 0.99].
fn boundary_pole(radius: Fx, sr: Fx) -> (pole: Fx)
    requires
        sr >= ONE,
    ensures
        pole as int == spec_pole(radius as int, sr as int),
        0 <= pole <= 64881,
{
    let den: i64 = fx_mul(TWO_PI_FX, radius);
    let fc: i64 = if den >= 1 {
        proof {
            lemma_fx_div_nonneg(C_FX as int, den as int);
        }
        fx_div(C_FX, den)
    } else {
        proof {
            lemma_fx_div_nonneg(sr as int, 4 * ONE as int);
        }
        fx_div(sr, 4 * ONE)
    };
    proof {
        lemma_fx_mul_nonneg(sr as int, POINT45_FX as int);
    }
    let cap: i64 = fx_mul(sr, POINT45_FX);
    let fmin: i64 = if fc < cap {
        fc
    } else {
        cap
    };
    proof {
        lemma_fx_div_nonneg(fmin as int, sr as int);
    }
    let f_norm: i64 = fx_div(fmin, sr);
    proof {
        lemma_fx_mul_nonneg(TWO_PI_FX as int, f_norm as int);
        lemma_fx_mul_nonneg(fx_mul_spec(TWO_PI_FX as int, f_norm as int), LOG2_E_FX as int);
    }
    let arg: i64 = fx_mul(fx_mul(TWO_PI_FX, f_norm), LOG2_E_FX);
    let m: i64 = pow2_fx(-arg);
    proof {
        crate::fixed::lemma_fx_mul_nonneg_bound(POINT99_FX as int, m as int, 64881, 65536);
    }
    fx_mul(POINT99_FX, m)
}

/// All-zero fixed-point sequence.
pub open spec fn zero_seq(n: int) -> Seq<int> {
    Seq::new(n as nat, |i: int| 0)
}

/// Band-splitter history seed: a one-raw-unit alternating-sign bias in
/// place of exact zeros, so the recursive filters never stall on
/// silence.
pub open spec fn seed_hist() -> Seq<int> {
    seq![1int, -1int, 1int, -1int, 1int, -1int, 1int, -1int]
}

/// State of a channel right after a profile recompute: empty wave
/// buffers and delay line, seeded band-splitter histories, generation a
/// current.
pub open spec fn reset_chan(n: int) -> ChanV {
    ChanV {
        fwd_cur: zero_seq(n + 1),
        rev_cur: zero_seq(n + 1),
        fwd_oth: zero_seq(n + 1),
        rev_oth: zero_seq(n + 1),
        rt_y1: 0,
        rm_y1: 0,
        rm_y2: 0,
        lp: seed_hist(),
        hp: seed_hist(),
        delay: zero_seq(n),
        delay_idx: 0,
    }
}

fn zero_vec(len: usize) -> (v: Vec<Fx>)
    ensures
        v.len() == len,
        sv(v@) == zero_seq(len as int),
{
    let mut v: Vec<Fx> = Vec::new();
    let mut i: usize = 0;
    while i < len
        invariant
            v.len() == i,
            0 <= i <= len,
            forall|k: int| 0 <= k < i ==> v[k] == 0,
        decreases len - i,
    {
        v.push(0);
        i = i + 1;
    }
    proof {
        assert(sv(v@) =~= zero_seq(len as int));
    }
    v
}

fn seed_vec() -> (v: Vec<Fx>)
    ensures
        v.len() == 8,
        sv(v@) == seed_hist(),
{
    let mut v: Vec<Fx> = Vec::new();
    v.push(1);
    v.push(-1);
    v.push(1);
    v.push(-1);
    v.push(1);
    v.push(-1);
    v.push(1);
    v.push(-1);
    proof {
        assert(sv(v@) =~= seed_hist());
    }
    v
}

fn make_channel(n: usize) -> (st: ChannelState)
    requires
        1 <= n < usize::MAX,
    ensures
        st.wf(n as int),
        st@ == reset_chan(n as int),
        st.parity == false,
{
    let st = ChannelState {
        fwd_a: zero_vec(n + 1),
        rev_a: zero_vec(n + 1),
        fwd_b: zero_vec(n + 1),
        rev_b: zero_vec(n + 1),
        parity: false,
        rt_y1: 0,
        rm_y1: 0,
        rm_y2: 0,
        lp: seed_vec(),
        hp: seed_vec(),
        delay: zero_vec(n),
        delay_idx: 0,
    };
    proof {
        assert(st@ =~= reset_chan(n as int));
    }
    st
}

/// Every derived quantity of a profile, pinned to its fixed-point spec
/// twin as a function of the configuration alone: segment count, the
/// impedance of every boundary, every reflection coefficient, the loss
/// gain, the throat and mouth filter coefficients, the crossover
/// coefficients (two cascaded second-order sections sharing the
/// denominator, bilinear-transformed from the crossover frequency
/// clamped to [20 Hz, half the sample rate minus one]), and the output
/// gain. Since every equation's right side mentions only `p`, two
/// recomputes from one configuration give bit-identical profiles.
pub open spec fn spec_profile_of(prof: Profile, p: Parameters) -> bool {
    let sr = if p.sample_rate < 65536 {
        65536int
    } else {
        p.sample_rate as int
    };
    let n = spec_segments(p.ln as int, sr);
    let ce = pow10_spec(fx_div_spec(p.cv as int, (100 * 65536) as int));
    let thr = fx_div_spec(p.th as int, (200 * 65536) as int);
    let mor = fx_div_spec(p.mo as int, (200 * 65536) as int);
    let dx = fx_div_spec(C_FX as int, sr);
    let e = fx_div_spec(fx_mul_spec(p.dp as int, dx), (20 * 65536) as int);
    let ne = if e == i64::MIN as int {
        i64::MAX as int
    } else {
        -e
    };
    let pole_t = spec_pole(thr, sr);
    let pole_m = spec_pole(mor, sr);
    let rm_a1 = -fx_mul_spec((2 * 65536) as int, pole_m);
    let rm_a2 = fx_mul_spec(pole_m, pole_m);
    let co_hi = fx_sub_spec(fx_mul_spec(sr, 32768), 65536);
    let co1 = if p.co < 20 * 65536 {
        (20 * 65536) as int
    } else {
        p.co as int
    };
    let co_c = if co1 > co_hi {
        co_hi
    } else {
        co1
    };
    let ratio0 = fx_div_spec(fx_mul_spec(co_c, PI_FX as int), sr);
    let ratio = if ratio0 < 0 {
        0int
    } else if ratio0 > 102943 {
        102943int
    } else {
        ratio0
    };
    let omega = tan_spec(ratio);
    let omega2 = fx_mul_spec(omega, omega);
    let kq = fx_mul_spec(SQRT2_FX as int, omega);
    let den = fx_add_spec(fx_add_spec(omega2, kq), 65536);
    let inv_den = fx_div_spec(65536, den);
    let b0_lp = fx_mul_spec(omega2, inv_den);
    let two_hp = fx_mul_spec((2 * 65536) as int, inv_den);
    &&& prof.n as int == n
    &&& prof.z.len() == n + 1
    &&& prof.r.len() == n
    &&& forall|i: int|
        0 <= i < prof.z.len() ==> #[trigger] prof.z[i] as int == spec_z(
            spec_radius(i, n, thr, mor, ce),
        )
    &&& forall|j: int|
        0 <= j < prof.r.len() ==> #[trigger] prof.r[j] as int == fx_div_spec(
            fx_sub_spec(prof.z[j + 1] as int, prof.z[j] as int),
            fx_add_spec(prof.z[j + 1] as int, prof.z[j] as int),
        )
    &&& prof.g as int == pow10_spec(ne)
    &&& prof.tr_coeff == p.tr
    &&& prof.rt_b0 as int == fx_sub_spec(65536, pole_t)
    &&& prof.rt_a1 as int == -pole_t
    &&& prof.rm_a1 as int == rm_a1
    &&& prof.rm_a2 as int == rm_a2
    &&& prof.rm_b0 as int == fx_sub_spec(fx_sub_spec(-65536, rm_a1), rm_a2)
    &&& prof.b0_lp as int == b0_lp
    &&& prof.b1_lp as int == fx_mul_spec((2 * 65536) as int, b0_lp)
    &&& prof.b2_lp == prof.b0_lp
    &&& prof.b0_hp as int == inv_den
    &&& prof.b1_hp as int == (if two_hp == i64::MIN as int {
        i64::MAX as int
    } else {
        -two_hp
    })
    &&& prof.b2_hp as int == inv_den
    &&& prof.a1_c as int == fx_mul_spec(
        fx_mul_spec((2 * 65536) as int, fx_sub_spec(omega2, 65536)),
        inv_den,
    )
    &&& prof.a2_c as int == fx_mul_spec(fx_add_spec(fx_sub_spec(omega2, kq), 65536), inv_den)
    &&& prof.output_gain as int == pow10_spec(fx_div_spec(p.wg as int, (20 * 65536) as int))
}

/// Idempotent recompute: once the translator has cached a
/// configuration, that same configuration never counts as stale, so a
/// second invocation with identical parameters recomputes nothing and
/// resets no engine state. [`Context::recalc`] establishes exactly this
/// precondition, and [`Context::process`] invokes the translator only
/// on a stale instance and leaves the profile untouched otherwise.
/// Bit-identity of a recompute is carried by [`spec_profile_of`]:
/// every profile field is pinned to a function of the configuration
/// alone, so two recomputes from one configuration cannot differ.
pub proof fn lemma_recompute_idempotent(c: Context, p: Parameters)
    requires
        c.initialized,
        c.sr == p.sample_rate,
        c.chs == p.channel_count,
        c.ln == p.ln,
        c.th == p.th,
        c.mo == p.mo,
        c.cv == p.cv,
        c.dp == p.dp,
        c.tr == p.tr,
        c.co == p.co,
        c.wg == p.wg,
    ensures
        !c.stale(p),
{
}

/// The run of one block: every channel's slice of the buffer is
/// replaced by the engine fold over its old samples, starting from the
/// channel's prior state, or from the reset state if the profile was
/// recomputed for `p`.
pub open spec fn block_post(
    pre: Context,
    post: Context,
    pre_data: Seq<i64>,
    post_data: Seq<i64>,
    p: Parameters,
) -> bool {
    forall|ch: int|
        0 <= ch < p.channel_count ==> ({
            let bs = p.block_size as int;
            let ins = sv(pre_data.subrange(ch * bs, ch * bs + bs));
            let start = if pre.stale(p) {
                reset_chan(post.profile.n as int)
            } else {
                pre.channels[ch]@
            };
            let rr = spec_run(post.profile@, start, ins);
            (#[trigger] post.channels[ch])@ == rr.0 && sv(
                post_data.subrange(ch * bs, ch * bs + bs),
            ) == rr.1
        })
}

/// The engine instance: cached configuration, derived profile and
/// per-channel state. The profile and all per-channel state refresh
/// together when any tracked configuration field drifts beyond its
/// tolerance, and only then.
pub struct Context {
    /// A profile has been computed at least once.
    pub initialized: bool,
    /// Cached configuration the current profile was derived from.
    pub sr: Fx,
    pub chs: usize,
    pub ln: Fx,
    pub th: Fx,
    pub mo: Fx,
    pub cv: Fx,
    pub dp: Fx,
    pub tr: Fx,
    pub co: Fx,
    pub wg: Fx,
    /// Derived physical profile and filter coefficients.
    pub profile: Profile,
    /// Per-channel waveguide, filter and delay state.
    pub channels: Vec<ChannelState>,
}

impl Context {
    /// The cached configuration has drifted beyond tolerance from `p`
    /// (or no profile exists yet), so the profile must be recomputed.
    pub open spec fn stale(self, p: Parameters) -> bool {
        ||| !self.initialized
        ||| drift_exceeds(self.sr as int, p.sample_rate as int, TOL_RATE as int)
        ||| self.chs != p.channel_count
        ||| drift_exceeds(self.ln as int, p.ln as int, TOL_SHAPE as int)
        ||| drift_exceeds(self.th as int, p.th as int, TOL_SHAPE as int)
        ||| drift_exceeds(self.mo as int, p.mo as int, TOL_SHAPE as int)
        ||| drift_exceeds(self.cv as int, p.cv as int, TOL_SHAPE as int)
        ||| drift_exceeds(self.dp as int, p.dp as int, TOL_FINE as int)
        ||| drift_exceeds(self.tr as int, p.tr as int, TOL_FINE as int)
        ||| drift_exceeds(self.co as int, p.co as int, TOL_SHAPE as int)
        ||| drift_exceeds(self.wg as int, p.wg as int, TOL_SHAPE as int)
    }

    /// Structural soundness of an initialized instance.
    pub open spec fn wf(self) -> bool {
        &&& self.profile.wf()
        &&& self.channels.len() == self.chs
        &&& forall|c: int|
            0 <= c < self.channels.len() ==> (#[trigger] self.channels[c]).wf(self.profile.n as int)
    }

    /// Invariant carried by every instance: once initialized, the
    /// profile and channel state are well formed.
    pub open spec fn inv(self) -> bool {
        self.initialized ==> self.wf()
    }

    /// A fresh instance with no profile; the first block triggers the
    /// translator.
    pub fn new() -> (c: Context)
        ensures
            !c.initialized,
            c.inv(),
            c.sr == 0 && c.chs == 0,
            c.ln == 0 && c.th == 0 && c.mo == 0 && c.cv == 0,
            c.dp == 0 && c.tr == 0 && c.co == 0 && c.wg == 0,
            c.profile.n == 0 && c.profile.z.len() == 0 && c.profile.r.len() == 0,
            c.profile.g == 0 && c.profile.tr_coeff == 0,
            c.profile.rt_b0 == 0 && c.profile.rt_a1 == 0,
            c.profile.rm_b0 == 0 && c.profile.rm_a1 == 0 && c.profile.rm_a2 == 0,
            c.profile.b0_lp == 0 && c.profile.b1_lp == 0 && c.profile.b2_lp == 0,
            c.profile.b0_hp == 0 && c.profile.b1_hp == 0 && c.profile.b2_hp == 0,
            c.profile.a1_c == 0 && c.profile.a2_c == 0,
            c.profile.output_gain == ONE,
            c.channels.len() == 0,
    {
        Context {
            initialized: false,
            sr: 0,
            chs: 0,
            ln: 0,
            th: 0,
            mo: 0,
            cv: 0,
            dp: 0,
            tr: 0,
            co: 0,
            wg: 0,
            profile: Profile {
                n: 0,
                z: Vec::new(),
                r: Vec::new(),
                g: 0,
                tr_coeff: 0,
                rt_b0: 0,
                rt_a1: 0,
                rm_b0: 0,
                rm_a1: 0,
                rm_a2: 0,
                b0_lp: 0,
                b1_lp: 0,
                b2_lp: 0,
                b0_hp: 0,
                b1_hp: 0,
                b2_hp: 0,
                a1_c: 0,
                a2_c: 0,
                output_gain: ONE,
            },
            channels: Vec::new(),
        }
    }

    /// Whether any tracked configuration field drifted beyond its
    /// tolerance since the profile was computed.
    pub fn needs_recalc(&self, p: &Parameters) -> (r: bool)
        ensures
            r == self.stale(*p),
    {
        !self.initialized || drift(self.sr, p.sample_rate, TOL_RATE) || self.chs
            != p.channel_count || drift(self.ln, p.ln, TOL_SHAPE) || drift(self.th, p.th, TOL_SHAPE)
            || drift(self.mo, p.mo, TOL_SHAPE) || drift(self.cv, p.cv, TOL_SHAPE) || drift(
            self.dp,
            p.dp,
            TOL_FINE,
        ) || drift(self.tr, p.tr, TOL_FINE) || drift(self.co, p.co, TOL_SHAPE) || drift(
            self.wg,
            p.wg,
            TOL_SHAPE,
        )
    }

    /// The parameter translator. Derives segment count, impedance
    /// profile, reflection coefficients, loss gain, boundary and
    /// crossover filter coefficients and output gain from `p`, and
    /// resets every channel's state to the new size. Never fails:
    /// degenerate inputs are clamped.
    ///
    /// Every derived value is pinned by [`spec_profile_of`] to a spec
    /// twin over `p` alone. Every reflection coefficient lies strictly
    /// in (-1, 1), and a uniform tube (throat radius equal to mouth
    /// radius) yields all-zero reflections. Afterwards the instance is
    /// not stale for `p`, so an immediate second call with the same
    /// configuration is never triggered by [`Context::needs_recalc`]
    /// and would compute a bit-identical profile if made.
    pub fn recalc(&mut self, p: &Parameters)
        ensures
            final(self).initialized,
            final(self).wf(),
            !final(self).stale(*p),
            final(self).sr == p.sample_rate && final(self).chs == p.channel_count,
            final(self).ln == p.ln && final(self).th == p.th && final(self).mo == p.mo,
            final(self).cv == p.cv && final(self).dp == p.dp && final(self).tr == p.tr,
            final(self).co == p.co && final(self).wg == p.wg,
            final(self).profile.n as int == spec_segments(
                p.ln as int,
                if p.sample_rate < ONE {
                    ONE as int
                } else {
                    p.sample_rate as int
                },
            ),
            forall|j: int|
                0 <= j < final(self).profile.r.len() ==> #[trigger] final(self).profile.r[j] as int
                    == fx_div_spec(
                    fx_sub_spec(
                        final(self).profile.z[j + 1] as int,
                        final(self).profile.z[j] as int,
                    ),
                    fx_add_spec(
                        final(self).profile.z[j + 1] as int,
                        final(self).profile.z[j] as int,
                    ),
                ),
            forall|j: int|
                0 <= j < final(self).profile.r.len() ==> -ONE < #[trigger] final(self).profile.r[j]
                    < ONE,
            p.th == p.mo ==> forall|j: int|
                0 <= j < final(self).profile.r.len() ==> #[trigger] final(self).profile.r[j] == 0,
            0 <= final(self).profile.g,
            p.dp >= 0 ==> final(self).profile.g <= ONE,
            p.dp == 0 ==> final(self).profile.g == ONE,
            final(self).profile.tr_coeff == p.tr,
            0 <= final(self).profile.output_gain,
            p.wg == 0 ==> final(self).profile.output_gain == ONE,
            final(self).channels.len() == p.channel_count,
            forall|c: int|
                0 <= c < p.channel_count ==> (#[trigger] final(self).channels[c])@ == reset_chan(
                    final(self).profile.n as int,
                ) && final(self).channels[c].parity == false,
            spec_profile_of(final(self).profile, *p),
    {
        self.sr = p.sample_rate;
        self.chs = p.channel_count;
        self.ln = p.ln;
        self.th = p.th;
        self.mo = p.mo;
        self.cv = p.cv;
        self.dp = p.dp;
        self.tr = p.tr;
        self.co = p.co;
        self.wg = p.wg;
        let sr: i64 = if p.sample_rate < ONE {
            ONE
        } else {
            p.sample_rate
        };
        let n: usize = segment_count(p.ln, sr);
        self.profile.n = n;

        // Radius profile and impedances.
        let curve_exp: i64 = pow10_fx(fx_div(p.cv, 100 * ONE));
        let throat_r: i64 = fx_div(p.th, 200 * ONE);
        let mouth_r: i64 = fx_div(p.mo, 200 * ONE);
        let mut z: Vec<Fx> = Vec::new();
        let mut i: usize = 0;
        while i <= n
            invariant
                1 <= n <= MAX_SEGMENTS,
                z.len() == i,
                0 <= i <= n + 1,
                throat_r as int == fx_div_spec(p.th as int, (200 * 65536) as int),
                mouth_r as int == fx_div_spec(p.mo as int, (200 * 65536) as int),
                curve_exp as int == pow10_spec(fx_div_spec(p.cv as int, (100 * 65536) as int)),
                curve_exp >= 0,
                forall|k: int| 0 <= k < i ==> 1 <= #[trigger] z[k],
                forall|k: int|
                    0 <= k < i ==> #[trigger] z[k] as int == spec_z(
                        spec_radius(k, n as int, throat_r as int, mouth_r as int, curve_exp as int),
                    ),
                p.th == p.mo ==> forall|k: int|
                    0 <= k < i ==> #[trigger] z[k] as int == spec_z(throat_r as int),
            decreases n + 1 - i,
        {
            let radius: i64 = if i == 0 {
                throat_r
            } else if i == n {
                mouth_r
            } else {
                let fr0: i64 = fx_div((i as i64) * 65536, (n as i64) * 65536);
                let fr: i64 = if fr0 < 1 {
                    1
                } else if fr0 > ONE {
                    ONE
                } else {
                    fr0
                };
                let w: i64 = pow_frac(fr, curve_exp);
                proof {
                    if p.th == p.mo {
                        lemma_fx_mul_zero(w as int);
                    }
                }
                fx_add(throat_r, fx_mul(fx_sub(mouth_r, throat_r), w))
            };
            proof {
                assert(radius as int == spec_radius(
                    i as int,
                    n as int,
                    throat_r as int,
                    mouth_r as int,
                    curve_exp as int,
                ));
            }
            let zi: i64 = impedance_of(radius);
            z.push(zi);
            i = i + 1;
        }
        self.profile.z = z;

        // Junction reflection coefficients.
        let mut r: Vec<Fx> = Vec::new();
        let mut j: usize = 0;
        while j < n
            invariant
                1 <= n,
                self.profile.z.len() == n + 1,
                r.len() == j,
                0 <= j <= n,
                forall|k: int| 0 <= k < self.profile.z.len() ==> 1 <= #[trigger] self.profile.z[k],
                p.th == p.mo ==> forall|k: int|
                    0 <= k && k + 1 < self.profile.z.len() ==> #[trigger] self.profile.z[k]
                        == self.profile.z[k + 1],
                forall|k: int|
                    0 <= k < j ==> #[trigger] r[k] as int == fx_div_spec(
                        fx_sub_spec(self.profile.z[k + 1] as int, self.profile.z[k] as int),
                        fx_add_spec(self.profile.z[k + 1] as int, self.profile.z[k] as int),
                    ),
                forall|k: int| 0 <= k < j ==> -ONE < #[trigger] r[k] < ONE,
                p.th == p.mo ==> forall|k: int| 0 <= k < j ==> #[trigger] r[k] == 0,
            decreases n - j,
        {
            let z0: i64 = self.profile.z[j];
            let z1: i64 = self.profile.z[j + 1];
            let sum: i64 = fx_add(z1, z0);
            let diff: i64 = fx_sub(z1, z0);
            proof {
                crate::fixed::lemma_reflection_bounds(diff as int, sum as int);
                if p.th == p.mo {
                    crate::fixed::lemma_fx_div_zero(sum as int);
                }
            }
            let rj: i64 = fx_div(diff, sum);
            r.push(rj);
            j = j + 1;
        }
        self.profile.r = r;

        // Loss gain: damping scaled by the spatial step.
        let dx: i64 = fx_div(C_FX, sr);
        proof {
            lemma_fx_div_nonneg(C_FX as int, sr as int);
            if p.dp as int >= 0 {
                lemma_fx_mul_nonneg(p.dp as int, dx as int);
                lemma_fx_div_nonneg(fx_mul_spec(p.dp as int, dx as int), (20 * 65536) as int);
            }
            if p.dp == 0 {
                lemma_fx_mul_zero(dx as int);
                crate::fixed::lemma_fx_div_zero((20 * 65536) as int);
            }
        }
        let e: i64 = fx_div(fx_mul(p.dp, dx), 20 * ONE);
        let ne: i64 = if e == i64::MIN {
            i64::MAX
        } else {
            -e
        };
        self.profile.g = pow10_fx(ne);
        self.profile.tr_coeff = p.tr;

        // Boundary filters.
        let pole_t: i64 = boundary_pole(throat_r, sr);
        self.profile.rt_b0 = fx_sub(ONE, pole_t);
        self.profile.rt_a1 = -pole_t;
        let pole_m: i64 = boundary_pole(mouth_r, sr);
        let two_pole: i64 = fx_mul(2 * ONE, pole_m);
        proof {
            crate::fixed::lemma_fx_mul_nonneg_bound((2 * 65536) as int, pole_m as int, 131072, 64881);
        }
        self.profile.rm_a1 = -two_pole;
        self.profile.rm_a2 = fx_mul(pole_m, pole_m);
        self.profile.rm_b0 = fx_sub(fx_sub(-ONE, self.profile.rm_a1), self.profile.rm_a2);

        // Crossover coefficients (two cascaded second-order sections
        // sharing the denominator, bilinear-transformed).
        let co_hi: i64 = fx_sub(fx_mul(sr, HALF), ONE);
        let co1: i64 = if p.co < 20 * ONE {
            20 * ONE
        } else {
            p.co
        };
        let co_c: i64 = if co1 > co_hi {
            co_hi
        } else {
            co1
        };
        let ratio0: i64 = fx_div(fx_mul(co_c, PI_FX), sr);
        let ratio: i64 = if ratio0 < 0 {
            0
        } else if ratio0 > 102943 {
            102943
        } else {
            ratio0
        };
        let omega: i64 = tan_fx(ratio);
        proof {
            crate::fixed::lemma_fx_square_nonneg(omega as int);
            lemma_fx_mul_nonneg(SQRT2_FX as int, omega as int);
        }
        let omega2: i64 = fx_mul(omega, omega);
        let kq: i64 = fx_mul(SQRT2_FX, omega);
        let den: i64 = fx_add(fx_add(omega2, kq), ONE);
        let inv_den: i64 = fx_div(ONE, den);
        self.profile.b0_lp = fx_mul(omega2, inv_den);
        self.profile.b1_lp = fx_mul(2 * ONE, self.profile.b0_lp);
        self.profile.b2_lp = self.profile.b0_lp;
        self.profile.b0_hp = inv_den;
        let two_hp: i64 = fx_mul(2 * ONE, inv_den);
        self.profile.b1_hp = if two_hp == i64::MIN {
            i64::MAX
        } else {
            -two_hp
        };
        self.profile.b2_hp = inv_den;
        self.profile.a1_c = fx_mul(fx_mul(2 * ONE, fx_sub(omega2, ONE)), inv_den);
        self.profile.a2_c = fx_mul(fx_add(fx_sub(omega2, kq), ONE), inv_den);

        // Output gain and channel reset.
        self.profile.output_gain = pow10_fx(fx_div(p.wg, 20 * ONE));
        proof {
            if p.wg == 0 {
                crate::fixed::lemma_fx_div_zero((20 * 65536) as int);
            }
        }
        let mut chans: Vec<ChannelState> = Vec::new();
        let mut c: usize = 0;
        while c < p.channel_count
            invariant
                1 <= n <= MAX_SEGMENTS,
                chans.len() == c,
                0 <= c <= p.channel_count,
                forall|k: int|
                    0 <= k < c ==> (#[trigger] chans[k])@ == reset_chan(n as int) && chans[k].wf(
                        n as int,
                    ) && chans[k].parity == false,
            decreases p.channel_count - c,
        {
            chans.push(make_channel(n));
            c = c + 1;
        }
        self.channels = chans;
        self.initialized = true;
        proof {
            assert(spec_profile_of(self.profile, *p));
        }
    }

    /// Process one block in place. Channel `ch` occupies samples
    /// `[ch * block_size, (ch + 1) * block_size)` of `data`.
    ///
    /// A disabled instance returns at once, leaving the buffer and all
    /// internal state untouched. A buffer whose length is not exactly
    /// `channel_count * block_size` samples is rejected, also without
    /// any change. Otherwise the profile is recomputed if the
    /// configuration drifted (and only then), and every channel's slice
    /// is replaced by the engine run over it: the fold of the
    /// per-sample step over the old samples, starting from the
    /// channel's prior state, or from the reset state if the profile
    /// was recomputed.
    pub fn process(&mut self, data: &mut Vec<Fx>, p: &Parameters) -> (res: Result<(), EngineError>)
        requires
            old(self).inv(),
        ensures
            final(self).inv(),
            final(data).len() == old(data).len(),
            !p.en ==> *final(self) == *old(self) && final(data)@ == old(data)@ && res == Ok::<
                (),
                EngineError,
            >(()),
            (p.en && p.channel_count * p.block_size != old(data).len()) ==> (res == Err::<
                (),
                EngineError,
            >(EngineError::UnevenBuffer) && *final(self) == *old(self) && final(data)@ == old(
                data,
            )@),
            (p.en && p.channel_count * p.block_size == old(data).len()) ==> ({
                &&& res == Ok::<(), EngineError>(())
                &&& final(self).initialized && final(self).wf() && !final(self).stale(*p)
                &&& final(self).chs == p.channel_count
                &&& (!old(self).stale(*p) ==> final(self).profile@ == old(self).profile@)
                &&& (old(self).stale(*p) ==> spec_profile_of(final(self).profile, *p))
                &&& block_post(*old(self), *final(self), old(data)@, final(data)@, *p)
                &&& forall|ch: int|
                    0 <= ch < p.channel_count ==> (#[trigger] final(self).channels[ch]).parity == (
                    {
                        let start = if old(self).stale(*p) {
                            false
                        } else {
                            old(self).channels[ch].parity
                        };
                        if p.block_size % 2 == 0 {
                            start
                        } else {
                            !start
                        }
                    })
            }),
    {
        if !p.en {
            return Ok(());
        }
        let total_opt = p.channel_count.checked_mul(p.block_size);
        let total: usize = match total_opt {
            Some(t) => t,
            None => {
                proof {
                    vstd::arithmetic::mul::lemma_mul_nonnegative(
                        p.channel_count as int,
                        p.block_size as int,
                    );
                }
                return Err(EngineError::UnevenBuffer);
            },
        };
        if total != data.len() {
            return Err(EngineError::UnevenBuffer);
        }
        let ghost was_stale = old(self).stale(*p);
        if self.needs_recalc(p) {
            self.recalc(p);
        }
        let ghost mid = *self;
        let bs: usize = p.block_size;
        let chs: usize = p.channel_count;
        proof {
            assert(self.channels.len() == chs);
        }
        let mut ch: usize = 0;
        while ch < chs
            invariant
                mid.wf(),
                self.initialized == mid.initialized,
                self.sr == mid.sr && self.chs == mid.chs,
                self.ln == mid.ln && self.th == mid.th && self.mo == mid.mo && self.cv == mid.cv,
                self.dp == mid.dp && self.tr == mid.tr && self.co == mid.co && self.wg == mid.wg,
                self.profile == mid.profile,
                self.channels.len() == mid.channels.len() == chs,
                0 <= ch <= chs,
                data.len() == old(data).len() == chs * bs,
                forall|c: int|
                    ch <= c < chs ==> (#[trigger] self.channels[c])@ == mid.channels[c]@
                        && self.channels[c].wf(mid.profile.n as int) && self.channels[c].parity
                        == mid.channels[c].parity,
                forall|k: int| ch * bs <= k < data.len() ==> #[trigger] data[k] == old(data)[k],
                forall|c: int|
                    0 <= c < ch ==> ({
                        let ins = sv(old(data)@.subrange(c * bs as int, c * bs + bs));
                        let rr = spec_run(mid.profile@, mid.channels[c]@, ins);
                        (#[trigger] self.channels[c])@ == rr.0 && self.channels[c].wf(
                            mid.profile.n as int,
                        ) && sv(data@.subrange(c * bs as int, c * bs + bs)) == rr.1
                            && self.channels[c].parity == (if bs % 2 == 0 {
                            mid.channels[c].parity
                        } else {
                            !mid.channels[c].parity
                        })
                    }),
            decreases chs - ch,
        {
            proof {
                vstd::arithmetic::mul::lemma_mul_inequality(
                    ch as int + 1,
                    chs as int,
                    bs as int,
                );
                vstd::arithmetic::mul::lemma_mul_is_distributive_add_other_way(
                    bs as int,
                    ch as int,
                    1,
                );
                vstd::arithmetic::mul::lemma_mul_basics_3(bs as int);
            }
            let base: usize = ch * bs;
            let ghost data_pre = data@;
            proof {
                assert(data@.subrange(base as int, base + bs as int) =~= old(data)@.subrange(
                    base as int,
                    base + bs as int,
                ));
            }
            process_channel(&mut self.channels[ch], &self.profile, data, base, bs);
            proof {
                assert forall|c: int| 0 <= c < ch implies #[trigger] data@.subrange(c * bs as int, c * bs + bs)
                    =~= data_pre.subrange(c * bs as int, c * bs + bs) by {
                    vstd::arithmetic::mul::lemma_mul_inequality(c + 1, ch as int, bs as int);
                    vstd::arithmetic::mul::lemma_mul_is_distributive_add_other_way(bs as int, c, 1);
                    vstd::arithmetic::mul::lemma_mul_nonnegative(c, bs as int);
                }
            }
            ch = ch + 1;
        }
        proof {
            assert forall|c: int| 0 <= c < p.channel_count implies ({
                let ins = sv(old(data)@.subrange(c * p.block_size as int, c * p.block_size + p.block_size));
                let start = if was_stale {
                    reset_chan(self.profile.n as int)
                } else {
                    old(self).channels[c]@
                };
                let rr = spec_run(self.profile@, start, ins);
                (#[trigger] self.channels[c])@ == rr.0 && sv(
                    data@.subrange(c * p.block_size as int, c * p.block_size + p.block_size),
                ) == rr.1
            }) by {
                if was_stale {
                    assert(mid.channels[c]@ == reset_chan(mid.profile.n as int));
                } else {
                    assert(mid == *old(self));
                }
                assert(self.profile@ == mid.profile@);
                assert((#[trigger] self.channels[c])@ == spec_run(
                    mid.profile@,
                    mid.channels[c]@,
                    sv(old(data)@.subrange(c * bs as int, c * bs + bs as int)),
                ).0);
            }
        }
        proof {
            assert(self.initialized);
            assert(self.wf());
            assert(!self.stale(*p));
            assert(self.chs == p.channel_count);
            assert(!old(self).stale(*p) ==> self.profile@ == old(self).profile@);
            assert(self.inv());
            assert(block_post(*old(self), *self, old(data)@, data@, *p));
        }
        Ok(())
    }
}

} // verus!
