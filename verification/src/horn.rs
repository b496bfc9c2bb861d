//! The setter-driven engine variant: reflection coefficients, damping,
//! mouth filter and output gain are supplied directly instead of being
//! derived from physical controls, and the throat injects the raw input
//! plus the returning backward wave. The bypass delay carries a
//! low-pass-filtered copy of the input: this variant has no crossover
//! control, so a fixed one-pole smoother stands in for the band split,
//! and the delay line never holds the raw sample itself.

use vstd::prelude::*;
use crate::fixed::{Fx, fx_add_spec, fx_sub_spec, fx_mul_spec, fx_add, fx_sub, fx_mul};
use crate::params::EngineError;
use crate::waveguide::{sv, scat_fwd, scat_rev, advance_line};
use crate::context::mouth_refl;

verus! {

/// Per-channel state of the setter-driven engine.
pub struct HornLane {
    pub fwd_a: Vec<Fx>,
    pub rev_a: Vec<Fx>,
    pub fwd_b: Vec<Fx>,
    pub rev_b: Vec<Fx>,
    /// False: generation a is current; true: generation b is current.
    pub parity: bool,
    pub rm_y1: Fx,
    pub rm_y2: Fx,
    /// History of the bypass low-pass filter.
    pub lp_y1: Fx,
    pub delay: Vec<Fx>,
    pub delay_idx: usize,
}

/// Mathematical image of a lane.
#[verifier::ext_equal]
pub ghost struct HornLaneV {
    pub fwd_cur: Seq<int>,
    pub rev_cur: Seq<int>,
    pub fwd_oth: Seq<int>,
    pub rev_oth: Seq<int>,
    pub rm_y1: int,
    pub rm_y2: int,
    pub lp_y1: int,
    pub delay: Seq<int>,
    pub delay_idx: int,
}

impl View for HornLane {
    type V = HornLaneV;

    open spec fn view(&self) -> HornLaneV {
        HornLaneV {
            fwd_cur: if self.parity {
                sv(self.fwd_b@)
            } else {
                sv(self.fwd_a@)
            },
            rev_cur: if self.parity {
                sv(self.rev_b@)
            } else {
                sv(self.rev_a@)
            },
            fwd_oth: if self.parity {
                sv(self.fwd_a@)
            } else {
                sv(self.fwd_b@)
            },
            rev_oth: if self.parity {
                sv(self.rev_a@)
            } else {
                sv(self.rev_b@)
            },
            rm_y1: self.rm_y1 as int,
            rm_y2: self.rm_y2 as int,
            lp_y1: self.lp_y1 as int,
            delay: sv(self.delay@),
            delay_idx: self.delay_idx as int,
        }
    }
}

impl HornLane {
    /// Buffer lengths match the junction count and the delay cursor is
    /// in range.
    pub open spec fn wf(&self, n: int) -> bool {
        &&& n >= 1
        &&& self.fwd_a.len() == n + 1
        &&& self.rev_a.len() == n + 1
        &&& self.fwd_b.len() == n + 1
        &&& self.rev_b.len() == n + 1
        &&& self.delay.len() == n
        &&& self.delay_idx < n
    }
}

/// The directly supplied coefficients of the setter-driven engine.
#[derive(Clone, Copy)]
pub struct HornCoeffs {
    /// Per-junction loss gain.
    pub g: Fx,
    /// Mouth reflection filter.
    pub rm_b0: Fx,
    pub rm_a1: Fx,
    pub rm_a2: Fx,
    /// Bypass low-pass filter (one pole).
    pub lp_b0: Fx,
    pub lp_a1: Fx,
    /// Linear output gain on the transmitted path.
    pub output_gain: Fx,
}

/// One sample of the setter-driven engine on one lane: low-pass the
/// input for the bypass, inject the input plus the returning backward
/// wave at the throat of the current generation, scatter into the other
/// generation, reflect at the mouth, swap generations, and combine the
/// gained transmitted wave with the low-passed input delayed n samples.
pub open spec fn horn_step(n: int, r: Seq<int>, c: HornCoeffs, s: HornLaneV, x: int) -> (
    HornLaneV,
    int,
)
    recommends
        n >= 1,
        r.len() == n,
        s.fwd_cur.len() == n + 1,
        s.rev_cur.len() == n + 1,
        s.fwd_oth.len() == n + 1,
        s.rev_oth.len() == n + 1,
        s.delay.len() == n,
        0 <= s.delay_idx < n,
{
    let low = fx_sub_spec(fx_mul_spec(c.lp_b0 as int, x), fx_mul_spec(c.lp_a1 as int, s.lp_y1));
    let fwd_c2 = s.fwd_cur.update(0, fx_add_spec(x, s.rev_cur[0]));
    let fwd_mid = Seq::new(
        s.fwd_oth.len(),
        |j: int|
            if j == 0 {
                s.fwd_oth[0]
            } else {
                scat_fwd(fwd_c2[j - 1], s.rev_cur[j], r[j - 1], c.g as int)
            },
    );
    let rev_mid = Seq::new(
        s.rev_oth.len(),
        |j: int|
            if j < n {
                scat_rev(fwd_c2[j], s.rev_cur[j + 1], r[j], c.g as int)
            } else {
                s.rev_oth[j]
            },
    );
    let fw_n = fwd_mid[n];
    let refl = mouth_refl(c.rm_b0 as int, c.rm_a1 as int, c.rm_a2 as int, fw_n, s.rm_y1, s.rm_y2);
    let rev_new = rev_mid.update(n, refl);
    let transmitted = fx_add_spec(fw_n, refl);
    let delayed = s.delay[s.delay_idx];
    let delay2 = s.delay.update(s.delay_idx, low);
    let idx2 = if s.delay_idx + 1 >= n {
        0
    } else {
        s.delay_idx + 1
    };
    let y = fx_add_spec(fx_mul_spec(transmitted, c.output_gain as int), delayed);
    (
        HornLaneV {
            fwd_cur: fwd_mid,
            rev_cur: rev_new,
            fwd_oth: fwd_c2,
            rev_oth: s.rev_cur,
            rm_y1: refl,
            rm_y2: s.rm_y1,
            lp_y1: low,
            delay: delay2,
            delay_idx: idx2,
        },
        y,
    )
}

/// The setter-driven run over a whole block on one lane.
pub open spec fn horn_run(n: int, r: Seq<int>, c: HornCoeffs, s: HornLaneV, ins: Seq<int>) -> (
    HornLaneV,
    Seq<int>,
)
    decreases ins.len(),
{
    if ins.len() == 0 {
        (s, Seq::empty())
    } else {
        let first = horn_step(n, r, c, s, ins[0]);
        let rest = horn_run(n, r, c, first.0, ins.drop_first());
        (rest.0, seq![first.1] + rest.1)
    }
}

/// Unrolling [`horn_run`] from the back.
pub proof fn lemma_horn_run_snoc(n: int, r: Seq<int>, c: HornCoeffs, s: HornLaneV, ins: Seq<int>, x: int)
    ensures
        horn_run(n, r, c, s, ins.push(x)).0 == horn_step(n, r, c, horn_run(n, r, c, s, ins).0, x).0,
        horn_run(n, r, c, s, ins.push(x)).1 == horn_run(n, r, c, s, ins).1.push(
            horn_step(n, r, c, horn_run(n, r, c, s, ins).0, x).1,
        ),
    decreases ins.len(),
{
    reveal_with_fuel(horn_run, 3);
    if ins.len() == 0 {
        assert(ins.push(x)[0] == x);
        assert(ins.push(x).drop_first() =~= Seq::<int>::empty());
        assert(horn_run(n, r, c, s, ins).1.push(horn_step(n, r, c, s, x).1) =~= seq![
            horn_step(n, r, c, s, x).1,
        ] + Seq::<int>::empty());
    } else {
        let s1 = horn_step(n, r, c, s, ins[0]).0;
        lemma_horn_run_snoc(n, r, c, s1, ins.drop_first(), x);
        assert(ins.push(x)[0] == ins[0]);
        assert(ins.push(x).drop_first() =~= ins.drop_first().push(x));
        let run1 = horn_run(n, r, c, s1, ins.drop_first());
        assert(horn_run(n, r, c, s, ins).1.push(
            horn_step(n, r, c, horn_run(n, r, c, s, ins).0, x).1,
        ) =~= seq![horn_step(n, r, c, s, ins[0]).1] + run1.1.push(
            horn_step(n, r, c, run1.0, x).1,
        ));
    }
}

/// State of a lane at construction: everything zero, generation a
/// current.
pub open spec fn horn_reset_lane(n: int) -> HornLaneV {
    HornLaneV {
        fwd_cur: Seq::new((n + 1) as nat, |j: int| 0int),
        rev_cur: Seq::new((n + 1) as nat, |j: int| 0int),
        fwd_oth: Seq::new((n + 1) as nat, |j: int| 0int),
        rev_oth: Seq::new((n + 1) as nat, |j: int| 0int),
        rm_y1: 0,
        rm_y2: 0,
        lp_y1: 0,
        delay: Seq::new(n as nat, |j: int| 0int),
        delay_idx: 0,
    }
}

fn horn_zero_vec(len: usize) -> (v: Vec<Fx>)
    ensures
        v.len() == len,
        forall|k: int| 0 <= k < len ==> v[k] == 0,
{
    let mut v: Vec<Fx> = Vec::new();
    let mut i: usize = 0;
    while i < len
        invariant
            v.len() == i,
            0 <= i <= len,
            forall|k: int| 0 <= k < i ==> v[k] == 0,
        decreases len - i,
    {
        v.push(0);
        i = i + 1;
    }
    v
}

/// The setter-driven resonator: a fixed junction count and channel
/// count chosen at construction, coefficients set directly.
pub struct HornResonatorPlus {
    pub sample_rate: Fx,
    pub channels: usize,
    pub n: usize,
    pub r: Vec<Fx>,
    pub coeffs: HornCoeffs,
    pub lanes: Vec<HornLane>,
}

impl HornResonatorPlus {
    /// Structural soundness: one reflection per junction and matching
    /// per-channel buffers.
    pub open spec fn wf(&self) -> bool {
        &&& 1 <= self.n
        &&& self.r.len() == self.n
        &&& self.lanes.len() == self.channels
        &&& forall|c: int|
            0 <= c < self.lanes.len() ==> (#[trigger] self.lanes[c]).wf(self.n as int)
    }

    /// A resonator with `n` junctions and all state at zero, unit loss
    /// and unit output gain, zero reflection and mouth coefficients. The
    /// bypass low-pass starts as a one-pole with a pole of one half:
    /// this variant exposes no crossover control, so the fixed smoother
    /// takes the band split's place, and the delay line carries its
    /// output rather than the raw input.
    pub fn new(sample_rate: Fx, channels: usize, n: usize) -> (h: HornResonatorPlus)
        requires
            1 <= n < usize::MAX,
        ensures
            h.wf(),
            h.sample_rate == sample_rate,
            h.channels == channels,
            h.n == n,
            sv(h.r@) == Seq::new(n as nat, |j: int| 0int),
            h.coeffs.g as int == 65536,
            h.coeffs.rm_b0 == 0 && h.coeffs.rm_a1 == 0 && h.coeffs.rm_a2 == 0,
            h.coeffs.lp_b0 as int == 32768 && h.coeffs.lp_a1 as int == -32768,
            h.coeffs.output_gain as int == 65536,
            forall|c: int|
                0 <= c < channels ==> (#[trigger] h.lanes[c])@ == horn_reset_lane(n as int)
                    && h.lanes[c].parity == false,
    {
        let mut lanes: Vec<HornLane> = Vec::new();
        let mut c: usize = 0;
        while c < channels
            invariant
                1 <= n < usize::MAX,
                lanes.len() == c,
                0 <= c <= channels,
                forall|k: int|
                    0 <= k < c ==> (#[trigger] lanes[k]).wf(n as int) && lanes[k]@
                        == horn_reset_lane(n as int) && lanes[k].parity == false,
            decreases channels - c,
        {
            let lane = HornLane {
                fwd_a: horn_zero_vec(n + 1),
                rev_a: horn_zero_vec(n + 1),
                fwd_b: horn_zero_vec(n + 1),
                rev_b: horn_zero_vec(n + 1),
                parity: false,
                rm_y1: 0,
                rm_y2: 0,
                lp_y1: 0,
                delay: horn_zero_vec(n),
                delay_idx: 0,
            };
            proof {
                assert(lane@ =~= horn_reset_lane(n as int));
            }
            lanes.push(lane);
            c = c + 1;
        }
        let h = HornResonatorPlus {
            sample_rate,
            channels,
            n,
            r: horn_zero_vec(n),
            coeffs: HornCoeffs {
                g: 65536,
                rm_b0: 0,
                rm_a1: 0,
                rm_a2: 0,
                lp_b0: 32768,
                lp_a1: -32768,
                output_gain: 65536,
            },
            lanes,
        };
        proof {
            assert(sv(h.r@) =~= Seq::new(n as nat, |j: int| 0int));
        }
        h
    }

    /// Set one junction's reflection coefficient; an index at or past
    /// the junction count is validated and silently ignored. Nothing
    /// else changes either way.
    pub fn set_reflection(&mut self, idx: usize, value: Fx)
        requires
            old(self).wf(),
        ensures
            final(self).wf(),
            idx < old(self).n ==> final(self).r@ == old(self).r@.update(idx as int, value),
            idx >= old(self).n ==> final(self).r == old(self).r,
            final(self).n == old(self).n && final(self).lanes == old(self).lanes,
            final(self).coeffs == old(self).coeffs,
            final(self).channels == old(self).channels,
            final(self).sample_rate == old(self).sample_rate,
    {
        if idx < self.n {
            self.r.set(idx, value);
        }
    }

    /// Set the per-junction loss gain.
    pub fn set_damping(&mut self, g: Fx)
        requires
            old(self).wf(),
        ensures
            final(self).wf(),
            final(self).coeffs == (HornCoeffs { g, ..old(self).coeffs }),
            final(self).n == old(self).n && final(self).r == old(self).r,
            final(self).lanes == old(self).lanes,
            final(self).channels == old(self).channels,
            final(self).sample_rate == old(self).sample_rate,
    {
        self.coeffs.g = g;
    }

    /// Set the mouth reflection filter coefficients.
    pub fn set_mouth_filter(&mut self, b0: Fx, a1: Fx, a2: Fx)
        requires
            old(self).wf(),
        ensures
            final(self).wf(),
            final(self).coeffs == (HornCoeffs {
                rm_b0: b0,
                rm_a1: a1,
                rm_a2: a2,
                ..old(self).coeffs
            }),
            final(self).n == old(self).n && final(self).r == old(self).r,
            final(self).lanes == old(self).lanes,
            final(self).channels == old(self).channels,
            final(self).sample_rate == old(self).sample_rate,
    {
        self.coeffs.rm_b0 = b0;
        self.coeffs.rm_a1 = a1;
        self.coeffs.rm_a2 = a2;
    }

    /// Set the linear output gain.
    pub fn set_output_gain(&mut self, gain: Fx)
        requires
            old(self).wf(),
        ensures
            final(self).wf(),
            final(self).coeffs == (HornCoeffs { output_gain: gain, ..old(self).coeffs }),
            final(self).n == old(self).n && final(self).r == old(self).r,
            final(self).lanes == old(self).lanes,
            final(self).channels == old(self).channels,
            final(self).sample_rate == old(self).sample_rate,
    {
        self.coeffs.output_gain = gain;
    }

    /// Process one block in place. Channel `ch` occupies samples
    /// `[ch * bs, (ch + 1) * bs)` of `data`, where `bs` is the buffer
    /// length divided by the channel count. With no channels there is
    /// nothing to process and nothing changes. A buffer whose length is
    /// not evenly divisible by the channel count is rejected, with no
    /// state or buffer change; otherwise every channel's slice is
    /// replaced by the engine run over it, and each lane's generation
    /// parity has flipped once per sample.
    pub fn process(&mut self, data: &mut Vec<Fx>) -> (res: Result<(), EngineError>)
        requires
            old(self).wf(),
        ensures
            final(self).wf(),
            final(data).len() == old(data).len(),
            final(self).n == old(self).n && final(self).channels == old(self).channels,
            final(self).r == old(self).r && final(self).coeffs == old(self).coeffs,
            final(self).sample_rate == old(self).sample_rate,
            old(self).channels == 0 ==> (res == Ok::<(), EngineError>(()) && *final(self) == *old(
                self,
            ) && final(data)@ == old(data)@),
            (old(self).channels != 0 && old(data).len() % old(self).channels != 0) ==> (res
                == Err::<(), EngineError>(EngineError::UnevenBuffer) && *final(self) == *old(self)
                && final(data)@ == old(data)@),
            (old(self).channels != 0 && old(data).len() % old(self).channels == 0) ==> (res
                == Ok::<(), EngineError>(()) && horn_block_post(
                *old(self),
                *final(self),
                old(data)@,
                final(data)@,
            ) && forall|c: int|
                0 <= c < old(self).channels ==> (#[trigger] final(self).lanes[c]).parity == (if (
                old(data).len() / old(self).channels) % 2 == 0 {
                    old(self).lanes[c].parity
                } else {
                    !old(self).lanes[c].parity
                })),
    {
        if self.channels == 0 {
            return Ok(());
        }
        proof {
            vstd::arithmetic::div_mod::lemma_fundamental_div_mod(
                old(data).len() as int,
                old(self).channels as int,
            );
            vstd::arithmetic::mul::lemma_mul_is_commutative(
                old(self).channels as int,
                old(data).len() as int / old(self).channels as int,
            );
        }
        let bs: usize = data.len() / self.channels;
        if bs * self.channels != data.len() {
            return Err(EngineError::UnevenBuffer);
        }
        let ghost pre = *self;
        let chs: usize = self.channels;
        let mut ch: usize = 0;
        while ch < chs
            invariant
                pre.wf(),
                self.n == pre.n && self.channels == pre.channels == chs,
                1 <= chs,
                self.r == pre.r && self.coeffs == pre.coeffs,
                self.sample_rate == pre.sample_rate,
                self.lanes.len() == pre.lanes.len() == chs,
                0 <= ch <= chs,
                data.len() == old(data).len() == chs * bs,
                forall|c: int|
                    ch <= c < chs ==> (#[trigger] self.lanes[c])@ == pre.lanes[c]@
                        && self.lanes[c].wf(pre.n as int) && self.lanes[c].parity
                        == pre.lanes[c].parity,
                forall|k: int| ch * bs <= k < data.len() ==> #[trigger] data[k] == old(data)[k],
                forall|c: int|
                    0 <= c < ch ==> ({
                        let ins = sv(old(data)@.subrange(c * bs as int, c * bs + bs));
                        let rr = horn_run(pre.n as int, sv(pre.r@), pre.coeffs, pre.lanes[c]@, ins);
                        (#[trigger] self.lanes[c])@ == rr.0 && self.lanes[c].wf(pre.n as int) && sv(
                            data@.subrange(c * bs as int, c * bs + bs),
                        ) == rr.1 && self.lanes[c].parity == (if bs % 2 == 0 {
                            pre.lanes[c].parity
                        } else {
                            !pre.lanes[c].parity
                        })
                    }),
            decreases chs - ch,
        {
            proof {
                vstd::arithmetic::mul::lemma_mul_inequality(ch as int + 1, chs as int, bs as int);
                vstd::arithmetic::mul::lemma_mul_is_distributive_add_other_way(
                    bs as int,
                    ch as int,
                    1,
                );
                vstd::arithmetic::mul::lemma_mul_basics_3(bs as int);
            }
            let base: usize = ch * bs;
            let ghost data_pre = data@;
            proof {
                assert(data@.subrange(base as int, base + bs as int) =~= old(data)@.subrange(
                    base as int,
                    base + bs as int,
                ));
            }
            horn_channel(&mut self.lanes[ch], &self.r, &self.coeffs, data, base, bs);
            proof {
                assert forall|c: int| 0 <= c < ch implies #[trigger] data@.subrange(
                    c * bs as int,
                    c * bs + bs,
                ) =~= data_pre.subrange(c * bs as int, c * bs + bs) by {
                    vstd::arithmetic::mul::lemma_mul_inequality(c + 1, ch as int, bs as int);
                    vstd::arithmetic::mul::lemma_mul_is_distributive_add_other_way(bs as int, c, 1);
                    vstd::arithmetic::mul::lemma_mul_nonnegative(c, bs as int);
                }
            }
            ch = ch + 1;
        }
        proof {
            assert(horn_block_post(pre, *self, old(data)@, data@));
        }
        Ok(())
    }
}

/// The run of one block of the setter-driven engine: every channel's
/// slice of the buffer is replaced by the engine fold over its old
/// samples from the channel's prior state.
pub open spec fn horn_block_post(
    pre: HornResonatorPlus,
    post: HornResonatorPlus,
    pre_data: Seq<i64>,
    post_data: Seq<i64>,
) -> bool
    recommends
        pre.channels >= 1,
{
    let bs = pre_data.len() as int / pre.channels as int;
    forall|c: int|
        0 <= c < pre.channels ==> ({
            let ins = sv(pre_data.subrange(c * bs, c * bs + bs));
            let rr = horn_run(pre.n as int, sv(pre.r@), pre.coeffs, pre.lanes[c]@, ins);
            (#[trigger] post.lanes[c])@ == rr.0 && sv(post_data.subrange(c * bs, c * bs + bs))
                == rr.1
        })
}

/// One sample on one lane; the exec twin of [`horn_step`].
fn horn_lane_sample(lane: &mut HornLane, r: &Vec<Fx>, c: &HornCoeffs, x: Fx) -> (y: Fx)
    requires
        old(lane).wf(r.len() as int),
        r.len() >= 1,
    ensures
        final(lane).wf(r.len() as int),
        final(lane)@ == horn_step(r.len() as int, sv(r@), *c, old(lane)@, x as int).0,
        y as int == horn_step(r.len() as int, sv(r@), *c, old(lane)@, x as int).1,
        final(lane).parity == !old(lane).parity,
{
    let n: usize = r.len();
    let low: i64 = fx_sub(fx_mul(c.lp_b0, x), fx_mul(c.lp_a1, lane.lp_y1));
    lane.lp_y1 = low;
    let transmitted: i64;
    if lane.parity {
        let inj: i64 = fx_add(x, lane.rev_b[0]);
        lane.fwd_b.set(0, inj);
        advance_line(&lane.fwd_b, &lane.rev_b, &mut lane.fwd_a, &mut lane.rev_a, r, c.g);
        let fw_n: i64 = lane.fwd_a[n];
        let refl: i64 = fx_sub(
            fx_sub(fx_mul(c.rm_b0, fw_n), fx_mul(c.rm_a1, lane.rm_y1)),
            fx_mul(c.rm_a2, lane.rm_y2),
        );
        lane.rev_a.set(n, refl);
        lane.rm_y2 = lane.rm_y1;
        lane.rm_y1 = refl;
        transmitted = fx_add(fw_n, refl);
    } else {
        let inj: i64 = fx_add(x, lane.rev_a[0]);
        lane.fwd_a.set(0, inj);
        advance_line(&lane.fwd_a, &lane.rev_a, &mut lane.fwd_b, &mut lane.rev_b, r, c.g);
        let fw_n: i64 = lane.fwd_b[n];
        let refl: i64 = fx_sub(
            fx_sub(fx_mul(c.rm_b0, fw_n), fx_mul(c.rm_a1, lane.rm_y1)),
            fx_mul(c.rm_a2, lane.rm_y2),
        );
        lane.rev_b.set(n, refl);
        lane.rm_y2 = lane.rm_y1;
        lane.rm_y1 = refl;
        transmitted = fx_add(fw_n, refl);
    }
    lane.parity = !lane.parity;
    let delayed: i64 = lane.delay[lane.delay_idx];
    lane.delay.set(lane.delay_idx, low);
    lane.delay_idx = if lane.delay_idx + 1 >= n {
        0
    } else {
        lane.delay_idx + 1
    };
    proof {
        let sres = horn_step(r.len() as int, sv(r@), *c, old(lane)@, x as int).0;
        assert(lane@.fwd_cur =~= sres.fwd_cur);
        assert(lane@.rev_cur =~= sres.rev_cur);
        assert(lane@.fwd_oth =~= sres.fwd_oth);
        assert(lane@.rev_oth =~= sres.rev_oth);
        assert(lane@.delay =~= sres.delay);
        assert(lane@ =~= sres);
    }
    fx_add(fx_mul(transmitted, c.output_gain), delayed)
}

/// One channel of one block of the setter-driven engine, in place.
fn horn_channel(
    lane: &mut HornLane,
    r: &Vec<Fx>,
    c: &HornCoeffs,
    data: &mut Vec<Fx>,
    base: usize,
    bs: usize,
)
    requires
        old(lane).wf(r.len() as int),
        r.len() >= 1,
        base + bs <= old(data).len(),
    ensures
        final(lane).wf(r.len() as int),
        final(data).len() == old(data).len(),
        forall|k: int| 0 <= k < base ==> final(data)[k] == old(data)[k],
        forall|k: int| base + bs <= k < old(data).len() ==> final(data)[k] == old(data)[k],
        final(lane).parity == (if bs % 2 == 0 {
            old(lane).parity
        } else {
            !old(lane).parity
        }),
        ({
            let rr = horn_run(
                r.len() as int,
                sv(r@),
                *c,
                old(lane)@,
                sv(old(data)@.subrange(base as int, base + bs)),
            );
            final(lane)@ == rr.0 && sv(final(data)@.subrange(base as int, base + bs)) == rr.1
        }),
{
    let ghost ins = sv(old(data)@.subrange(base as int, base + bs as int));
    let n: usize = r.len();
    let mut i: usize = 0;
    while i < bs
        invariant
            lane.wf(n as int),
            n == r.len() >= 1,
            data.len() == old(data).len(),
            base + bs <= data.len(),
            0 <= i <= bs,
            ins == sv(old(data)@.subrange(base as int, base + bs as int)),
            forall|k: int| 0 <= k < base ==> data[k] == old(data)[k],
            forall|k: int| base + i <= k < data.len() ==> data[k] == old(data)[k],
            lane.parity == (if i % 2 == 0 {
                old(lane).parity
            } else {
                !old(lane).parity
            }),
            lane@ == horn_run(n as int, sv(r@), *c, old(lane)@, ins.take(i as int)).0,
            sv(data@.subrange(base as int, base + i)) == horn_run(
                n as int,
                sv(r@),
                *c,
                old(lane)@,
                ins.take(i as int),
            ).1,
        decreases bs - i,
    {
        let idx: usize = base + i;
        let x: i64 = data[idx];
        proof {
            assert(old(data)@.subrange(base as int, base + bs as int)[i as int] == old(
                data,
            )@[base + i]);
            assert(ins[i as int] == x as int);
            assert(ins.take(i + 1) =~= ins.take(i as int).push(x as int));
            lemma_horn_run_snoc(n as int, sv(r@), *c, old(lane)@, ins.take(i as int), x as int);
        }
        let y: i64 = horn_lane_sample(lane, r, c, x);
        data.set(idx, y);
        proof {
            assert(sv(data@.subrange(base as int, base + i + 1)) =~= sv(
                data@.subrange(base as int, base + i),
            ).push(y as int));
        }
        i = i + 1;
    }
    proof {
        assert(ins.take(bs as int) =~= ins);
    }
}

} // verus!
