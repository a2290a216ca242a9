//! Which keyframes of a clip become thumbnails.

use vstd::prelude::*;

verus! {

/// The shortest keyframe interval the sampler reckons with, in nanoseconds.
pub const MIN_GOP_NS: i64 = 1_000;

/// How many keyframes to go on by so that kept ones lie about `spacing` apart
/// when keyframes lie `gap` apart: the quotient rounded to the nearest integer
/// (a tie going up), and at least one.
pub open spec fn stride_for(spacing: int, gap: int) -> int {
    let gop = if gap < MIN_GOP_NS {
        MIN_GOP_NS as int
    } else {
        gap
    };
    let n = (2 * spacing + gop) / (2 * gop);
    if n < 1 {
        1
    } else {
        n
    }
}

/// What the sampler has seen.
pub struct Sampling {
    pub spacing_ns: int,
    /// Time of the first keyframe.
    pub first_ns: Option<int>,
    /// The skip factor, once a second keyframe has set it.
    pub stride: Option<int>,
    /// Keyframes seen so far.
    pub seen: nat,
}

/// The skip factor in force for a keyframe at `t`.
pub open spec fn stride_at(s: Sampling, t: int) -> int {
    match s.stride {
        Some(n) => n,
        None => stride_for(s.spacing_ns, t - s.first_ns->0),
    }
}

/// Whether the keyframe at `t` becomes a thumbnail: the first does, and from
/// there on every one whose number the skip factor divides.
pub open spec fn kept(s: Sampling, t: int) -> bool {
    s.first_ns is None || s.seen as int % stride_at(s, t) == 0
}

/// What has been seen once the keyframe at `t` has passed.
pub open spec fn passed(s: Sampling, t: int) -> Sampling {
    match s.first_ns {
        None => Sampling { first_ns: Some(t), seen: s.seen + 1, ..s },
        Some(_) => Sampling { stride: Some(stride_at(s, t)), seen: s.seen + 1, ..s },
    }
}

/// Decides which keyframes to keep so that kept thumbnails land about
/// `spacing_ns` apart. From the first keyframe interval it derives an integer
/// skip factor and keeps every such keyframe. Assumes a near-constant interval,
/// which holds for camera files.
pub struct KeyframeSampler {
    spacing_ns: i64,
    first_ns: Option<i64>,
    /// The skip factor; zero until a second keyframe has set it.
    step: u64,
    /// How many keyframes have passed since the last that the factor divides.
    phase: u64,
    seen: Ghost<nat>,
}

impl View for KeyframeSampler {
    type V = Sampling;

    closed spec fn view(&self) -> Sampling {
        Sampling {
            spacing_ns: self.spacing_ns as int,
            first_ns: match self.first_ns {
                Some(t) => Some(t as int),
                None => None,
            },
            stride: if self.step == 0 {
                None
            } else {
                Some(self.step as int)
            },
            seen: self.seen@,
        }
    }
}

impl KeyframeSampler {
    /// Whether the phase agrees with what was seen.
    pub closed spec fn wf(self) -> bool {
        if self.step == 0 {
            self.seen@ == (if self.first_ns is None {
                0nat
            } else {
                1
            })
        } else {
            &&& self.first_ns is Some
            &&& self.phase == self.seen@ as int % self.step as int
        }
    }

    /// A sampler that has seen nothing.
    pub fn new(spacing_ns: i64) -> (s: KeyframeSampler)
        ensures
            s.wf(),
            s@ == (Sampling {
                spacing_ns: spacing_ns as int,
                first_ns: None,
                stride: None,
                seen: 0,
            }),
    {
        KeyframeSampler { spacing_ns, first_ns: None, step: 0, phase: 0, seen: Ghost(0) }
    }

    /// Whether the keyframe at time `t_ns` should become a thumbnail. Keyframes
    /// are passed in decode order.
    pub fn keep(&mut self, t_ns: i64) -> (keep: bool)
        requires
            old(self).wf(),
        ensures
            final(self).wf(),
            keep == kept(old(self)@, t_ns as int),
            final(self)@ == passed(old(self)@, t_ns as int),
    {
        match self.first_ns {
            None => {
                self.first_ns = Some(t_ns);
                self.seen = Ghost(self.seen@ + 1);
                true
            },
            Some(t0) => {
                if self.step == 0 {
                    self.step = stride(self.spacing_ns, t_ns as i128 - t0 as i128);
                    self.phase = 1 % self.step;
                }
                let keep: bool = self.phase == 0;
                proof {
                    lemma_next_phase(self.seen@ as int, self.step as int);
                }
                self.phase = if self.phase == self.step - 1 {
                    0
                } else {
                    self.phase + 1
                };
                self.seen = Ghost(self.seen@ + 1);
                keep
            },
        }
    }
}

/// [`stride_for`] of a gap between two times.
fn stride(spacing_ns: i64, gap: i128) -> (n: u64)
    requires
        -0x1_0000_0000_0000_0000 <= gap <= 0x1_0000_0000_0000_0000,
    ensures
        n == stride_for(spacing_ns as int, gap as int),
        n >= 1,
{
    let gop: i128 = if gap < MIN_GOP_NS as i128 {
        MIN_GOP_NS as i128
    } else {
        gap
    };
    let top: i128 = 2 * spacing_ns as i128 + gop;
    if top <= 0 {
        proof {
            assert(top as int / (2 * gop) < 1) by (nonlinear_arith)
                requires
                    top <= 0,
                    gop > 0,
            ;
        }
        return 1;
    }
    let n: i128 = top / (2 * gop);
    proof {
        assert(0 <= n <= spacing_ns + 1 || n == 0) by (nonlinear_arith)
            requires
                n == top as int / (2 * gop),
                top == 2 * spacing_ns + gop,
                top > 0,
                gop >= 1,
        ;
    }
    if n < 1 {
        1
    } else {
        n as u64
    }
}

proof fn lemma_next_phase(n: int, d: int)
    requires
        0 <= n,
        d >= 1,
    ensures
        0 <= n % d < d,
        (n + 1) % d == (if n % d == d - 1 {
            0
        } else {
            n % d + 1
        }),
{
    let q = n / d;
    let r = n % d;
    assert(n == q * d + r && 0 <= r < d) by (nonlinear_arith)
        requires
            q == n / d,
            r == n % d,
            d >= 1,
    ;
    if r == d - 1 {
        assert(n + 1 == (q + 1) * d + 0) by (nonlinear_arith)
            requires
                n == q * d + r,
                r == d - 1,
        ;
        vstd::arithmetic::div_mod::lemma_fundamental_div_mod_converse(n + 1, d, q + 1, 0);
    } else {
        vstd::arithmetic::div_mod::lemma_fundamental_div_mod_converse(n + 1, d, q, r + 1);
    }
}

/// What the sampler has seen once the first `n` of these keyframes have passed.
pub open spec fn after_keyframes(spacing: int, times: Seq<int>, n: nat) -> Sampling
    decreases n,
{
    if n == 0 {
        Sampling { spacing_ns: spacing, first_ns: None, stride: None, seen: 0 }
    } else {
        passed(after_keyframes(spacing, times, (n - 1) as nat), times[n - 1])
    }
}

/// Over a whole clip the sampler keeps the first keyframe and every one whose
/// number the skip factor of the first interval divides, and no other.
pub proof fn every_nth_keyframe_is_kept(spacing: int, times: Seq<int>, i: nat)
    requires
        i < times.len(),
    ensures
        i == 0 ==> kept(after_keyframes(spacing, times, i), times[i as int]),
        i > 0 ==> (kept(after_keyframes(spacing, times, i), times[i as int]) <==> i as int
            % stride_for(spacing, times[1] - times[0]) == 0),
{
    lemma_after_keyframes(spacing, times, i);
}

proof fn lemma_after_keyframes(spacing: int, times: Seq<int>, n: nat)
    requires
        n <= times.len(),
    ensures
        after_keyframes(spacing, times, n).seen == n,
        after_keyframes(spacing, times, n).spacing_ns == spacing,
        n == 0 ==> after_keyframes(spacing, times, n).first_ns is None,
        n >= 1 ==> after_keyframes(spacing, times, n).first_ns == Some(times[0]),
        n <= 1 ==> after_keyframes(spacing, times, n).stride is None,
        n >= 2 ==> after_keyframes(spacing, times, n).stride == Some(
            stride_for(spacing, times[1] - times[0]),
        ),
    decreases n,
{
    if n > 0 {
        lemma_after_keyframes(spacing, times, (n - 1) as nat);
    }
}

/// On footage with one keyframe every `gap`, kept thumbnails lie within half an
/// interval of the spacing asked for, and footage sparser than that keeps every
/// keyframe.
pub proof fn kept_keyframes_lie_about_the_spacing_apart(spacing: int, gap: int)
    requires
        spacing >= 0,
        gap >= MIN_GOP_NS,
    ensures
        2 * spacing >= gap ==> -gap <= 2 * (stride_for(spacing, gap) * gap - spacing) <= gap,
        2 * spacing < 3 * gap ==> stride_for(spacing, gap) == 1,
{
    let top = 2 * spacing + gap;
    let n = top / (2 * gap);
    let r = top % (2 * gap);
    assert(top == (2 * gap) * n + r && 0 <= r < 2 * gap) by (nonlinear_arith)
        requires
            n == top / (2 * gap),
            r == top % (2 * gap),
            gap > 0,
    ;
    assert((2 * gap) * n == 2 * (n * gap)) by (nonlinear_arith);
    if 2 * spacing < 3 * gap {
        assert(n < 2) by (nonlinear_arith)
            requires
                top == (2 * gap) * n + r,
                top < 4 * gap,
                r >= 0,
                gap > 0,
        ;
    }
    if 2 * spacing >= gap {
        assert(n >= 1) by (nonlinear_arith)
            requires
                top == (2 * gap) * n + r,
                top >= 2 * gap,
                r < 2 * gap,
                gap > 0,
        ;
    }
}

/// The skip factor is the whole number of intervals nearest to the spacing, a tie
/// going up, and at least one; intervals below the shortest are taken for it.
pub proof fn the_skip_factor_is_the_nearest(spacing: int, gap: int, n: int)
    requires
        n >= 1,
        gap >= 1_000,
        2 * spacing < (2 * n + 1) * gap,
        n == 1 || (2 * n - 1) * gap <= 2 * spacing,
    ensures
        stride_for(spacing, gap) == n,
        gap == 1_000 ==> forall|less: int| less < 1_000 ==> #[trigger] stride_for(spacing, less) == n,
{
    let top = 2 * spacing + gap;
    let q = top / (2 * gap);
    vstd::arithmetic::div_mod::lemma_fundamental_div_mod(top, 2 * gap);
    vstd::arithmetic::div_mod::lemma_mod_bound(top, 2 * gap);
    let r = top % (2 * gap);
    assert(q <= n) by (nonlinear_arith)
        requires
            top == (2 * gap) * q + r,
            0 <= r,
            top < (2 * n + 1) * gap + gap,
            gap > 0,
    {
        assert((2 * n + 1) * gap + gap == (2 * gap) * (n + 1));
        assert((2 * gap) * q < (2 * gap) * (n + 1));
    }
    if n > 1 {
        assert(q >= n) by (nonlinear_arith)
            requires
                top == (2 * gap) * q + r,
                r < 2 * gap,
                (2 * n - 1) * gap + gap <= top,
                gap > 0,
        {
            assert((2 * n - 1) * gap + gap == (2 * gap) * n);
            assert((2 * gap) * n < (2 * gap) * (q + 1));
        }
    }
}

} // verus!
