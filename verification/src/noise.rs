//! The noise generator: stateful digital filters that shape uniform random
//! draws into white, pink or brown noise, one block at a time.
//!
//! Every sample and filter tap is the bit pattern of an IEEE-754 binary32
//! value. The signal of each color is specified as a function of the
//! starting filter state and the sequence of uniform draws, so a fill is
//! exactly reproducible from the draws alone, and consecutive fills from one
//! state continue one signal.

use crate::entropy::draw_block;
use crate::entropy::fresh_rng;
use crate::fbits::{f_add, f_div, f_mul, f_sub, fadd_bits, fdiv_bits, fmul_bits, fsub_bits};
use rand::rngs::ThreadRng;
use vstd::prelude::*;

verus! {

/// The three noise colors, mutually exclusive and statically known.
#[derive(Clone, Copy, PartialEq, Eq, Structural, Debug)]
pub enum NoiseColor {
    White,
    Pink,
    Brown,
}

/// The bit pattern of 2.0.
pub const F_TWO: u32 = 0x4000_0000;

/// The bit pattern of 1.0.
pub const F_ONE: u32 = 0x3F80_0000;

/// The bit pattern of 0.99886, the decay of pink filter tap 0.
pub const PINK_A0: u32 = 0x3F7F_B54A;

/// The bit pattern of 0.0555179, the white-noise gain into pink tap 0.
pub const PINK_G0: u32 = 0x3D63_66BD;

/// The bit pattern of 0.99332, the decay of pink filter tap 1.
pub const PINK_A1: u32 = 0x3F7E_4A38;

/// The bit pattern of 0.0750759, the white-noise gain into pink tap 1.
pub const PINK_G1: u32 = 0x3D99_C165;

/// The bit pattern of 0.96900, the decay of pink filter tap 2.
pub const PINK_A2: u32 = 0x3F78_1062;

/// The bit pattern of 0.1538520, the white-noise gain into pink tap 2.
pub const PINK_G2: u32 = 0x3E1D_8B61;

/// The bit pattern of 0.86650, the decay of pink filter tap 3.
pub const PINK_A3: u32 = 0x3F5D_D2F2;

/// The bit pattern of 0.3104856, the white-noise gain into pink tap 3.
pub const PINK_G3: u32 = 0x3E9E_F7F8;

/// The bit pattern of 0.55000, the decay of pink filter tap 4.
pub const PINK_A4: u32 = 0x3F0C_CCCD;

/// The bit pattern of 0.5329522, the white-noise gain into pink tap 4.
pub const PINK_G4: u32 = 0x3F08_6F8E;

/// The bit pattern of -0.7616, the decay of pink filter tap 5.
pub const PINK_A5: u32 = 0xBF42_F838;

/// The bit pattern of 0.0168980, the white-noise gain into pink tap 5.
pub const PINK_G5: u32 = 0x3C8A_6DAD;

/// The bit pattern of 0.5362, the direct white-noise gain into the pink sum.
pub const PINK_SUM_G: u32 = 0x3F09_4467;

/// The bit pattern of 0.11, the pink output gain compensation.
pub const PINK_GAIN: u32 = 0x3DE1_47AE;

/// The bit pattern of 0.115926, the gain into the lagging pink tap 6.
pub const PINK_G6: u32 = 0x3DED_6A9C;

/// The bit pattern of 0.02, the brown random-walk step gain.
pub const BROWN_STEP_G: u32 = 0x3CA3_D70A;

/// The bit pattern of 1.02, the brown leaky-integrator divisor.
pub const BROWN_LEAK: u32 = 0x3F82_8F5C;

/// The bit pattern of 3.5, the brown output gain compensation.
pub const BROWN_GAIN: u32 = 0x4060_0000;

/// One white-noise sample from a uniform draw in [0, 1): `draw * 2.0 - 1.0`.
pub open spec fn white_sample(d: u32) -> u32 {
    fsub_bits(fmul_bits(d, F_TWO), F_ONE)
}

/// The white-noise signal of a draw sequence, sample by sample.
pub open spec fn white_signal(d: Seq<u32>) -> Seq<u32> {
    Seq::new(d.len(), |i: int| white_sample(d[i]))
}

/// The seven pink filter taps after absorbing one white-noise sample `w`:
/// taps 0 through 5 are first-order recursive filters over their own old
/// value, while tap 6 is loaded with `w` itself (scaled) and is only read
/// one sample later.
pub open spec fn pink_taps_step(b: Seq<u32>, w: u32) -> Seq<u32> {
    seq![
        fadd_bits(fmul_bits(PINK_A0, b[0]), fmul_bits(w, PINK_G0)),
        fadd_bits(fmul_bits(PINK_A1, b[1]), fmul_bits(w, PINK_G1)),
        fadd_bits(fmul_bits(PINK_A2, b[2]), fmul_bits(w, PINK_G2)),
        fadd_bits(fmul_bits(PINK_A3, b[3]), fmul_bits(w, PINK_G3)),
        fadd_bits(fmul_bits(PINK_A4, b[4]), fmul_bits(w, PINK_G4)),
        fsub_bits(fmul_bits(PINK_A5, b[5]), fmul_bits(w, PINK_G5)),
        fmul_bits(w, PINK_G6),
    ]
}

/// One pink-noise sample: the sum of the six freshly updated taps, the old
/// tap 6 (loaded from the previous sample's white noise), and the direct
/// white-noise term, scaled by the gain compensation. Tap 6 enters the sum
/// before it is overwritten: its contribution always lags one sample.
pub open spec fn pink_sample(b: Seq<u32>, w: u32) -> u32 {
    let nb = pink_taps_step(b, w);
    fmul_bits(
        fadd_bits(
            fadd_bits(
                fadd_bits(
                    fadd_bits(fadd_bits(fadd_bits(fadd_bits(nb[0], nb[1]), nb[2]), nb[3]), nb[4]),
                    nb[5],
                ),
                b[6],
            ),
            fmul_bits(w, PINK_SUM_G),
        ),
        PINK_GAIN,
    )
}

/// The pink filter taps after absorbing a whole draw sequence.
pub open spec fn pink_taps_after(b: Seq<u32>, d: Seq<u32>) -> Seq<u32>
    decreases d.len(),
{
    if d.len() == 0 {
        b
    } else {
        pink_taps_after(pink_taps_step(b, white_sample(d[0])), d.drop_first())
    }
}

/// The pink-noise signal of a draw sequence, from starting taps `b`.
pub open spec fn pink_signal(b: Seq<u32>, d: Seq<u32>) -> Seq<u32>
    decreases d.len(),
{
    if d.len() == 0 {
        Seq::empty()
    } else {
        seq![pink_sample(b, white_sample(d[0]))]
            + pink_signal(pink_taps_step(b, white_sample(d[0])), d.drop_first())
    }
}

/// The brown integrator memory after one white-noise sample: the pre-gain
/// value `(last + 0.02 * w) / 1.02`. This, not the emitted sample, is what
/// feeds back into the walk.
pub open spec fn brown_step(last: u32, w: u32) -> u32 {
    fdiv_bits(fadd_bits(last, fmul_bits(BROWN_STEP_G, w)), BROWN_LEAK)
}

/// One emitted brown-noise sample: the pre-gain value scaled by 3.5. The
/// gain touches only the output, never the feedback path.
pub open spec fn brown_emit(last: u32, w: u32) -> u32 {
    fmul_bits(brown_step(last, w), BROWN_GAIN)
}

/// The brown integrator memory after a whole draw sequence.
pub open spec fn brown_last_after(last: u32, d: Seq<u32>) -> u32
    decreases d.len(),
{
    if d.len() == 0 {
        last
    } else {
        brown_last_after(brown_step(last, white_sample(d[0])), d.drop_first())
    }
}

/// The brown-noise signal of a draw sequence, from integrator memory `last`.
pub open spec fn brown_signal(last: u32, d: Seq<u32>) -> Seq<u32>
    decreases d.len(),
{
    if d.len() == 0 {
        Seq::empty()
    } else {
        seq![brown_emit(last, white_sample(d[0]))]
            + brown_signal(brown_step(last, white_sample(d[0])), d.drop_first())
    }
}

/// The filter state a generator starts from: all seven pink taps and the
/// brown integrator memory at 0.0.
pub open spec fn zero_taps() -> Seq<u32> {
    seq![0u32, 0u32, 0u32, 0u32, 0u32, 0u32, 0u32]
}

/// State continuity for the pink filter: feeding one draw sequence after
/// another through a single persistent state produces exactly the signal of
/// the concatenated sequence. Filling two consecutive blocks from one state
/// therefore continues one signal, which resetting the taps between blocks
/// would not.
pub proof fn lemma_pink_continuity(b: Seq<u32>, d1: Seq<u32>, d2: Seq<u32>)
    ensures
        pink_taps_after(b, d1 + d2) == pink_taps_after(pink_taps_after(b, d1), d2),
        pink_signal(b, d1 + d2) == pink_signal(b, d1) + pink_signal(pink_taps_after(b, d1), d2),
    decreases d1.len(),
{
    if d1.len() == 0 {
        assert(d1 + d2 =~= d2);
        assert(pink_signal(b, d1) + pink_signal(pink_taps_after(b, d1), d2) =~= pink_signal(
            b,
            d2,
        ));
    } else {
        let w = white_sample(d1[0]);
        let b1 = pink_taps_step(b, w);
        lemma_pink_continuity(b1, d1.drop_first(), d2);
        assert((d1 + d2).drop_first() =~= d1.drop_first() + d2);
        assert((d1 + d2)[0] == d1[0]);
        assert(pink_signal(b, d1 + d2) =~= pink_signal(b, d1) + pink_signal(
            pink_taps_after(b, d1),
            d2,
        ));
    }
}

/// One more draw extends the pink taps by one filter step and the signal by
/// one sample, computed from the taps the earlier draws left behind.
pub proof fn lemma_pink_extend(b: Seq<u32>, d: Seq<u32>, x: u32)
    ensures
        pink_taps_after(b, d + seq![x]) == pink_taps_step(pink_taps_after(b, d), white_sample(x)),
        pink_signal(b, d + seq![x]) == pink_signal(b, d) + seq![
            pink_sample(pink_taps_after(b, d), white_sample(x)),
        ],
{
    lemma_pink_continuity(b, d, seq![x]);
    let tb = pink_taps_after(b, d);
    assert(seq![x].drop_first() =~= Seq::<u32>::empty());
    assert(pink_taps_after(tb, seq![x]) == pink_taps_step(tb, white_sample(x))) by {
        reveal_with_fuel(pink_taps_after, 2);
    }
    assert(pink_signal(tb, seq![x]) =~= seq![pink_sample(tb, white_sample(x))]) by {
        reveal_with_fuel(pink_signal, 2);
    }
}

/// State continuity for the brown integrator: feeding one draw sequence
/// after another through a single persistent memory produces exactly the
/// signal of the concatenated sequence.
pub proof fn lemma_brown_continuity(last: u32, d1: Seq<u32>, d2: Seq<u32>)
    ensures
        brown_last_after(last, d1 + d2) == brown_last_after(brown_last_after(last, d1), d2),
        brown_signal(last, d1 + d2) == brown_signal(last, d1) + brown_signal(
            brown_last_after(last, d1),
            d2,
        ),
    decreases d1.len(),
{
    if d1.len() == 0 {
        assert(d1 + d2 =~= d2);
        assert(brown_signal(last, d1) + brown_signal(brown_last_after(last, d1), d2)
            =~= brown_signal(last, d2));
    } else {
        let w = white_sample(d1[0]);
        let l1 = brown_step(last, w);
        lemma_brown_continuity(l1, d1.drop_first(), d2);
        assert((d1 + d2).drop_first() =~= d1.drop_first() + d2);
        assert((d1 + d2)[0] == d1[0]);
        assert(brown_signal(last, d1 + d2) =~= brown_signal(last, d1) + brown_signal(
            brown_last_after(last, d1),
            d2,
        ));
    }
}

/// One more draw advances the brown memory by one step and the signal by one
/// emitted sample, computed from the memory the earlier draws left behind.
pub proof fn lemma_brown_extend(last: u32, d: Seq<u32>, x: u32)
    ensures
        brown_last_after(last, d + seq![x]) == brown_step(
            brown_last_after(last, d),
            white_sample(x),
        ),
        brown_signal(last, d + seq![x]) == brown_signal(last, d) + seq![
            brown_emit(brown_last_after(last, d), white_sample(x)),
        ],
{
    lemma_brown_continuity(last, d, seq![x]);
    let lb = brown_last_after(last, d);
    assert(seq![x].drop_first() =~= Seq::<u32>::empty());
    assert(brown_last_after(lb, seq![x]) == brown_step(lb, white_sample(x))) by {
        reveal_with_fuel(brown_last_after, 2);
    }
    assert(brown_signal(lb, seq![x]) =~= seq![brown_emit(lb, white_sample(x))]) by {
        reveal_with_fuel(brown_signal, 2);
    }
}

/// A pink fill emits exactly one sample per draw.
pub proof fn lemma_pink_signal_len(b: Seq<u32>, d: Seq<u32>)
    ensures
        pink_signal(b, d).len() == d.len(),
    decreases d.len(),
{
    if d.len() != 0 {
        lemma_pink_signal_len(pink_taps_step(b, white_sample(d[0])), d.drop_first());
    }
}

/// A brown fill emits exactly one sample per draw.
pub proof fn lemma_brown_signal_len(last: u32, d: Seq<u32>)
    ensures
        brown_signal(last, d).len() == d.len(),
    decreases d.len(),
{
    if d.len() != 0 {
        lemma_brown_signal_len(brown_step(last, white_sample(d[0])), d.drop_first());
    }
}

/// The emitted brown-noise sample is always the freshly advanced integrator
/// memory scaled by the output gain: what feeds back into the walk is the
/// pre-gain value, never the emitted sample.
pub proof fn lemma_brown_emits_gained_feedback(last: u32, d: Seq<u32>, i: int)
    requires
        0 <= i < d.len(),
    ensures
        brown_signal(last, d)[i] == fmul_bits(
            brown_last_after(last, d.take(i + 1)),
            BROWN_GAIN,
        ),
    decreases i,
{
    let w0 = white_sample(d[0]);
    let l1 = brown_step(last, w0);
    if i == 0 {
        assert(d.take(1) =~= seq![d[0]]);
        assert(brown_last_after(last, seq![d[0]]) == l1) by {
            reveal_with_fuel(brown_last_after, 2);
        }
    } else {
        lemma_brown_emits_gained_feedback(l1, d.drop_first(), i - 1);
        lemma_brown_signal_len(l1, d.drop_first());
        assert(brown_signal(last, d)[i] == brown_signal(l1, d.drop_first())[i - 1]);
        assert(d.take(i + 1).drop_first() =~= d.drop_first().take(i));
        assert(d.take(i + 1)[0] == d[0]);
        assert(brown_last_after(last, d.take(i + 1)) == brown_last_after(
            l1,
            d.drop_first().take(i),
        ));
    }
}

/// Sample `i` of the pink signal is computed from the taps that draws
/// `0 .. i` left behind and from draw `i`'s own white-noise value.
pub proof fn lemma_pink_signal_index(b: Seq<u32>, d: Seq<u32>, i: int)
    requires
        0 <= i < d.len(),
    ensures
        pink_signal(b, d)[i] == pink_sample(pink_taps_after(b, d.take(i)), white_sample(d[i])),
    decreases i,
{
    let w0 = white_sample(d[0]);
    let b1 = pink_taps_step(b, w0);
    if i == 0 {
        assert(d.take(0) =~= Seq::<u32>::empty());
    } else {
        lemma_pink_signal_index(b1, d.drop_first(), i - 1);
        lemma_pink_signal_len(b1, d.drop_first());
        assert(pink_signal(b, d)[i] == pink_signal(b1, d.drop_first())[i - 1]);
        assert(d.take(i).drop_first() =~= d.drop_first().take(i - 1));
        assert(d.take(i)[0] == d[0]);
        assert(pink_taps_after(b, d.take(i)) == pink_taps_after(b1, d.drop_first().take(i - 1)));
        assert(d.drop_first()[i - 1] == d[i]);
    }
}

/// After any nonempty draw sequence, pink tap 6 holds the scaled white-noise
/// value of the last draw absorbed.
pub proof fn lemma_pink_tap6_value(b: Seq<u32>, d: Seq<u32>)
    requires
        d.len() >= 1,
    ensures
        pink_taps_after(b, d)[6] == fmul_bits(white_sample(d.last()), PINK_G6),
    decreases d.len(),
{
    let w0 = white_sample(d[0]);
    let b1 = pink_taps_step(b, w0);
    if d.len() == 1 {
        assert(pink_taps_after(b, d) == b1) by {
            reveal_with_fuel(pink_taps_after, 2);
        }
    } else {
        lemma_pink_tap6_value(b1, d.drop_first());
        assert(d.drop_first().last() == d.last());
    }
}

/// The tap-6 lag: the tap-6 contribution to pink sample `i` is the value
/// loaded from sample `i - 1`'s white noise, never sample `i`'s own white
/// noise - `pink_sample` reads tap 6 of the state from before draw `i`, and
/// that tap holds draw `i - 1`'s scaled white-noise value.
pub proof fn lemma_pink_tap_lag(b: Seq<u32>, d: Seq<u32>, i: int)
    requires
        1 <= i < d.len(),
    ensures
        pink_signal(b, d)[i] == pink_sample(pink_taps_after(b, d.take(i)), white_sample(d[i])),
        pink_taps_after(b, d.take(i))[6] == fmul_bits(white_sample(d[i - 1]), PINK_G6),
{
    lemma_pink_signal_index(b, d, i);
    lemma_pink_tap6_value(b, d.take(i));
    assert(d.take(i).last() == d[i - 1]);
}

/// The signal a given color produces from a filter state and a draw
/// sequence.
pub open spec fn signal_of(color: NoiseColor, taps: Seq<u32>, last: u32, d: Seq<u32>) -> Seq<u32> {
    match color {
        NoiseColor::White => white_signal(d),
        NoiseColor::Pink => pink_signal(taps, d),
        NoiseColor::Brown => brown_signal(last, d),
    }
}

/// The pink filter taps a given color leaves behind: only pink advances
/// them.
pub open spec fn taps_of(color: NoiseColor, taps: Seq<u32>, d: Seq<u32>) -> Seq<u32> {
    match color {
        NoiseColor::Pink => pink_taps_after(taps, d),
        _ => taps,
    }
}

/// The brown integrator memory a given color leaves behind: only brown
/// advances it.
pub open spec fn last_of(color: NoiseColor, last: u32, d: Seq<u32>) -> u32 {
    match color {
        NoiseColor::Brown => brown_last_after(last, d),
        _ => last,
    }
}

/// Determinism of structure: the signal of each noise color, and the filter
/// state it leaves behind, are functions of the starting state and the
/// random source's output sequence alone. Equal draws from equal states
/// reproduce the output exactly.
pub proof fn lemma_signal_reproducible(
    color: NoiseColor,
    taps1: Seq<u32>,
    last1: u32,
    d1: Seq<u32>,
    taps2: Seq<u32>,
    last2: u32,
    d2: Seq<u32>,
)
    requires
        taps1 == taps2,
        last1 == last2,
        d1 == d2,
    ensures
        signal_of(color, taps1, last1, d1) == signal_of(color, taps2, last2, d2),
        taps_of(color, taps1, d1) == taps_of(color, taps2, d2),
        last_of(color, last1, d1) == last_of(color, last2, d2),
{
}

/// A reusable sample block of the given length, zero-filled. One block is
/// created per run and overwritten in place by every fill: it is a scratch
/// buffer, not a recorded history.
pub fn new_block(len: usize) -> (b: Vec<u32>)
    ensures
        b@.len() == len,
        forall|i: int| 0 <= i < len ==> b@[i] == 0u32,
{
    let mut b: Vec<u32> = Vec::new();
    let mut i: usize = 0;
    while i < len
        invariant
            i <= len,
            b@.len() == i,
            forall|j: int| 0 <= j < i ==> b@[j] == 0u32,
        decreases len - i,
    {
        b.push(0);
        i = i + 1;
    }
    b
}

/// Per-color persistent filter state plus the owned uniform random source.
/// The state is never reset between blocks: consecutive fills continue one
/// signal.
pub struct GeneratorState {
    rng: ThreadRng,
    taps: Vec<u32>,
    last_out: u32,
}

impl GeneratorState {
    /// The state is well formed: exactly seven pink filter taps.
    pub closed spec fn wf(self) -> bool {
        self.taps@.len() == 7
    }

    /// The pink filter taps, as bit patterns.
    pub closed spec fn taps_view(self) -> Seq<u32> {
        self.taps@
    }

    /// The brown integrator memory, as a bit pattern.
    pub closed spec fn last_out_view(self) -> u32 {
        self.last_out
    }

    /// A fresh generator: zeroed filter state, thread-local random source.
    pub fn new() -> (s: GeneratorState)
        ensures
            s.wf(),
            s.taps_view() == zero_taps(),
            s.last_out_view() == 0u32,
    {
        let mut taps: Vec<u32> = Vec::new();
        taps.push(0);
        taps.push(0);
        taps.push(0);
        taps.push(0);
        taps.push(0);
        taps.push(0);
        taps.push(0);
        proof {
            assert(taps@ =~= zero_taps());
        }
        GeneratorState { rng: fresh_rng(), taps, last_out: 0 }
    }

    /// Overwrites every element of `block` with the white-noise signal of
    /// `draws`. White noise has no persistent filter state: the generator
    /// state is left untouched.
    pub fn fill_with_white_noise(&mut self, block: &mut Vec<u32>, draws: &Vec<u32>)
        requires
            old(self).wf(),
            draws@.len() == old(block)@.len(),
        ensures
            final(self).wf(),
            final(block)@ == white_signal(draws@),
            final(self).taps_view() == old(self).taps_view(),
            final(self).last_out_view() == old(self).last_out_view(),
    {
        let n = block.len();
        let mut i: usize = 0;
        while i < n
            invariant
                i <= n,
                block@.len() == n,
                draws@.len() == n,
                forall|j: int| 0 <= j < i ==> block@[j] == white_sample(draws@[j]),
            decreases n - i,
        {
            let w = f_sub(f_mul(draws[i], F_TWO), F_ONE);
            block.set(i, w);
            i = i + 1;
        }
        proof {
            assert(block@ =~= white_signal(draws@));
        }
    }

    /// Overwrites every element of `block` with the next segment of the
    /// pink-noise signal, advancing the seven persistent filter taps in
    /// place. The brown integrator memory is left untouched.
    pub fn fill_with_pink_noise(&mut self, block: &mut Vec<u32>, draws: &Vec<u32>)
        requires
            old(self).wf(),
            draws@.len() == old(block)@.len(),
        ensures
            final(self).wf(),
            final(block)@ == pink_signal(old(self).taps_view(), draws@),
            final(self).taps_view() == pink_taps_after(old(self).taps_view(), draws@),
            final(self).last_out_view() == old(self).last_out_view(),
    {
        let ghost t0 = self.taps@;
        let ghost l0 = self.last_out;
        let n = block.len();
        let mut i: usize = 0;
        while i < n
            invariant
                i <= n,
                block@.len() == n,
                draws@.len() == n,
                self.taps@.len() == 7,
                self.last_out == l0,
                self.taps@ == pink_taps_after(t0, draws@.take(i as int)),
                block@.take(i as int) == pink_signal(t0, draws@.take(i as int)),
            decreases n - i,
        {
            let ghost bprev = self.taps@;
            let w = f_sub(f_mul(draws[i], F_TWO), F_ONE);
            let nb0 = f_add(f_mul(PINK_A0, self.taps[0]), f_mul(w, PINK_G0));
            let nb1 = f_add(f_mul(PINK_A1, self.taps[1]), f_mul(w, PINK_G1));
            let nb2 = f_add(f_mul(PINK_A2, self.taps[2]), f_mul(w, PINK_G2));
            let nb3 = f_add(f_mul(PINK_A3, self.taps[3]), f_mul(w, PINK_G3));
            let nb4 = f_add(f_mul(PINK_A4, self.taps[4]), f_mul(w, PINK_G4));
            let nb5 = f_sub(f_mul(PINK_A5, self.taps[5]), f_mul(w, PINK_G5));
            let b6 = self.taps[6];
            let sum = f_add(
                f_add(
                    f_add(f_add(f_add(f_add(f_add(nb0, nb1), nb2), nb3), nb4), nb5),
                    b6,
                ),
                f_mul(w, PINK_SUM_G),
            );
            let s = f_mul(sum, PINK_GAIN);
            block.set(i, s);
            self.taps.set(0, nb0);
            self.taps.set(1, nb1);
            self.taps.set(2, nb2);
            self.taps.set(3, nb3);
            self.taps.set(4, nb4);
            self.taps.set(5, nb5);
            self.taps.set(6, f_mul(w, PINK_G6));
            proof {
                let d = draws@;
                let wsp = white_sample(d[i as int]);
                assert(self.taps@ =~= pink_taps_step(bprev, wsp));
                assert(s == pink_sample(bprev, wsp));
                assert(d.take(i as int + 1) =~= d.take(i as int) + seq![d[i as int]]);
                lemma_pink_extend(t0, d.take(i as int), d[i as int]);
                assert(block@.take(i as int + 1) =~= pink_signal(t0, d.take(i as int)) + seq![
                    pink_sample(bprev, wsp),
                ]);
            }
            i = i + 1;
        }
        proof {
            assert(draws@.take(n as int) =~= draws@);
            assert(block@.take(n as int) =~= block@);
        }
    }

    /// Overwrites every element of `block` with the next segment of the
    /// brown-noise signal, advancing the persistent integrator memory in
    /// place. Only the pre-gain value is fed back; the emitted samples carry
    /// the output gain. The pink taps are left untouched.
    pub fn fill_with_brown_noise(&mut self, block: &mut Vec<u32>, draws: &Vec<u32>)
        requires
            old(self).wf(),
            draws@.len() == old(block)@.len(),
        ensures
            final(self).wf(),
            final(block)@ == brown_signal(old(self).last_out_view(), draws@),
            final(self).last_out_view() == brown_last_after(old(self).last_out_view(), draws@),
            final(self).taps_view() == old(self).taps_view(),
    {
        let ghost t0 = self.taps@;
        let ghost l0 = self.last_out;
        let n = block.len();
        let mut i: usize = 0;
        while i < n
            invariant
                i <= n,
                block@.len() == n,
                draws@.len() == n,
                self.taps@ == t0,
                self.last_out == brown_last_after(l0, draws@.take(i as int)),
                block@.take(i as int) == brown_signal(l0, draws@.take(i as int)),
            decreases n - i,
        {
            let ghost lprev = self.last_out;
            let w = f_sub(f_mul(draws[i], F_TWO), F_ONE);
            let pre = f_div(f_add(self.last_out, f_mul(BROWN_STEP_G, w)), BROWN_LEAK);
            self.last_out = pre;
            block.set(i, f_mul(pre, BROWN_GAIN));
            proof {
                let d = draws@;
                let wsp = white_sample(d[i as int]);
                assert(pre == brown_step(lprev, wsp));
                assert(d.take(i as int + 1) =~= d.take(i as int) + seq![d[i as int]]);
                lemma_brown_extend(l0, d.take(i as int), d[i as int]);
                assert(block@.take(i as int + 1) =~= brown_signal(l0, d.take(i as int)) + seq![
                    brown_emit(lprev, wsp),
                ]);
            }
            i = i + 1;
        }
        proof {
            assert(draws@.take(n as int) =~= draws@);
            assert(block@.take(n as int) =~= block@);
        }
    }

    /// Overwrites every element of `block` with the next segment of the
    /// chosen color's signal, drawing from the owned random source and
    /// advancing the persistent filter state in place. The block's length
    /// is unchanged: memory stays bounded by the block however long the
    /// run. Whatever the source drew, the block and the new state are the
    /// signal and state that draw sequence determines.
    pub fn fill(&mut self, block: &mut Vec<u32>, color: NoiseColor)
        requires
            old(self).wf(),
        ensures
            final(self).wf(),
            final(block)@.len() == old(block)@.len(),
            exists|d: Seq<u32>|
                {
                    &&& d.len() == old(block)@.len()
                    &&& final(block)@ == #[trigger] signal_of(
                        color,
                        old(self).taps_view(),
                        old(self).last_out_view(),
                        d,
                    )
                    &&& final(self).taps_view() == taps_of(color, old(self).taps_view(), d)
                    &&& final(self).last_out_view() == last_of(
                        color,
                        old(self).last_out_view(),
                        d,
                    )
                },
    {
        let n = block.len();
        let draws = draw_block(&mut self.rng, n);
        match color {
            NoiseColor::White => self.fill_with_white_noise(block, &draws),
            NoiseColor::Pink => self.fill_with_pink_noise(block, &draws),
            NoiseColor::Brown => self.fill_with_brown_noise(block, &draws),
        }
        proof {
            let d = draws@;
            lemma_pink_signal_len(old(self).taps_view(), d);
            lemma_brown_signal_len(old(self).last_out_view(), d);
            assert(block@ == signal_of(color, old(self).taps_view(), old(self).last_out_view(), d));
            assert(self.taps_view() == taps_of(color, old(self).taps_view(), d));
            assert(self.last_out_view() == last_of(color, old(self).last_out_view(), d));
        }
    }
}

} // verus!
