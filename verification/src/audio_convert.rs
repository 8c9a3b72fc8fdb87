//! Bringing what a device delivers to one channel at the target rate, packet by
//! packet. The arithmetic on samples is the caller's; which samples it is done on, and
//! at which places, is decided here.

use vstd::prelude::*;
use crate::audio::TARGET_SR;

verus! {

/// How many whole frames there are.
pub open spec fn frame_count(len: nat, channels: usize) -> int {
    if channels <= 1 {
        len as int
    } else {
        len as int / channels as int
    }
}

/// One sample is what `mix` makes of a frame.
pub open spec fn mixed<S, M: Fn(&[S]) -> S>(
    mix: M,
    interleaved: Seq<S>,
    channels: usize,
    i: int,
    one: S,
) -> bool {
    exists|f: &[S]| #[trigger]
        mix.ensures((f,), one) && f@ == interleaved.subrange(i * channels, i * channels + channels)
}

/// One sample for each whole frame.
pub open spec fn downmixed<S, M: Fn(&[S]) -> S>(
    mix: M,
    interleaved: Seq<S>,
    channels: usize,
    mono: Seq<S>,
) -> bool {
    &&& mono.len() == frame_count(interleaved.len(), channels)
    &&& channels <= 1 ==> mono == interleaved
    &&& channels > 1 ==> forall|i: int| #![trigger mono[i]]
        0 <= i < mono.len() ==> mixed(mix, interleaved, channels, i, mono[i])
}

/// The frames of interleaved samples as one sample each: `mix` makes one of a
/// frame. A frame that is not complete is dropped; a single channel is taken as
/// it is.
pub fn downmix<S: Copy, M: Fn(&[S]) -> S>(interleaved: &[S], channels: usize, mix: M) -> (out:
    Vec<S>)
    requires
        forall|f: &[S]| f@.len() == channels ==> #[trigger] mix.requires((f,)),
    ensures
        downmixed(mix, interleaved@, channels, out@),
{
    let len: usize = interleaved.len();
    let mut out: Vec<S> = Vec::new();
    if channels <= 1 {
        let mut i: usize = 0;
        while i < len
            invariant
                i <= len == interleaved@.len(),
                out@ == interleaved@.take(i as int),
            decreases len - i,
        {
            out.push(interleaved[i]);
            i += 1;
            assert(out@ =~= interleaved@.take(i as int));
        }
        assert(out@ =~= interleaved@);
        return out;
    }
    let count: usize = len / channels;
    proof {
        vstd::arithmetic::div_mod::lemma_fundamental_div_mod(len as int, channels as int);
        vstd::arithmetic::div_mod::lemma_mod_pos_bound(len as int, channels as int);
        vstd::arithmetic::mul::lemma_mul_is_commutative(channels as int, count as int);
    }
    let mut i: usize = 0;
    assert(0 * channels == 0);
    while i < count
        invariant
            i <= count,
            channels > 1,
            len == interleaved@.len(),
            count * channels <= len,
            out@.len() == i,
            forall|f: &[S]| f@.len() == channels ==> #[trigger] mix.requires((f,)),
            forall|k: int| #![trigger out@[k]]
                0 <= k < i ==> mixed(mix, interleaved@, channels, k, out@[k]),
        decreases count - i,
    {
        proof {
            assert(0 <= i * channels && i * channels + channels <= count * channels)
                by (nonlinear_arith)
                requires
                    0 <= i < count,
                    0 < channels,
            ;
        }
        let start: usize = i * channels;
        let mut frame: Vec<S> = Vec::new();
        let mut c: usize = 0;
        while c < channels
            invariant
                c <= channels,
                start + channels <= len == interleaved@.len(),
                frame@ == interleaved@.subrange(start as int, start + c),
            decreases channels - c,
        {
            frame.push(interleaved[start + c]);
            c += 1;
            assert(frame@ =~= interleaved@.subrange(start as int, start + c));
        }
        let view: &[S] = frame.as_slice();
        assert(view@.len() == channels);
        let one: S = mix(view);
        assert(mix.ensures((view,), one));
        let ghost before = out@;
        out.push(one);
        proof {
            assert forall|k: int| 0 <= k < i + 1 implies mixed(
                mix,
                interleaved@,
                channels,
                k,
                #[trigger] out@[k],
            ) by {
                if k < i {
                    assert(before[k] == out@[k]);
                } else {
                    assert(mix.ensures((view,), out@[k]));
                }
            }
        }
        i += 1;
    }
    out
}

/// What has to be remembered from one packet to the next, so that their boundary
/// neither clicks nor drifts.
pub struct Converter<S> {
    pub src_rate: u32,
    pub channels: usize,
    /// Where the next sample is taken, counted from the last sample of the packet
    /// before. A sample of the source is `TARGET_SR` places long, so that the step from
    /// one sample to the next is a whole number.
    pub place: u64,
    /// The last sample of the packet before.
    pub prev: Option<S>,
}

/// A converter that has seen no packet: the first sample is taken at the first of the
/// source.
pub open spec fn fresh<S>(src_rate: u32, channels: usize) -> Converter<S> {
    Converter { src_rate, channels, place: TARGET_SR as u64, prev: None }
}

/// The samples that places are counted on: the last one of the packet before, where
/// there was one, and the packet.
pub open spec fn line<S>(prev: Option<S>, mono: Seq<S>) -> Seq<S> {
    seq![
        match prev {
            Some(p) => p,
            None => mono[0],
        },
    ] + mono
}

/// What is taken at a place: the sample that stands there, or what `blend` makes of the
/// two that it lies between.
pub open spec fn taken<S, B: Fn(S, S, u32) -> S>(blend: B, on: Seq<S>, place: int, one: S) -> bool {
    let i = place / (TARGET_SR as int);
    let part = place % (TARGET_SR as int);
    if part == 0 {
        one == on[i]
    } else {
        blend.ensures((on[i], on[i + 1], part as u32), one)
    }
}

/// The place of a sample, so many steps on.
pub open spec fn place_of<S>(c: Converter<S>, k: int) -> int {
    c.place + k * c.src_rate
}

/// A packet of one channel makes `out` of a converter, and leaves it as `next`. Samples
/// are taken one step apart for as long as the samples that they are made of are there:
/// what lies beyond the last one waits for the next packet.
pub open spec fn resampled<S, B: Fn(S, S, u32) -> S>(
    c: Converter<S>,
    mono: Seq<S>,
    blend: B,
    out: Seq<S>,
    next: Converter<S>,
) -> bool {
    if c.src_rate == TARGET_SR {
        &&& out == mono
        &&& next == c
    } else if mono.len() == 0 {
        &&& out.len() == 0
        &&& next == c
    } else {
        let end = mono.len() * TARGET_SR;
        &&& forall|k: int|
            #![trigger out[k]]
            #![trigger place_of(c, k)]
            0 <= k < out.len() ==> place_of(c, k) <= end && taken(
                blend,
                line(c.prev, mono),
                place_of(c, k),
                out[k],
            )
        &&& place_of(c, out.len() as int) > end
        &&& next == (Converter {
            place: (place_of(c, out.len() as int) - end) as u64,
            prev: Some(mono.last()),
            ..c
        })
    }
}

impl<S> Converter<S> {
    /// The next sample is at most one step beyond the packet before.
    pub open spec fn wf(self) -> bool {
        &&& 0 < self.place
        &&& self.place <= self.src_rate || self.place <= TARGET_SR
        &&& self.prev is None ==> self.place == TARGET_SR
    }
}

impl<S: Copy> Converter<S> {
    pub fn new(src_rate: u32, channels: usize) -> (c: Converter<S>)
        ensures
            c.wf(),
            c == fresh::<S>(src_rate, channels),
    {
        Converter { src_rate, channels, place: TARGET_SR as u64, prev: None }
    }

    /// Forgets the packet before, so that an utterance does not begin in the one
    /// before it.
    pub fn reset(&mut self)
        ensures
            final(self).wf(),
            *final(self) == fresh::<S>(old(self).src_rate, old(self).channels),
    {
        self.place = TARGET_SR as u64;
        self.prev = None;
    }

    /// Whether the rate is already the one that is wanted.
    pub fn passes_through(&self) -> (r: bool)
        ensures
            r == (self.src_rate == TARGET_SR),
    {
        self.src_rate == TARGET_SR
    }

    /// The next packet of one channel at the target rate.
    pub fn resample<B: Fn(S, S, u32) -> S>(&mut self, mono: Vec<S>, blend: B) -> (out: Vec<S>)
        requires
            old(self).wf(),
            old(self).src_rate > 0,
            forall|a: S, b: S, part: u32|
                0 < part < TARGET_SR ==> #[trigger] blend.requires((a, b, part)),
        ensures
            final(self).wf(),
            resampled(*old(self), mono@, blend, out@, *final(self)),
    {
        if self.passes_through() {
            return mono;
        }
        let len: usize = mono.len();
        let mut out: Vec<S> = Vec::new();
        if len == 0 {
            return out;
        }
        let ghost before = *self;
        let ghost on = line(self.prev, mono@);
        let rate: u128 = self.src_rate as u128;
        let whole: u128 = TARGET_SR as u128;
        let end: u128 = len as u128 * whole;
        let mut at: u128 = self.place as u128;
        while at <= end
            invariant
                before == *self,
                before.wf(),
                len == mono@.len(),
                len > 0,
                on == line(before.prev, mono@),
                rate == before.src_rate,
                rate > 0,
                whole == TARGET_SR,
                end == len * whole,
                at == place_of(before, out@.len() as int),
                at <= end + rate || at <= whole,
                forall|a: S, b: S, part: u32|
                    0 < part < TARGET_SR ==> #[trigger] blend.requires((a, b, part)),
                forall|k: int|
                    #![trigger out@[k]]
                    #![trigger place_of(before, k)]
                    0 <= k < out@.len() ==> place_of(before, k) <= end && taken(
                        blend,
                        on,
                        place_of(before, k),
                        out@[k],
                    ),
            decreases end + rate - at,
        {
            let i: usize = (at / whole) as usize;
            let part: u32 = (at % whole) as u32;
            assert(i <= len);
            let a: S = if i > 0 {
                mono[i - 1]
            } else {
                match self.prev {
                    Some(p) => p,
                    None => mono[0],
                }
            };
            assert(a == on[i as int]);
            let one: S = if part == 0 {
                a
            } else {
                assert(i < len);
                assert(mono@[i as int] == on[i + 1]);
                blend(a, mono[i], part)
            };
            let ghost said = out@;
            let ghost n = out@.len() as int;
            out.push(one);
            at = at + rate;
            proof {
                assert(taken(blend, on, place_of(before, n), one));
                assert(place_of(before, n + 1) == place_of(before, n) + rate) by (nonlinear_arith)
                    requires
                        rate == before.src_rate,
                        place_of(before, n + 1) == before.place + (n + 1) * before.src_rate,
                        place_of(before, n) == before.place + n * before.src_rate,
                ;
                assert forall|k: int|
                    #![trigger out@[k]]
                    #![trigger place_of(before, k)]
                    0 <= k < out@.len() implies place_of(
                    before,
                    k,
                ) <= end && taken(blend, on, place_of(before, k), out@[k]) by {
                    if k < n {
                        assert(said[k] == out@[k]);
                    }
                }
            }
        }
        self.place = (at - end) as u64;
        self.prev = Some(mono[len - 1]);
        out
    }

    /// The next packet, as a device delivers it, as one channel at the target rate.
    pub fn convert<M: Fn(&[S]) -> S, B: Fn(S, S, u32) -> S>(
        &mut self,
        interleaved: &[S],
        mix: M,
        blend: B,
    ) -> (out: Vec<S>)
        requires
            old(self).wf(),
            old(self).src_rate > 0,
            forall|f: &[S]| f@.len() == old(self).channels ==> #[trigger] mix.requires((f,)),
            forall|a: S, b: S, part: u32|
                0 < part < TARGET_SR ==> #[trigger] blend.requires((a, b, part)),
        ensures
            final(self).wf(),
            exists|mono: Seq<S>| #[trigger]
                downmixed(mix, interleaved@, old(self).channels, mono) && resampled(
                    *old(self),
                    mono,
                    blend,
                    out@,
                    *final(self),
                ),
    {
        let mono: Vec<S> = downmix(interleaved, self.channels, mix);
        assert(downmixed(mix, interleaved@, self.channels, mono@));
        self.resample(mono, blend)
    }
}

// ---- laws -----------------------------------------------------------------------------

/// Where one packet ends and the next begins makes no difference: two packets, one after
/// the other, make what they make as one.
pub proof fn law_packet_boundaries_are_not_heard<S, B: Fn(S, S, u32) -> S>(
    c: Converter<S>,
    one: Seq<S>,
    two: Seq<S>,
    blend: B,
    first: Seq<S>,
    between: Converter<S>,
    second: Seq<S>,
    end: Converter<S>,
)
    requires
        c.wf(),
        c.src_rate > 0,
        resampled(c, one, blend, first, between),
        resampled(between, two, blend, second, end),
    ensures
        resampled(c, one + two, blend, first + second, end),
{
    let both = one + two;
    let out = first + second;
    if c.src_rate == TARGET_SR {
    } else if one.len() == 0 {
        assert(both =~= two);
        assert(out =~= second);
    } else if two.len() == 0 {
        assert(both =~= one);
        assert(out =~= first);
    } else {
        let n = first.len() as int;
        let shift = one.len() * TARGET_SR;
        let on = line(c.prev, both);
        let on_one = line(c.prev, one);
        let on_two = line(between.prev, two);
        lemma_place_grows(c, 0, n);
        assert(between.place == place_of(c, n) - shift) by {
            lemma_no_overrun(c, one.len() as int, n, first, blend, one);
        }
        assert forall|j: int| 0 <= j < on_one.len() implies on[j] == on_one[j] by {}
        assert forall|j: int| 0 <= j < on_two.len() implies on[j + one.len()] == on_two[j] by {
            if j == 0 {
                assert(on_two[0] == one.last());
                assert(on[one.len() as int] == both[one.len() - 1]);
            } else {
                assert(on_two[j] == two[j - 1]);
                assert(on[j + one.len()] == both[j + one.len() - 1]);
            }
        }
        assert forall|k: int|
            #![trigger out[k]]
            #![trigger place_of(c, k)]
            0 <= k < out.len() implies place_of(c, k)
            <= both.len() * TARGET_SR && taken(blend, on, place_of(c, k), out[k]) by {
            if k < n {
                assert(out[k] == first[k]);
                lemma_place_grows(c, 0, k);
            } else {
                let m = k - n;
                assert(out[k] == second[m]);
                lemma_place_shifts(c, between, n, m, shift);
                lemma_place_grows(between, 0, m);
            }
        }
        lemma_place_shifts(c, between, n, second.len() as int, shift);
        lemma_place_grows(between, 0, second.len() as int);
    }
}

/// Sequences one behind the other.
pub open spec fn strung<S>(parts: Seq<Seq<S>>) -> Seq<S>
    decreases parts.len(),
{
    if parts.len() == 0 {
        seq![]
    } else {
        strung(parts.drop_last()) + parts.last()
    }
}

/// Packets are dealt with one by one: each makes its part of `outs` of the converter
/// that the one before has left.
pub open spec fn resampled_all<S, B: Fn(S, S, u32) -> S>(
    packets: Seq<Seq<S>>,
    blend: B,
    outs: Seq<Seq<S>>,
    states: Seq<Converter<S>>,
) -> bool {
    &&& outs.len() == packets.len()
    &&& states.len() == packets.len() + 1
    &&& forall|i: int|
        0 <= i < packets.len() ==> resampled(
            states[i],
            #[trigger] packets[i],
            blend,
            outs[i],
            states[i + 1],
        )
}

/// A stream makes the same however it is cut into packets.
pub proof fn law_stream_is_what_its_packets_make<S, B: Fn(S, S, u32) -> S>(
    packets: Seq<Seq<S>>,
    blend: B,
    outs: Seq<Seq<S>>,
    states: Seq<Converter<S>>,
)
    requires
        resampled_all(packets, blend, outs, states),
        states[0].wf(),
        states[0].src_rate > 0,
    ensures
        resampled(states[0], strung(packets), blend, strung(outs), states.last()),
    decreases packets.len(),
{
    if packets.len() > 0 {
        let fewer = packets.drop_last();
        let n = packets.len() - 1;
        assert forall|i: int| 0 <= i < fewer.len() implies resampled(
            states.drop_last()[i],
            #[trigger] fewer[i],
            blend,
            outs.drop_last()[i],
            states.drop_last()[i + 1],
        ) by {
            assert(fewer[i] == packets[i]);
        }
        law_stream_is_what_its_packets_make(fewer, blend, outs.drop_last(), states.drop_last());
        assert(packets[n] == packets.last());
        law_packet_boundaries_are_not_heard(
            states[0],
            strung(fewer),
            packets.last(),
            blend,
            strung(outs.drop_last()),
            states[n],
            outs.last(),
            states.last(),
        );
    }
}

/// The rate is kept to less than a sample, however long the stream: the samples that are
/// made, at the source's rate, reach from the first of the source to less than a step
/// past its last.
pub proof fn law_rate_is_kept<S, B: Fn(S, S, u32) -> S>(
    src_rate: u32,
    channels: usize,
    mono: Seq<S>,
    blend: B,
    out: Seq<S>,
    next: Converter<S>,
)
    requires
        src_rate > 0,
        mono.len() > 0,
        resampled(fresh::<S>(src_rate, channels), mono, blend, out, next),
    ensures
        (mono.len() - 1) * TARGET_SR < out.len() * src_rate,
        (out.len() - 1) * src_rate <= (mono.len() - 1) * TARGET_SR,
{
    let c = fresh::<S>(src_rate, channels);
    let n = out.len() as int;
    let len = mono.len() as int;
    if src_rate == TARGET_SR {
        assert((len - 1) * src_rate < len * src_rate) by (nonlinear_arith)
            requires
                src_rate > 0,
        ;
    } else {
        assert((len - 1) * TARGET_SR == len * TARGET_SR - TARGET_SR) by (nonlinear_arith);
        assert(place_of(c, n) == TARGET_SR + n * src_rate);
        assert(place_of(c, n - 1) == TARGET_SR + (n - 1) * src_rate);
        if n == 0 {
            assert(0 * src_rate == 0);
            assert(len * TARGET_SR >= TARGET_SR) by (nonlinear_arith)
                requires
                    len > 0,
            ;
        }
    }
}

proof fn lemma_place_grows<S>(c: Converter<S>, j: int, k: int)
    requires
        0 <= j <= k,
    ensures
        c.place <= place_of(c, j) <= place_of(c, k),
{
    assert(0 <= j * c.src_rate <= k * c.src_rate) by (nonlinear_arith)
        requires
            0 <= j <= k,
    ;
}

proof fn lemma_place_shifts<S>(c: Converter<S>, d: Converter<S>, n: int, m: int, shift: int)
    requires
        d.src_rate == c.src_rate,
        d.place == place_of(c, n) - shift,
    ensures
        place_of(d, m) == place_of(c, n + m) - shift,
{
    assert((n + m) * c.src_rate == n * c.src_rate + m * c.src_rate) by (nonlinear_arith);
}

/// The place after the last sample is at most one step beyond the packet.
proof fn lemma_no_overrun<S, B: Fn(S, S, u32) -> S>(
    c: Converter<S>,
    len: int,
    n: int,
    out: Seq<S>,
    blend: B,
    mono: Seq<S>,
)
    requires
        c.wf(),
        len == mono.len(),
        len > 0,
        n == out.len(),
        place_of(c, n) > len * TARGET_SR,
        forall|k: int|
            #![trigger out[k]]
            #![trigger place_of(c, k)]
            0 <= k < out.len() ==> place_of(c, k) <= len * TARGET_SR && taken(
                blend,
                line(c.prev, mono),
                place_of(c, k),
                out[k],
            ),
    ensures
        0 < place_of(c, n) - len * TARGET_SR <= u64::MAX,
{
    if n > 0 {
        assert(place_of(c, n - 1) <= len * TARGET_SR) by {
            let last = out[n - 1];
        }
        assert(n * c.src_rate == (n - 1) * c.src_rate + c.src_rate) by (nonlinear_arith);
    } else {
        assert(0 * c.src_rate == 0);
    }
}

} // verus!
