//! What becomes of sound on its way from a device or a file: which samples are read, and at
//! which moments.

use vstd::prelude::*;
use crate::audio;
use crate::audio::{Action, Capture, CaptureStats, Format, Input, Source};
use crate::audio_convert;
use crate::audio_convert::Converter;
use crate::wav;
use crate::wav::Scan;

verus! {

// ---- packets --------------------------------------------------------------------------

/// A packet is read in the way of the device's format, and as silence where it is marked as
/// silent by the second bit of its flags, where there is nothing to read, or where the
/// format is not one of the three that are known.
pub proof fn law_packets_are_read_as_they_are_marked(f: Format, flags: u32, missing: bool)
    ensures
        ({
            let quiet = (flags as int / 2) % 2 == 1 || missing;
            let s = audio::source_of(f, flags, missing);
            &&& s == Source::Float <==> !quiet && f.is_float && f.bits == 32
            &&& s == Source::Int16 <==> !quiet && f.bits == 16
            &&& s == Source::Int32 <==> !quiet && !f.is_float && f.bits == 32
        }),
{
}

/// While the device runs, a packet is looked for, taken, and handed on with all the samples
/// of all its channels; then the next is looked for. It is counted, and counted as a glitch
/// where the first bit of its flags says that something was lost before it.
pub proof fn law_packet_is_handed_on(
    c: Capture,
    waiting: u32,
    frames: u32,
    flags: u32,
    missing: bool,
)
    requires
        audio::wants(c) == Action::NextPacket,
        waiting > 0,
        c.stats.packets < u32::MAX,
        c.stats.glitches < u32::MAX,
    ensures
        ({
            let found = audio::next(c, Input::Packet(Some(waiting)));
            let taken = audio::next(found, Input::Buffer { ok: true, frames, flags, missing });
            &&& audio::wants(found) == Action::GetBuffer
            &&& audio::wants(taken) matches Action::Deliver { source, samples }
            &&& source == audio::source_of(c.format, flags, missing)
            &&& samples == frames * c.format.channels
            &&& taken.stats.packets == c.stats.packets + 1
            &&& taken.stats.glitches == c.stats.glitches + flags as int % 2
            &&& taken.stats.device_errors == c.stats.device_errors
            &&& audio::wants(audio::next(taken, Input::Delivered)) == Action::NextPacket
            &&& audio::next(taken, Input::Delivered).stats == taken.stats
        }),
{
    assert(0 <= frames * c.format.channels <= 0xFFFF_FFFF * 0xFFFF) by (nonlinear_arith)
        requires
            0 <= frames <= 0xFFFF_FFFF,
            0 <= c.format.channels <= 0xFFFF,
    ;
}

/// Where there is no packet the capture waits; where the device fails that is counted and
/// the capture waits too.
pub proof fn law_no_packet_is_waited_for(c: Capture, frames: u32, flags: u32, missing: bool)
    requires
        c.stats.device_errors < u32::MAX,
    ensures
        audio::wants(c) == Action::NextPacket ==> {
            let none = audio::next(c, Input::Packet(Some(0)));
            let lost = audio::next(c, Input::Packet(None));
            &&& audio::wants(none) == Action::Wait
            &&& none.stats == c.stats
            &&& audio::wants(lost) == Action::Wait
            &&& lost.stats == (CaptureStats {
                device_errors: (c.stats.device_errors + 1) as u32,
                ..c.stats
            })
        },
        audio::wants(c) == Action::GetBuffer ==> {
            let lost = audio::next(c, Input::Buffer { ok: false, frames, flags, missing });
            &&& audio::wants(lost) == Action::Wait
            &&& lost.stats == (CaptureStats {
                device_errors: (c.stats.device_errors + 1) as u32,
                ..c.stats
            })
        },
{
}

// ---- one channel ----------------------------------------------------------------------

/// Frames become samples one for one and in their order: each is what is made of the
/// samples of its own frame, no whole frame is left out, and a single channel stays as it
/// is.
pub proof fn law_frames_become_samples<S, M: Fn(&[S]) -> S>(
    mix: M,
    interleaved: Seq<S>,
    channels: usize,
    mono: Seq<S>,
    i: int,
)
    requires
        audio_convert::downmixed(mix, interleaved, channels, mono),
        channels <= 1 || 0 <= i < mono.len(),
    ensures
        channels <= 1 ==> mono == interleaved,
        channels > 1 ==> {
            &&& channels * mono.len() <= interleaved.len() < channels * (mono.len() + 1)
            &&& exists|f: &[S]| #[trigger]
                mix.ensures((f,), mono[i]) && f@.len() == channels && forall|j: int|
                    0 <= j < channels ==> #[trigger] f@[j] == interleaved[i * channels + j]
        },
{
    let f = choose|f: &[S]| #[trigger]
        mix.ensures((f,), mono[i]) && f@ == interleaved.subrange(
            i * channels,
            i * channels + channels,
        );
    if channels > 1 {
        let n = interleaved.len() as int;
        let c = channels as int;
        vstd::arithmetic::div_mod::lemma_fundamental_div_mod(n, c);
        let q = n / c;
        assert(c * (q + 1) == c * q + c) by (nonlinear_arith);
        assert(audio_convert::mixed(mix, interleaved, channels, i, mono[i]));
        assert(0 <= i * channels && i * channels + channels <= n) by (nonlinear_arith)
            requires
                0 <= i < q,
                c * q <= n,
                c == channels,
        ;
        assert(mix.ensures((f,), mono[i]));
        assert(f@ == interleaved.subrange(i * channels, i * channels + channels));
    }
}

/// Every sample that is made stands for its own moment: the `k`th is `k` sixteen-thousandths
/// of a second from the first, so it is the source's sample at that moment, or a blend of
/// the two that the moment lies between, by how far it lies from the one before.
pub proof fn law_samples_are_taken_in_time<S, B: Fn(S, S, u32) -> S>(
    src_rate: u32,
    channels: usize,
    mono: Seq<S>,
    blend: B,
    out: Seq<S>,
    next: Converter<S>,
    k: int,
)
    requires
        src_rate != 16_000,
        mono.len() > 0,
        audio_convert::resampled(
            audio_convert::fresh::<S>(src_rate, channels),
            mono,
            blend,
            out,
            next,
        ),
        0 <= k < out.len(),
    ensures
        ({
            let i = k * src_rate / 16_000;
            let part = k * src_rate % 16_000;
            &&& 0 <= i < mono.len()
            &&& part == 0 ==> out[k] == mono[i]
            &&& part != 0 ==> i + 1 < mono.len() && blend.ensures(
                (mono[i], mono[i + 1], part as u32),
                out[k],
            )
        }),
{
    let c = audio_convert::fresh::<S>(src_rate, channels);
    let place = audio_convert::place_of(c, k);
    let t = k * src_rate;
    assert(t >= 0) by (nonlinear_arith)
        requires
            k >= 0,
            t == k * src_rate,
    ;
    assert(place == 16_000 + t);
    let end = mono.len() * 16_000;
    assert(place <= end);
    assert(place / 16_000 == t / 16_000 + 1);
    assert(place % 16_000 == t % 16_000);
    let on = audio_convert::line(c.prev, mono);
    let i = t / 16_000;
    assert(audio_convert::taken(blend, on, place, out[k]));
    assert(on[i + 1] == mono[i]);
    if t % 16_000 != 0 {
        assert(i + 1 < mono.len());
        assert(on[i + 2] == mono[i + 1]);
    }
}

/// Sound that is already at the rate that is wanted is left as it is.
pub proof fn law_wanted_rate_is_left_alone<S, B: Fn(S, S, u32) -> S>(
    c: Converter<S>,
    mono: Seq<S>,
    blend: B,
    out: Seq<S>,
    next: Converter<S>,
)
    requires
        c.src_rate == 16_000,
        audio_convert::resampled(c, mono, blend, out, next),
    ensures
        out == mono,
        next == c,
{
}

// ---- files ----------------------------------------------------------------------------

/// A file's sound at another rate is as long as it was, to less than a sample, and each
/// sample is the one at its moment or a blend of the two round it; the last one holds to the
/// end.
pub proof fn law_file_at_another_rate<S, B: Fn(S, S, u32) -> S>(
    blend: B,
    input: Seq<S>,
    from_hz: u32,
    to_hz: u32,
    i: int,
    q: int,
    one: S,
)
    requires
        from_hz > 0,
        to_hz > 0,
        0 <= q < input.len(),
        q * to_hz <= i * from_hz < (q + 1) * to_hz,
        wav::sample_at(blend, input, from_hz, to_hz, i, one),
    ensures
        i * from_hz == q * to_hz || q + 1 == input.len() ==> one == input[q],
        i * from_hz != q * to_hz && q + 1 < input.len() ==> blend.ensures(
            (input[q], input[q + 1], (i * from_hz - q * to_hz) as u32),
            one,
        ),
        ({
            let n = wav::resampled_len(input.len(), from_hz, to_hz);
            n * from_hz <= input.len() * to_hz < (n + 1) * from_hz
        }),
{
    let t = i * from_hz;
    let d = to_hz as int;
    assert((q + 1) * d == q * d + d) by (nonlinear_arith);
    vstd::arithmetic::div_mod::lemma_fundamental_div_mod_converse(t, d, q, t - q * d);
    let all = input.len() * to_hz;
    let f = from_hz as int;
    vstd::arithmetic::div_mod::lemma_fundamental_div_mod(all as int, f);
    let n = all as int / f;
    assert((n + 1) * f == n * f + f) by (nonlinear_arith);
    assert(n * f == f * n) by (nonlinear_arith);
}

/// A sample of two bytes is the number that they write, the low byte first, and negative
/// where the top bit is set. As many are read as fit.
pub proof fn law_samples_of_two_bytes(b: Seq<u8>, s: int, e: int, k: int)
    requires
        s <= e,
        0 <= k < (e - s) / 2,
    ensures
        wav::samples_at(b, s, e, 1, 16) matches Some((kind, v)) && {
            &&& kind == 0
            &&& v.len() == (e - s) / 2
            &&& -32768 <= v[k] <= 32767
            &&& v[k] + (if b[s + 2 * k + 1] >= 128 {
                65536int
            } else {
                0
            }) == 256 * b[s + 2 * k + 1] + b[s + 2 * k]
        },
{
}

/// A sample of four bytes is the number that they write, the low byte first: negative where
/// the top bit is set if it is an integer, and the bits as they are if it is a float.
pub proof fn law_samples_of_four_bytes(b: Seq<u8>, s: int, e: int, k: int)
    requires
        s <= e,
        0 <= k < (e - s) / 4,
    ensures
        ({
            let at = s + 4 * k;
            let n = 16777216 * b[at + 3] + 65536 * b[at + 2] + 256 * b[at + 1] + b[at];
            &&& wav::samples_at(b, s, e, 1, 32) matches Some((kind, v)) && {
                &&& kind == 1
                &&& v.len() == (e - s) / 4
                &&& v[k] + (if b[at + 3] >= 128 {
                    4294967296int
                } else {
                    0
                }) == n
            }
            &&& wav::samples_at(b, s, e, 3, 32) matches Some((kind, v)) && {
                &&& kind == 2
                &&& v.len() == (e - s) / 4
                &&& v[k] == n
            }
        }),
{
}

/// Samples of any other kind are not read.
pub proof fn law_other_samples_are_not_read(b: Seq<u8>, s: int, e: int, format: int, bits: int)
    ensures
        wav::samples_at(b, s, e, format, bits) is None <==> !(format == 1 && (bits == 16 || bits
            == 32) || format == 3 && bits == 32),
{
}

/// Chunks are read one after the other, each behind the body of the one before, which is
/// padded to an even length. A format chunk says what the samples are, and is refused with
/// less than sixteen bytes; a data chunk says where they are, as far as the file goes; any
/// other is passed over.
pub proof fn law_chunks_are_read_in_turn(b: Seq<u8>, pos: int, seen: Scan)
    requires
        0 <= pos,
        pos + 8 <= b.len(),
    ensures
        ({
            let size = b[pos + 4] + 256 * b[pos + 5] + 65536 * b[pos + 6] + 16777216 * b[pos + 7];
            let then = pos + 8 + size + (if size % 2 == 1 {
                1int
            } else {
                0
            });
            let body = pos + 8;
            let end = if body + size <= b.len() {
                body + size
            } else {
                b.len() as int
            };
            let is_format = b[pos] == 'f' as u8 && b[pos + 1] == 'm' as u8 && b[pos + 2]
                == 't' as u8 && b[pos + 3] == ' ' as u8;
            let is_data = b[pos] == 'd' as u8 && b[pos + 1] == 'a' as u8 && b[pos + 2]
                == 't' as u8 && b[pos + 3] == 'a' as u8;
            &&& is_format && end - body < 16 ==> wav::scan(b, pos, seen) is None
            &&& is_format && end - body >= 16 ==> wav::scan(b, pos, seen) == wav::scan(
                b,
                then,
                Scan {
                    fmt: wav::Fmt {
                        channels: b[body + 2] + 256 * b[body + 3],
                        sample_rate: b[body + 4] + 256 * b[body + 5] + 65536 * b[body + 6]
                            + 16777216 * b[body + 7],
                        bits: b[body + 14] + 256 * b[body + 15],
                        format: if b[body] == 0xFE && b[body + 1] == 0xFF && end - body >= 26 {
                            b[body + 24] + 256 * b[body + 25]
                        } else {
                            b[body] + 256 * b[body + 1]
                        },
                    },
                    data: seen.data,
                },
            )
            &&& is_data ==> wav::scan(b, pos, seen) == wav::scan(
                b,
                then,
                Scan { fmt: seen.fmt, data: Some((body, end)) },
            )
            &&& !is_format && !is_data ==> wav::scan(b, pos, seen) == wav::scan(b, then, seen)
        }),
{
    let here = b.subrange(pos, pos + 4);
    let f = seq![0x66u8, 0x6D, 0x74, 0x20];
    let d = seq![0x64u8, 0x61, 0x74, 0x61];
    assert(here[0] == b[pos] && here[1] == b[pos + 1] && here[2] == b[pos + 2] && here[3] == b[pos
        + 3]);
    assert(f[0] == 0x66 && f[1] == 0x6D && f[2] == 0x74 && f[3] == 0x20);
    assert(d[0] == 0x64 && d[1] == 0x61 && d[2] == 0x74 && d[3] == 0x61);
    assert('f' as u8 == 0x66 && 'm' as u8 == 0x6D && 't' as u8 == 0x74 && ' ' as u8 == 0x20);
    assert('d' as u8 == 0x64 && 'a' as u8 == 0x61);
    if b[pos] == 0x66 && b[pos + 1] == 0x6D && b[pos + 2] == 0x74 && b[pos + 3] == 0x20 {
        assert(here =~= f);
    }
    if b[pos] == 0x64 && b[pos + 1] == 0x61 && b[pos + 2] == 0x74 && b[pos + 3] == 0x61 {
        assert(here =~= d);
    }
}

/// Where no chunk fits any more, what was read is all there is.
pub proof fn law_chunks_end_with_the_file(b: Seq<u8>, pos: int, seen: Scan)
    requires
        pos + 8 > b.len(),
    ensures
        wav::scan(b, pos, seen) == Some(seen),
{
}

} // verus!
