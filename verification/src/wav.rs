//! Minimal WAV reader: PCM 16-bit and 32-bit and IEEE float 32-bit, any channel
//! count, any sample rate.

use vstd::prelude::*;
use crate::chars::push_str;
use crate::number;
use crate::number::push_decimal;

verus! {

/// The samples of a file, interleaved, as the file encodes them.
pub enum Pcm {
    /// Signed 16-bit, full scale 32768.
    I16(Vec<i16>),
    /// Signed 32-bit, full scale 2147483648.
    I32(Vec<i32>),
    /// The bit patterns of IEEE 32-bit floats.
    F32(Vec<u32>),
}

/// The samples of a file as integers.
pub open spec fn pcm_view(p: Pcm) -> (nat, Seq<int>) {
    match p {
        Pcm::I16(v) => (0, v@.map_values(|x: i16| x as int)),
        Pcm::I32(v) => (1, v@.map_values(|x: i32| x as int)),
        Pcm::F32(v) => (2, v@.map_values(|x: u32| x as int)),
    }
}

pub struct Wav {
    pub samples: Pcm,
    pub channels: u16,
    pub sample_rate: u32,
}

/// Why a file could not be read.
#[derive(PartialEq, Eq, Debug)]
pub enum WavError {
    NotWave,
    ShortFormat,
    NoData,
    Unsupported { format: u16, bits: u16 },
}

/// What a format chunk says.
pub struct Fmt {
    pub format: int,
    pub channels: int,
    pub sample_rate: int,
    pub bits: int,
}

/// Two bytes as a number, the low one first.
pub open spec fn le16(b: Seq<u8>, i: int) -> int {
    b[i] + 256 * b[i + 1]
}

/// Four bytes as a number, the low one first.
pub open spec fn le32(b: Seq<u8>, i: int) -> int {
    b[i] + 256 * b[i + 1] + 65536 * b[i + 2] + 16777216 * b[i + 3]
}

/// Whether four characters stand at a position.
pub open spec fn tag(b: Seq<u8>, i: int, t: Seq<u8>) -> bool {
    &&& i + 4 <= b.len()
    &&& b.subrange(i, i + 4) == t
}

/// What the format chunk between `s` and `e` says. In the extensible format the
/// real format is the first field of the identifier behind it.
pub open spec fn fmt_at(b: Seq<u8>, s: int, e: int) -> Fmt {
    Fmt {
        format: if le16(b, s) == 0xFFFE && e - s >= 26 {
            le16(b, s + 24)
        } else {
            le16(b, s)
        },
        channels: le16(b, s + 2),
        sample_rate: le32(b, s + 4),
        bits: le16(b, s + 14),
    }
}

/// What has been read of the chunks up to some position.
pub struct Scan {
    pub fmt: Fmt,
    /// Where the last data chunk starts and ends.
    pub data: Option<(int, int)>,
}

/// Where the body of the chunk at `pos` ends: where its size says, or with the
/// file.
pub open spec fn body_end(b: Seq<u8>, pos: int) -> int {
    if pos + 8 + le32(b, pos + 4) <= b.len() {
        pos + 8 + le32(b, pos + 4)
    } else {
        b.len() as int
    }
}

/// Where the chunk after the one at `pos` starts: chunks are word-aligned.
pub open spec fn next_chunk(b: Seq<u8>, pos: int) -> int {
    pos + 8 + le32(b, pos + 4) + le32(b, pos + 4) % 2
}

/// Reads all chunks from `pos` on; nothing where a format chunk is too short.
pub open spec fn scan(b: Seq<u8>, pos: int, seen: Scan) -> Option<Scan>
    decreases if pos < b.len() {
        b.len() - pos
    } else {
        0
    },
{
    if pos < 0 || pos + 8 > b.len() {
        Some(seen)
    } else if tag(b, pos, seq![0x66u8, 0x6D, 0x74, 0x20]) {
        if body_end(b, pos) - (pos + 8) < 16 {
            None
        } else {
            scan(
                b,
                next_chunk(b, pos),
                Scan { fmt: fmt_at(b, pos + 8, body_end(b, pos)), data: seen.data },
            )
        }
    } else if tag(b, pos, seq![0x64u8, 0x61, 0x74, 0x61]) {
        scan(
            b,
            next_chunk(b, pos),
            Scan { fmt: seen.fmt, data: Some((pos + 8, body_end(b, pos))) },
        )
    } else {
        scan(b, next_chunk(b, pos), seen)
    }
}

/// A number of `bits` bits as a signed one.
pub open spec fn signed16(n: int) -> int {
    if n >= 32768 {
        n - 65536
    } else {
        n
    }
}

/// A 32-bit number as a signed one.
pub open spec fn signed32(n: int) -> int {
    if n >= 2147483648 {
        n - 4294967296
    } else {
        n
    }
}

/// The samples between `s` and `e`, which kind and which values. Bytes that do
/// not fill a sample are dropped.
pub open spec fn samples_at(b: Seq<u8>, s: int, e: int, format: int, bits: int) -> Option<
    (nat, Seq<int>),
> {
    if format == 1 && bits == 16 {
        Some((0, Seq::new(((e - s) / 2) as nat, |k: int| signed16(le16(b, s + 2 * k)))))
    } else if format == 1 && bits == 32 {
        Some((1, Seq::new(((e - s) / 4) as nat, |k: int| signed32(le32(b, s + 4 * k)))))
    } else if format == 3 && bits == 32 {
        Some((2, Seq::new(((e - s) / 4) as nat, |k: int| le32(b, s + 4 * k))))
    } else {
        None
    }
}

/// What reading starts with.
pub open spec fn nothing_seen() -> Scan {
    Scan { fmt: Fmt { format: 0, channels: 0, sample_rate: 0, bits: 0 }, data: None }
}

/// Whether a file has the RIFF and WAVE marks.
pub open spec fn is_wave(b: Seq<u8>) -> bool {
    &&& b.len() >= 12
    &&& tag(b, 0, seq![0x52u8, 0x49, 0x46, 0x46])
    &&& tag(b, 8, seq![0x57u8, 0x41, 0x56, 0x45])
}

fn read16(b: &[u8], i: usize) -> (n: u16)
    requires
        i + 2 <= b@.len(),
    ensures
        n == le16(b@, i as int),
{
    (b[i] as u16) + 256 * (b[i + 1] as u16)
}

fn read32(b: &[u8], i: usize) -> (n: u32)
    requires
        i + 4 <= b@.len(),
    ensures
        n == le32(b@, i as int),
{
    (b[i] as u32) + 256 * (b[i + 1] as u32) + 65536 * (b[i + 2] as u32) + 16777216 * (b[i
        + 3] as u32)
}

fn has_tag(b: &[u8], i: usize, t: [u8; 4]) -> (r: bool)
    requires
        i + 4 <= b@.len(),
    ensures
        r == tag(b@, i as int, t@),
{
    let r: bool = b[i] == t[0] && b[i + 1] == t[1] && b[i + 2] == t[2] && b[i + 3] == t[3];
    proof {
        let here = b@.subrange(i as int, i + 4);
        assert(here[0] == b@[i as int] && here[1] == b@[i + 1] && here[2] == b@[i + 2] && here[3]
            == b@[i + 3]);
        if r {
            assert(here =~= t@);
        }
    }
    r
}

fn read_i16s(b: &[u8], s: usize, e: usize) -> (out: Vec<i16>)
    requires
        s <= e <= b@.len(),
    ensures
        samples_at(b@, s as int, e as int, 1, 16) == Some(pcm_view(Pcm::I16(out))),
{
    let mut out: Vec<i16> = Vec::new();
    let n: usize = (e - s) / 2;
    let mut k: usize = 0;
    while k < n
        invariant
            k <= n == (e - s) / 2,
            s <= e <= b@.len(),
            out@.len() == k,
            forall|j: int| 0 <= j < k ==> (#[trigger] out@[j]) == signed16(le16(b@, s + 2 * j)),
        decreases n - k,
    {
        let u: u16 = read16(b, s + 2 * k);
        let v: i16 = if u >= 32768 {
            ((u as i32) - 65536) as i16
        } else {
            u as i16
        };
        out.push(v);
        k += 1;
    }
    assert((samples_at(b@, s as int, e as int, 1, 16)->0).1 =~= pcm_view(Pcm::I16(out)).1);
    out
}

fn read_i32s(b: &[u8], s: usize, e: usize) -> (out: Vec<i32>)
    requires
        s <= e <= b@.len(),
    ensures
        samples_at(b@, s as int, e as int, 1, 32) == Some(pcm_view(Pcm::I32(out))),
{
    let mut out: Vec<i32> = Vec::new();
    let n: usize = (e - s) / 4;
    let mut k: usize = 0;
    while k < n
        invariant
            k <= n == (e - s) / 4,
            s <= e <= b@.len(),
            out@.len() == k,
            forall|j: int| 0 <= j < k ==> (#[trigger] out@[j]) == signed32(le32(b@, s + 4 * j)),
        decreases n - k,
    {
        let u: u32 = read32(b, s + 4 * k);
        let v: i32 = if u >= 2147483648 {
            ((u as i64) - 4294967296) as i32
        } else {
            u as i32
        };
        out.push(v);
        k += 1;
    }
    assert((samples_at(b@, s as int, e as int, 1, 32)->0).1 =~= pcm_view(Pcm::I32(out)).1);
    out
}

fn read_f32s(b: &[u8], s: usize, e: usize) -> (out: Vec<u32>)
    requires
        s <= e <= b@.len(),
    ensures
        samples_at(b@, s as int, e as int, 3, 32) == Some(pcm_view(Pcm::F32(out))),
{
    let mut out: Vec<u32> = Vec::new();
    let n: usize = (e - s) / 4;
    let mut k: usize = 0;
    while k < n
        invariant
            k <= n == (e - s) / 4,
            s <= e <= b@.len(),
            out@.len() == k,
            forall|j: int| 0 <= j < k ==> (#[trigger] out@[j]) == le32(b@, s + 4 * j),
        decreases n - k,
    {
        out.push(read32(b, s + 4 * k));
        k += 1;
    }
    assert((samples_at(b@, s as int, e as int, 3, 32)->0).1 =~= pcm_view(Pcm::F32(out)).1);
    out
}

impl Wav {
    /// What a file holds, or why it cannot be read.
    pub open spec fn read_as(b: Seq<u8>, r: Result<Wav, WavError>) -> bool {
        if !is_wave(b) {
            r == Err::<Wav, WavError>(WavError::NotWave)
        } else {
            match scan(b, 12, nothing_seen()) {
                None => r == Err::<Wav, WavError>(WavError::ShortFormat),
                Some(seen) => match seen.data {
                    None => r == Err::<Wav, WavError>(WavError::NoData),
                    Some((s, e)) => match samples_at(b, s, e, seen.fmt.format, seen.fmt.bits) {
                        None => r matches Err(WavError::Unsupported { format, bits }) && format
                            == seen.fmt.format && bits == seen.fmt.bits,
                        Some(samples) => r matches Ok(wav) && pcm_view(wav.samples) == samples
                            && wav.channels == seen.fmt.channels && wav.sample_rate
                            == seen.fmt.sample_rate,
                    },
                },
            }
        }
    }

    /// Reads a file from its bytes.
    pub fn read(b: &[u8]) -> (r: Result<Wav, WavError>)
        ensures
            Self::read_as(b@, r),
    {
        let len: usize = b.len();
        if len < 12 || !has_tag(b, 0, [0x52, 0x49, 0x46, 0x46]) || !has_tag(
            b,
            8,
            [0x57, 0x41, 0x56, 0x45],
        ) {
            assert([0x52u8, 0x49, 0x46, 0x46]@ =~= seq![0x52u8, 0x49, 0x46, 0x46]);
            assert([0x57u8, 0x41, 0x56, 0x45]@ =~= seq![0x57u8, 0x41, 0x56, 0x45]);
            return Err(WavError::NotWave);
        }
        assert([0x52u8, 0x49, 0x46, 0x46]@ =~= seq![0x52u8, 0x49, 0x46, 0x46]);
        assert([0x57u8, 0x41, 0x56, 0x45]@ =~= seq![0x57u8, 0x41, 0x56, 0x45]);
        let mut pos: usize = 12;
        let mut format: u16 = 0;
        let mut channels: u16 = 0;
        let mut sample_rate: u32 = 0;
        let mut bits: u16 = 0;
        let mut data: Option<(usize, usize)> = None;
        let ghost mut seen = nothing_seen();
        let mut more: bool = true;
        while more && pos <= len - 8
            invariant
                12 <= pos,
                12 <= len == b@.len(),
                is_wave(b@),
                !more ==> scan(b@, 12, nothing_seen()) == Some(seen),
                more ==> scan(b@, pos as int, seen) == scan(b@, 12, nothing_seen()),
                seen.fmt.format == format,
                seen.fmt.channels == channels,
                seen.fmt.sample_rate == sample_rate,
                seen.fmt.bits == bits,
                match (data, seen.data) {
                    (None, None) => true,
                    (Some(d), Some(g)) => d.0 == g.0 && d.1 == g.1 && d.0 <= d.1 <= len,
                    _ => false,
                },
            decreases len + 1 - pos + (if more { 1int } else { 0 }),
        {
            let size: u32 = read32(b, pos + 4);
            let start: usize = pos + 8;
            let room: usize = len - start;
            let fits: bool = size as u64 <= room as u64;
            let end: usize = if fits {
                start + size as usize
            } else {
                len
            };
            assert(end == body_end(b@, pos as int));
            assert([0x66u8, 0x6D, 0x74, 0x20]@ =~= seq![0x66u8, 0x6D, 0x74, 0x20]);
            assert([0x64u8, 0x61, 0x74, 0x61]@ =~= seq![0x64u8, 0x61, 0x74, 0x61]);
            let ghost before = seen;
            if has_tag(b, pos, [0x66, 0x6D, 0x74, 0x20]) {
                if end - start < 16 {
                    return Err(WavError::ShortFormat);
                }
                format = read16(b, start);
                channels = read16(b, start + 2);
                sample_rate = read32(b, start + 4);
                bits = read16(b, start + 14);
                if format == 0xFFFE && end - start >= 26 {
                    format = read16(b, start + 24);
                }
                proof {
                    seen = Scan { fmt: fmt_at(b@, start as int, end as int), data: before.data };
                }
            } else if has_tag(b, pos, [0x64, 0x61, 0x74, 0x61]) {
                data = Some((start, end));
                proof {
                    seen = Scan { fmt: before.fmt, data: Some((start as int, end as int)) };
                }
            }
            assert(scan(b@, pos as int, before) == scan(b@, next_chunk(b@, pos as int), seen));
            if fits && size as u64 + (size % 2) as u64 <= room as u64 {
                pos = end + (size % 2) as usize;
            } else {
                more = false;
            }
        }
        match data {
            None => Err(WavError::NoData),
            Some((s, e)) => {
                if format == 1 && bits == 16 {
                    Ok(Wav { samples: Pcm::I16(read_i16s(b, s, e)), channels, sample_rate })
                } else if format == 1 && bits == 32 {
                    Ok(Wav { samples: Pcm::I32(read_i32s(b, s, e)), channels, sample_rate })
                } else if format == 3 && bits == 32 {
                    Ok(Wav { samples: Pcm::F32(read_f32s(b, s, e)), channels, sample_rate })
                } else {
                    Err(WavError::Unsupported { format, bits })
                }
            },
        }
    }

    /// How many samples the file holds, all channels together.
    pub open spec fn sample_count(&self) -> nat {
        pcm_view(self.samples).1.len()
    }

    /// How many frames the file holds, one sample of every channel each.
    pub fn frames(&self) -> (n: usize)
        ensures
            n == self.sample_count() / (if self.channels == 0 {
                1
            } else {
                self.channels as nat
            }),
    {
        let total: usize = match &self.samples {
            Pcm::I16(v) => v.len(),
            Pcm::I32(v) => v.len(),
            Pcm::F32(v) => v.len(),
        };
        let per: usize = if self.channels == 0 {
            1
        } else {
            self.channels as usize
        };
        total / per
    }
}

impl WavError {
    /// What the user is told, for the file that was read.
    pub open spec fn text(&self, path: Seq<char>) -> Seq<char> {
        match *self {
            WavError::NotWave => path + ": not a RIFF/WAVE file"@,
            WavError::ShortFormat => path + ": short fmt chunk"@,
            WavError::NoData => path + ": no data chunk"@,
            WavError::Unsupported { format, bits } => path + ": unsupported format "@
                + number::decimal(format as nat) + " / "@ + number::decimal(bits as nat)
                + " bits"@,
        }
    }

    /// What the user is told, for the file that was read.
    pub fn message(&self, path: &str) -> (out: String)
        ensures
            out@ == self.text(path@),
    {
        let mut out: String = path.to_owned();
        match self {
            WavError::NotWave => {
                push_str(&mut out, ": not a RIFF/WAVE file");
            },
            WavError::ShortFormat => {
                push_str(&mut out, ": short fmt chunk");
            },
            WavError::NoData => {
                push_str(&mut out, ": no data chunk");
            },
            WavError::Unsupported { format, bits } => {
                push_str(&mut out, ": unsupported format ");
                push_decimal(&mut out, *format as u64);
                push_str(&mut out, " / ");
                push_decimal(&mut out, *bits as u64);
                push_str(&mut out, " bits");
            },
        }
        out
    }
}

// ---- another rate ---------------------------------------------------------------------

/// How many samples so many come to at another rate.
pub open spec fn resampled_len(len: nat, from_hz: u32, to_hz: u32) -> int {
    len * to_hz / (from_hz as int)
}

/// What stands at the `i`th sample of the other rate: the sample at that moment, or what
/// `blend` makes of the two that it lies between. The last sample holds to the end.
pub open spec fn sample_at<S, B: Fn(S, S, u32) -> S>(
    blend: B,
    input: Seq<S>,
    from_hz: u32,
    to_hz: u32,
    i: int,
    one: S,
) -> bool {
    let index = i * from_hz / (to_hz as int);
    let part = i * from_hz % (to_hz as int);
    if part == 0 || index + 1 >= input.len() {
        one == input[index]
    } else {
        blend.ensures((input[index], input[index + 1], part as u32), one)
    }
}

proof fn lemma_sample_inside(len: nat, from_hz: u32, to_hz: u32, i: int)
    requires
        0 <= i < resampled_len(len, from_hz, to_hz),
        from_hz > 0,
    ensures
        to_hz > 0,
        0 <= i * from_hz < len * to_hz,
        0 <= i * from_hz / (to_hz as int) < len,
        0 <= i * from_hz % (to_hz as int) < to_hz,
{
    let all = len * to_hz;
    let f = from_hz as int;
    vstd::arithmetic::div_mod::lemma_fundamental_div_mod(all, f);
    vstd::arithmetic::div_mod::lemma_mod_pos_bound(all, f);
    assert(0 <= i * f && i * f < f * (all / f)) by (nonlinear_arith)
        requires
            0 <= i < all / f,
            f > 0,
    ;
    if to_hz == 0 {
        assert(len * to_hz == 0) by (nonlinear_arith)
            requires
                to_hz == 0,
        ;
    }
    let t = to_hz as int;
    vstd::arithmetic::div_mod::lemma_fundamental_div_mod(i * f, t);
    vstd::arithmetic::div_mod::lemma_mod_pos_bound(i * f, t);
    vstd::arithmetic::div_mod::lemma_div_pos_is_pos(i * f, t);
    assert(i * f / t < len) by (nonlinear_arith)
        requires
            t > 0,
            i * f == t * (i * f / t) + i * f % t,
            i * f % t >= 0,
            i * f < len * t,
    ;
}

/// Brings samples from one rate to another in one pass.
pub fn resample_into<S: Copy, B: Fn(S, S, u32) -> S>(
    input: &[S],
    from_hz: u32,
    to_hz: u32,
    blend: B,
    out: &mut Vec<S>,
)
    requires
        from_hz > 0 || from_hz == to_hz || input@.len() == 0,
        forall|a: S, b: S, part: u32| 0 < part < to_hz ==> #[trigger] blend.requires((a, b, part)),
    ensures
        input@.len() == 0 || from_hz == to_hz ==> final(out)@ == input@,
        input@.len() > 0 && from_hz != to_hz ==> {
            &&& final(out)@.len() == resampled_len(input@.len(), from_hz, to_hz)
            &&& forall|i: int| #![trigger final(out)@[i]]
                0 <= i < final(out)@.len() ==> sample_at(
                    blend,
                    input@,
                    from_hz,
                    to_hz,
                    i,
                    final(out)@[i],
                )
        },
{
    out.clear();
    let len: usize = input.len();
    if len == 0 || from_hz == to_hz {
        let mut i: usize = 0;
        while i < len
            invariant
                i <= len == input@.len(),
                out@ == input@.take(i as int),
            decreases len - i,
        {
            out.push(input[i]);
            i += 1;
            assert(out@ =~= input@.take(i as int));
        }
        assert(out@ =~= input@);
        return;
    }
    let whole: u128 = to_hz as u128;
    let step: u128 = from_hz as u128;
    assert(0 <= len * whole <= u64::MAX * u32::MAX) by (nonlinear_arith)
        requires
            0 <= len <= u64::MAX,
            0 <= whole <= u32::MAX,
    ;
    let count: u128 = len as u128 * whole / step;
    let mut i: u128 = 0;
    while i < count
        invariant
            i <= count,
            i == out@.len(),
            len == input@.len(),
            whole == to_hz,
            step == from_hz,
            from_hz > 0,
            count == resampled_len(input@.len(), from_hz, to_hz),
            len * whole <= u64::MAX * u32::MAX,
            forall|a: S, b: S, part: u32|
                0 < part < to_hz ==> #[trigger] blend.requires((a, b, part)),
            forall|k: int| #![trigger out@[k]]
                0 <= k < out@.len() ==> sample_at(blend, input@, from_hz, to_hz, k, out@[k]),
        decreases count - i,
    {
        proof {
            lemma_sample_inside(input@.len(), from_hz, to_hz, i as int);
        }
        let at: u128 = i * step;
        let index: usize = (at / whole) as usize;
        let part: u32 = (at % whole) as u32;
        let one: S = if part == 0 || index >= len - 1 {
            input[index]
        } else {
            blend(input[index], input[index + 1], part)
        };
        let ghost before = out@;
        out.push(one);
        proof {
            assert(sample_at(blend, input@, from_hz, to_hz, i as int, one));
            assert forall|k: int| #![trigger out@[k]] 0 <= k < out@.len() implies sample_at(
                blend,
                input@,
                from_hz,
                to_hz,
                k,
                out@[k],
            ) by {
                if k < i {
                    assert(before[k] == out@[k]);
                }
            }
        }
        i += 1;
    }
}

/// A file in its plainest form: the marks, a format chunk for 16-bit samples, and
/// a data chunk with `n` of them that ends with the file.
pub open spec fn plain_file(b: Seq<u8>, n: int) -> bool {
    &&& is_wave(b)
    &&& tag(b, 12, seq![0x66u8, 0x6D, 0x74, 0x20])
    &&& le32(b, 16) == 16
    &&& le16(b, 20) == 1
    &&& le16(b, 34) == 16
    &&& tag(b, 36, seq![0x64u8, 0x61, 0x74, 0x61])
    &&& le32(b, 40) == 2 * n
    &&& b.len() == 44 + 2 * n
}

/// A plain file is read, and holds the samples that follow its header.
pub proof fn law_plain_file_is_read(b: Seq<u8>, n: int, r: Result<Wav, WavError>)
    requires
        n >= 0,
        plain_file(b, n),
        Wav::read_as(b, r),
    ensures
        r matches Ok(wav) && pcm_view(wav.samples) == (
            0nat,
            Seq::new(n as nat, |k: int| signed16(le16(b, 44 + 2 * k))),
        ) && wav.channels == le16(b, 22) && wav.sample_rate == le32(b, 24),
{
    reveal_with_fuel(scan, 4);
    let fmt_tag = seq![0x66u8, 0x6D, 0x74, 0x20];
    let data_tag = seq![0x64u8, 0x61, 0x74, 0x61];
    assert(body_end(b, 12) == 36);
    assert(next_chunk(b, 12) == 36);
    assert(body_end(b, 36) == 44 + 2 * n);
    assert(next_chunk(b, 36) == 44 + 2 * n);
    assert(fmt_tag[0] != data_tag[0]);
    assert(b.subrange(36, 40)[0] == data_tag[0]);
    assert(!tag(b, 36, fmt_tag));
    let seen = Scan { fmt: fmt_at(b, 20, 36), data: None };
    let done = Scan { fmt: fmt_at(b, 20, 36), data: Some((44, 44 + 2 * n)) };
    assert(scan(b, 44 + 2 * n, done) == Some(done));
    assert(scan(b, 36, seen) == Some(done));
    assert(scan(b, 12, nothing_seen()) == Some(done));
    assert(Seq::new(((44 + 2 * n - 44) / 2) as nat, |k: int| signed16(le16(b, 44 + 2 * k)))
        =~= Seq::new(n as nat, |k: int| signed16(le16(b, 44 + 2 * k))));
}

} // verus!
