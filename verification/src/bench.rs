//! The arithmetic of the latency harnesses: how audio is cut into holds and
//! chunks, and when it is fed.

use vstd::prelude::*;
use crate::asr_service;
use crate::chars::{from_chars, push_str, to_chars};
use crate::words::copy_range;

verus! {

/// The rate that audio is fed at.
pub const SR: u64 = 16_000;

/// How many samples a chunk of so many milliseconds has.
pub fn chunk_len(chunk_ms: u64) -> (n: u64)
    requires
        SR * chunk_ms <= u64::MAX,
    ensures
        n == SR * chunk_ms / 1000,
{
    SR * chunk_ms / 1000
}

/// How many holds are run: as many as were asked for and as the audio has, but at
/// least one.
pub fn hold_count(asked: usize, audio: usize, hold: usize) -> (n: usize)
    requires
        hold > 0,
    ensures
        n == ({
            let fit = audio as int / hold as int;
            let most = if asked < fit {
                asked as int
            } else {
                fit
            };
            if most < 1 {
                1
            } else {
                most
            }
        }),
{
    let fit: usize = audio / hold;
    let most: usize = if asked < fit {
        asked
    } else {
        fit
    };
    if most < 1 {
        1
    } else {
        most
    }
}

/// The samples of a hold: one after another, the last cut off where the audio
/// ends.
pub fn hold_range(index: usize, audio: usize, hold: usize, count: usize) -> (r: (usize, usize))
    requires
        hold > 0,
        index < count,
        count == 1 || count <= audio as int / hold as int,
    ensures
        r.0 == index * hold,
        r.1 == (if (index + 1) * hold < audio {
            (index + 1) * hold
        } else {
            audio as int
        }),
        r.0 <= r.1 <= audio,
{
    proof {
        assert(0 <= index * hold && (index + 1) * hold == index * hold + hold) by (nonlinear_arith)
            requires
                0 <= index,
                0 <= hold,
        ;
        if count != 1 {
            assert((index + 1) * hold <= count * hold) by (nonlinear_arith)
                requires
                    index + 1 <= count,
                    0 <= hold,
            ;
            assert(count * hold <= (audio as int / hold as int) * hold) by (nonlinear_arith)
                requires
                    count <= audio as int / hold as int,
                    0 <= hold,
            ;
            vstd::arithmetic::div_mod::lemma_fundamental_div_mod(audio as int, hold as int);
            vstd::arithmetic::mul::lemma_mul_is_commutative(
                audio as int / hold as int,
                hold as int,
            );
            vstd::arithmetic::div_mod::lemma_mod_pos_bound(audio as int, hold as int);
        } else {
            assert(index == 0);
        }
    }
    let start: usize = index * hold;
    let end: usize = if audio - start > hold {
        start + hold
    } else {
        audio
    };
    (start, end)
}

/// Where the next hold of a sweep begins, and where the one after it may: at the
/// front again once the audio left is too short. None where all of it is.
pub fn next_hold(cursor: usize, len: usize, audio: usize) -> (r: Option<(usize, usize)>)
    ensures
        r == (if len > audio {
            None
        } else if cursor + len > audio {
            Some((0usize, len))
        } else {
            Some((cursor, (cursor + len) as usize))
        }),
{
    if len > audio {
        None
    } else if cursor > audio - len {
        Some((0, len))
    } else {
        Some((cursor, cursor + len))
    }
}

/// Whether a short hold lies within the audio.
pub fn fragment_fits(offset: usize, len: usize, audio: usize) -> (r: bool)
    ensures
        r == (offset + len <= audio),
{
    offset <= audio && len <= audio - offset
}

/// Which of so many sorted factors stand for the median, for the ninety-fifth
/// percentile and for the greatest.
pub fn factor_places(n: usize) -> (r: (usize, usize, usize))
    requires
        n > 0,
    ensures
        r.0 == n as int / 2,
        r.1 == (if n * 95 / 100 < n - 1 {
            n * 95 / 100
        } else {
            n - 1
        }),
        r.2 == n - 1,
{
    let p95: u128 = n as u128 * 95 / 100;
    (
        n / 2,
        if p95 < (n - 1) as u128 {
            p95 as usize
        } else {
            n - 1
        },
        n - 1,
    )
}

/// A text cut to a number of characters, with dots where something was cut off.
pub open spec fn truncated(s: Seq<char>, n: int) -> Seq<char> {
    if s.len() <= n {
        s
    } else {
        s.take(n) + "..."@
    }
}

/// A text cut to a number of characters.
pub fn truncate(s: &str, n: usize) -> (out: String)
    ensures
        out@ == truncated(s@, n as int),
{
    let cs: Vec<char> = to_chars(s);
    if cs.len() <= n {
        return s.to_owned();
    }
    let head: Vec<char> = copy_range(cs.as_slice(), 0, n);
    assert(cs@.subrange(0, n as int) =~= cs@.take(n as int));
    let mut out: String = from_chars(head.as_slice());
    push_str(&mut out, "...");
    out
}

/// A hold that is fed at the speed of speech. Times are nanoseconds.
#[derive(Clone, Copy, PartialEq, Eq, Debug, Structural)]
pub struct Feed {
    pub started: u64,
    pub chunk_ns: u64,
    pub cadence_ns: u64,
    /// When the next chunk is due.
    pub next_at: u128,
    pub last_poll: u64,
    /// How long after the start the first words came.
    pub first_partial: Option<u64>,
}

impl Feed {
    pub fn new(now: u64, chunk_ns: u64, cadence_ns: u64) -> (f: Feed)
        ensures
            f == (Feed {
                started: now,
                chunk_ns,
                cadence_ns,
                next_at: now as u128,
                last_poll: now,
                first_partial: None,
            }),
    {
        Feed {
            started: now,
            chunk_ns,
            cadence_ns,
            next_at: now as u128,
            last_poll: now,
            first_partial: None,
        }
    }

    /// Takes up the next chunk, and says how long to pause until it would have
    /// been spoken.
    pub fn next_chunk(&mut self, now: u64) -> (pause: u128)
        requires
            old(self).next_at + old(self).chunk_ns <= u128::MAX,
        ensures
            *final(self) == (Feed {
                next_at: (old(self).next_at + old(self).chunk_ns) as u128,
                ..*old(self)
            }),
            pause == asr_service::since(now as int, old(self).next_at + old(self).chunk_ns),
    {
        self.next_at = self.next_at + self.chunk_ns as u128;
        if self.next_at > now as u128 {
            self.next_at - now as u128
        } else {
            0
        }
    }

    /// Whether a partial is due.
    pub fn due(&self, now: u64) -> (r: bool)
        ensures
            r == (asr_service::since(self.last_poll as int, now as int) >= self.cadence_ns),
    {
        let gap: u64 = if now >= self.last_poll {
            now - self.last_poll
        } else {
            0
        };
        gap >= self.cadence_ns
    }

    /// Takes in a partial: whether it had words, and when it came.
    pub fn polled(&mut self, words: bool, now: u64)
        ensures
            *final(self) == (Feed {
                last_poll: now,
                first_partial: if words && old(self).first_partial is None {
                    Some(asr_service::since(old(self).started as int, now as int) as u64)
                } else {
                    old(self).first_partial
                },
                ..*old(self)
            }),
    {
        self.last_poll = now;
        if words && self.first_partial.is_none() {
            self.first_partial = Some(
                if now >= self.started {
                    now - self.started
                } else {
                    0
                },
            );
        }
    }
}

} // verus!
